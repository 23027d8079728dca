//! A saved session's history as JSON text: a list of messages, each with its
//! role, its content (a string, or a list of text and image parts) and an
//! optional name. Tool calls are not kept.
use vstd::prelude::*;
use crate::interp::{
    JsonValue, json_quote, json_string, parse_json, json_parse, member, str_or, get_member,
};
use crate::message::{ChatMessage, ContentPart, ImageUrl, MessageContent, Role};
use crate::text::{chars_of, string_of, push_str, extend_chars, join_sep, join_chars, owned};

verus! {

/// The name of a role in the saved history.
pub open spec fn role_name(r: Role) -> Seq<char> {
    match r {
        Role::System => "system"@,
        Role::User => "user"@,
        Role::Assistant => "assistant"@,
        Role::Tool => "tool"@,
        Role::Developer => "developer"@,
    }
}

/// The role a saved name stands for.
pub open spec fn role_of_name(n: Seq<char>) -> Option<Role> {
    if n == "system"@ {
        Some(Role::System)
    } else if n == "user"@ {
        Some(Role::User)
    } else if n == "assistant"@ {
        Some(Role::Assistant)
    } else if n == "tool"@ {
        Some(Role::Tool)
    } else if n == "developer"@ {
        Some(Role::Developer)
    } else {
        None
    }
}

/// The JSON text of one content part.
pub open spec fn part_json(p: ContentPart) -> Seq<char> {
    match p {
        ContentPart::Text { text } => "{\"type\":\"text\",\"text\":"@ + json_quote(text@) + "}"@,
        ContentPart::ImageUrl { image_url } => "{\"type\":\"image_url\",\"image_url\":{\"url\":"@
            + json_quote(image_url.url@) + match image_url.detail {
            Some(d) => ",\"detail\":"@ + json_quote(d@),
            None => Seq::empty(),
        } + "}}"@,
    }
}

/// The JSON text of a message body.
pub open spec fn content_json(c: MessageContent) -> Seq<char> {
    match c {
        MessageContent::Text(t) => json_quote(t@),
        MessageContent::MultiModal(ps) => "["@ + join_sep(
            ps@.map_values(|p: ContentPart| part_json(p)),
            ","@,
        ) + "]"@,
    }
}

/// The JSON text of a message.
pub open spec fn message_json(m: ChatMessage) -> Seq<char> {
    "{\"role\":\""@ + role_name(m.role) + "\",\"content\":"@ + content_json(m.content) + match m.name {
        Some(n) => ",\"name\":"@ + json_quote(n@),
        None => Seq::empty(),
    } + "}"@
}

/// The JSON text of a history.
pub open spec fn history_json(ms: Seq<ChatMessage>) -> Seq<char> {
    "["@ + join_sep(ms.map_values(|m: ChatMessage| message_json(m)), ","@) + "]"@
}

fn push_quoted(out: &mut Vec<char>, s: &str)
    ensures
        final(out)@ == old(out)@ + json_quote(s@),
{
    let q = json_string(s);
    push_str(out, q.as_str());
}

fn part_json_chars(p: &ContentPart) -> (r: Vec<char>)
    ensures
        r@ == part_json(*p),
{
    match p {
        ContentPart::Text { text } => {
            let mut out = chars_of("{\"type\":\"text\",\"text\":");
            push_quoted(&mut out, text.as_str());
            push_str(&mut out, "}");
            out
        },
        ContentPart::ImageUrl { image_url } => {
            let mut out = chars_of("{\"type\":\"image_url\",\"image_url\":{\"url\":");
            push_quoted(&mut out, image_url.url.as_str());
            match &image_url.detail {
                Some(d) => {
                    push_str(&mut out, ",\"detail\":");
                    push_quoted(&mut out, d.as_str());
                },
                None => {},
            }
            push_str(&mut out, "}}");
            proof {
                assert(out@ =~= part_json(*p));
            }
            out
        },
    }
}

fn message_json_chars(m: &ChatMessage) -> (r: Vec<char>)
    ensures
        r@ == message_json(*m),
{
    let mut out = chars_of("{\"role\":\"");
    let role = match m.role {
        Role::System => "system",
        Role::User => "user",
        Role::Assistant => "assistant",
        Role::Tool => "tool",
        Role::Developer => "developer",
    };
    push_str(&mut out, role);
    push_str(&mut out, "\",\"content\":");
    match &m.content {
        MessageContent::Text(t) => push_quoted(&mut out, t.as_str()),
        MessageContent::MultiModal(ps) => {
            let mut items: Vec<Vec<char>> = Vec::new();
            let mut i: usize = 0;
            while i < ps.len()
                invariant
                    i <= ps@.len(),
                    items@.len() == i,
                    forall|k: int| 0 <= k < i ==> (#[trigger] items@[k])@ == part_json(ps@[k]),
                decreases ps@.len() - i,
            {
                items.push(part_json_chars(&ps[i]));
                i += 1;
            }
            proof {
                assert(items@.map_values(|v: Vec<char>| v@) =~= ps@.map_values(
                    |p: ContentPart| part_json(p),
                ));
            }
            push_str(&mut out, "[");
            let joined = join_chars(&items, ",");
            extend_chars(&mut out, &joined);
            push_str(&mut out, "]");
        },
    }
    match &m.name {
        Some(n) => {
            push_str(&mut out, ",\"name\":");
            push_quoted(&mut out, n.as_str());
        },
        None => {},
    }
    push_str(&mut out, "}");
    proof {
        assert(out@ =~= message_json(*m));
    }
    out
}

/// The JSON text of a history, for saving.
pub fn history_to_json(messages: &Vec<ChatMessage>) -> (r: String)
    ensures
        r@ == history_json(messages@),
{
    let mut items: Vec<Vec<char>> = Vec::new();
    let mut i: usize = 0;
    while i < messages.len()
        invariant
            i <= messages@.len(),
            items@.len() == i,
            forall|k: int| 0 <= k < i ==> (#[trigger] items@[k])@ == message_json(messages@[k]),
        decreases messages@.len() - i,
    {
        items.push(message_json_chars(&messages[i]));
        i += 1;
    }
    proof {
        assert(items@.map_values(|v: Vec<char>| v@) =~= messages@.map_values(
            |m: ChatMessage| message_json(m),
        ));
    }
    let mut out = chars_of("[");
    let joined = join_chars(&items, ",");
    extend_chars(&mut out, &joined);
    push_str(&mut out, "]");
    string_of(&out)
}

// ---------------------------------------------------------------------------
// Reading
// ---------------------------------------------------------------------------

/// An optional string member: missing or `null` is no value.
pub open spec fn optional_text(v: Option<JsonValue>) -> Option<Option<Seq<char>>> {
    match v {
        None => Some(None),
        Some(JsonValue::Null) => Some(None),
        Some(JsonValue::Str(s)) => Some(Some(s@)),
        _ => None,
    }
}

/// `p` is the part that JSON value `v` describes.
pub open spec fn describes_part(v: JsonValue, p: ContentPart) -> bool {
    let kind = member(v, "type"@);
    if kind matches Some(JsonValue::Str(k)) && k@ == "text"@ {
        member(v, "text"@) matches Some(JsonValue::Str(t)) && (p matches ContentPart::Text { text }
            && text@ == t@)
    } else if kind matches Some(JsonValue::Str(k)) && k@ == "image_url"@ {
        match member(v, "image_url"@) {
            Some(iu) => member(iu, "url"@) matches Some(JsonValue::Str(u)) && (optional_text(
                member(iu, "detail"@),
            ) matches Some(d) && (p matches ContentPart::ImageUrl { image_url } && image_url.url@
                == u@ && match (image_url.detail, d) {
                (Some(x), Some(y)) => x@ == y,
                (None, None) => true,
                _ => false,
            })),
            None => false,
        }
    } else {
        false
    }
}

/// JSON value `v` describes some part.
pub open spec fn part_ok(v: JsonValue) -> bool {
    let kind = member(v, "type"@);
    if kind matches Some(JsonValue::Str(k)) && k@ == "text"@ {
        member(v, "text"@) matches Some(JsonValue::Str(_))
    } else if kind matches Some(JsonValue::Str(k)) && k@ == "image_url"@ {
        match member(v, "image_url"@) {
            Some(iu) => member(iu, "url"@) matches Some(JsonValue::Str(_)) && optional_text(
                member(iu, "detail"@),
            ) is Some,
            None => false,
        }
    } else {
        false
    }
}

/// JSON value `v` describes some message.
pub open spec fn message_ok(v: JsonValue) -> bool {
    let role_ok = match member(v, "role"@) {
        Some(JsonValue::Str(r)) => role_of_name(r@) is Some,
        _ => false,
    };
    let content_ok = match member(v, "content"@) {
        Some(JsonValue::Str(_)) => true,
        Some(JsonValue::Array(items)) => forall|i: int|
            0 <= i < items@.len() ==> part_ok(#[trigger] items@[i]),
        _ => false,
    };
    role_ok && content_ok && optional_text(member(v, "name"@)) is Some
}

/// `m` is the message that JSON value `v` describes (without tool calls).
pub open spec fn describes_message(v: JsonValue, m: ChatMessage) -> bool {
    let role_ok = match member(v, "role"@) {
        Some(JsonValue::Str(r)) => role_of_name(r@) == Some(m.role),
        _ => false,
    };
    let content_ok = match member(v, "content"@) {
        Some(JsonValue::Str(t)) => match m.content {
            MessageContent::Text(x) => x@ == t@,
            _ => false,
        },
        Some(JsonValue::Array(items)) => match m.content {
            MessageContent::MultiModal(ps) => ps@.len() == items@.len() && forall|i: int|
                0 <= i < items@.len() ==> describes_part(#[trigger] items@[i], ps@[i]),
            _ => false,
        },
        _ => false,
    };
    let name_ok = match (m.name, optional_text(member(v, "name"@))) {
        (Some(x), Some(Some(y))) => x@ == y,
        (None, Some(None)) => true,
        _ => false,
    };
    role_ok && content_ok && name_ok && m.tool_calls is None
}

fn read_optional_text(v: Option<&JsonValue>) -> (r: Option<Option<String>>)
    ensures
        match r {
            Some(Some(s)) => optional_text(
                match v {
                    Some(x) => Some(*x),
                    None => None,
                },
            ) == Some(Some(s@)),
            Some(None) => optional_text(
                match v {
                    Some(x) => Some(*x),
                    None => None,
                },
            ) == Some(None::<Seq<char>>),
            None => optional_text(
                match v {
                    Some(x) => Some(*x),
                    None => None,
                },
            ) is None,
        },
{
    match v {
        None => Some(None),
        Some(JsonValue::Null) => Some(None),
        Some(JsonValue::Str(s)) => Some(Some(s.clone())),
        _ => None,
    }
}

fn read_part(v: &JsonValue) -> (r: Option<ContentPart>)
    ensures
        r is Some <==> part_ok(*v),
        r matches Some(p) ==> describes_part(*v, p),
{
    let text_kind = owned("text");
    let image_kind = owned("image_url");
    match get_member(v, "type") {
        Some(JsonValue::Str(k)) => {
            if *k == text_kind {
                match get_member(v, "text") {
                    Some(JsonValue::Str(t)) => Some(ContentPart::Text { text: t.clone() }),
                    _ => None,
                }
            } else if *k == image_kind {
                match get_member(v, "image_url") {
                    Some(iu) => match get_member(iu, "url") {
                        Some(JsonValue::Str(u)) => match read_optional_text(get_member(iu, "detail")) {
                            Some(detail) => Some(
                                ContentPart::ImageUrl { image_url: ImageUrl { url: u.clone(), detail } },
                            ),
                            None => None,
                        },
                        _ => None,
                    },
                    None => None,
                }
            } else {
                None
            }
        },
        _ => None,
    }
}

fn read_role(v: &JsonValue) -> (r: Option<Role>)
    ensures
        match member(*v, "role"@) {
            Some(JsonValue::Str(n)) => r == role_of_name(n@),
            _ => r is None,
        },
{
    match get_member(v, "role") {
        Some(JsonValue::Str(n)) => {
            if *n == owned("system") {
                Some(Role::System)
            } else if *n == owned("user") {
                Some(Role::User)
            } else if *n == owned("assistant") {
                Some(Role::Assistant)
            } else if *n == owned("tool") {
                Some(Role::Tool)
            } else if *n == owned("developer") {
                Some(Role::Developer)
            } else {
                None
            }
        },
        _ => None,
    }
}

fn read_message(v: &JsonValue) -> (r: Option<ChatMessage>)
    ensures
        r is Some <==> message_ok(*v),
        r matches Some(m) ==> describes_message(*v, m),
{
    let role = match read_role(v) {
        Some(r) => r,
        None => return None,
    };
    let content = match get_member(v, "content") {
        Some(JsonValue::Str(t)) => MessageContent::Text(t.clone()),
        Some(JsonValue::Array(items)) => {
            let mut parts: Vec<ContentPart> = Vec::new();
            let mut i: usize = 0;
            while i < items.len()
                invariant
                    i <= items@.len(),
                    parts@.len() == i,
                    member(*v, "content"@) == Some(JsonValue::Array(*items)),
                    forall|j: int| 0 <= j < i ==> part_ok(#[trigger] items@[j]),
                    forall|j: int| 0 <= j < i ==> describes_part(#[trigger] items@[j], parts@[j]),
                decreases items@.len() - i,
            {
                match read_part(&items[i]) {
                    Some(p) => parts.push(p),
                    None => {
                        proof {
                            assert(!part_ok(items@[i as int]));
                            assert(!(forall|j: int|
                                0 <= j < items@.len() ==> part_ok(#[trigger] items@[j])));
                            let c = member(*v, "content"@);
                            assert(c == Some(JsonValue::Array(*items)));
                            assert(c->Some_0->Array_0@ == items@);
                            assert(!message_ok(*v));
                        }
                        return None;
                    },
                }
                i += 1;
            }
            MessageContent::MultiModal(parts)
        },
        _ => return None,
    };
    let name = match read_optional_text(get_member(v, "name")) {
        Some(n) => n,
        None => return None,
    };
    Some(ChatMessage { role, content, name, tool_calls: None })
}

/// The messages of saved history text: `None` unless the text is a JSON
/// list in which every element describes a message.
pub fn history_from_json(text: &str) -> (r: Option<Vec<ChatMessage>>)
    ensures
        r is Some <==> (json_parse(text@) matches Some(JsonValue::Array(items)) && forall|i: int|
            0 <= i < items@.len() ==> message_ok(#[trigger] items@[i])),
        r matches Some(ms) ==> (json_parse(text@) matches Some(JsonValue::Array(items))
            && ms@.len() == items@.len() && forall|i: int|
            0 <= i < items@.len() ==> describes_message(#[trigger] items@[i], ms@[i])),
{
    let parsed = parse_json(text);
    match parsed {
        Some(JsonValue::Array(items)) => {
            let mut ms: Vec<ChatMessage> = Vec::new();
            let mut i: usize = 0;
            while i < items.len()
                invariant
                    i <= items@.len(),
                    ms@.len() == i,
                    json_parse(text@) == Some(JsonValue::Array(items)),
                    forall|j: int| 0 <= j < i ==> message_ok(#[trigger] items@[j]),
                    forall|j: int| 0 <= j < i ==> describes_message(#[trigger] items@[j], ms@[j]),
                decreases items@.len() - i,
            {
                match read_message(&items[i]) {
                    Some(m) => ms.push(m),
                    None => {
                        proof {
                            assert(!message_ok(items@[i as int]));
                            let c = json_parse(text@);
                            assert(c->Some_0->Array_0@ == items@);
                        }
                        return None;
                    },
                }
                i += 1;
            }
            Some(ms)
        },
        _ => None,
    }
}

} // verus!
