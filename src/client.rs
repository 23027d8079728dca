//! Rules of the completion service client that do not touch the network:
//! the service address, the error shown when a provider refuses images, and
//! the single-shot reply of the offline "fake" model.
use vstd::prelude::*;
use crate::config::{Config, lookup};
use crate::message::{
    ChatMessage, OutputContent, ResponseInput, ResponseOutput, ResponsesApiResponse, Role, Usage,
    content_text, fake_chat_reply, generate_fake_chat_response,
};
use crate::text::{
    chars_of, string_of, push_str, owned, slice_chars, split_chars, split_on, trim_chars,
    trimmed, lower_of, lowercase, contains_seq, contains_str,
};

verus! {

/// A path segment that names an API version: `v` followed by digits.
pub open spec fn version_segment(s: Seq<char>) -> bool {
    let t = trimmed(s);
    t.len() > 1 && t[0] == 'v' && forall|i: int| 1 <= i < t.len() ==> '0' <= #[trigger] t[i] <= '9'
}

/// `s` without the slashes at its end.
pub open spec fn without_trailing_slashes(s: Seq<char>) -> Seq<char>
    decreases s.len(),
{
    if s.len() > 0 && s.last() == '/' {
        without_trailing_slashes(s.drop_last())
    } else {
        s
    }
}

/// The configured address, or the OpenAI one for "default" or no setting.
pub open spec fn configured_base(setting: Option<Seq<char>>) -> Seq<char> {
    if setting is Some && setting->Some_0 != "default"@ {
        setting->Some_0
    } else {
        "https://api.openai.com/v1"@
    }
}

/// The service address for an `API_BASE_URL` setting: "default" (or no
/// setting) means the OpenAI address; an address with no version segment
/// gets "/v1" appended; trailing slashes are dropped.
pub open spec fn base_url_text(setting: Option<Seq<char>>) -> Seq<char> {
    let base = configured_base(setting);
    let t = without_trailing_slashes(base);
    if exists|i: int| 0 <= i < split_on(t, '/').len() && version_segment(#[trigger] split_on(t, '/')[i]) {
        t
    } else {
        t + "/v1"@
    }
}

fn is_version_segment(s: &Vec<char>) -> (r: bool)
    ensures
        r == version_segment(s@),
{
    let t = trim_chars(s);
    if t.len() <= 1 || t[0] != 'v' {
        return false;
    }
    let mut i: usize = 1;
    while i < t.len()
        invariant
            1 <= i <= t@.len(),
            t@ == trimmed(s@),
            t@[0] == 'v',
            forall|j: int| 1 <= j < i ==> '0' <= #[trigger] t@[j] <= '9',
        decreases t@.len() - i,
    {
        if !('0' <= t[i] && t[i] <= '9') {
            proof {
                assert(!('0' <= t@[i as int] <= '9'));
            }
            return false;
        }
        i += 1;
    }
    true
}

/// The service address for the settings.
pub fn base_url(cfg: &Config) -> (r: String)
    ensures
        r@ == base_url_text(lookup(cfg.inner@, "API_BASE_URL"@)),
{
    let base = match cfg.get("API_BASE_URL") {
        Some(v) => if !(v == owned("default")) {
            v
        } else {
            owned("https://api.openai.com/v1")
        },
        None => owned("https://api.openai.com/v1"),
    };
    let cs = chars_of(base.as_str());
    let mut n: usize = cs.len();
    proof {
        assert(cs@.subrange(0, n as int) =~= cs@);
    }
    while n > 0 && cs[n - 1] == '/'
        invariant
            n <= cs@.len(),
            without_trailing_slashes(cs@) == without_trailing_slashes(cs@.subrange(0, n as int)),
        decreases n,
    {
        proof {
            assert(cs@.subrange(0, n as int).drop_last() =~= cs@.subrange(0, n - 1));
        }
        n -= 1;
    }
    let mut t = slice_chars(&cs, 0, n);
    let ghost setting = lookup(cfg.inner@, "API_BASE_URL"@);
    proof {
        let b = configured_base(setting);
        assert(base@ == b);
        assert(t@ == without_trailing_slashes(b));
    }
    let segs = split_chars(&t, '/');
    let ghost sv = segs@.map_values(|v: Vec<char>| v@);
    let mut found = false;
    let mut i: usize = 0;
    while i < segs.len()
        invariant
            i <= segs@.len(),
            sv == segs@.map_values(|v: Vec<char>| v@),
            sv == split_on(t@, '/'),
            t@ == without_trailing_slashes(configured_base(setting)),
            setting == lookup(cfg.inner@, "API_BASE_URL"@),
            found == exists|j: int| 0 <= j < i && version_segment(#[trigger] sv[j]),
        decreases segs@.len() - i,
    {
        proof {
            assert(sv[i as int] == segs@[i as int]@);
        }
        if is_version_segment(&segs[i]) {
            found = true;
        }
        i += 1;
    }
    proof {
        let tt = t@;
        if found {
            let j = choose|j: int| 0 <= j < segs@.len() && version_segment(#[trigger] sv[j]);
            assert(version_segment(split_on(tt, '/')[j]));
        } else {
            assert forall|j: int| 0 <= j < split_on(tt, '/').len() implies !version_segment(
                #[trigger] split_on(tt, '/')[j],
            ) by {
                assert(sv[j] == split_on(tt, '/')[j]);
            }
        }
    }
    if !found {
        push_str(&mut t, "/v1");
    }
    string_of(&t)
}

/// Whether an error text suggests the provider refused image input.
pub open spec fn multimodal_failure(lower: Seq<char>) -> bool {
    contains_seq(lower, "multimodal"@) || contains_seq(lower, "vision"@) || contains_seq(
        lower,
        "image"@,
    ) || contains_seq(lower, "content"@) || contains_seq(lower, "deserialize"@) || contains_seq(
        lower,
        "untagged enum"@,
    ) || contains_seq(lower, "chatcompletionrequestcontent"@) || contains_seq(
        lower,
        "did not match any variant"@,
    )
}

/// The error shown for a failed request: an explanation about image
/// support, with the original error, when the error points at images;
/// otherwise the error as it is.
pub open spec fn multimodal_error_text(err: Seq<char>) -> Seq<char> {
    if multimodal_failure(lower_of(err)) {
        "❌ Your LLM provider doesn't support --image functionality.\n💡 Try running without --image parameter, or use a provider that supports vision models (like OpenAI GPT-4o).\n\nOriginal error: "@
            + err
    } else {
        err
    }
}

/// The error shown for a failed request.
pub fn enhance_multimodal_error(err: &str) -> (r: String)
    ensures
        r@ == multimodal_error_text(err@),
{
    let lower = lowercase(err);
    let l = lower.as_str();
    if contains_str(l, "multimodal") || contains_str(l, "vision") || contains_str(l, "image")
        || contains_str(l, "content") || contains_str(l, "deserialize") || contains_str(
        l,
        "untagged enum",
    ) || contains_str(l, "chatcompletionrequestcontent") || contains_str(
        l,
        "did not match any variant",
    ) {
        let mut out = chars_of(
            "❌ Your LLM provider doesn't support --image functionality.\n💡 Try running without --image parameter, or use a provider that supports vision models (like OpenAI GPT-4o).\n\nOriginal error: ",
        );
        push_str(&mut out, err);
        string_of(&out)
    } else {
        owned(err)
    }
}

/// The text of the newest user message; empty when there is none.
pub open spec fn newest_user_text(ms: Seq<ChatMessage>) -> Seq<char>
    decreases ms.len(),
{
    if ms.len() == 0 {
        Seq::empty()
    } else if ms.last().role == Role::User {
        content_text(ms.last().content)
    } else {
        newest_user_text(ms.drop_last())
    }
}

/// What the offline model is asked: the text input, or the newest user message.
pub open spec fn fake_prompt(input: ResponseInput) -> Seq<char> {
    match input {
        ResponseInput::Text(t) => t@,
        ResponseInput::Messages(ms) => newest_user_text(ms@),
    }
}

/// The single-shot reply of the offline "fake" model: one assistant message
/// whose only text is the canned chat reply to the prompt.
pub fn fake_response(input: ResponseInput) -> (r: ResponsesApiResponse)
    ensures
        r.output_text matches Some(t) && t@ == fake_chat_reply(fake_prompt(input)),
        r.output@.len() == 1,
        r.output@[0].role@ == "assistant"@,
        r.output@[0].content@.len() == 1,
        r.output@[0].content@[0].kind@ == "output_text"@,
        r.output@[0].content@[0].text matches Some(t) && t@ == fake_chat_reply(fake_prompt(input)),
        r.model@ == "fake"@,
        r.usage == Some(Usage { prompt_tokens: 10, completion_tokens: 20, total_tokens: 30 }),
{
    let prompt = match &input {
        ResponseInput::Text(t) => t.clone(),
        ResponseInput::Messages(ms) => {
            let mut text = String::new();
            let mut i: usize = ms.len();
            let mut found = false;
            proof {
                assert(ms@.subrange(0, i as int) =~= ms@);
            }
            while i > 0 && !found
                invariant
                    i <= ms@.len(),
                    !found ==> newest_user_text(ms@) == newest_user_text(ms@.subrange(0, i as int)),
                    !found ==> text@.len() == 0,
                    found ==> text@ == newest_user_text(ms@),
                decreases i + if found {
                    0int
                } else {
                    1int
                },
            {
                proof {
                    assert(ms@.subrange(0, i as int).drop_last() =~= ms@.subrange(0, i - 1));
                }
                if ms[i - 1].role == Role::User {
                    text = ms[i - 1].get_text();
                    found = true;
                } else {
                    i -= 1;
                }
            }
            proof {
                if !found {
                    assert(ms@.subrange(0, 0) =~= Seq::<ChatMessage>::empty());
                }
            }
            text
        },
    };
    proof {
        assert(prompt@ == fake_prompt(input));
    }
    let reply = generate_fake_chat_response(prompt.as_str());
    let mut content: Vec<OutputContent> = Vec::new();
    content.push(
        OutputContent { kind: owned("output_text"), text: Some(reply.clone()), annotations: Vec::new() },
    );
    let mut output: Vec<ResponseOutput> = Vec::new();
    output.push(
        ResponseOutput {
            id: owned("msg_fake123"),
            kind: owned("message"),
            role: owned("assistant"),
            content,
        },
    );
    ResponsesApiResponse {
        id: owned("resp_fake123"),
        object: owned("response"),
        model: owned("fake"),
        output,
        output_text: Some(reply),
        usage: Some(Usage { prompt_tokens: 10, completion_tokens: 20, total_tokens: 30 }),
    }
}

} // verus!
