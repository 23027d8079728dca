//! Conversation messages and the events of a completion stream.
use vstd::prelude::*;
use crate::text::{
    join_with, push_str, string_of, extend_chars, chars_of, owned, lower_of, lowercase,
    contains_seq, contains_str, is_blank, is_blank_str, slice_chars,
};

verus! {

/// Author of a message.
#[derive(Debug, Clone, Copy, PartialEq, Eq, Structural)]
pub enum Role {
    System,
    User,
    Assistant,
    Tool,
    Developer,
}

/// Where an image comes from, with an optional detail level.
#[derive(Debug, Clone)]
pub struct ImageUrl {
    pub url: String,
    pub detail: Option<String>,
}

/// One part of a multimodal message.
#[derive(Debug, Clone)]
pub enum ContentPart {
    Text { text: String },
    ImageUrl { image_url: ImageUrl },
}

/// Body of a message: plain text, or a list of parts.
#[derive(Debug, Clone)]
pub enum MessageContent {
    Text(String),
    MultiModal(Vec<ContentPart>),
}

/// A function call requested by the model.
#[derive(Debug, Clone)]
pub struct FunctionCall {
    pub name: String,
    pub arguments: String,
}

/// A tool call attached to an assistant message; `kind` is the call type ("function").
#[derive(Debug, Clone)]
pub struct ToolCall {
    pub id: Option<String>,
    pub kind: String,
    pub function: FunctionCall,
}

/// One message of a conversation.
#[derive(Debug, Clone)]
pub struct ChatMessage {
    pub role: Role,
    pub content: MessageContent,
    pub name: Option<String>,
    pub tool_calls: Option<Vec<ToolCall>>,
}

/// Token accounting reported by the service.
#[derive(Debug, Clone, Copy, PartialEq, Eq, Structural)]
pub struct Usage {
    pub prompt_tokens: u32,
    pub completion_tokens: u32,
    pub total_tokens: u32,
}

/// Input of a single-shot response request.
#[derive(Debug, Clone)]
pub enum ResponseInput {
    Text(String),
    Messages(Vec<ChatMessage>),
}

/// Reasoning effort requested from the model.
#[derive(Debug, Clone)]
pub struct ReasoningOptions {
    pub effort: String,
}

/// One event of a completion stream, in the order the service produced them.
#[derive(Debug, Clone)]
pub enum StreamEvent {
    Content(String),
    ToolCallDelta { name: Option<String>, arguments: Option<String> },
    ToolCallsFinish,
    Done,
}

impl ReasoningOptions {
    /// Low effort.
    pub fn low() -> (r: Self)
        ensures
            r.effort@ == "low"@,
    {
        ReasoningOptions { effort: owned("low") }
    }

    /// Medium effort.
    pub fn medium() -> (r: Self)
        ensures
            r.effort@ == "medium"@,
    {
        ReasoningOptions { effort: owned("medium") }
    }

    /// High effort.
    pub fn high() -> (r: Self)
        ensures
            r.effort@ == "high"@,
    {
        ReasoningOptions { effort: owned("high") }
    }
}

/// The texts of the text parts, in order.
pub open spec fn text_parts(parts: Seq<ContentPart>) -> Seq<Seq<char>>
    decreases parts.len(),
{
    if parts.len() == 0 {
        Seq::empty()
    } else {
        let rest = text_parts(parts.drop_last());
        match parts.last() {
            ContentPart::Text { text } => rest.push(text@),
            _ => rest,
        }
    }
}

/// All the text of a message body; text parts are joined by single spaces.
pub open spec fn content_text(c: MessageContent) -> Seq<char> {
    match c {
        MessageContent::Text(t) => t@,
        MessageContent::MultiModal(parts) => join_with(text_parts(parts@), ' '),
    }
}

impl Default for MessageContent {
    fn default() -> (r: Self)
        ensures
            r matches MessageContent::Text(t) && t@.len() == 0,
    {
        MessageContent::Text(String::new())
    }
}

impl MessageContent {
    /// Plain text content.
    pub fn text(text: String) -> (r: Self)
        ensures
            r == MessageContent::Text(text),
    {
        MessageContent::Text(text)
    }

    /// Content made of parts.
    pub fn multimodal(parts: Vec<ContentPart>) -> (r: Self)
        ensures
            r == MessageContent::MultiModal(parts),
    {
        MessageContent::MultiModal(parts)
    }

    /// The text of a plain text body; `None` for a multimodal one.
    pub fn as_text(&self) -> (r: Option<&str>)
        ensures
            match self {
                MessageContent::Text(t) => r matches Some(s) && s@ == t@,
                MessageContent::MultiModal(_) => r is None,
            },
    {
        match self {
            MessageContent::Text(t) => Some(t.as_str()),
            MessageContent::MultiModal(_) => None,
        }
    }

    /// All the text of the body; the text parts of a multimodal body are
    /// joined by single spaces and its images are left out.
    pub fn extract_text(&self) -> (r: String)
        ensures
            r@ == content_text(*self),
    {
        match self {
            MessageContent::Text(t) => t.clone(),
            MessageContent::MultiModal(parts) => {
                let mut out: Vec<char> = Vec::new();
                let mut count: usize = 0;
                let mut i: usize = 0;
                while i < parts.len()
                    invariant
                        i <= parts@.len(),
                        count == text_parts(parts@.subrange(0, i as int)).len(),
                        count <= i,
                        out@ == join_with(text_parts(parts@.subrange(0, i as int)), ' '),
                    decreases parts@.len() - i,
                {
                    let ghost pre = parts@.subrange(0, i as int);
                    proof {
                        assert(parts@.subrange(0, i + 1).drop_last() =~= pre);
                    }
                    match &parts[i] {
                        ContentPart::Text { text } => {
                            if count > 0 {
                                out.push(' ');
                            }
                            let cs = chars_of(text.as_str());
                            extend_chars(&mut out, &cs);
                            count += 1;
                            proof {
                                let tp = text_parts(parts@.subrange(0, i + 1));
                                assert(tp.drop_last() =~= text_parts(pre));
                            }
                        },
                        ContentPart::ImageUrl { .. } => {},
                    }
                    i += 1;
                }
                proof {
                    assert(parts@.subrange(0, parts@.len() as int) =~= parts@);
                }
                string_of(&out)
            },
        }
    }
}

impl ContentPart {
    /// A text part.
    pub fn text(text: String) -> (r: Self)
        ensures
            r == (ContentPart::Text { text }),
    {
        ContentPart::Text { text }
    }

    /// An image part that points at a URL.
    pub fn image_url(url: String, detail: Option<String>) -> (r: Self)
        ensures
            r == (ContentPart::ImageUrl { image_url: ImageUrl { url, detail } }),
    {
        ContentPart::ImageUrl { image_url: ImageUrl { url, detail } }
    }

    /// An image part that carries base64 data as a `data:` URL.
    pub fn image_base64(base64_data: &str, mime_type: &str, detail: Option<String>) -> (r: Self)
        ensures
            r matches ContentPart::ImageUrl { image_url } && image_url.url@ == "data:"@
                + mime_type@ + ";base64,"@ + base64_data@ && image_url.detail == detail,
    {
        let mut out: Vec<char> = Vec::new();
        push_str(&mut out, "data:");
        push_str(&mut out, mime_type);
        push_str(&mut out, ";base64,");
        push_str(&mut out, base64_data);
        let url = string_of(&out);
        ContentPart::ImageUrl { image_url: ImageUrl { url, detail } }
    }
}

/// A plain text message.
pub open spec fn text_message(role: Role, content: String) -> ChatMessage {
    ChatMessage { role, content: MessageContent::Text(content), name: None, tool_calls: None }
}

impl ChatMessage {
    /// A plain text message.
    pub fn new(role: Role, content: String) -> (r: Self)
        ensures
            r == text_message(role, content),
    {
        ChatMessage { role, content: MessageContent::Text(content), name: None, tool_calls: None }
    }

    /// A message made of parts.
    pub fn multimodal(role: Role, parts: Vec<ContentPart>) -> (r: Self)
        ensures
            r.role == role,
            r.content == MessageContent::MultiModal(parts),
            r.name is None,
            r.tool_calls is None,
    {
        ChatMessage {
            role,
            content: MessageContent::MultiModal(parts),
            name: None,
            tool_calls: None,
        }
    }

    /// All the text of the message.
    pub fn get_text(&self) -> (r: String)
        ensures
            r@ == content_text(self.content),
    {
        self.content.extract_text()
    }
}


/// Two message bodies hold the same text or the same parts.
pub open spec fn same_content(a: MessageContent, b: MessageContent) -> bool {
    match (a, b) {
        (MessageContent::Text(x), MessageContent::Text(y)) => x == y,
        (MessageContent::MultiModal(x), MessageContent::MultiModal(y)) => x@ == y@,
        _ => false,
    }
}

/// Two messages are copies of each other.
pub open spec fn same_message(a: ChatMessage, b: ChatMessage) -> bool {
    &&& a.role == b.role
    &&& same_content(a.content, b.content)
    &&& a.name == b.name
    &&& match (a.tool_calls, b.tool_calls) {
        (Some(x), Some(y)) => x@ == y@,
        (None, None) => true,
        _ => false,
    }
}

fn copy_text(o: &Option<String>) -> (r: Option<String>)
    ensures
        r == *o,
{
    match o {
        Some(s) => Some(s.clone()),
        None => None,
    }
}

fn copy_part(p: &ContentPart) -> (r: ContentPart)
    ensures
        r == *p,
{
    match p {
        ContentPart::Text { text } => ContentPart::Text { text: text.clone() },
        ContentPart::ImageUrl { image_url } => ContentPart::ImageUrl {
            image_url: ImageUrl { url: image_url.url.clone(), detail: copy_text(&image_url.detail) },
        },
    }
}

fn copy_tool_call(t: &ToolCall) -> (r: ToolCall)
    ensures
        r == *t,
{
    ToolCall {
        id: copy_text(&t.id),
        kind: t.kind.clone(),
        function: FunctionCall {
            name: t.function.name.clone(),
            arguments: t.function.arguments.clone(),
        },
    }
}

/// A copy of a message.
pub fn copy_message(m: &ChatMessage) -> (r: ChatMessage)
    ensures
        same_message(r, *m),
        content_text(r.content) == content_text(m.content),
{
    let content = match &m.content {
        MessageContent::Text(t) => MessageContent::Text(t.clone()),
        MessageContent::MultiModal(parts) => {
            let mut out: Vec<ContentPart> = Vec::new();
            let mut i: usize = 0;
            while i < parts.len()
                invariant
                    i <= parts@.len(),
                    out@ == parts@.subrange(0, i as int),
                decreases parts@.len() - i,
            {
                out.push(copy_part(&parts[i]));
                proof {
                    assert(out@ =~= parts@.subrange(0, i + 1));
                }
                i += 1;
            }
            proof {
                assert(out@ =~= parts@);
            }
            MessageContent::MultiModal(out)
        },
    };
    let tool_calls = match &m.tool_calls {
        Some(calls) => {
            let mut out: Vec<ToolCall> = Vec::new();
            let mut i: usize = 0;
            while i < calls.len()
                invariant
                    i <= calls@.len(),
                    out@ == calls@.subrange(0, i as int),
                decreases calls@.len() - i,
            {
                out.push(copy_tool_call(&calls[i]));
                proof {
                    assert(out@ =~= calls@.subrange(0, i + 1));
                }
                i += 1;
            }
            proof {
                assert(out@ =~= calls@);
            }
            Some(out)
        },
        None => None,
    };
    ChatMessage { role: m.role, content, name: copy_text(&m.name), tool_calls }
}


// ---------------------------------------------------------------------------
// Images
// ---------------------------------------------------------------------------

/// The standard base64 alphabet.
pub open spec fn b64_alphabet() -> Seq<char> {
    "ABCDEFGHIJKLMNOPQRSTUVWXYZabcdefghijklmnopqrstuvwxyz0123456789+/"@
}

/// The 24-bit number of the 3-byte group at `i` (missing bytes count as 0).
pub open spec fn group_value(data: Seq<u8>, i: int) -> int {
    let b0 = data[i] as int;
    let b1 = if i + 1 < data.len() {
        data[i + 1] as int
    } else {
        0
    };
    let b2 = if i + 2 < data.len() {
        data[i + 2] as int
    } else {
        0
    };
    b0 * 65536 + b1 * 256 + b2
}

/// The four characters for the group at byte `i`, with `=` for missing bytes.
pub open spec fn group_chars(data: Seq<u8>, i: int) -> Seq<char> {
    let n = group_value(data, i);
    let a = b64_alphabet();
    seq![
        a[(n / 262144) % 64],
        a[(n / 4096) % 64],
        if i + 1 < data.len() {
            a[(n / 64) % 64]
        } else {
            '='
        },
        if i + 2 < data.len() {
            a[n % 64]
        } else {
            '='
        },
    ]
}

/// The base64 text of the first `k` groups of three bytes.
pub open spec fn base64_groups(data: Seq<u8>, k: nat) -> Seq<char>
    decreases k,
{
    if k == 0 {
        Seq::empty()
    } else {
        base64_groups(data, (k - 1) as nat) + group_chars(data, 3 * (k - 1))
    }
}

/// Standard base64 with padding.
pub open spec fn base64_of(data: Seq<u8>) -> Seq<char> {
    base64_groups(data, ((data.len() + 2) / 3) as nat)
}

fn b64_char(i: u32) -> (c: char)
    requires
        i < 64,
    ensures
        c == b64_alphabet()[i as int],
{
    let alphabet = "ABCDEFGHIJKLMNOPQRSTUVWXYZabcdefghijklmnopqrstuvwxyz0123456789+/";
    proof {
        reveal_strlit("ABCDEFGHIJKLMNOPQRSTUVWXYZabcdefghijklmnopqrstuvwxyz0123456789+/");
    }
    alphabet.get_char(i as usize)
}

fn encode_group(data: &[u8], i: usize) -> (r: Vec<char>)
    requires
        i < data@.len(),
    ensures
        r@ == group_chars(data@, i as int),
{
    let n = data.len();
    let b0 = data[i] as u32;
    let b1: u32 = if n - i > 1 {
        data[i + 1] as u32
    } else {
        0
    };
    let b2: u32 = if n - i > 2 {
        data[i + 2] as u32
    } else {
        0
    };
    let v: u32 = b0 * 65536 + b1 * 256 + b2;
    let ghost gv = group_value(data@, i as int);
    assert(v as int == gv);
    let c0 = b64_char((v / 262144) % 64);
    let c1 = b64_char((v / 4096) % 64);
    let c2 = if n - i > 1 {
        b64_char((v / 64) % 64)
    } else {
        '='
    };
    let c3 = if n - i > 2 {
        b64_char(v % 64)
    } else {
        '='
    };
    let mut out: Vec<char> = Vec::new();
    out.push(c0);
    out.push(c1);
    out.push(c2);
    out.push(c3);
    assert(out@ =~= group_chars(data@, i as int));
    out
}

/// Standard base64 with padding.
pub fn base64_encode(data: &[u8]) -> (r: String)
    ensures
        r@ == base64_of(data@),
{
    let n = data.len();
    let mut out: Vec<char> = Vec::new();
    let mut i: usize = 0;
    let ghost mut k: nat = 0;
    while i < n
        invariant
            n == data@.len(),
            i <= n,
            k == (i + 2) / 3,
            i < n ==> i == 3 * k,
            out@ == base64_groups(data@, k),
        decreases n - i,
    {
        let group = encode_group(data, i);
        extend_chars(&mut out, &group);
        proof {
            k = k + 1;
        }
        if n - i > 3 {
            i = i + 3;
        } else {
            i = n;
        }
    }
    string_of(&out)
}

/// The media type of an image file, by its extension.
pub open spec fn image_mime(ext: Seq<char>) -> Option<Seq<char>> {
    if ext == "jpg"@ || ext == "jpeg"@ {
        Some("image/jpeg"@)
    } else if ext == "png"@ {
        Some("image/png"@)
    } else if ext == "gif"@ {
        Some("image/gif"@)
    } else if ext == "webp"@ {
        Some("image/webp"@)
    } else if ext == "bmp"@ {
        Some("image/bmp"@)
    } else {
        None
    }
}

/// The media type of an image file extension; `None` when unsupported.
pub fn image_mime_type(extension: &str) -> (r: Option<String>)
    ensures
        match r {
            Some(m) => image_mime(extension@) == Some(m@),
            None => image_mime(extension@) is None,
        },
{
    let e = owned(extension);
    if e == owned("jpg") || e == owned("jpeg") {
        Some(owned("image/jpeg"))
    } else if e == owned("png") {
        Some(owned("image/png"))
    } else if e == owned("gif") {
        Some(owned("image/gif"))
    } else if e == owned("webp") {
        Some(owned("image/webp"))
    } else if e == owned("bmp") {
        Some(owned("image/bmp"))
    } else {
        None
    }
}

impl ContentPart {
    /// An image part for the bytes of an image file with this extension;
    /// `None` when the extension is not a supported image type.
    pub fn image_from_bytes(extension: &str, data: &[u8], detail: Option<String>) -> (r: Option<Self>)
        ensures
            image_mime(extension@) is None ==> r is None,
            image_mime(extension@) matches Some(m) ==> (r matches Some(
                ContentPart::ImageUrl { image_url },
            ) && image_url.url@ == "data:"@ + m + ";base64,"@ + base64_of(data@)
                && image_url.detail == detail),
    {
        match image_mime_type(extension) {
            Some(mime) => {
                let b64 = base64_encode(data);
                Some(ContentPart::image_base64(b64.as_str(), mime.as_str(), detail))
            },
            None => None,
        }
    }
}

impl ChatMessage {
    /// The message with an image part added: a text message becomes a
    /// multimodal one with its text first.
    pub fn with_image(self, image_part: ContentPart) -> (r: Self)
        ensures
            r.role == self.role,
            r.name == self.name,
            r.tool_calls == self.tool_calls,
            match self.content {
                MessageContent::Text(t) => r.content matches MessageContent::MultiModal(parts)
                    && parts@ == seq![ContentPart::Text { text: t }, image_part],
                MessageContent::MultiModal(ps) => r.content matches MessageContent::MultiModal(parts)
                    && parts@ == ps@.push(image_part),
            },
    {
        let ChatMessage { role, content, name, tool_calls } = self;
        let content = match content {
            MessageContent::Text(t) => {
                let mut parts: Vec<ContentPart> = Vec::new();
                parts.push(ContentPart::Text { text: t });
                parts.push(image_part);
                MessageContent::MultiModal(parts)
            },
            MessageContent::MultiModal(mut parts) => {
                parts.push(image_part);
                MessageContent::MultiModal(parts)
            },
        };
        ChatMessage { role, content, name, tool_calls }
    }
}

// ---------------------------------------------------------------------------
// Replies of the offline "fake" model
// ---------------------------------------------------------------------------

/// The canned shell command for a request, chosen by the words it holds.
pub open spec fn fake_shell_reply(input: Seq<char>) -> Seq<char> {
    let l = lower_of(input);
    if contains_seq(l, "list"@) || contains_seq(l, "show"@) {
        if contains_seq(l, "file"@) {
            "ls -la"@
        } else if contains_seq(l, "process"@) {
            "ps aux"@
        } else {
            "ls"@
        }
    } else if contains_seq(l, "find"@) {
        if contains_seq(l, "file"@) {
            "find . -name \"*.txt\" -type f"@
        } else {
            "find . -name \"*pattern*\""@
        }
    } else if contains_seq(l, "kill"@) || contains_seq(l, "stop"@) {
        "pkill process_name"@
    } else if contains_seq(l, "copy"@) || contains_seq(l, "cp"@) {
        "cp source.txt destination.txt"@
    } else if contains_seq(l, "move"@) || contains_seq(l, "mv"@) {
        "mv oldname.txt newname.txt"@
    } else if contains_seq(l, "download"@) {
        "curl -O https://example.com/file"@
    } else if contains_seq(l, "install"@) {
        "sudo apt install package-name"@
    } else if contains_seq(l, "git"@) {
        if contains_seq(l, "commit"@) {
            "git add . && git commit -m \"your message\""@
        } else if contains_seq(l, "push"@) {
            "git push origin main"@
        } else {
            "git status"@
        }
    } else if contains_seq(l, "docker"@) {
        "docker ps -a"@
    } else {
        "# Fake response for: "@ + input + "\necho \"This is a simulated shell command response\""@
    }
}

/// The canned shell command for a request.
pub fn generate_fake_shell_response(user_input: &str) -> (r: String)
    ensures
        r@ == fake_shell_reply(user_input@),
{
    let lower = lowercase(user_input);
    let l = lower.as_str();
    if contains_str(l, "list") || contains_str(l, "show") {
        if contains_str(l, "file") {
            owned("ls -la")
        } else if contains_str(l, "process") {
            owned("ps aux")
        } else {
            owned("ls")
        }
    } else if contains_str(l, "find") {
        if contains_str(l, "file") {
            owned("find . -name \"*.txt\" -type f")
        } else {
            owned("find . -name \"*pattern*\"")
        }
    } else if contains_str(l, "kill") || contains_str(l, "stop") {
        owned("pkill process_name")
    } else if contains_str(l, "copy") || contains_str(l, "cp") {
        owned("cp source.txt destination.txt")
    } else if contains_str(l, "move") || contains_str(l, "mv") {
        owned("mv oldname.txt newname.txt")
    } else if contains_str(l, "download") {
        owned("curl -O https://example.com/file")
    } else if contains_str(l, "install") {
        owned("sudo apt install package-name")
    } else if contains_str(l, "git") {
        if contains_str(l, "commit") {
            owned("git add . && git commit -m \"your message\"")
        } else if contains_str(l, "push") {
            owned("git push origin main")
        } else {
            owned("git status")
        }
    } else if contains_str(l, "docker") {
        owned("docker ps -a")
    } else {
        let mut out = chars_of("# Fake response for: ");
        push_str(&mut out, user_input);
        push_str(&mut out, "\necho \"This is a simulated shell command response\"");
        string_of(&out)
    }
}

/// The canned chat reply for a message, chosen by the words it holds.
pub open spec fn fake_chat_reply(input: Seq<char>) -> Seq<char> {
    let l = lower_of(input);
    if contains_seq(l, "hello"@) || contains_seq(l, "hi"@) {
        "Hello! I'm a fake AI assistant for testing purposes. How can I help you today?"@
    } else if contains_seq(l, "how are you"@) {
        "I'm doing well, thanks for asking! I'm just a simulated response to help test the TUI interface."@
    } else if contains_seq(l, "what"@) && contains_seq(l, "time"@) {
        "I'm a fake model, so I don't have access to real-time information. But I'd estimate it's sometime today!"@
    } else if contains_seq(l, "help"@) {
        "I'm a fake AI assistant for testing. I can:\n- Answer questions (with fake answers)\n- Generate fake shell commands in shell mode\n- Test the streaming interface\n\nTry asking me anything!"@
    } else if contains_seq(l, "code"@) || contains_seq(l, "programming"@) {
        "Here's some fake code related to your question about '"@ + input
            + "':\n\n```rust\nfn fake_function() {\n    println!(\"This is fake code for testing\");\n}\n```"@
    } else if is_blank(input) {
        "I notice you sent an empty message. Feel free to ask me anything!"@
    } else {
        "I understand you're asking about: \""@ + input
            + "\"\n\nThis is a fake response to test the TUI streaming interface. In a real scenario, I would provide helpful information about your query. The fake model is working correctly if you can see this message streaming in character by character!"@
    }
}

/// The canned chat reply for a message.
pub fn generate_fake_chat_response(user_input: &str) -> (r: String)
    ensures
        r@ == fake_chat_reply(user_input@),
{
    let lower = lowercase(user_input);
    let l = lower.as_str();
    if contains_str(l, "hello") || contains_str(l, "hi") {
        owned("Hello! I'm a fake AI assistant for testing purposes. How can I help you today?")
    } else if contains_str(l, "how are you") {
        owned(
            "I'm doing well, thanks for asking! I'm just a simulated response to help test the TUI interface.",
        )
    } else if contains_str(l, "what") && contains_str(l, "time") {
        owned(
            "I'm a fake model, so I don't have access to real-time information. But I'd estimate it's sometime today!",
        )
    } else if contains_str(l, "help") {
        owned(
            "I'm a fake AI assistant for testing. I can:\n- Answer questions (with fake answers)\n- Generate fake shell commands in shell mode\n- Test the streaming interface\n\nTry asking me anything!",
        )
    } else if contains_str(l, "code") || contains_str(l, "programming") {
        let mut out = chars_of("Here's some fake code related to your question about '");
        push_str(&mut out, user_input);
        push_str(
            &mut out,
            "':\n\n```rust\nfn fake_function() {\n    println!(\"This is fake code for testing\");\n}\n```",
        );
        string_of(&out)
    } else if is_blank_str(user_input) {
        owned("I notice you sent an empty message. Feel free to ask me anything!")
    } else {
        let mut out = chars_of("I understand you're asking about: \"");
        push_str(&mut out, user_input);
        push_str(
            &mut out,
            "\"\n\nThis is a fake response to test the TUI streaming interface. In a real scenario, I would provide helpful information about your query. The fake model is working correctly if you can see this message streaming in character by character!",
        );
        string_of(&out)
    }
}


/// The text of the newest user message; empty when there is none.
pub open spec fn last_user_text(ms: Seq<ChatMessage>) -> Seq<char>
    decreases ms.len(),
{
    if ms.len() == 0 {
        Seq::empty()
    } else if ms.last().role == Role::User {
        content_text(ms.last().content)
    } else {
        last_user_text(ms.drop_last())
    }
}

/// Some system message asks for shell commands.
pub open spec fn asks_for_shell(ms: Seq<ChatMessage>) -> bool {
    exists|i: int|
        0 <= i < ms.len() && ms[i].role == Role::System && (contains_seq(
            content_text(ms[i].content),
            "shell command"@,
        ) || contains_seq(content_text(ms[i].content), "Shell Command Generator"@))
}

/// What the offline "fake" model answers to a conversation.
pub open spec fn fake_reply(ms: Seq<ChatMessage>) -> Seq<char> {
    if asks_for_shell(ms) {
        fake_shell_reply(last_user_text(ms))
    } else {
        fake_chat_reply(last_user_text(ms))
    }
}

/// The `j`-th piece of three characters of `s` (the last one may be shorter).
pub open spec fn piece(s: Seq<char>, j: int) -> Seq<char> {
    s.subrange(3 * j, if 3 * j + 3 <= s.len() { 3 * j + 3 } else { s.len() as int })
}

/// The events the offline "fake" model streams for a conversation: its
/// reply in pieces of three characters, then the end of the stream.
pub fn fake_stream_events(messages: &Vec<ChatMessage>) -> (r: Vec<StreamEvent>)
    ensures
        r@.len() == (fake_reply(messages@).len() + 2) / 3 + 1,
        forall|j: int|
            0 <= j < r@.len() - 1 ==> (#[trigger] r@[j] matches StreamEvent::Content(c) && c@
                == piece(fake_reply(messages@), j)),
        r@.last() is Done,
{
    let mut last_user = String::new();
    let mut found = false;
    let mut i: usize = messages.len();
    proof {
        assert(messages@.subrange(0, messages@.len() as int) =~= messages@);
    }
    while i > 0 && !found
        invariant
            i <= messages@.len(),
            !found ==> last_user_text(messages@) == last_user_text(messages@.subrange(0, i as int)),
            !found ==> last_user@.len() == 0,
            found ==> last_user@ == last_user_text(messages@),
        decreases i + if found {
            0int
        } else {
            1int
        },
    {
        proof {
            assert(messages@.subrange(0, i as int).drop_last() =~= messages@.subrange(0, i - 1));
        }
        if messages[i - 1].role == Role::User {
            last_user = messages[i - 1].get_text();
            found = true;
        } else {
            i -= 1;
        }
    }
    proof {
        if !found {
            assert(messages@.subrange(0, 0) =~= Seq::<ChatMessage>::empty());
        }
    }
    let mut shell = false;
    let mut k: usize = 0;
    while k < messages.len()
        invariant
            k <= messages@.len(),
            shell == exists|j: int|
                0 <= j < k && messages@[j].role == Role::System && (contains_seq(
                    content_text(messages@[j].content),
                    "shell command"@,
                ) || contains_seq(content_text(messages@[j].content), "Shell Command Generator"@)),
        decreases messages@.len() - k,
    {
        if messages[k].role == Role::System {
            let t = messages[k].get_text();
            if contains_str(t.as_str(), "shell command") || contains_str(
                t.as_str(),
                "Shell Command Generator",
            ) {
                shell = true;
            }
        }
        k += 1;
    }
    proof {
        assert(shell == asks_for_shell(messages@));
        assert(last_user@ == last_user_text(messages@));
    }
    let reply = if shell {
        generate_fake_shell_response(last_user.as_str())
    } else {
        generate_fake_chat_response(last_user.as_str())
    };
    let cs = chars_of(reply.as_str());
    let n = cs.len();
    let mut events: Vec<StreamEvent> = Vec::new();
    let mut start: usize = 0;
    let ghost mut j: int = 0;
    while start < n
        invariant
            n == cs@.len(),
            cs@ == fake_reply(messages@),
            start <= n,
            j == (start + 2) / 3,
            start < n ==> start == 3 * j,
            events@.len() == j,
            forall|q: int|
                0 <= q < j ==> (#[trigger] events@[q] matches StreamEvent::Content(c) && c@
                    == piece(cs@, q)),
        decreases n - start,
    {
        let end: usize = if n - start > 3 {
            start + 3
        } else {
            n
        };
        let chunk = slice_chars(&cs, start, end);
        events.push(StreamEvent::Content(string_of(&chunk)));
        proof {
            j = j + 1;
        }
        start = end;
    }
    events.push(StreamEvent::Done);
    events
}


// ---------------------------------------------------------------------------
// Responses of the single-shot API
// ---------------------------------------------------------------------------

/// One piece of an output item; `kind` is its type ("output_text", ...).
#[derive(Debug)]
pub struct OutputContent {
    pub kind: String,
    pub text: Option<String>,
    pub annotations: Vec<serde_json::Value>,
}

/// One output item; `kind` is its type ("message", ...).
#[derive(Debug)]
pub struct ResponseOutput {
    pub id: String,
    pub kind: String,
    pub role: String,
    pub content: Vec<OutputContent>,
}

/// A reply of the single-shot response API.
#[derive(Debug)]
pub struct ResponsesApiResponse {
    pub id: String,
    pub object: String,
    pub model: String,
    pub output: Vec<ResponseOutput>,
    pub output_text: Option<String>,
    pub usage: Option<Usage>,
}

/// Index of the first assistant output at or after `i`.
pub open spec fn first_assistant(os: Seq<ResponseOutput>, i: int) -> Option<int>
    decreases os.len() - i,
{
    if i < 0 || i >= os.len() {
        None
    } else if os[i].role@ == "assistant"@ {
        Some(i)
    } else {
        first_assistant(os, i + 1)
    }
}

/// Index of the first "output_text" piece at or after `i`.
pub open spec fn first_output_text(cs: Seq<OutputContent>, i: int) -> Option<int>
    decreases cs.len() - i,
{
    if i < 0 || i >= cs.len() {
        None
    } else if cs[i].kind@ == "output_text"@ {
        Some(i)
    } else {
        first_output_text(cs, i + 1)
    }
}

/// The main text of a reply: its convenience text when present, else the
/// text of the first "output_text" piece of the first assistant output.
pub open spec fn response_text(r: ResponsesApiResponse) -> Option<Seq<char>> {
    match r.output_text {
        Some(t) => Some(t@),
        None => match first_assistant(r.output@, 0) {
            Some(i) => match first_output_text(r.output@[i].content@, 0) {
                Some(j) => match r.output@[i].content@[j].text {
                    Some(t) => Some(t@),
                    None => None,
                },
                None => None,
            },
            None => None,
        },
    }
}

/// The texts of the pieces that have one, concatenated.
pub open spec fn content_texts(cs: Seq<OutputContent>) -> Seq<char>
    decreases cs.len(),
{
    if cs.len() == 0 {
        Seq::empty()
    } else {
        content_texts(cs.drop_last()) + match cs.last().text {
            Some(t) => t@,
            None => Seq::empty(),
        }
    }
}

/// The texts of all assistant outputs, concatenated.
pub open spec fn assistant_texts(os: Seq<ResponseOutput>) -> Seq<char>
    decreases os.len(),
{
    if os.len() == 0 {
        Seq::empty()
    } else {
        assistant_texts(os.drop_last()) + if os.last().role@ == "assistant"@ {
            content_texts(os.last().content@)
        } else {
            Seq::empty()
        }
    }
}

fn content_texts_of(cs: &Vec<OutputContent>, out: &mut Vec<char>)
    ensures
        final(out)@ == old(out)@ + content_texts(cs@),
{
    let ghost start = out@;
    let mut i: usize = 0;
    while i < cs.len()
        invariant
            i <= cs@.len(),
            out@ == start + content_texts(cs@.subrange(0, i as int)),
        decreases cs@.len() - i,
    {
        match &cs[i].text {
            Some(t) => push_str(out, t.as_str()),
            None => {},
        }
        proof {
            assert(cs@.subrange(0, i + 1).drop_last() =~= cs@.subrange(0, i as int));
        }
        i += 1;
    }
    proof {
        assert(cs@.subrange(0, cs@.len() as int) =~= cs@);
    }
}

impl ResponsesApiResponse {
    /// The main text of the reply.
    pub fn get_text(&self) -> (r: Option<&str>)
        ensures
            match r {
                Some(t) => response_text(*self) == Some(t@),
                None => response_text(*self) is None,
            },
    {
        if let Some(t) = &self.output_text {
            return Some(t.as_str());
        }
        let assistant = owned("assistant");
        let output_text = owned("output_text");
        let mut i: usize = 0;
        while i < self.output.len()
            invariant
                i <= self.output@.len(),
                self.output_text is None,
                assistant@ == "assistant"@,
                output_text@ == "output_text"@,
                first_assistant(self.output@, 0) == first_assistant(self.output@, i as int),
            decreases self.output@.len() - i,
        {
            if self.output[i].role == assistant {
                let cs = &self.output[i].content;
                proof {
                    assert(first_assistant(self.output@, i as int) == Some(i as int));
                }
                let mut j: usize = 0;
                while j < cs.len()
                    invariant
                        j <= cs@.len(),
                        i < self.output@.len(),
                        self.output_text is None,
                        first_assistant(self.output@, 0) == Some(i as int),
                        cs@ == self.output@[i as int].content@,
                        output_text@ == "output_text"@,
                        first_output_text(cs@, 0) == first_output_text(cs@, j as int),
                    decreases cs@.len() - j,
                {
                    if cs[j].kind == output_text {
                        return match &cs[j].text {
                            Some(t) => Some(t.as_str()),
                            None => None,
                        };
                    }
                    j += 1;
                }
                return None;
            }
            i += 1;
        }
        None
    }

    /// The texts of all assistant outputs, or the convenience text when present.
    pub fn get_all_text(&self) -> (r: String)
        ensures
            r@ == match self.output_text {
                Some(t) => t@,
                None => assistant_texts(self.output@),
            },
    {
        if let Some(t) = &self.output_text {
            return t.clone();
        }
        let assistant = owned("assistant");
        let mut out: Vec<char> = Vec::new();
        let mut i: usize = 0;
        while i < self.output.len()
            invariant
                i <= self.output@.len(),
                assistant@ == "assistant"@,
                out@ == assistant_texts(self.output@.subrange(0, i as int)),
            decreases self.output@.len() - i,
        {
            if self.output[i].role == assistant {
                content_texts_of(&self.output[i].content, &mut out);
            }
            proof {
                assert(self.output@.subrange(0, i + 1).drop_last() =~= self.output@.subrange(
                    0,
                    i as int,
                ));
            }
            i += 1;
        }
        proof {
            assert(self.output@.subrange(0, self.output@.len() as int) =~= self.output@);
        }
        string_of(&out)
    }
}

} // verus!
