use sgpt_session::cache::ChatSession;
use sgpt_session::history::{history_from_json, history_to_json};
use sgpt_session::config::{default_map, is_config_key, parse_usize, Config};
use sgpt_session::message::{
    base64_encode, fake_stream_events, generate_fake_chat_response, generate_fake_shell_response,
    image_mime_type, ChatMessage, ContentPart, MessageContent, ReasoningOptions, Role, StreamEvent,
};
use sgpt_session::role::{
    chain_hint, default_role_text, detect_os, platform_hint, resolve_role_text, DefaultRole,
    SystemRole,
};
use sgpt_session::text::{char_to_byte_index, find_substring_char_index, split_by_char_index};

#[test]
fn base64_known_values() {
    assert_eq!(base64_encode(b""), "");
    assert_eq!(base64_encode(b"M"), "TQ==");
    assert_eq!(base64_encode(b"Ma"), "TWE=");
    assert_eq!(base64_encode(b"Man"), "TWFu");
    assert_eq!(base64_encode(&[0xff, 0xfe, 0x00, 0x10]), "//4AEA==");
}

#[test]
fn image_parts_and_messages() {
    assert_eq!(image_mime_type("jpeg").as_deref(), Some("image/jpeg"));
    assert_eq!(image_mime_type("tiff"), None);
    let part = ContentPart::image_from_bytes("png", b"Man", None).unwrap();
    match &part {
        ContentPart::ImageUrl { image_url } => assert_eq!(image_url.url, "data:image/png;base64,TWFu"),
        _ => panic!("expected an image"),
    }
    assert!(ContentPart::image_from_bytes("txt", b"x", None).is_none());
    let m = ChatMessage::new(Role::User, "look".to_string()).with_image(part);
    match &m.content {
        MessageContent::MultiModal(parts) => assert_eq!(parts.len(), 2),
        _ => panic!("expected parts"),
    }
    assert_eq!(m.get_text(), "look");
    let mm = ChatMessage::multimodal(
        Role::User,
        vec![ContentPart::text("a".to_string()), ContentPart::image_url("u".to_string(), None), ContentPart::text("b".to_string())],
    );
    assert_eq!(mm.get_text(), "a b");
    assert_eq!(mm.content.as_text(), None);
    assert_eq!(MessageContent::text("t".to_string()).as_text(), Some("t"));
    assert_eq!(ReasoningOptions::medium().effort, "medium");
}

#[test]
fn fake_replies() {
    assert_eq!(generate_fake_shell_response("Show files"), "ls -la");
    assert_eq!(generate_fake_shell_response("git push please"), "git push origin main");
    assert_eq!(
        generate_fake_shell_response("xyz"),
        "# Fake response for: xyz\necho \"This is a simulated shell command response\""
    );
    assert!(generate_fake_chat_response("HELLO").starts_with("Hello! I'm a fake AI assistant"));
    assert_eq!(
        generate_fake_chat_response(""),
        "I notice you sent an empty message. Feel free to ask me anything!"
    );
}

#[test]
fn fake_stream_comes_in_pieces_of_three() {
    let ms = vec![
        ChatMessage::new(Role::System, "Shell Command Generator".to_string()),
        ChatMessage::new(Role::User, "list processes".to_string()),
    ];
    let events = fake_stream_events(&ms);
    let texts: Vec<String> = events
        .iter()
        .filter_map(|e| match e {
            StreamEvent::Content(c) => Some(c.clone()),
            _ => None,
        })
        .collect();
    assert_eq!(texts, vec!["ps ".to_string(), "aux".to_string()]);
    assert!(matches!(events.last(), Some(StreamEvent::Done)));
}

#[test]
fn config_keys_values_and_numbers() {
    assert!(is_config_key("DEFAULT_MODEL"));
    assert!(is_config_key("SGPT_ANYTHING"));
    assert!(is_config_key("OPENAI_X"));
    assert!(!is_config_key("HOME"));
    assert_eq!(parse_usize("42"), Some(42));
    assert_eq!(parse_usize("+7"), Some(7));
    assert_eq!(parse_usize("+"), None);
    assert_eq!(parse_usize(""), None);
    assert_eq!(parse_usize("4x"), None);
    assert_eq!(parse_usize("99999999999999999999999"), None);
    let mut cfg = default_map("/home/u/.config", "/tmp", "/home/u/.config/shell_gpt/.sgptrc".to_string());
    assert_eq!(cfg.chat_cache_path(), "/tmp/shell_gpt/chat_cache");
    assert_eq!(cfg.roles_path(), "/home/u/.config/shell_gpt/roles");
    assert_eq!(cfg.get("DEFAULT_MODEL").as_deref(), Some("gpt-4o"));
    assert!(cfg.get_bool("SHELL_INTERACTION"));
    cfg.set("SHELL_INTERACTION".to_string(), "TrUe".to_string());
    assert!(cfg.get_bool("SHELL_INTERACTION"));
    cfg.set("SHELL_INTERACTION".to_string(), "yes".to_string());
    assert!(!cfg.get_bool("SHELL_INTERACTION"));
    assert_eq!(cfg.get_usize("CHAT_CACHE_LENGTH"), Some(100));
    assert_eq!(cfg.get("MISSING"), None);
    let empty = Config::new(String::new());
    assert_eq!(empty.get_usize("CHAT_CACHE_LENGTH"), None);
}

#[test]
fn chat_sessions_keep_first_and_newest() {
    let mut cfg = default_map("/c", "/t", String::new());
    cfg.set("CHAT_CACHE_LENGTH".to_string(), "3".to_string());
    let session = ChatSession::from_config(&cfg);
    assert_eq!(session.length, 3);
    assert_eq!(session.file_path("abc"), "/t/shell_gpt/chat_cache/abc");
    let ms: Vec<ChatMessage> = (0..6).map(|i| ChatMessage::new(Role::User, format!("{}", i))).collect();
    let kept = session.retained_messages(ms);
    let texts: Vec<String> = kept.iter().map(|m| m.get_text()).collect();
    assert_eq!(texts, vec!["0".to_string(), "4".to_string(), "5".to_string()]);
}

#[test]
fn roles_and_hints() {
    assert_eq!(DefaultRole::from_flags(false, true, true), DefaultRole::DescribeShell);
    assert_eq!(chain_hint("PowerShell.exe"), "If multiple steps are required, separate commands with ; (not &&).");
    assert_eq!(platform_hint("cmd.exe"), "Prefer built-in Windows commands (e.g., dir, findstr) where appropriate.");
    assert_eq!(platform_hint("bash"), "");
    let t = default_role_text("Linux", "bash", DefaultRole::Shell);
    assert!(t.starts_with("Provide only bash commands for Linux without any description."));
    assert!(t.contains("combine commands with &&.\n\nProvide only plain text"));
    let d = default_role_text("Linux", "zsh", DefaultRole::Default);
    assert!(d.contains("You are managing Linux operating system with zsh shell."));
    let stored = SystemRole { name: "x".to_string(), role: "You are x".to_string() };
    assert_eq!(stored.show(), "You are x");
    assert_eq!(resolve_role_text(Some(stored), "L", "s", DefaultRole::Code), "You are x");
    assert!(resolve_role_text(None, "L", "s", DefaultRole::Code).starts_with("Provide only code"));
    let mut cfg = Config::new(String::new());
    assert_eq!(detect_os(&cfg, "macos", ""), "Darwin/MacOS");
    assert_eq!(detect_os(&cfg, "windows", "NT"), "Windows NT");
    cfg.set("OS_NAME".to_string(), "Plan9".to_string());
    assert_eq!(detect_os(&cfg, "linux", ""), "Plan9");
}

#[test]
fn char_indices_and_search() {
    assert_eq!(char_to_byte_index("aé😀b", 0), 0);
    assert_eq!(char_to_byte_index("aé😀b", 2), 3);
    assert_eq!(char_to_byte_index("aé😀b", 3), 7);
    assert_eq!(char_to_byte_index("aé😀b", 10), 8);
    assert_eq!(find_substring_char_index("día de", "de"), Some(4));
    assert_eq!(find_substring_char_index("abc", ""), Some(0));
    assert_eq!(find_substring_char_index("abc", "x"), None);
}

#[test]
fn split_at_character_index() {
    let (a, b) = split_by_char_index("añb", 2);
    assert_eq!((a.as_str(), b.as_str()), ("añ", "b"));
    let (a, b) = split_by_char_index("añb", 9);
    assert_eq!((a.as_str(), b.as_str()), ("añb", ""));
}

#[test]
fn history_round_trip() {
    let mut m = ChatMessage::new(Role::User, "hi \"there\"\n".to_string());
    m.name = Some("bob".to_string());
    let mm = ChatMessage::multimodal(
        Role::Assistant,
        vec![
            ContentPart::text("t".to_string()),
            ContentPart::image_url("u".to_string(), Some("low".to_string())),
        ],
    );
    let text = history_to_json(&vec![ChatMessage::new(Role::System, "s".to_string()), m, mm]);
    assert_eq!(
        text,
        "[{\"role\":\"system\",\"content\":\"s\"},{\"role\":\"user\",\"content\":\"hi \\\"there\\\"\\n\",\"name\":\"bob\"},{\"role\":\"assistant\",\"content\":[{\"type\":\"text\",\"text\":\"t\"},{\"type\":\"image_url\",\"image_url\":{\"url\":\"u\",\"detail\":\"low\"}}]}]"
    );
    let back = history_from_json(&text).unwrap();
    assert_eq!(back.len(), 3);
    assert_eq!(back[1].get_text(), "hi \"there\"\n");
    assert_eq!(back[1].name.as_deref(), Some("bob"));
    assert_eq!(back[2].role, Role::Assistant);
    assert_eq!(back[2].get_text(), "t");
    assert!(history_from_json("[{\"role\":\"robot\",\"content\":\"x\"}]").is_none());
    assert!(history_from_json("not json").is_none());
    assert_eq!(history_from_json("[]").unwrap().len(), 0);
}
