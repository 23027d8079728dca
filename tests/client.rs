use sgpt_session::client::{base_url, enhance_multimodal_error, fake_response};
use sgpt_session::config::{parse_config_line, Config};
use sgpt_session::message::{
    ChatMessage, OutputContent, ResponseInput, ResponseOutput, ResponsesApiResponse, Role,
};
use sgpt_session::role::{default_roles, detect_shell, interactive_role};

fn cfg_with(key: &str, value: &str) -> Config {
    let mut c = Config::new(String::new());
    c.set(key.to_string(), value.to_string());
    c
}

#[test]
fn service_addresses() {
    assert_eq!(base_url(&Config::new(String::new())), "https://api.openai.com/v1");
    assert_eq!(base_url(&cfg_with("API_BASE_URL", "default")), "https://api.openai.com/v1");
    assert_eq!(base_url(&cfg_with("API_BASE_URL", "http://localhost:8080/")), "http://localhost:8080/v1");
    assert_eq!(base_url(&cfg_with("API_BASE_URL", "https://x.ai/api/v2//")), "https://x.ai/api/v2");
    assert_eq!(base_url(&cfg_with("API_BASE_URL", "https://x.ai/vx")), "https://x.ai/vx/v1");
}

#[test]
fn multimodal_errors_are_explained() {
    let e = enhance_multimodal_error("data did not match any variant of untagged enum");
    assert!(e.starts_with("❌ Your LLM provider doesn't support --image functionality."));
    assert!(e.ends_with("Original error: data did not match any variant of untagged enum"));
    assert_eq!(enhance_multimodal_error("timeout"), "timeout");
}

#[test]
fn fake_single_shot_reply() {
    let r = fake_response(ResponseInput::Text("hello there".to_string()));
    assert_eq!(r.get_text(), Some("Hello! I'm a fake AI assistant for testing purposes. How can I help you today?"));
    assert_eq!(r.model, "fake");
    assert_eq!(r.usage.unwrap().total_tokens, 30);
    let ms = vec![
        ChatMessage::new(Role::User, "how are you".to_string()),
        ChatMessage::new(Role::Assistant, "fine".to_string()),
    ];
    let r = fake_response(ResponseInput::Messages(ms));
    assert!(r.get_all_text().starts_with("I'm doing well"));
}

#[test]
fn response_text_getters() {
    let piece = |kind: &str, text: Option<&str>| OutputContent {
        kind: kind.to_string(),
        text: text.map(|t| t.to_string()),
        annotations: vec![],
    };
    let r = ResponsesApiResponse {
        id: "r".to_string(),
        object: "response".to_string(),
        model: "m".to_string(),
        output: vec![
            ResponseOutput { id: "a".to_string(), kind: "message".to_string(), role: "user".to_string(), content: vec![piece("output_text", Some("no"))] },
            ResponseOutput {
                id: "b".to_string(),
                kind: "message".to_string(),
                role: "assistant".to_string(),
                content: vec![piece("reasoning", Some("think ")), piece("output_text", Some("yes"))],
            },
            ResponseOutput { id: "c".to_string(), kind: "message".to_string(), role: "assistant".to_string(), content: vec![piece("output_text", Some("!"))] },
        ],
        output_text: None,
        usage: None,
    };
    assert_eq!(r.get_text(), Some("yes"));
    assert_eq!(r.get_all_text(), "think yes!");
}

#[test]
fn stored_roles() {
    let roles = default_roles("Linux", "bash");
    assert_eq!(roles.len(), 4);
    assert_eq!(roles[1].name, "Shell Command Generator");
    assert!(roles[1].role.starts_with("You are Shell Command Generator\nProvide only bash commands for Linux"));
    assert!(interactive_role("r", "  \n").is_none());
    let r = interactive_role("Poet", "  writes haiku \n").unwrap();
    assert_eq!(r.role, "You are Poet\nwrites haiku");
}

#[test]
fn shells() {
    let empty = Config::new(String::new());
    assert_eq!(detect_shell(&empty, false, "", Some("/usr/bin/zsh"), ':'), "zsh");
    assert_eq!(detect_shell(&empty, false, "", None, ':'), "sh");
    assert_eq!(detect_shell(&empty, true, "a;b;c", None, ';'), "powershell.exe");
    assert_eq!(detect_shell(&empty, true, "a", None, ';'), "cmd.exe");
    assert_eq!(detect_shell(&cfg_with("SHELL_NAME", "fish"), false, "", None, ':'), "fish");
}

#[test]
fn config_file_lines() {
    assert_eq!(parse_config_line("  KEY = some value  "), Some(("KEY".to_string(), "some value".to_string())));
    assert_eq!(parse_config_line("A=b=c"), Some(("A".to_string(), "b=c".to_string())));
    assert_eq!(parse_config_line("# comment"), None);
    assert_eq!(parse_config_line("   "), None);
    assert_eq!(parse_config_line("novalue"), None);
}
