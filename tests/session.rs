use sgpt_session::app::{App, InputMode, PopupState};
use sgpt_session::interp::{
    execute_request, format_code_result, parse_interpreter_line, request_id,
    sanitize_generated_code, vars_request, ExecutionResult, InterpreterOutput, InterpreterType,
};
use sgpt_session::message::{ChatMessage, Role, StreamEvent};
use sgpt_session::session::{
    app_paste_text, format_command_output, format_stream_error_message,
    generate_fake_command_description, handle_event, handle_key_event, key_action, shell_invocation,
    stream_failure_events, stream_error_message_from, CommandRun, Effect, KeyAction, KeyCode,
    KeyInput, SessionEvent, StreamItem, StreamRelay,
};

fn chat_app() -> App {
    App::new(
        "temp".to_string(),
        vec![ChatMessage::new(Role::System, "sys".to_string())],
        false,
        false,
        "gpt-4o".to_string(),
        None,
    )
}

fn key(code: KeyCode) -> KeyInput {
    KeyInput { code, ctrl: false, alt: false, shift: false }
}

fn ctrl(c: char) -> KeyInput {
    KeyInput { code: KeyCode::Char(c), ctrl: true, alt: false, shift: false }
}

#[test]
fn input_while_streaming_is_queued_then_sent_in_order() {
    let mut app = chat_app();
    let effects = handle_event(&mut app, SessionEvent::UserInput("first".to_string()), false);
    assert_eq!(effects.len(), 1);
    assert!(matches!(effects[0], Effect::StartStream(_)));
    assert!(app.is_receiving_response);

    let effects = handle_event(&mut app, SessionEvent::UserInput("second".to_string()), false);
    assert!(effects.is_empty());
    let effects = handle_event(&mut app, SessionEvent::UserInput("third".to_string()), false);
    assert!(effects.is_empty());
    assert_eq!(app.message_queue.len(), 2);
    assert_eq!(app.status_message, "Chat Mode | ctrl+h help | queued: 2");

    let effects = handle_event(&mut app, SessionEvent::Stream(StreamEvent::Content("ok".to_string())), false);
    assert!(effects.is_empty());
    let effects = handle_event(&mut app, SessionEvent::Stream(StreamEvent::Done), false);
    assert!(!app.is_receiving_response);
    assert_eq!(effects.len(), 1);
    assert!(matches!(effects[0], Effect::ProcessNext));

    let effects = handle_event(&mut app, SessionEvent::ProcessNextMessage, false);
    assert_eq!(app.message_queue.len(), 1);
    assert_eq!(app.message_queue[0], "third");
    assert_eq!(app.status_message, "Chat Mode | ctrl+h help | queued: 1");
    match &effects[0] {
        Effect::StartStream(ms) => {
            assert_eq!(ms.last().unwrap().get_text(), "second");
            assert_eq!(ms.len(), app.messages.len());
        }
        _ => panic!("expected a stream"),
    }
    assert!(app.is_receiving_response);
}

#[test]
fn stream_failure_shows_auth_hint_and_drains_queue() {
    let mut app = chat_app();
    handle_event(&mut app, SessionEvent::UserInput("hello".to_string()), false);
    handle_event(&mut app, SessionEvent::UserInput("queued".to_string()), false);
    assert_eq!(app.message_queue.len(), 1);

    let mut last = Vec::new();
    for ev in stream_failure_events("HTTP status client error (401 Unauthorized)", "gpt-4o") {
        last = handle_event(&mut app, SessionEvent::Stream(ev), false);
    }
    assert!(!app.is_receiving_response);
    let shown = app.messages.last().unwrap().get_text();
    assert!(shown.contains("OPENAI_API_KEY"));
    assert!(shown.starts_with("❌ Failed to stream from LLM.\nHTTP status client error"));
    assert!(matches!(last.last(), Some(Effect::ProcessNext)));

    handle_event(&mut app, SessionEvent::ProcessNextMessage, false);
    assert!(app.message_queue.is_empty());
    assert!(app.is_receiving_response);
}

#[test]
fn stream_error_message_hints() {
    let m = format_stream_error_message("Model not found", "gpt-x");
    assert_eq!(
        m,
        "❌ Failed to stream from LLM.\nModel not found\n💡 Hints: Check --model (current: gpt-x) or set DEFAULT_MODEL in ~/.config/sgpt_rs/.sgptrc"
    );
    let m = format_stream_error_message("Rate limit hit; hint: slow down", "m");
    assert_eq!(m, "❌ Failed to stream from LLM.\nRate limit hit; hint: slow down");
    let m = format_stream_error_message("boom", "m");
    assert_eq!(m, "❌ Failed to stream from LLM.\nboom");
    let long = "x".repeat(900);
    let m = format_stream_error_message(&long, "m");
    assert_eq!(m.chars().count(), "❌ Failed to stream from LLM.\n".chars().count() + 800);
    let m = format_stream_error_message("quota exceeded for image input", "m");
    assert!(m.contains("rate limited; retry later or reduce concurrency; Your provider may not support images"));
}

#[test]
fn vars_reply_routes_to_variables_display() {
    let line = r#"{"id":"vars-3","result":{"success":true,"output":"","errors":[],"variables":{"x":"int"}}}"#;
    match parse_interpreter_line(line) {
        Some(InterpreterOutput::Variables(t)) => assert_eq!(t, "Variables:\n- x: int\n"),
        other => panic!("unexpected {:?}", other),
    }
    let line = r#"{"id":"vars-4","result":{"success":true,"variables":{"b":"str","a":"DataFrame(2x3)"}}}"#;
    match parse_interpreter_line(line) {
        Some(InterpreterOutput::Variables(t)) => {
            assert_eq!(t, "Variables:\n- a: DataFrame(2x3)\n- b: str\n")
        }
        other => panic!("unexpected {:?}", other),
    }
    let line = r#"{"id":"vars-5","result":{"success":true,"variables":{}}}"#;
    match parse_interpreter_line(line) {
        Some(InterpreterOutput::Variables(t)) => assert_eq!(t, "Variables:\n(none)\n"),
        other => panic!("unexpected {:?}", other),
    }
}

#[test]
fn execution_replies_and_malformed_lines() {
    let line = r#"  {"id":"req-1","result":{"success":false,"output":"hi\n","errors":["Trace",7]}}  "#;
    match parse_interpreter_line(line) {
        Some(InterpreterOutput::CodeResult(r)) => {
            assert!(!r.success);
            assert_eq!(r.output, "hi\n");
            assert_eq!(r.errors, vec!["Trace".to_string()]);
            assert_eq!(format_code_result(&r), "hi\n\nTrace");
        }
        other => panic!("unexpected {:?}", other),
    }
    match parse_interpreter_line(r#"{"id":"req-2","error":{"message":"unknown_method"}}"#) {
        Some(InterpreterOutput::CodeResult(r)) => {
            assert_eq!(r.errors, vec!["unknown_method".to_string()]);
            assert!(!r.success);
        }
        other => panic!("unexpected {:?}", other),
    }
    match parse_interpreter_line(r#"{"id":"req-3"}"#) {
        Some(InterpreterOutput::CodeResult(r)) => {
            assert_eq!(r.errors, vec!["invalid_response".to_string()])
        }
        other => panic!("unexpected {:?}", other),
    }
    assert!(parse_interpreter_line("not json").is_none());
    assert!(parse_interpreter_line("   ").is_none());
}

#[test]
fn code_result_text_variants() {
    let ok = ExecutionResult {
        success: true,
        output: String::new(),
        errors: vec![],
        variables: vec![],
        plots: vec![],
    };
    assert_eq!(format_code_result(&ok), "(ok)");
    let errs = ExecutionResult {
        success: false,
        output: String::new(),
        errors: vec!["a".to_string(), "b".to_string()],
        variables: vec![],
        plots: vec![],
    };
    assert_eq!(format_code_result(&errs), "a\nb");
}

#[test]
fn request_lines() {
    assert_eq!(request_id("req-", 12), "req-12");
    assert_eq!(
        execute_request("req-1", "print(\"a\")\n"),
        "{\"id\":\"req-1\",\"method\":\"execute\",\"params\":{\"capture_output\":true,\"code\":\"print(\\\"a\\\")\\n\"}}\n"
    );
    assert_eq!(vars_request("vars-2"), "{\"id\":\"vars-2\",\"method\":\"vars\",\"params\":{}}\n");
}

#[test]
fn code_fences_are_stripped() {
    assert_eq!(sanitize_generated_code("```python\nx = 1\r\nprint(x)\n```\nrest"), "x = 1\nprint(x)\n");
    assert_eq!(sanitize_generated_code("  print(1)  \n"), "print(1)");
    assert_eq!(sanitize_generated_code("```\nno close"), "no close\n");
}

#[test]
fn interpreter_events_write_requests_with_growing_ids() {
    let mut app = App::new(
        "temp".to_string(),
        vec![],
        false,
        false,
        "m".to_string(),
        Some(InterpreterType::Python),
    );
    let e = handle_event(
        &mut app,
        SessionEvent::ExecuteCode { language: InterpreterType::Python, code: "```\n1+1\n```".to_string() },
        true,
    );
    match &e[0] {
        Effect::WriteInterpreter(line) => assert_eq!(
            line,
            "{\"id\":\"req-1\",\"method\":\"execute\",\"params\":{\"capture_output\":true,\"code\":\"1+1\\n\"}}\n"
        ),
        _ => panic!("expected a request"),
    }
    let e = handle_event(&mut app, SessionEvent::ShowVariables, true);
    match &e[0] {
        Effect::WriteInterpreter(line) => {
            assert_eq!(line, "{\"id\":\"vars-2\",\"method\":\"vars\",\"params\":{}}\n")
        }
        _ => panic!("expected a request"),
    }
    let e = handle_event(
        &mut app,
        SessionEvent::ExecuteCode { language: InterpreterType::Python, code: "x".to_string() },
        false,
    );
    assert!(e.is_empty());
    assert_eq!(app.messages.last().unwrap().get_text(), "Interpreter not initialized");
    handle_event(
        &mut app,
        SessionEvent::ExecuteCode { language: InterpreterType::R, code: "x".to_string() },
        true,
    );
    assert_eq!(app.messages.last().unwrap().get_text(), "R interpreter is not yet implemented");
    let e = handle_event(&mut app, SessionEvent::UserInput("make a plot".to_string()), true);
    match &e[0] {
        Effect::StartStream(ms) => {
            assert_eq!(ms[0].role, Role::System);
            assert!(ms[0].get_text().starts_with("You are a Python code generator."));
        }
        _ => panic!("expected a stream"),
    }
}

#[test]
fn describe_with_fake_model_and_streaming_description() {
    let mut app = App::new("temp".to_string(), vec![], true, true, "fake".to_string(), None);
    handle_event(&mut app, SessionEvent::DescribeCommand("git status".to_string()), false);
    match &app.popup_state {
        PopupState::Description { command, description } => {
            assert_eq!(command, "git status");
            assert!(description.starts_with("Show the working tree status."));
        }
        other => panic!("unexpected {:?}", other),
    }
    let mut app = chat_app();
    let e = handle_event(&mut app, SessionEvent::DescribeCommand("ls".to_string()), false);
    assert!(matches!(&e[0], Effect::DescribeStream(c) if c == "ls"));
    assert!(matches!(&app.popup_state, PopupState::StreamingDescription { is_loading: true, .. }));
    handle_event(&mut app, SessionEvent::DescriptionContent("Lists".to_string()), false);
    handle_event(&mut app, SessionEvent::DescriptionContent(" files".to_string()), false);
    match &app.popup_state {
        PopupState::StreamingDescription { current_description, is_loading, .. } => {
            assert_eq!(current_description, "Lists files");
            assert!(!is_loading);
        }
        other => panic!("unexpected {:?}", other),
    }
    handle_event(&mut app, SessionEvent::DescriptionStreamFinished, false);
    assert!(matches!(&app.popup_state, PopupState::Description { description, .. } if description == "Lists files"));
    let r = handle_key_event(&mut app, key(KeyCode::Char('x')), 0);
    assert!(!r.quit);
    assert!(matches!(app.popup_state, PopupState::Hidden));
    assert_eq!(app.input, "");
}

#[test]
fn fake_descriptions() {
    assert!(generate_fake_command_description("LS -la").starts_with("List directory contents."));
    assert!(generate_fake_command_description("sudo apt install x").starts_with("Package management"));
    assert!(generate_fake_command_description("foo").starts_with("Command: foo\n\nThis is a fake description"));
}

#[test]
fn shortcuts_replay_last_command() {
    let mut app = App::new("temp".to_string(), vec![], true, true, "m".to_string(), None);
    app.last_command = "ls -la".to_string();
    app.input = " e ".to_string();
    let r = handle_key_event(&mut app, key(KeyCode::Enter), 0);
    assert!(!r.quit);
    assert!(matches!(r.send, Some(SessionEvent::ExecuteCommand(ref c)) if c == "ls -la"));
    assert_eq!(app.input, "");

    app.input = "d".to_string();
    let r = handle_key_event(&mut app, ctrl('s'), 0);
    assert!(matches!(r.send, Some(SessionEvent::DescribeCommand(ref c)) if c == "ls -la"));

    app.input = "p".to_string();
    let r = handle_key_event(&mut app, key(KeyCode::Enter), 0);
    assert!(r.send.is_none());
    assert!(matches!(&app.popup_state, PopupState::Description { command, description } if command == "Last Command" && description == "ls -la"));

    let mut chat = chat_app();
    chat.last_command = "ls".to_string();
    chat.input = "e".to_string();
    let r = handle_key_event(&mut chat, key(KeyCode::Enter), 0);
    assert!(matches!(r.send, Some(SessionEvent::UserInput(ref s)) if s == "e"));
    assert_eq!(chat.input_history, vec!["e".to_string()]);
}

#[test]
fn submit_exit_and_blank() {
    let mut app = chat_app();
    app.input = " exit() ".to_string();
    let r = handle_key_event(&mut app, key(KeyCode::Enter), 0);
    assert!(r.quit);
    let mut app = chat_app();
    app.input = "   ".to_string();
    let r = handle_key_event(&mut app, key(KeyCode::Enter), 0);
    assert!(!r.quit);
    assert!(r.send.is_none());
    assert_eq!(app.input, "");
}

#[test]
fn large_paste_round_trips_through_submit() {
    let mut app = chat_app();
    let text: String = "0123456789".repeat(25);
    app_paste_text(&mut app, &text);
    assert_eq!(app.input, "[Pasted Content 250 chars]");
    assert_eq!(app.input_cursor, 26);
    assert_eq!(app.pending_pastes.len(), 1);
    let r = handle_key_event(&mut app, key(KeyCode::Enter), 0);
    assert!(matches!(r.send, Some(SessionEvent::UserInput(ref s)) if *s == text));
    assert!(app.pending_pastes.is_empty());
}

#[test]
fn medium_and_small_pastes() {
    let mut app = chat_app();
    app_paste_text(&mut app, "short");
    assert_eq!(app.input, "short");
    assert!(app.pending_pastes.is_empty());
    let medium = "a".repeat(60);
    app_paste_text(&mut app, &medium);
    assert_eq!(app.input, format!("short{}... [60 chars total]", "a".repeat(50)));
    assert_eq!(app.pending_pastes.len(), 1);
    let mut app = chat_app();
    let lines = format!("first line\n{}", "b".repeat(60));
    app_paste_text(&mut app, &lines);
    assert_eq!(app.input, "first line... (+1 lines)... [71 chars total]");
}

#[test]
fn multiline_paste_in_both_modes() {
    let mut app = chat_app();
    app_paste_text(&mut app, "one\ntwo\nthree");
    assert_eq!(app.input_mode, InputMode::MultiLine);
    assert_eq!(app.multiline_buffer, vec!["one".to_string(), "two".to_string()]);
    assert_eq!(app.input, "three");
    assert_eq!(app.input_cursor, 5);
    app.input_cursor = 2;
    app_paste_text(&mut app, "X\nY\nZ");
    assert_eq!(
        app.multiline_buffer,
        vec!["one".to_string(), "two".to_string(), "thX".to_string(), "Y".to_string()]
    );
    assert_eq!(app.input, "Zree");
    assert_eq!(app.input_cursor, 1);
    assert_eq!(app.get_input_text(), "one\ntwo\nthX\nY\nZree");
}

#[test]
fn key_bindings() {
    assert_eq!(key_action(&ctrl('c'), false, InputMode::Normal), KeyAction::Cancel);
    assert_eq!(key_action(&ctrl('c'), true, InputMode::Normal), KeyAction::DismissPopup);
    assert_eq!(key_action(&key(KeyCode::Up), false, InputMode::Normal), KeyAction::HistoryPrev);
    assert_eq!(key_action(&key(KeyCode::Up), false, InputMode::MultiLine), KeyAction::ScrollUp);
    assert_eq!(key_action(&ctrl('x'), false, InputMode::Normal), KeyAction::Ignore);
    assert_eq!(key_action(&key(KeyCode::Char('q')), false, InputMode::Normal), KeyAction::Insert('q'));
    let shift_enter = KeyInput { code: KeyCode::Enter, ctrl: false, alt: false, shift: true };
    assert_eq!(key_action(&shift_enter, false, InputMode::Normal), KeyAction::NewLine);
}

#[test]
fn cancel_keys_within_and_outside_the_window() {
    let mut app = chat_app();
    app.input = "abc".to_string();
    assert!(!handle_key_event(&mut app, ctrl('c'), 10_000).quit);
    assert_eq!(app.input, "");
    assert!(handle_key_event(&mut app, ctrl('c'), 10_100).quit);

    let mut app = chat_app();
    app.input = "abc".to_string();
    assert!(!handle_key_event(&mut app, ctrl('c'), 10_000).quit);
    app.input = "def".to_string();
    assert!(!handle_key_event(&mut app, ctrl('c'), 10_600).quit);
    assert_eq!(app.input, "");
}

#[test]
fn ctrl_d_quits_only_on_empty_composer() {
    let mut app = chat_app();
    app.input = "ab".to_string();
    app.input_cursor = 0;
    assert!(!handle_key_event(&mut app, ctrl('d'), 0).quit);
    assert_eq!(app.input, "b");
    app.input = "  ".to_string();
    assert!(handle_key_event(&mut app, ctrl('d'), 0).quit);
}

#[test]
fn newline_and_multiline_toggle() {
    let mut app = chat_app();
    for c in "ab".chars() {
        handle_key_event(&mut app, key(KeyCode::Char(c)), 0);
    }
    handle_key_event(&mut app, ctrl('j'), 0);
    assert_eq!(app.multiline_buffer, vec!["ab".to_string()]);
    assert_eq!(app.input_mode, InputMode::MultiLine);
    handle_key_event(&mut app, key(KeyCode::Char('é')), 0);
    handle_key_event(&mut app, ctrl('m'), 0);
    assert_eq!(app.input, "ab\né");
    assert_eq!(app.input_cursor, 4);
    assert_eq!(app.input_mode, InputMode::Normal);
}

#[test]
fn command_output_texts() {
    let ok = CommandRun::Finished { success: true, code: Some(0), stdout: String::new(), stderr: String::new() };
    assert_eq!(format_command_output(&ok), "Command executed successfully (no output)");
    let out = CommandRun::Finished { success: true, code: Some(0), stdout: "x\n".to_string(), stderr: String::new() };
    assert_eq!(format_command_output(&out), "x\n");
    let both = CommandRun::Finished { success: true, code: Some(0), stdout: "o".to_string(), stderr: "e".to_string() };
    assert_eq!(format_command_output(&both), "STDOUT:\no\n\nSTDERR:\ne");
    let fail = CommandRun::Finished { success: false, code: Some(-2), stdout: "o".to_string(), stderr: "e".to_string() };
    assert_eq!(format_command_output(&fail), "Command failed with exit code: -2\n\nSTDOUT:\no\n\nSTDERR:\ne");
    let killed = CommandRun::Finished { success: false, code: None, stdout: String::new(), stderr: String::new() };
    assert_eq!(format_command_output(&killed), "Command failed with exit code: -1\n\nSTDOUT:\n\n\nSTDERR:\n");
    let failed = CommandRun::FailedToStart("not found".to_string());
    assert_eq!(format_command_output(&failed), "Failed to execute command: not found");
}

#[test]
fn shell_programs_by_platform() {
    let (p, a) = shell_invocation("ls", false, "", "", Some("/bin/zsh"));
    assert_eq!(p, "/bin/zsh");
    assert_eq!(a, vec!["-c".to_string(), "ls".to_string()]);
    let (p, _) = shell_invocation("ls", false, "", "", None);
    assert_eq!(p, "/bin/sh");
    let (p, a) = shell_invocation("dir", true, "PowerShell", "", None);
    assert_eq!(p, "powershell.exe");
    assert_eq!(a.len(), 4);
    let (p, a) = shell_invocation("dir", true, "CMD", "x", None);
    assert_eq!(p, "cmd.exe");
    assert_eq!(a, vec!["/c".to_string(), "dir".to_string()]);
    let (p, _) = shell_invocation("dir", true, "", "C:\\ps", None);
    assert_eq!(p, "powershell.exe");
}

#[test]
fn cancel_drops_stale_pastes_so_next_paste_is_sent() {
    let mut app = chat_app();
    let a = "A".repeat(300);
    let b = "B".repeat(300);
    app_paste_text(&mut app, &a);
    assert_eq!(app.pending_pastes.len(), 1);
    assert!(!handle_key_event(&mut app, ctrl('c'), 1_000).quit);
    assert!(app.pending_pastes.is_empty());
    app_paste_text(&mut app, &b);
    let r = handle_key_event(&mut app, key(KeyCode::Enter), 5_000);
    assert!(matches!(r.send, Some(SessionEvent::UserInput(ref s)) if *s == b));
}

#[test]
fn clear_input_drops_pending_pastes() {
    let mut app = chat_app();
    app_paste_text(&mut app, &"z".repeat(210));
    app.clear_input();
    assert!(app.pending_pastes.is_empty());
    assert_eq!(app.input, "");
}

#[test]
fn normal_mode_paste_with_newlines_keeps_current_line() {
    let mut app = chat_app();
    app.input = "abcd".to_string();
    app.input_cursor = 2;
    app_paste_text(&mut app, "X\nY");
    assert_eq!(app.input_mode, InputMode::MultiLine);
    assert_eq!(app.multiline_buffer, vec!["abX".to_string()]);
    assert_eq!(app.input, "Ycd");
    assert_eq!(app.input_cursor, 1);
}

#[test]
fn stream_end_saves_reply_and_last_command() {
    let mut app = App::new("s1".to_string(), vec![], true, true, "m".to_string(), None);
    handle_event(&mut app, SessionEvent::UserInput("list files".to_string()), false);
    handle_event(&mut app, SessionEvent::Stream(StreamEvent::Content(" ls -la ".to_string())), false);
    let e = handle_event(&mut app, SessionEvent::Stream(StreamEvent::Done), false);
    assert!(matches!(e[0], Effect::Persist));
    assert!(matches!(e[1], Effect::ProcessNext));
    let last = app.messages.last().unwrap();
    assert_eq!(last.role, Role::Assistant);
    assert_eq!(last.get_text(), " ls -la ");
    assert_eq!(app.last_command, "ls -la");
}

#[test]
fn variables_snapshot_becomes_an_assistant_message() {
    let mut app = chat_app();
    let line = r#"{"id":"vars-3","result":{"success":true,"output":"","errors":[],"variables":{"x":"int"}}}"#;
    let text = match parse_interpreter_line(line) {
        Some(InterpreterOutput::Variables(t)) => t,
        other => panic!("unexpected {:?}", other),
    };
    handle_event(&mut app, SessionEvent::VariablesSnapshot(text), false);
    assert_eq!(app.messages.last().unwrap().get_text(), "Variables:\n- x: int\n");
}

#[test]
fn relay_sends_one_completion() {
    let mut relay = StreamRelay::new("gpt-4o".to_string());
    let out = relay.relay(StreamItem::Event(StreamEvent::Content("a".to_string())));
    assert!(matches!(out.as_slice(), [StreamEvent::Content(c)] if c == "a"));
    let out = relay.relay(StreamItem::Failed("401 Unauthorized".to_string()));
    assert_eq!(out.len(), 2);
    assert!(matches!(&out[0], StreamEvent::Content(m) if m.contains("OPENAI_API_KEY")));
    assert!(matches!(out[1], StreamEvent::Done));
    assert!(relay.relay(StreamItem::Ended).is_empty());

    let mut relay = StreamRelay::new("m".to_string());
    assert_eq!(relay.relay(StreamItem::Event(StreamEvent::Done)).len(), 1);
    assert!(relay.relay(StreamItem::Ended).is_empty());
    let mut relay = StreamRelay::new("m".to_string());
    assert!(matches!(relay.relay(StreamItem::Ended).as_slice(), [StreamEvent::Done]));
}

#[test]
fn hints_chosen_from_lower_case_text() {
    let m = stream_error_message_from("X", "unauthorized", "m");
    assert!(m.ends_with("Hints: Set OPENAI_API_KEY in your env or add it to ~/.config/sgpt_rs/.sgptrc"));
    assert_eq!(stream_error_message_from("X", "nothing", "m"), "❌ Failed to stream from LLM.\nX");
}

#[test]
fn json_escapes_in_requests() {
    assert_eq!(
        vars_request("a\"b\\c\u{1}\t\u{7f}é"),
        "{\"id\":\"a\\\"b\\\\c\\u0001\\t\u{7f}é\",\"method\":\"vars\",\"params\":{}}\n"
    );
}

#[test]
fn shortcut_keeps_history_and_last_command() {
    let mut app = App::new("temp".to_string(), vec![], true, true, "m".to_string(), None);
    app.push_history("earlier".to_string());
    app.last_command = "ls".to_string();
    app.input = "r".to_string();
    let r = handle_key_event(&mut app, key(KeyCode::Enter), 0);
    assert!(matches!(r.send, Some(SessionEvent::ExecuteCommand(ref c)) if c == "ls"));
    assert_eq!(app.input_history, vec!["earlier".to_string()]);
    assert_eq!(app.last_command, "ls");
}
