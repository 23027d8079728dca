use sgpt_session::app::{App, InputMode};
use sgpt_session::message::{ChatMessage, Role};

fn new_empty_app() -> App {
    App::new(
        "test".to_string(),
        vec![ChatMessage::new(Role::System, "test".to_string())],
        false,
        false,
        "gpt-4o".to_string(),
        None,
    )
}

#[test]
fn cjk_insert_backspace_delete_are_safe() {
    let mut app = new_empty_app();

    app.insert_char('徐');
    app.insert_char('洲');
    app.insert_char('更');
    assert_eq!(app.input, "徐洲更");
    assert_eq!(app.input_cursor, 3);

    app.move_cursor_left();
    app.backspace();
    assert_eq!(app.input, "徐更");
    assert_eq!(app.input_cursor, 1);

    app.delete();
    assert_eq!(app.input, "徐");
    assert_eq!(app.input_cursor, 1);

    app.move_cursor_end();
    assert_eq!(app.input_cursor, app.input.chars().count());
}

#[test]
fn placeholder_submit_and_cleanup() {
    let mut app = new_empty_app();
    let placeholder = "[Pasted Content 1234 chars]".to_string();
    app.input = format!("foo {} bar", placeholder);
    app.input_cursor = app.input.chars().count();
    app.register_pending_paste(placeholder.clone(), "X".repeat(5));

    let expanded = app.expand_placeholders_for_submit();
    assert_eq!(expanded, format!("foo {} bar", "X".repeat(5)));
    assert!(app.pending_pastes.is_empty());

    app.cleanup_pending_pastes();
    assert!(app.pending_pastes.is_empty());
}

#[test]
fn el_nino_left_twice_then_delete_removes_one_character() {
    let mut app = new_empty_app();
    for c in "El Niño".chars() {
        app.insert_char(c);
    }
    assert_eq!(app.input_cursor, 7);
    app.move_cursor_left();
    app.move_cursor_left();
    assert_eq!(app.input_cursor, 5);
    app.delete();
    assert_eq!(app.input, "El Nio");
    assert_eq!(app.input.chars().count(), 6);
    assert_eq!(app.input_cursor, 5);
}

#[test]
fn cursor_stays_valid_over_mixed_edits() {
    let mut app = new_empty_app();
    let text = "añ😀e\u{301}z";
    for (i, c) in text.chars().enumerate() {
        app.insert_char(c);
        if i % 2 == 0 {
            app.move_cursor_left();
        }
        assert!(app.input_cursor <= app.input.chars().count());
    }
    for _ in 0..3 {
        app.delete();
        assert!(app.input_cursor <= app.input.chars().count());
        app.backspace();
        assert!(app.input_cursor <= app.input.chars().count());
    }
    for _ in 0..10 {
        app.backspace();
        app.delete();
    }
    assert_eq!(app.input, "");
    assert_eq!(app.input_cursor, 0);
}

#[test]
fn out_of_range_cursor_is_clamped() {
    let mut app = new_empty_app();
    app.input = "abc".to_string();
    app.input_cursor = 99;
    app.backspace();
    assert_eq!(app.input, "ab");
    assert_eq!(app.input_cursor, 2);
    app.input_cursor = 50;
    app.delete();
    assert_eq!(app.input, "ab");
    assert_eq!(app.input_cursor, 2);
    app.input_cursor = 70;
    app.insert_char('x');
    assert_eq!(app.input, "abx");
    assert_eq!(app.input_cursor, 3);
}

#[test]
fn backspace_at_placeholder_end_removes_whole_token() {
    let mut app = new_empty_app();
    let placeholder = "[Pasted Content 300 chars]".to_string();
    app.input = format!("ab{}", placeholder);
    app.input_cursor = app.input.chars().count();
    app.register_pending_paste(placeholder.clone(), "y".repeat(300));
    let before = app.input.chars().count();
    app.backspace();
    assert_eq!(app.input, "ab");
    assert_eq!(app.input.chars().count(), before - placeholder.chars().count());
    assert_eq!(app.input_cursor, 2);
    assert!(app.pending_pastes.is_empty());
}

#[test]
fn delete_at_placeholder_start_removes_whole_token() {
    let mut app = new_empty_app();
    let placeholder = "[Pasted Content 250 chars]".to_string();
    app.input = format!("{}cd", placeholder);
    app.input_cursor = 0;
    app.register_pending_paste(placeholder, "z".repeat(250));
    app.delete();
    assert_eq!(app.input, "cd");
    assert_eq!(app.input_cursor, 0);
    assert!(app.pending_pastes.is_empty());
}

#[test]
fn backspace_inside_placeholder_removes_one_char_and_drops_mapping() {
    let mut app = new_empty_app();
    let placeholder = "[Pasted Content 250 chars]".to_string();
    app.input = placeholder.clone();
    app.input_cursor = 3;
    app.register_pending_paste(placeholder, "z".repeat(250));
    app.backspace();
    assert_eq!(app.input, "[Psted Content 250 chars]");
    assert_eq!(app.input_cursor, 2);
    assert!(app.pending_pastes.is_empty());
}

#[test]
fn cleanup_twice_keeps_same_pastes() {
    let mut app = new_empty_app();
    app.input = "keep [A] here".to_string();
    app.register_pending_paste("[A]".to_string(), "alpha".to_string());
    app.register_pending_paste("[B]".to_string(), "beta".to_string());
    app.cleanup_pending_pastes();
    let once = app.pending_pastes.clone();
    assert_eq!(once, vec![("[A]".to_string(), "alpha".to_string())]);
    app.cleanup_pending_pastes();
    assert_eq!(app.pending_pastes, once);
}

#[test]
fn multiline_backspace_joins_previous_line() {
    let mut app = new_empty_app();
    app.input_mode = InputMode::MultiLine;
    app.multiline_buffer = vec!["first".to_string()];
    app.input = "second".to_string();
    app.input_cursor = 0;
    assert_eq!(app.get_input_text(), "first\nsecond");
    app.backspace();
    assert_eq!(app.input, "firstsecond");
    assert_eq!(app.input_cursor, 5);
    assert_eq!(app.input_mode, InputMode::Normal);
    assert!(app.multiline_buffer.is_empty());
}

#[test]
fn word_motions_and_deletions() {
    let mut app = new_empty_app();
    app.input = "foo_bar, baz qux".to_string();
    app.input_cursor = app.input.chars().count();
    app.move_cursor_word_left();
    assert_eq!(app.input_cursor, 13);
    app.move_cursor_word_left();
    assert_eq!(app.input_cursor, 9);
    app.move_cursor_word_left();
    assert_eq!(app.input_cursor, 7);
    app.move_cursor_word_right();
    assert_eq!(app.input_cursor, 8);
    app.input_cursor = 0;
    app.move_cursor_word_right();
    assert_eq!(app.input_cursor, 7);
    app.input_cursor = app.input.chars().count();
    app.delete_prev_word();
    assert_eq!(app.input, "foo_bar, baz ");
    app.input_cursor = 0;
    app.delete_next_word();
    assert_eq!(app.input, ", baz ");
    assert_eq!(app.input_cursor, 0);
}

#[test]
fn kill_to_line_start_and_end() {
    let mut app = new_empty_app();
    app.input = "héllo wörld".to_string();
    app.input_cursor = 5;
    app.kill_to_line_end();
    assert_eq!(app.input, "héllo");
    app.input_cursor = 2;
    app.kill_to_line_start();
    assert_eq!(app.input, "llo");
    assert_eq!(app.input_cursor, 0);
}

#[test]
fn history_walks_and_deduplicates() {
    let mut app = new_empty_app();
    app.push_history("one".to_string());
    app.push_history("one".to_string());
    app.push_history("   ".to_string());
    app.push_history("two".to_string());
    assert_eq!(app.input_history, vec!["one".to_string(), "two".to_string()]);
    app.history_prev();
    assert_eq!(app.input, "two");
    assert_eq!(app.input_cursor, 3);
    app.history_prev();
    assert_eq!(app.input, "one");
    app.history_prev();
    assert_eq!(app.input, "one");
    assert_eq!(app.history_index, Some(0));
    app.history_next();
    assert_eq!(app.input, "two");
    app.history_next();
    assert_eq!(app.input, "");
    assert_eq!(app.history_index, None);
}

#[test]
fn expand_inline_moves_cursor_and_spreads_lines() {
    let mut app = new_empty_app();
    app.input = "x [P] y".to_string();
    app.input_cursor = 7;
    app.register_pending_paste("[P]".to_string(), "12345".to_string());
    assert!(app.expand_placeholders_inline());
    assert_eq!(app.input, "x 12345 y");
    assert_eq!(app.input_cursor, 7);
    assert!(app.pending_pastes.is_empty());

    let mut app = new_empty_app();
    app.input = "a[Q]".to_string();
    app.register_pending_paste("[Q]".to_string(), "b\nc".to_string());
    assert!(app.expand_placeholders_inline());
    assert_eq!(app.multiline_buffer, vec!["ab".to_string()]);
    assert_eq!(app.input, "c");
    assert_eq!(app.input_cursor, 1);
    assert_eq!(app.input_mode, InputMode::MultiLine);
    assert!(!app.expand_placeholders_inline());
}

#[test]
fn collapsed_paste_marker_is_expanded() {
    let mut app = new_empty_app();
    app.input = "see [pasted content 12 chars] now".to_string();
    assert!(!app.try_expand_collapsed_paste());
    app.store_collapsed_paste_content("hello world!".to_string());
    assert!(app.try_expand_collapsed_paste());
    assert_eq!(app.input, "see hello world! now");
    assert_eq!(app.input_cursor, 16);
    assert!(app.collapsed_paste_content.is_none());
}

#[test]
fn double_cancel_within_window_quits() {
    let mut app = new_empty_app();
    app.input = "draft".to_string();
    assert!(!app.handle_ctrl_c(1_000));
    assert_eq!(app.input, "");
    assert!(app.handle_ctrl_c(1_100));
}

#[test]
fn cancels_far_apart_only_clear_composer() {
    let mut app = new_empty_app();
    app.input = "draft".to_string();
    assert!(!app.handle_ctrl_c(1_000));
    assert_eq!(app.input, "");
    app.input = "again".to_string();
    app.input_cursor = 5;
    assert!(!app.handle_ctrl_c(1_600));
    assert_eq!(app.input, "");
    assert_eq!(app.input_cursor, 0);
}

#[test]
fn messages_are_capped_and_system_hidden() {
    let mut app = new_empty_app();
    app.max_display_messages = 3;
    for i in 0..5 {
        app.add_message(ChatMessage::new(Role::User, format!("m{}", i)));
    }
    assert_eq!(app.messages.len(), 3);
    assert_eq!(app.messages[0].get_text(), "m2");
    let mut app = new_empty_app();
    app.add_message(ChatMessage::new(Role::User, "hi".to_string()));
    let visible = app.visible_messages();
    assert_eq!(visible.len(), 1);
    assert_eq!(visible[0].get_text(), "hi");
}

#[test]
fn finish_response_records_artifact_in_shell_mode() {
    let mut app = App::new("s".to_string(), vec![], true, true, "m".to_string(), None);
    assert_eq!(app.status_message, "Shell REPL: e=execute, r=repeat, d=describe | ctrl+h help");
    app.start_response();
    app.append_response("  ls -la \n");
    assert!(app.is_receiving_response);
    app.finish_response();
    assert!(!app.is_receiving_response);
    assert_eq!(app.last_command, "ls -la");
    assert_eq!(app.messages.len(), 1);
    assert_eq!(app.messages[0].role, Role::Assistant);
    assert_eq!(app.current_response, "");
}
