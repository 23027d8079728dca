//! Decisions of the session's event loop: what a paste, a key, a stream
//! event or an interpreter reply does to the session, and what the loop must
//! do next. The loop itself (terminal, network, child process, timers) runs
//! outside the library and hands each event to these functions.
use vstd::prelude::*;
use crate::app::{
    effect_of_backspace, effect_of_delete, effect_of_delete_next_word, effect_of_delete_prev_word,
    effect_of_expand_placeholders_inline, effect_of_handle_ctrl_c, effect_of_history_next,
    effect_of_history_prev, effect_of_insert_char, effect_of_kill_to_line_end,
    effect_of_kill_to_line_start, effect_of_move_cursor_end, effect_of_move_cursor_home,
    effect_of_move_cursor_left, effect_of_move_cursor_right, effect_of_move_cursor_word_left,
    effect_of_move_cursor_word_right, effect_of_scroll_down, effect_of_scroll_up,
    effect_of_start_streaming_description, effect_of_append_description_content,
    effect_of_finish_streaming_description, effect_of_finish_response, App, InputMode, PopupState, pastes_view, session_same, kept,
    composed_text, expanded_text,
    status_text, status_with_queue, keep_last, popup_shown, DOUBLE_CTRL_C_TIMEOUT_MS, expand_n,
};
use crate::interp::{
    InterpreterType, ExecutionResult, format_code_result, request_id, execute_request,
    vars_request, sanitize_generated_code, result_model, code_result_text, execute_request_text,
    vars_request_text, sanitized,
};
use crate::message::{
    ChatMessage, Role, StreamEvent, text_message, content_text, same_message, copy_message,
};
use crate::text::{
    chars_of, string_of, slice_chars, extend_chars, push_str, push_decimal, decimal, owned,
    contains_char, split_chars, splits_into, views, first_line, line_count, first_line_of,
    count_lines, lower_of, lowercase, contains_seq, contains_str, join_sep, join_chars, occurs_at,
    find_in, replace_first,
    trimmed, trim_str, is_blank, is_blank_str, has_prefix, starts_with_str, join_lines,
    join_newline, join_newline_then,
};

verus! {

/// Pastes longer than this many characters show as a placeholder.
pub const LARGE_PASTE_CHAR_THRESHOLD: usize = 200;

/// Pastes longer than this many characters show as a shortened preview.
pub const MEDIUM_PASTE_CHAR_THRESHOLD: usize = 50;

/// Characters of an error text kept in a stream failure message.
pub const ERROR_SNIPPET_CHARS: usize = 800;

/// What the composer shows for pasted text: a placeholder that gives the
/// length of a large paste, a preview of a medium one, a short one as it is.
pub open spec fn paste_display(content: Seq<char>) -> Seq<char> {
    let n = content.len();
    if n > LARGE_PASTE_CHAR_THRESHOLD {
        "[Pasted Content "@ + decimal(n) + " chars]"@
    } else if n > MEDIUM_PASTE_CHAR_THRESHOLD {
        let preview = content.subrange(0, MEDIUM_PASTE_CHAR_THRESHOLD as int);
        let clean = if preview.contains('\n') {
            let fl = first_line(preview);
            if fl.len() < MEDIUM_PASTE_CHAR_THRESHOLD - 10 && line_count(content) > 1 {
                fl + "... (+"@ + decimal((line_count(content) - 1) as nat) + " lines)"@
            } else {
                fl
            }
        } else {
            preview
        };
        clean + "... ["@ + decimal(n) + " chars total]"@
    } else {
        content
    }
}

/// What the composer shows for pasted text.
pub fn paste_display_chars(content: &Vec<char>) -> (r: Vec<char>)
    ensures
        r@ == paste_display(content@),
{
    let n = content.len();
    if n > LARGE_PASTE_CHAR_THRESHOLD {
        let mut out: Vec<char> = Vec::new();
        push_str(&mut out, "[Pasted Content ");
        push_decimal(&mut out, n);
        push_str(&mut out, " chars]");
        out
    } else if n > MEDIUM_PASTE_CHAR_THRESHOLD {
        let preview = slice_chars(content, 0, MEDIUM_PASTE_CHAR_THRESHOLD);
        let mut out = if contains_char(&preview, '\n') {
            let fl = first_line_of(&preview);
            let lines = count_lines(content);
            if fl.len() < MEDIUM_PASTE_CHAR_THRESHOLD - 10 && lines > 1 {
                let mut o = fl;
                push_str(&mut o, "... (+");
                push_decimal(&mut o, lines - 1);
                push_str(&mut o, " lines)");
                o
            } else {
                fl
            }
        } else {
            preview
        };
        push_str(&mut out, "... [");
        push_decimal(&mut out, n);
        push_str(&mut out, " chars total]");
        out
    } else {
        slice_chars(content, 0, n)
    }
}

/// Session `b` is session `a` after pasting `content`.
pub open spec fn pasted(a: App, content: Seq<char>, b: App) -> bool {
    let t = paste_display(content);
    let s = a.input@;
    let c = crate::app::cursor_of(a);
    let ob = views(a.multiline_buffer@);
    let fb = views(b.multiline_buffer@);
    &&& pastes_view(b.pending_pastes@) == kept(
        if content.len() > MEDIUM_PASTE_CHAR_THRESHOLD {
            pastes_view(a.pending_pastes@).push((t, content))
        } else {
            pastes_view(a.pending_pastes@)
        },
        composed_text(b),
    )
    &&& if !t.contains('\n') {
        &&& b.input@ == s.subrange(0, c) + t + s.subrange(c, s.len() as int)
        &&& b.input_cursor == c + t.len()
        &&& b.input_mode == a.input_mode
        &&& b.multiline_buffer == a.multiline_buffer
    } else {
        exists|p: Seq<Seq<char>>|
            {
                &&& splits_into(t, '\n', p)
                &&& p.len() >= 2
                &&& fb == ob.push(s.subrange(0, c) + p[0]) + p.subrange(
                    1,
                    p.len() - 1,
                )
                &&& b.input@ == p.last() + s.subrange(c, s.len() as int)
                &&& b.input_cursor == p.last().len()
                &&& b.input_mode == InputMode::MultiLine
            }
    }
    &&& session_same(a, b)
}

/// Inserts pasted text at the cursor. A paste longer than
/// `MEDIUM_PASTE_CHAR_THRESHOLD` is shown shortened and its full text kept in
/// the pending pastes under the shown text; as after any edit, pastes whose
/// placeholder is gone from the composer are dropped. Shown text that holds newlines
/// switches the composer to multi-line mode, with its lines spliced in at the
/// cursor.
pub fn app_paste_text(app: &mut App, content: &str)
    ensures
        pasted(*old(app), content@, *final(app)),
{
    let cs = chars_of(content);
    let n = cs.len();
    let shown = paste_display_chars(&cs);
    if n > MEDIUM_PASTE_CHAR_THRESHOLD {
        let ghost before = app.pending_pastes@;
        app.register_pending_paste(string_of(&shown), owned(content));
        proof {
            assert(pastes_view(app.pending_pastes@) =~= pastes_view(before).push(
                (shown@, content@),
            ));
        }
    }
    let line = chars_of(app.input.as_str());
    let len = line.len();
    let cur: usize = if app.input_cursor <= len {
        app.input_cursor
    } else {
        len
    };
    if !contains_char(&shown, '\n') {
        let mut out = slice_chars(&line, 0, cur);
        extend_chars(&mut out, &shown);
        let cursor = out.len();
        let tail = slice_chars(&line, cur, len);
        extend_chars(&mut out, &tail);
        app.input = string_of(&out);
        app.input_cursor = cursor;
        app.cleanup_pending_pastes();
        return;
    }
    let parts = split_chars(&shown, '\n');
    let ghost pv = parts@.map_values(|v: Vec<char>| v@);
    let k = parts.len();
    proof {
        if k == 1 {
            assert(pv[0] == shown@);
            assert(pv[0].contains('\n') == false);
        }
    }
    let ghost ob = views(app.multiline_buffer@);
    app.input_mode = InputMode::MultiLine;
    let mut first = slice_chars(&line, 0, cur);
    extend_chars(&mut first, &parts[0]);
    app.multiline_buffer.push(string_of(&first));
    proof {
        assert(views(app.multiline_buffer@) =~= ob.push(first@));
    }
    let mut i: usize = 1;
    while i < k - 1
        invariant
            k == parts@.len(),
            k >= 2,
            1 <= i <= k - 1,
            pv == parts@.map_values(|v: Vec<char>| v@),
            views(app.multiline_buffer@) == ob.push(first@) + pv.subrange(1, i as int),
            session_same(*old(app), *app),
            app.input_mode == InputMode::MultiLine,
            pastes_view(app.pending_pastes@) == if content@.len()
                > MEDIUM_PASTE_CHAR_THRESHOLD {
                pastes_view(old(app).pending_pastes@).push((shown@, content@))
            } else {
                pastes_view(old(app).pending_pastes@)
            },
        decreases k - 1 - i,
    {
        let ghost before = app.multiline_buffer@;
        app.multiline_buffer.push(string_of(&parts[i]));
        proof {
            assert(views(app.multiline_buffer@) =~= views(before).push(pv[i as int]));
            assert(pv.subrange(1, i + 1) =~= pv.subrange(1, i as int).push(
                pv[i as int],
            ));
        }
        i += 1;
    }
    let mut last = slice_chars(&parts[k - 1], 0, parts[k - 1].len());
    let cursor = last.len();
    let tail = slice_chars(&line, cur, len);
    extend_chars(&mut last, &tail);
    app.input = string_of(&last);
    app.input_cursor = cursor;
    proof {
        assert(parts@[k - 1]@.subrange(0, parts@[k - 1]@.len() as int) =~= parts@[k
            - 1]@);
        assert(pv.last() == parts@[k - 1]@);
        assert(pv[0] == parts@[0]@);
        assert(views(app.multiline_buffer@) =~= ob.push(line@.subrange(0, cur as int)
            + pv[0]) + pv.subrange(1, pv.len() - 1));
    }
    app.cleanup_pending_pastes();
}

// ---------------------------------------------------------------------------
// Stream failures
// ---------------------------------------------------------------------------

/// Hints for a failed stream, chosen by what its lower-cased error text holds.
pub open spec fn error_hints(lower: Seq<char>, model: Seq<char>) -> Seq<Seq<char>> {
    let h1 = if contains_seq(lower, "401"@) || contains_seq(lower, "unauthorized"@) || contains_seq(
        lower,
        "api key"@,
    ) {
        seq!["Set OPENAI_API_KEY in your env or add it to ~/.config/sgpt_rs/.sgptrc"@]
    } else {
        Seq::empty()
    };
    let h2 = if (contains_seq(lower, "model"@) && (contains_seq(lower, "not found"@)
        || contains_seq(lower, "unknown"@) || contains_seq(lower, "invalid"@))) || contains_seq(
        lower,
        "unknown model"@,
    ) {
        h1.push(
            "Check --model (current: "@ + model
                + ") or set DEFAULT_MODEL in ~/.config/sgpt_rs/.sgptrc"@,
        )
    } else {
        h1
    };
    let h3 = if contains_seq(lower, "rate limit"@) || contains_seq(lower, "quota"@) {
        h2.push("You may be rate limited; retry later or reduce concurrency"@)
    } else {
        h2
    };
    if contains_seq(lower, "multimodal"@) || contains_seq(lower, "vision"@) || contains_seq(
        lower,
        "image"@,
    ) {
        h3.push(
            "Your provider may not support images/vision for this endpoint; try without image options or use a vision-capable model"@,
        )
    } else {
        h3
    }
}

/// The message shown when a stream fails: a header, the start of the error
/// text, and hints unless the error text already gives one.
pub open spec fn stream_error_text(err: Seq<char>, model: Seq<char>) -> Seq<char> {
    stream_error_from(err, lower_of(err), model)
}

/// The failure message for error text `err` whose lower-case form is `lower`.
pub open spec fn stream_error_from(err: Seq<char>, lower: Seq<char>, model: Seq<char>) -> Seq<
    char,
> {
    let snippet = if err.len() <= ERROR_SNIPPET_CHARS {
        err
    } else {
        err.subrange(0, ERROR_SNIPPET_CHARS as int)
    };
    let head = "❌ Failed to stream from LLM.\n"@ + snippet;
    let hints = error_hints(lower, model);
    if contains_seq(lower, "hint:"@) || hints.len() == 0 {
        head
    } else {
        head + "\n💡 Hints: "@ + join_sep(hints, "; "@)
    }
}

/// The message shown when a stream fails.
pub fn format_stream_error_message(err_text: &str, model: &str) -> (r: String)
    ensures
        r@ == stream_error_text(err_text@, model@),
{
    let lower = lowercase(err_text);
    stream_error_message_from(err_text, lower.as_str(), model)
}

/// The message shown when a stream fails, given the error text's lower-case
/// form, which chooses the hints.
pub fn stream_error_message_from(err_text: &str, lower: &str, model: &str) -> (r: String)
    ensures
        r@ == stream_error_from(err_text@, lower@, model@),
{
    let mut msg: Vec<char> = Vec::new();
    push_str(&mut msg, "❌ Failed to stream from LLM.\n");
    let err = chars_of(err_text);
    let take: usize = if err.len() <= ERROR_SNIPPET_CHARS {
        err.len()
    } else {
        ERROR_SNIPPET_CHARS
    };
    let snippet = slice_chars(&err, 0, take);
    proof {
        assert(err@.subrange(0, err@.len() as int) =~= err@);
    }
    extend_chars(&mut msg, &snippet);
    let l = lower;
    if contains_str(l, "hint:") {
        return string_of(&msg);
    }
    let mut hints: Vec<Vec<char>> = Vec::new();
    let ghost lv = lower@;
    if contains_str(l, "401") || contains_str(l, "unauthorized") || contains_str(l, "api key") {
        hints.push(chars_of("Set OPENAI_API_KEY in your env or add it to ~/.config/sgpt_rs/.sgptrc"));
    }
    if (contains_str(l, "model") && (contains_str(l, "not found") || contains_str(l, "unknown")
        || contains_str(l, "invalid"))) || contains_str(l, "unknown model") {
        let mut h = chars_of("Check --model (current: ");
        push_str(&mut h, model);
        push_str(&mut h, ") or set DEFAULT_MODEL in ~/.config/sgpt_rs/.sgptrc");
        hints.push(h);
    }
    if contains_str(l, "rate limit") || contains_str(l, "quota") {
        hints.push(chars_of("You may be rate limited; retry later or reduce concurrency"));
    }
    if contains_str(l, "multimodal") || contains_str(l, "vision") || contains_str(l, "image") {
        hints.push(
            chars_of(
                "Your provider may not support images/vision for this endpoint; try without image options or use a vision-capable model",
            ),
        );
    }
    proof {
        assert(hints@.map_values(|v: Vec<char>| v@) =~= error_hints(lv, model@));
    }
    if hints.len() > 0 {
        push_str(&mut msg, "\n💡 Hints: ");
        let joined = join_chars(&hints, "; ");
        extend_chars(&mut msg, &joined);
    }
    string_of(&msg)
}

/// What a streaming task hands the loop when its stream fails: one content
/// event with the failure message, then the end of the stream.
pub fn stream_failure_events(err_text: &str, model: &str) -> (r: Vec<StreamEvent>)
    ensures
        r@.len() == 2,
        r@[0] matches StreamEvent::Content(m) && m@ == stream_error_text(err_text@, model@),
        r@[1] matches StreamEvent::Done,
{
    let mut r: Vec<StreamEvent> = Vec::new();
    r.push(StreamEvent::Content(format_stream_error_message(err_text, model)));
    r.push(StreamEvent::Done);
    r
}

/// What a streaming task gets from its completion stream.
#[derive(Debug, Clone)]
pub enum StreamItem {
    /// An event of the stream.
    Event(StreamEvent),
    /// The stream failed with this error text.
    Failed(String),
    /// The stream ended.
    Ended,
}

/// A streaming task: it forwards the events of one completion stream to the
/// loop, turns a failure into a message, and sends exactly one `Done`.
#[derive(Debug, Clone)]
pub struct StreamRelay {
    /// The model, named in failure messages.
    pub model: String,
    /// Whether `Done` was already sent.
    pub finished: bool,
}

/// The item ends the stream: its `Done`, a failure, or the stream's end.
pub open spec fn terminal(item: StreamItem) -> bool {
    match item {
        StreamItem::Event(StreamEvent::Done) => true,
        StreamItem::Event(_) => false,
        _ => true,
    }
}

/// Number of `Done` events among `s`.
pub open spec fn done_count(s: Seq<StreamEvent>) -> nat
    decreases s.len(),
{
    if s.len() == 0 {
        0
    } else {
        done_count(s.drop_last()) + if s.last() is Done {
            1nat
        } else {
            0nat
        }
    }
}

/// `Done` events a relay sends for `item`, and whether it is finished after.
pub open spec fn step_dones(finished: bool, item: StreamItem) -> nat {
    if !finished && terminal(item) {
        1
    } else {
        0
    }
}

/// `Done` events a relay sends for a run of items.
pub open spec fn run_dones(finished: bool, items: Seq<StreamItem>) -> nat
    decreases items.len(),
{
    if items.len() == 0 {
        0
    } else {
        step_dones(finished, items[0]) + run_dones(finished || terminal(items[0]), items.drop_first())
    }
}

/// Whatever a stream yields, its relay sends one `Done` once the stream has
/// ended, failed or sent its own `Done`, and never a second one.
pub proof fn lemma_one_completion(finished: bool, items: Seq<StreamItem>)
    ensures
        finished ==> run_dones(finished, items) == 0,
        !finished ==> run_dones(finished, items) == if exists|i: int|
            0 <= i < items.len() && terminal(#[trigger] items[i]) {
            1nat
        } else {
            0nat
        },
    decreases items.len(),
{
    if items.len() > 0 {
        let rest = items.drop_first();
        lemma_one_completion(finished || terminal(items[0]), rest);
        if !finished {
            if terminal(items[0]) {
                assert(0 <= 0 < items.len() && terminal(items[0]));
            } else {
                assert forall|i: int| 0 <= i < items.len() && terminal(#[trigger] items[i]) implies
                    (0 <= i - 1 < rest.len() && terminal(rest[i - 1])) by {
                    assert(rest[i - 1] == items[i]);
                }
                assert forall|i: int| 0 <= i < rest.len() && terminal(#[trigger] rest[i]) implies
                    (0 <= i + 1 < items.len() && terminal(items[i + 1])) by {
                    assert(rest[i] == items[i + 1]);
                }
            }
        }
    }
}

impl StreamRelay {
    /// A relay for a new stream.
    pub fn new(model: String) -> (r: Self)
        ensures
            r.model == model,
            !r.finished,
    {
        StreamRelay { model, finished: false }
    }

    /// What the loop gets for one item: an event as it is; for a failure, a
    /// message naming it and then `Done`; for the end of the stream, `Done`.
    /// Nothing once `Done` was sent.
    pub fn relay(&mut self, item: StreamItem) -> (r: Vec<StreamEvent>)
        ensures
            final(self).model == old(self).model,
            final(self).finished == (old(self).finished || terminal(item)),
            done_count(r@) == step_dones(old(self).finished, item),
            old(self).finished ==> r@.len() == 0,
            !old(self).finished ==> match item {
                StreamItem::Event(e) => r@ == seq![e],
                StreamItem::Failed(err) => r@.len() == 2 && (r@[0] matches StreamEvent::Content(m)
                    && m@ == stream_error_text(err@, old(self).model@)) && r@[1] is Done,
                StreamItem::Ended => r@.len() == 1 && r@[0] is Done,
            },
    {
        let mut out: Vec<StreamEvent> = Vec::new();
        if self.finished {
            return out;
        }
        match item {
            StreamItem::Event(e) => {
                let done = match &e {
                    StreamEvent::Done => true,
                    _ => false,
                };
                out.push(e);
                if done {
                    self.finished = true;
                }
                proof {
                    assert(out@.drop_last() =~= Seq::<StreamEvent>::empty());
                    assert(done_count(out@.drop_last()) == 0);
                }
            },
            StreamItem::Failed(err) => {
                out = stream_failure_events(err.as_str(), self.model.as_str());
                self.finished = true;
                proof {
                    let first = out@.drop_last();
                    assert(first.drop_last() =~= Seq::<StreamEvent>::empty());
                    assert(done_count(first.drop_last()) == 0);
                    assert(first.last() == out@[0]);
                    assert(done_count(first) == 0);
                    assert(done_count(out@) == 1);
                }
            },
            StreamItem::Ended => {
                out.push(StreamEvent::Done);
                self.finished = true;
                proof {
                    assert(out@.drop_last() =~= Seq::<StreamEvent>::empty());
                    assert(done_count(out@.drop_last()) == 0);
                }
            },
        }
        out
    }
}

// ---------------------------------------------------------------------------
// Command descriptions of the offline model
// ---------------------------------------------------------------------------

/// The canned description of a command for the offline "fake" model.
pub open spec fn fake_description(command: Seq<char>) -> Seq<char> {
    let c = lower_of(command);
    if has_prefix(c, "ls"@) {
        "List directory contents. Shows files and directories in the current or specified directory.\n\nCommon options:\n-l: Long format with details\n-a: Show hidden files\n-h: Human readable file sizes"@
    } else if has_prefix(c, "git"@) {
        if contains_seq(c, "status"@) {
            "Show the working tree status. Displays which files are staged, modified, or untracked."@
        } else if contains_seq(c, "commit"@) {
            "Record changes to the repository. Creates a new commit with staged changes."@
        } else if contains_seq(c, "push"@) {
            "Update remote repository with local commits. Uploads your changes to the remote repository."@
        } else {
            "Git is a distributed version control system for tracking changes in source code."@
        }
    } else if has_prefix(c, "find"@) {
        "Search for files and directories. Recursively searches through directory trees to find files matching specified criteria."@
    } else if has_prefix(c, "grep"@) {
        "Search text patterns in files. Searches for lines matching a pattern in one or more files."@
    } else if has_prefix(c, "ps"@) {
        "Display running processes. Shows information about active processes on the system."@
    } else if has_prefix(c, "docker"@) {
        "Container platform command. Manages Docker containers, images, and other Docker resources."@
    } else if has_prefix(c, "curl"@) {
        "Transfer data from or to servers. Downloads or uploads data using various protocols like HTTP, HTTPS, FTP."@
    } else if has_prefix(c, "apt"@) || has_prefix(c, "sudo apt"@) {
        "Package management for Debian/Ubuntu systems. Installs, updates, or removes software packages."@
    } else {
        "Command: "@ + command
            + "\n\nThis is a fake description for testing purposes. In real mode, this would provide detailed information about the command, its purpose, common options, and usage examples."@
    }
}

/// The canned description of a command for the offline "fake" model.
pub fn generate_fake_command_description(command: &str) -> (r: String)
    ensures
        r@ == fake_description(command@),
{
    let lower = lowercase(command);
    let c = lower.as_str();
    if starts_with_str(c, "ls") {
        owned(
            "List directory contents. Shows files and directories in the current or specified directory.\n\nCommon options:\n-l: Long format with details\n-a: Show hidden files\n-h: Human readable file sizes",
        )
    } else if starts_with_str(c, "git") {
        if contains_str(c, "status") {
            owned(
                "Show the working tree status. Displays which files are staged, modified, or untracked.",
            )
        } else if contains_str(c, "commit") {
            owned("Record changes to the repository. Creates a new commit with staged changes.")
        } else if contains_str(c, "push") {
            owned(
                "Update remote repository with local commits. Uploads your changes to the remote repository.",
            )
        } else {
            owned("Git is a distributed version control system for tracking changes in source code.")
        }
    } else if starts_with_str(c, "find") {
        owned(
            "Search for files and directories. Recursively searches through directory trees to find files matching specified criteria.",
        )
    } else if starts_with_str(c, "grep") {
        owned(
            "Search text patterns in files. Searches for lines matching a pattern in one or more files.",
        )
    } else if starts_with_str(c, "ps") {
        owned("Display running processes. Shows information about active processes on the system.")
    } else if starts_with_str(c, "docker") {
        owned(
            "Container platform command. Manages Docker containers, images, and other Docker resources.",
        )
    } else if starts_with_str(c, "curl") {
        owned(
            "Transfer data from or to servers. Downloads or uploads data using various protocols like HTTP, HTTPS, FTP.",
        )
    } else if starts_with_str(c, "apt") || starts_with_str(c, "sudo apt") {
        owned(
            "Package management for Debian/Ubuntu systems. Installs, updates, or removes software packages.",
        )
    } else {
        let mut out = chars_of("Command: ");
        push_str(&mut out, command);
        push_str(
            &mut out,
            "\n\nThis is a fake description for testing purposes. In real mode, this would provide detailed information about the command, its purpose, common options, and usage examples.",
        );
        string_of(&out)
    }
}


// ---------------------------------------------------------------------------
// Events of the loop
// ---------------------------------------------------------------------------

/// An event the loop hands to the session (keys, mouse scrolling and pastes
/// go to `handle_key_event`, `App::scroll_up`/`scroll_down` and `app_paste_text`).
#[derive(Debug, Clone)]
pub enum SessionEvent {
    /// A submitted input.
    UserInput(String),
    /// Take the next queued input, if any.
    ProcessNextMessage,
    /// An event of the completion stream.
    Stream(StreamEvent),
    /// Run a shell command.
    ExecuteCommand(String),
    /// A shell command finished.
    ExecutionResult { command: String, output: String },
    /// Describe a command.
    DescribeCommand(String),
    /// A finished description.
    CommandDescription { command: String, description: String },
    /// A description starts streaming.
    StartStreamingDescription(String),
    /// Streamed description text.
    DescriptionContent(String),
    /// The description stream ended.
    DescriptionStreamFinished,
    /// Run code in the interpreter.
    ExecuteCode { language: InterpreterType, code: String },
    /// The interpreter ran code.
    CodeExecutionResult(ExecutionResult),
    /// Ask the interpreter for its variables.
    ShowVariables,
    /// The interpreter's variables display.
    VariablesSnapshot(String),
    /// Leave the session.
    Quit,
}

/// Outside work the loop does after a session step.
#[derive(Debug, Clone)]
pub enum Effect {
    /// Stream a completion for these messages; each of its events comes back
    /// as `SessionEvent::Stream`, and a failure as `stream_failure_events`.
    StartStream(Vec<ChatMessage>),
    /// Save the session's history.
    Persist,
    /// Queue `SessionEvent::ProcessNextMessage`.
    ProcessNext,
    /// Run a shell command and report it as `SessionEvent::ExecutionResult`.
    RunCommand(String),
    /// Stream a description of a command as `DescriptionContent` events and a
    /// final `DescriptionStreamFinished`.
    DescribeStream(String),
    /// Write this request line to the interpreter.
    WriteInterpreter(String),
    /// Queue an event.
    Send(SessionEvent),
    /// Leave the loop.
    Quit,
}

/// The system prompt that asks for bare code in interpreter mode.
pub open spec fn code_prompt(lang: InterpreterType) -> Seq<char> {
    match lang {
        InterpreterType::Python => "You are a Python code generator. Given the user's request, produce ONLY executable Python code without explanations, comments, or Markdown fences. Avoid triple backticks."@,
        InterpreterType::R => "You are an R code generator. Given the user's request, produce ONLY executable R code without explanations, comments, or Markdown fences. Avoid triple backticks."@,
    }
}

/// `ms` is the request for session `a`: the code prompt in interpreter
/// mode, then a copy of each message of the history.
pub open spec fn request_for(a: App, ms: Seq<ChatMessage>) -> bool {
    let off: int = if a.interpreter is Some {
        1
    } else {
        0
    };
    &&& ms.len() == off + a.messages@.len()
    &&& match a.interpreter {
        Some(l) => ms[0].role == Role::System && content_text(ms[0].content) == code_prompt(l),
        None => true,
    }
    &&& forall|i: int| 0 <= i < a.messages@.len() ==> same_message(#[trigger] ms[off + i], a.messages@[i])
}

/// Sending `input` from session `a` gives session `b`: a blank input changes
/// nothing; any other becomes a user message and a response starts.
pub open spec fn sent(a: App, input: String, b: App) -> bool {
    if is_blank(input@) {
        b == a
    } else {
        &&& b.messages@ == keep_last(
            a.messages@.push(text_message(Role::User, input)),
            a.max_display_messages as nat,
        )
        &&& b.current_response@.len() == 0
        &&& b == (App {
            messages: b.messages,
            current_response: b.current_response,
            is_receiving_response: true,
            chat_scroll_offset: 0,
            ..a
        })
    }
}

/// Sends an input: a blank one is ignored; any other is added to the
/// history, a response starts, and the request to stream is returned.
pub fn handle_user_input(app: &mut App, input: String) -> (r: Option<Vec<ChatMessage>>)
    ensures
        sent(*old(app), input, *final(app)),
        is_blank(input@) ==> r is None,
        !is_blank(input@) ==> (r matches Some(ms) && request_for(*final(app), ms@)),
{
    if is_blank_str(input.as_str()) {
        return None;
    }
    app.add_message(ChatMessage::new(Role::User, input));
    app.start_response();
    let mut ms: Vec<ChatMessage> = Vec::new();
    let off: usize = match app.interpreter {
        Some(InterpreterType::Python) => {
            ms.push(
                ChatMessage::new(
                    Role::System,
                    owned(
                        "You are a Python code generator. Given the user's request, produce ONLY executable Python code without explanations, comments, or Markdown fences. Avoid triple backticks.",
                    ),
                ),
            );
            1
        },
        Some(InterpreterType::R) => {
            ms.push(
                ChatMessage::new(
                    Role::System,
                    owned(
                        "You are an R code generator. Given the user's request, produce ONLY executable R code without explanations, comments, or Markdown fences. Avoid triple backticks.",
                    ),
                ),
            );
            1
        },
        None => 0,
    };
    let ghost first = if off == 1 { ms@[0] } else { ms@.len() == 0 ==> true; arbitrary() };
    let mut i: usize = 0;
    while i < app.messages.len()
        invariant
            i <= app.messages@.len(),
            off == (if app.interpreter is Some { 1usize } else { 0usize }),
            ms@.len() == off + i,
            off == 1 ==> ms@[0] == first,
            match app.interpreter {
                Some(l) => first.role == Role::System && content_text(first.content) == code_prompt(l),
                None => true,
            },
            forall|j: int| 0 <= j < i ==> same_message(#[trigger] ms@[off + j], app.messages@[j]),
        decreases app.messages@.len() - i,
    {
        ms.push(copy_message(&app.messages[i]));
        i += 1;
    }
    Some(ms)
}

/// A stream event: content is added to the response; the end of the stream
/// finishes the response, saves a session that is not "temp", and takes the
/// next queued input.
pub fn handle_stream_event(app: &mut App, event: StreamEvent) -> (r: Vec<Effect>)
    ensures
        match event {
            StreamEvent::Content(c) => {
                &&& final(app).current_response@ == old(app).current_response@ + c@
                &&& *final(app) == (App {
                    current_response: final(app).current_response,
                    chat_scroll_offset: 0,
                    ..*old(app)
                })
                &&& r@.len() == 0
            },
            StreamEvent::Done => {
                let persist = final(app).chat_id@ != "temp"@ && final(app).messages@.len() > 0;
                &&& effect_of_finish_response(*old(app), *final(app))
                &&& r@.len() == if persist { 2int } else { 1int }
                &&& persist ==> r@[0] is Persist
                &&& r@[r@.len() - 1] is ProcessNext
            },
            _ => *final(app) == *old(app) && r@.len() == 0,
        },
{
    let mut effects: Vec<Effect> = Vec::new();
    match event {
        StreamEvent::Content(c) => {
            app.append_response(c.as_str());
            app.scroll_to_bottom();
        },
        StreamEvent::Done => {
            app.finish_response();
            let temp = owned("temp");
            if app.chat_id != temp && app.messages.len() > 0 {
                effects.push(Effect::Persist);
            }
            effects.push(Effect::ProcessNext);
        },
        _ => {},
    }
    effects
}

/// Whether the session's model is the offline "fake" model.
fn is_fake_model(app: &App) -> (r: bool)
    ensures
        r == (app.model@ == "fake"@),
{
    let fake = owned("fake");
    app.model == fake
}

/// The request number after `n`: one more, wrapping to 0 after `u64::MAX`.
pub open spec fn next_counter(n: u64) -> u64 {
    if n == u64::MAX {
        0
    } else {
        (n + 1) as u64
    }
}

/// Takes the next request number.
fn next_request_number(app: &mut App) -> (r: u64)
    ensures
        r == old(app).request_counter,
        *final(app) == (App { request_counter: next_counter(old(app).request_counter), ..*old(app) }),
{
    let cur = app.request_counter;
    app.request_counter = if cur == u64::MAX {
        0
    } else {
        cur + 1
    };
    cur
}

/// Session `b` is session `a` with one more assistant message holding `text`.
pub open spec fn says(a: App, b: App, text: Seq<char>) -> bool {
    exists|m: ChatMessage|
        {
            &&& m.role == Role::Assistant
            &&& content_text(m.content) == text
            &&& b.messages@ == keep_last(a.messages@.push(m), a.max_display_messages as nat)
            &&& b == (App { messages: b.messages, chat_scroll_offset: 0, ..a })
        }
}

/// Runs one event of the loop against the session and returns the outside
/// work to do. `interpreter_ready` tells whether an interpreter process is
/// running.
pub fn handle_event(app: &mut App, event: SessionEvent, interpreter_ready: bool) -> (r: Vec<Effect>)
    ensures
        match event {
            SessionEvent::UserInput(input) => if old(app).is_receiving_response {
                &&& final(app).message_queue@ == old(app).message_queue@.push(input)
                &&& final(app).status_message@ == status_with_queue(
                    old(app).interpreter,
                    old(app).is_shell_mode,
                    old(app).allow_interaction,
                    final(app).message_queue@.len(),
                )
                &&& *final(app) == (App {
                    message_queue: final(app).message_queue,
                    status_message: final(app).status_message,
                    ..*old(app)
                })
                &&& r@.len() == 0
            } else {
                &&& sent(*old(app), input, *final(app))
                &&& if is_blank(input@) {
                    r@.len() == 0
                } else {
                    r@.len() == 1 && (r@[0] matches Effect::StartStream(ms) && request_for(
                        *final(app),
                        ms@,
                    ))
                }
            },
            SessionEvent::ProcessNextMessage => if old(app).message_queue@.len() == 0 {
                &&& r@.len() == 0
                &&& final(app).message_queue@ == old(app).message_queue@
            } else {
                exists|mid: App|
                    {
                        &&& mid.message_queue@ == old(app).message_queue@.drop_first()
                        &&& mid == (App {
                            message_queue: mid.message_queue,
                            status_message: mid.status_message,
                            ..*old(app)
                        })
                        &&& sent(mid, old(app).message_queue@[0], *final(app))
                        &&& if is_blank(old(app).message_queue@[0]@) {
                            r@.len() == 0
                        } else {
                            r@.len() == 1 && (r@[0] matches Effect::StartStream(ms) && request_for(
                                *final(app),
                                ms@,
                            ))
                        }
                    }
            },
            SessionEvent::Stream(StreamEvent::Done) => {
                let persist = final(app).chat_id@ != "temp"@ && final(app).messages@.len() > 0;
                &&& effect_of_finish_response(*old(app), *final(app))
                &&& r@.len() == if persist { 2int } else { 1int }
                &&& persist ==> r@[0] is Persist
                &&& r@[r@.len() - 1] is ProcessNext
            },
            SessionEvent::ExecuteCommand(cmd) => *final(app) == *old(app) && r@.len() == 1 && (
            r@[0] matches Effect::RunCommand(c) && c == cmd),
            SessionEvent::ExecutionResult { command, output } => *final(app) == (App {
                popup_state: crate::app::PopupState::ExecutionResult { command, output },
                ..*old(app)
            }) && r@.len() == 0,
            SessionEvent::DescribeCommand(cmd) => if old(app).model@ == "fake"@ {
                &&& r@.len() == 0
                &&& final(app).popup_state matches crate::app::PopupState::Description {
                    command,
                    description,
                } && command == cmd && description@ == fake_description(cmd@)
            } else {
                &&& r@.len() == 1
                &&& r@[0] matches Effect::DescribeStream(c) && c == cmd
                &&& final(app).popup_state matches crate::app::PopupState::StreamingDescription {
                    command,
                    current_description,
                    is_loading,
                } && command == cmd && current_description@.len() == 0 && is_loading
            },
            SessionEvent::ExecuteCode { language, code } => match language {
                InterpreterType::Python => if interpreter_ready {
                    &&& r@.len() == 1
                    &&& r@[0] matches Effect::WriteInterpreter(line) && line@
                        == execute_request_text(
                        "req-"@ + decimal(old(app).request_counter as nat),
                        sanitized(code@),
                    )
                    &&& *final(app) == (App {
                        request_counter: next_counter(old(app).request_counter),
                        ..*old(app)
                    })
                } else {
                    r@.len() == 0 && says(*old(app), *final(app), "Interpreter not initialized"@)
                },
                InterpreterType::R => r@.len() == 0 && says(
                    *old(app),
                    *final(app),
                    "R interpreter is not yet implemented"@,
                ),
            },
            SessionEvent::ShowVariables => if old(app).interpreter == Some(InterpreterType::Python)
                && interpreter_ready {
                &&& r@.len() == 1
                &&& r@[0] matches Effect::WriteInterpreter(line) && line@ == vars_request_text(
                    "vars-"@ + decimal(old(app).request_counter as nat),
                )
                &&& *final(app) == (App {
                    request_counter: next_counter(old(app).request_counter),
                    ..*old(app)
                })
            } else {
                r@.len() == 0 && *final(app) == *old(app)
            },
            SessionEvent::CodeExecutionResult(res) => r@.len() == 0 && says(
                *old(app),
                *final(app),
                code_result_text(result_model(res)),
            ),
            SessionEvent::VariablesSnapshot(text) => r@.len() == 0 && final(app).messages@
                == keep_last(
                old(app).messages@.push(text_message(Role::Assistant, text)),
                old(app).max_display_messages as nat,
            ),
            SessionEvent::Quit => r@.len() == 1 && r@[0] is Quit && *final(app) == *old(app),
            SessionEvent::Stream(StreamEvent::Content(c)) => {
                &&& final(app).current_response@ == old(app).current_response@ + c@
                &&& *final(app) == (App {
                    current_response: final(app).current_response,
                    chat_scroll_offset: 0,
                    ..*old(app)
                })
                &&& r@.len() == 0
            },
            SessionEvent::Stream(_) => *final(app) == *old(app) && r@.len() == 0,
            SessionEvent::CommandDescription { command, description } => *final(app) == (App {
                popup_state: PopupState::Description { command, description },
                ..*old(app)
            }) && r@.len() == 0,
            SessionEvent::StartStreamingDescription(command) => effect_of_start_streaming_description(
                *old(app),
                *final(app),
                command,
            ) && r@.len() == 0,
            SessionEvent::DescriptionContent(content) => effect_of_append_description_content(
                *old(app),
                *final(app),
                content@,
            ) && r@.len() == 0,
            SessionEvent::DescriptionStreamFinished => effect_of_finish_streaming_description(
                *old(app),
                *final(app),
            ) && r@.len() == 0,
        },
{
    let mut effects: Vec<Effect> = Vec::new();
    match event {
        SessionEvent::UserInput(input) => {
            let queued = app.try_queue_message(input.clone());
            if !queued {
                let ghost before = *app;
                let sent_messages = handle_user_input(app, input);
                proof {
                    assert(before == *old(app));
                    assert(sent(*old(app), input, *app));
                }
                match sent_messages {
                    Some(ms) => {
                        let e = Effect::StartStream(ms);
                        proof {
                            assert(e is StartStream);
                        }
                        effects.push(e);
                        proof {
                            assert(effects@ =~= seq![e]);
                        }
                    },
                    None => {},
                }
            } else {
                proof {
                    assert(app.message_queue@ == old(app).message_queue@.push(input));
                }
            }
        },
        SessionEvent::ProcessNextMessage => {
            if let Some(next) = app.dequeue_message() {
                if let Some(ms) = handle_user_input(app, next) {
                    effects.push(Effect::StartStream(ms));
                }
            }
        },
        SessionEvent::Stream(ev) => {
            effects = handle_stream_event(app, ev);
        },
        SessionEvent::ExecuteCommand(cmd) => {
            effects.push(Effect::RunCommand(cmd));
        },
        SessionEvent::ExecutionResult { command, output } => {
            app.show_execution_result(command, output);
        },
        SessionEvent::DescribeCommand(cmd) => {
            if is_fake_model(app) {
                let description = generate_fake_command_description(cmd.as_str());
                app.show_description(cmd, description);
            } else {
                app.start_streaming_description(cmd.clone());
                effects.push(Effect::DescribeStream(cmd));
            }
        },
        SessionEvent::CommandDescription { command, description } => {
            app.show_description(command, description);
        },
        SessionEvent::StartStreamingDescription(command) => {
            app.start_streaming_description(command);
        },
        SessionEvent::DescriptionContent(content) => {
            app.append_description_content(content.as_str());
        },
        SessionEvent::DescriptionStreamFinished => {
            app.finish_streaming_description();
        },
        SessionEvent::ExecuteCode { language, code } => match language {
            InterpreterType::Python => {
                if interpreter_ready {
                    let n = next_request_number(app);
                    let id = request_id("req-", n);
                    let clean = sanitize_generated_code(code.as_str());
                    effects.push(Effect::WriteInterpreter(execute_request(id.as_str(), clean.as_str())));
                } else {
                    let m = ChatMessage::new(Role::Assistant, owned("Interpreter not initialized"));
                    let ghost gm = m;
                    app.add_message(m);
                    proof {
                        assert(content_text(gm.content) == "Interpreter not initialized"@);
                        assert(says(*old(app), *app, "Interpreter not initialized"@));
                    }
                }
            },
            InterpreterType::R => {
                let m = ChatMessage::new(Role::Assistant, owned("R interpreter is not yet implemented"));
                let ghost gm = m;
                app.add_message(m);
                proof {
                    assert(content_text(gm.content) == "R interpreter is not yet implemented"@);
                    assert(says(*old(app), *app, "R interpreter is not yet implemented"@));
                }
            },
        },
        SessionEvent::ShowVariables => {
            if app.interpreter == Some(InterpreterType::Python) && interpreter_ready {
                let n = next_request_number(app);
                let id = request_id("vars-", n);
                effects.push(Effect::WriteInterpreter(vars_request(id.as_str())));
            }
        },
        SessionEvent::CodeExecutionResult(res) => {
            let text = format_code_result(&res);
            let m = ChatMessage::new(Role::Assistant, text);
            let ghost gm = m;
            app.add_message(m);
            proof {
                assert(content_text(gm.content) == code_result_text(result_model(res)));
                assert(says(*old(app), *app, code_result_text(result_model(res))));
            }
        },
        SessionEvent::VariablesSnapshot(text) => {
            app.add_message(ChatMessage::new(Role::Assistant, text));
        },
        SessionEvent::Quit => {
            effects.push(Effect::Quit);
        },
    }
    effects
}


// ---------------------------------------------------------------------------
// Keys
// ---------------------------------------------------------------------------

/// A key, as the terminal reports it.
#[derive(Debug, Clone, Copy, PartialEq, Eq, Structural)]
pub enum KeyCode {
    Char(char),
    Enter,
    Backspace,
    Delete,
    Left,
    Right,
    Up,
    Down,
    Home,
    End,
    F(u8),
    Other,
}

/// A key press with its modifiers.
#[derive(Debug, Clone, Copy, PartialEq, Eq, Structural)]
pub struct KeyInput {
    pub code: KeyCode,
    pub ctrl: bool,
    pub alt: bool,
    pub shift: bool,
}

/// What a key press asks of the session.
#[derive(Debug, Clone, Copy, PartialEq, Eq, Structural)]
pub enum KeyAction {
    DismissPopup,
    NewLine,
    Submit,
    Cancel,
    DeleteOrQuit,
    ShowVariables,
    ExpandInline,
    Home,
    End,
    KillToStart,
    KillToEnd,
    DeletePrevWord,
    DeleteNextWord,
    WordLeft,
    WordRight,
    ToggleMultiline,
    ToggleHelp,
    ScrollUp,
    ScrollDown,
    HistoryPrev,
    HistoryNext,
    Backspace,
    Delete,
    Left,
    Right,
    Insert(char),
    Ignore,
}

/// The result of a key press: whether to leave the session, and an event
/// for the loop to queue.
#[derive(Debug, Clone)]
pub struct KeyOutcome {
    pub quit: bool,
    pub send: Option<SessionEvent>,
}

/// The key bindings. While a popup is shown every key closes it.
pub open spec fn key_action_of(k: KeyInput, popup: bool, mode: InputMode) -> KeyAction {
    let ctrl_char = |c: char| k.code == KeyCode::Char(c) && k.ctrl;
    if popup {
        KeyAction::DismissPopup
    } else if ctrl_char('j') {
        KeyAction::NewLine
    } else if ctrl_char('s') {
        KeyAction::Submit
    } else if ctrl_char('c') {
        KeyAction::Cancel
    } else if ctrl_char('d') {
        KeyAction::DeleteOrQuit
    } else if ctrl_char('l') {
        KeyAction::ShowVariables
    } else if (ctrl_char('e') && k.shift) || ctrl_char('E') {
        KeyAction::ExpandInline
    } else if ctrl_char('a') {
        KeyAction::Home
    } else if ctrl_char('e') {
        KeyAction::End
    } else if ctrl_char('u') {
        KeyAction::KillToStart
    } else if ctrl_char('k') {
        KeyAction::KillToEnd
    } else if ctrl_char('w') || (k.code == KeyCode::Backspace && k.alt) {
        KeyAction::DeletePrevWord
    } else if k.code == KeyCode::Delete && k.alt {
        KeyAction::DeleteNextWord
    } else if k.code == KeyCode::Left && (k.alt || k.ctrl) {
        KeyAction::WordLeft
    } else if k.code == KeyCode::Right && (k.alt || k.ctrl) {
        KeyAction::WordRight
    } else if ctrl_char('m') {
        KeyAction::ToggleMultiline
    } else if k.code == KeyCode::F(1) || ctrl_char('h') || ctrl_char('/') || ctrl_char('?') {
        KeyAction::ToggleHelp
    } else if k.code == KeyCode::Up {
        if k.ctrl || mode == InputMode::MultiLine {
            KeyAction::ScrollUp
        } else {
            KeyAction::HistoryPrev
        }
    } else if k.code == KeyCode::Down {
        if k.ctrl || mode == InputMode::MultiLine {
            KeyAction::ScrollDown
        } else {
            KeyAction::HistoryNext
        }
    } else if k.code == KeyCode::Enter {
        if k.shift {
            KeyAction::NewLine
        } else {
            KeyAction::Submit
        }
    } else if k.code == KeyCode::Backspace {
        KeyAction::Backspace
    } else if k.code == KeyCode::Delete {
        KeyAction::Delete
    } else if k.code == KeyCode::Left {
        KeyAction::Left
    } else if k.code == KeyCode::Right {
        KeyAction::Right
    } else if k.code == KeyCode::Home {
        KeyAction::Home
    } else if k.code == KeyCode::End {
        KeyAction::End
    } else {
        match k.code {
            KeyCode::Char(c) => if k.ctrl {
                KeyAction::Ignore
            } else {
                KeyAction::Insert(c)
            },
            _ => KeyAction::Ignore,
        }
    }
}

fn is_ctrl_char(k: &KeyInput, c: char) -> (r: bool)
    ensures
        r == (k.code == KeyCode::Char(c) && k.ctrl),
{
    k.code == KeyCode::Char(c) && k.ctrl
}

/// What a key press asks of the session.
pub fn key_action(k: &KeyInput, popup: bool, mode: InputMode) -> (r: KeyAction)
    ensures
        r == key_action_of(*k, popup, mode),
{
    if popup {
        KeyAction::DismissPopup
    } else if is_ctrl_char(k, 'j') {
        KeyAction::NewLine
    } else if is_ctrl_char(k, 's') {
        KeyAction::Submit
    } else if is_ctrl_char(k, 'c') {
        KeyAction::Cancel
    } else if is_ctrl_char(k, 'd') {
        KeyAction::DeleteOrQuit
    } else if is_ctrl_char(k, 'l') {
        KeyAction::ShowVariables
    } else if (is_ctrl_char(k, 'e') && k.shift) || is_ctrl_char(k, 'E') {
        KeyAction::ExpandInline
    } else if is_ctrl_char(k, 'a') {
        KeyAction::Home
    } else if is_ctrl_char(k, 'e') {
        KeyAction::End
    } else if is_ctrl_char(k, 'u') {
        KeyAction::KillToStart
    } else if is_ctrl_char(k, 'k') {
        KeyAction::KillToEnd
    } else if is_ctrl_char(k, 'w') || (k.code == KeyCode::Backspace && k.alt) {
        KeyAction::DeletePrevWord
    } else if k.code == KeyCode::Delete && k.alt {
        KeyAction::DeleteNextWord
    } else if k.code == KeyCode::Left && (k.alt || k.ctrl) {
        KeyAction::WordLeft
    } else if k.code == KeyCode::Right && (k.alt || k.ctrl) {
        KeyAction::WordRight
    } else if is_ctrl_char(k, 'm') {
        KeyAction::ToggleMultiline
    } else if k.code == KeyCode::F(1) || is_ctrl_char(k, 'h') || is_ctrl_char(k, '/')
        || is_ctrl_char(k, '?') {
        KeyAction::ToggleHelp
    } else if k.code == KeyCode::Up {
        if k.ctrl || mode == InputMode::MultiLine {
            KeyAction::ScrollUp
        } else {
            KeyAction::HistoryPrev
        }
    } else if k.code == KeyCode::Down {
        if k.ctrl || mode == InputMode::MultiLine {
            KeyAction::ScrollDown
        } else {
            KeyAction::HistoryNext
        }
    } else if k.code == KeyCode::Enter {
        if k.shift {
            KeyAction::NewLine
        } else {
            KeyAction::Submit
        }
    } else if k.code == KeyCode::Backspace {
        KeyAction::Backspace
    } else if k.code == KeyCode::Delete {
        KeyAction::Delete
    } else if k.code == KeyCode::Left {
        KeyAction::Left
    } else if k.code == KeyCode::Right {
        KeyAction::Right
    } else if k.code == KeyCode::Home {
        KeyAction::Home
    } else if k.code == KeyCode::End {
        KeyAction::End
    } else {
        match k.code {
            KeyCode::Char(c) => if k.ctrl {
                KeyAction::Ignore
            } else {
                KeyAction::Insert(c)
            },
            _ => KeyAction::Ignore,
        }
    }
}

/// Effect of `insert_line_break`.
pub open spec fn effect_of_line_break(a: App, b: App) -> bool {
    &&& a.input_mode == InputMode::Normal && a.input@.len() == 0 ==> b
        == (App { input_mode: InputMode::MultiLine, ..a })
    &&& !(a.input_mode == InputMode::Normal && a.input@.len() == 0) ==> {
        &&& b.multiline_buffer@ == a.multiline_buffer@.push(a.input)
        &&& b.input@.len() == 0
        &&& b == (App {
            input: b.input,
            input_cursor: 0,
            multiline_buffer: b.multiline_buffer,
            input_mode: InputMode::MultiLine,
            ..a
        })
    }
}

/// Ends the current line: it becomes a finished line of a multi-line input
/// (in normal mode an empty line only switches to multi-line mode).
pub fn insert_line_break(app: &mut App)
    ensures
        effect_of_line_break(*old(app), *final(app)),
{
    let empty = app.input.as_str().unicode_len() == 0;
    let was_normal = app.input_mode == InputMode::Normal;
    app.input_mode = InputMode::MultiLine;
    if !(was_normal && empty) {
        let line = app.input.clone();
        app.multiline_buffer.push(line);
        app.input = String::new();
        app.input_cursor = 0;
    }
}

/// Effect of `toggle_multiline`.
pub open spec fn effect_of_toggle_multiline(a: App, b: App) -> bool {
    &&& a.input_mode == InputMode::Normal ==> {
        &&& a.input@.len() == 0 ==> b == (App {
            input_mode: InputMode::MultiLine,
            ..a
        })
        &&& a.input@.len() > 0 ==> {
            &&& b.multiline_buffer@ == a.multiline_buffer@.push(a.input)
            &&& b.input@.len() == 0
            &&& b == (App {
                input: b.input,
                input_cursor: 0,
                multiline_buffer: b.multiline_buffer,
                input_mode: InputMode::MultiLine,
                ..a
            })
        }
    }
    &&& a.input_mode == InputMode::MultiLine ==> {
        let lines = views(a.multiline_buffer@);
        if lines.len() == 0 && a.input@.len() == 0 {
            b == (App { input_mode: InputMode::Normal, ..a })
        } else {
            &&& b.input@ == if a.input@.len() > 0 {
                join_lines(lines.push(a.input@))
            } else {
                join_lines(lines)
            }
            &&& b.input_cursor == b.input@.len()
            &&& b.multiline_buffer@.len() == 0
            &&& b == (App {
                input: b.input,
                input_cursor: b.input_cursor,
                multiline_buffer: b.multiline_buffer,
                input_mode: InputMode::Normal,
                ..a
            })
        }
    }
}

/// Switches between normal and multi-line input. Leaving multi-line mode
/// joins the finished lines and a non-empty current line with newlines into
/// one line, with the cursor at its end.
pub fn toggle_multiline(app: &mut App)
    ensures
        effect_of_toggle_multiline(*old(app), *final(app)),
{
    match app.input_mode {
        InputMode::Normal => {
            insert_line_break(app);
        },
        InputMode::MultiLine => {
            let has_input = app.input.as_str().unicode_len() > 0;
            if app.multiline_buffer.len() > 0 || has_input {
                let joined = if has_input {
                    join_newline_then(&app.multiline_buffer, app.input.as_str())
                } else {
                    join_newline(&app.multiline_buffer)
                };
                app.input_cursor = joined.as_str().unicode_len();
                app.input = joined;
                app.multiline_buffer = Vec::new();
            }
            app.input_mode = InputMode::Normal;
        },
    }
}

/// Whether a cancel key at `now_ms` comes within the window of the last one.
pub open spec fn cancel_quits(a: App, now_ms: u64) -> bool {
    a.last_ctrl_c_time matches Some(last) && (now_ms < last || now_ms - last
        <= DOUBLE_CTRL_C_TIMEOUT_MS)
}

/// The composer was emptied.
pub open spec fn composer_cleared(b: App) -> bool {
    &&& b.input@.len() == 0
    &&& b.input_cursor == 0
    &&& b.multiline_buffer@.len() == 0
    &&& b.input_mode == InputMode::Normal
    &&& b.history_index is None
    &&& b.pending_pastes@.len() == 0
}

/// What submitting the composer does. The text sent is the composer's text
/// with pending pastes expanded. "exit()" quits. In shell mode with
/// interaction, or in interpreter mode, and with a last command, the single
/// letters "e" or "r" run it again, "d" asks for its description and "p"
/// shows it. Any other text that is not blank is recorded in the history and
/// sent. The composer is emptied, except when quitting.
pub open spec fn submit_outcome(a: App, b: App, r: KeyOutcome) -> bool {
    let text = expanded_text(a);
    let t = trimmed(text);
    let shortcuts = (a.is_shell_mode && a.allow_interaction) || a.interpreter is Some;
    let has_last = a.last_command@.len() > 0;
    if t == "exit()"@ {
        &&& r.quit
        &&& r.send is None
        &&& b.pending_pastes@.len() == 0
        &&& b == (App { pending_pastes: b.pending_pastes, ..a })
    } else {
        &&& !r.quit
        &&& composer_cleared(b)
        &&& if shortcuts && has_last && (t == "e"@ || t == "r"@) {
            &&& r.send == Some(
                match a.interpreter {
                    Some(l) => SessionEvent::ExecuteCode { language: l, code: a.last_command },
                    None => SessionEvent::ExecuteCommand(a.last_command),
                },
            )
            &&& cleared_from(a, b)
        } else if shortcuts && has_last && t == "d"@ {
            &&& r.send == Some(SessionEvent::DescribeCommand(a.last_command))
            &&& cleared_from(a, b)
        } else if shortcuts && has_last && t == "p"@ {
            &&& r.send is None
            &&& b.popup_state matches PopupState::Description { command, description } && command@
                == "Last Command"@ && description == a.last_command
            &&& cleared_from(a, App { popup_state: a.popup_state, ..b })
        } else if !is_blank(text) {
            &&& r.send matches Some(SessionEvent::UserInput(s)) && s@ == text
            &&& b.input_history@ == if a.input_history@.len() == 0 || a.input_history@.last()@
                != text {
                a.input_history@.push(b.input_history@.last())
            } else {
                a.input_history@
            }
            &&& b.input_history@.len() > 0 && b.input_history@.last()@ == text
            &&& cleared_from(a, App { input_history: a.input_history, ..b })
        } else {
            &&& r.send is None
            &&& cleared_from(a, b)
        }
    }
}

/// `b` is `a` with the composer emptied and nothing else changed.
pub open spec fn cleared_from(a: App, b: App) -> bool {
    b == (App {
        input: b.input,
        input_cursor: 0,
        multiline_buffer: b.multiline_buffer,
        input_mode: InputMode::Normal,
        history_index: None,
        pending_pastes: b.pending_pastes,
        ..a
    })
}

fn equals_literal(s: &String, lit: &str) -> (r: bool)
    ensures
        r == (s@ == lit@),
{
    let l = owned(lit);
    *s == l
}

/// Submits the composer (Enter, or Ctrl+S).
pub fn submit_input(app: &mut App) -> (r: KeyOutcome)
    ensures
        submit_outcome(*old(app), *final(app), r),
{
    let input = app.expand_placeholders_for_submit();
    let t = trim_str(input.as_str());
    if equals_literal(&t, "exit()") {
        return KeyOutcome { quit: true, send: None };
    }
    let shortcuts = (app.is_shell_mode && app.allow_interaction) || app.interpreter.is_some();
    let has_last = app.last_command.as_str().unicode_len() > 0;
    if shortcuts && has_last {
        if equals_literal(&t, "e") || equals_literal(&t, "r") {
            let ev = match app.interpreter {
                Some(l) => SessionEvent::ExecuteCode { language: l, code: app.last_command.clone() },
                None => SessionEvent::ExecuteCommand(app.last_command.clone()),
            };
            app.clear_input();
            return KeyOutcome { quit: false, send: Some(ev) };
        }
        if equals_literal(&t, "d") {
            let ev = SessionEvent::DescribeCommand(app.last_command.clone());
            app.clear_input();
            return KeyOutcome { quit: false, send: Some(ev) };
        }
        if equals_literal(&t, "p") {
            let cmd = app.last_command.clone();
            app.show_description(owned("Last Command"), cmd);
            app.clear_input();
            return KeyOutcome { quit: false, send: None };
        }
    }
    let mut send: Option<SessionEvent> = None;
    if !is_blank_str(input.as_str()) {
        app.push_history(input.clone());
        send = Some(SessionEvent::UserInput(input));
    }
    app.clear_input();
    KeyOutcome { quit: false, send }
}

/// Neither quitting nor sending anything.
pub open spec fn quiet(r: KeyOutcome) -> bool {
    !r.quit && r.send is None
}

/// What a key action does to session `a`, giving session `b` and outcome `r`.
pub open spec fn key_effect(a: App, b: App, action: KeyAction, now_ms: u64, r: KeyOutcome) -> bool {
    match action {
        KeyAction::DismissPopup => b == (App { popup_state: PopupState::Hidden, ..a }) && quiet(r),
        KeyAction::NewLine => effect_of_line_break(a, b) && quiet(r),
        KeyAction::Submit => submit_outcome(a, b, r),
        KeyAction::Cancel => effect_of_handle_ctrl_c(a, b, now_ms, r.quit) && r.send is None,
        KeyAction::DeleteOrQuit => if is_blank(composed_text(a)) {
            r.quit && r.send is None && b == a
        } else {
            effect_of_delete(a, b) && quiet(r)
        },
        KeyAction::ShowVariables => !r.quit && b == a && r.send == if a.interpreter is Some {
            Some(SessionEvent::ShowVariables)
        } else {
            None
        },
        KeyAction::ExpandInline => (exists|changed: bool|
            effect_of_expand_placeholders_inline(a, b, changed)) && quiet(r),
        KeyAction::Home => effect_of_move_cursor_home(a, b) && quiet(r),
        KeyAction::End => effect_of_move_cursor_end(a, b) && quiet(r),
        KeyAction::KillToStart => effect_of_kill_to_line_start(a, b) && quiet(r),
        KeyAction::KillToEnd => effect_of_kill_to_line_end(a, b) && quiet(r),
        KeyAction::DeletePrevWord => effect_of_delete_prev_word(a, b) && quiet(r),
        KeyAction::DeleteNextWord => effect_of_delete_next_word(a, b) && quiet(r),
        KeyAction::WordLeft => effect_of_move_cursor_word_left(a, b) && quiet(r),
        KeyAction::WordRight => effect_of_move_cursor_word_right(a, b) && quiet(r),
        KeyAction::ToggleMultiline => effect_of_toggle_multiline(a, b) && quiet(r),
        KeyAction::ToggleHelp => b == (App { show_help: !a.show_help, ..a }) && quiet(r),
        KeyAction::ScrollUp => effect_of_scroll_up(a, b) && quiet(r),
        KeyAction::ScrollDown => effect_of_scroll_down(a, b) && quiet(r),
        KeyAction::HistoryPrev => effect_of_history_prev(a, b) && quiet(r),
        KeyAction::HistoryNext => effect_of_history_next(a, b) && quiet(r),
        KeyAction::Backspace => effect_of_backspace(a, b) && quiet(r),
        KeyAction::Delete => effect_of_delete(a, b) && quiet(r),
        KeyAction::Left => effect_of_move_cursor_left(a, b) && quiet(r),
        KeyAction::Right => effect_of_move_cursor_right(a, b) && quiet(r),
        KeyAction::Insert(c) => effect_of_insert_char(a, b, c) && quiet(r),
        KeyAction::Ignore => b == a && quiet(r),
    }
}

/// Handles a key press at `now_ms` (milliseconds of a monotonic clock).
pub fn handle_key_event(app: &mut App, key: KeyInput, now_ms: u64) -> (r: KeyOutcome)
    ensures
        key_effect(
            *old(app),
            *final(app),
            key_action_of(key, popup_shown(old(app).popup_state), old(app).input_mode),
            now_ms,
            r,
        ),
{
    let popup = app.is_popup_shown();
    let action = key_action(&key, popup, app.input_mode);
    let mut out = KeyOutcome { quit: false, send: None };
    match action {
        KeyAction::DismissPopup => app.hide_popup(),
        KeyAction::NewLine => insert_line_break(app),
        KeyAction::Submit => {
            out = submit_input(app);
        },
        KeyAction::Cancel => {
            out.quit = app.handle_ctrl_c(now_ms);
        },
        KeyAction::DeleteOrQuit => {
            let text = app.get_input_text();
            if is_blank_str(text.as_str()) {
                out.quit = true;
            } else {
                app.delete();
            }
        },
        KeyAction::ShowVariables => {
            if app.interpreter.is_some() {
                out.send = Some(SessionEvent::ShowVariables);
            }
        },
        KeyAction::ExpandInline => {
            app.expand_placeholders_inline();
        },
        KeyAction::Home => app.move_cursor_home(),
        KeyAction::End => app.move_cursor_end(),
        KeyAction::KillToStart => app.kill_to_line_start(),
        KeyAction::KillToEnd => app.kill_to_line_end(),
        KeyAction::DeletePrevWord => app.delete_prev_word(),
        KeyAction::DeleteNextWord => app.delete_next_word(),
        KeyAction::WordLeft => app.move_cursor_word_left(),
        KeyAction::WordRight => app.move_cursor_word_right(),
        KeyAction::ToggleMultiline => toggle_multiline(app),
        KeyAction::ToggleHelp => app.toggle_help(),
        KeyAction::ScrollUp => app.scroll_up(),
        KeyAction::ScrollDown => app.scroll_down(),
        KeyAction::HistoryPrev => app.history_prev(),
        KeyAction::HistoryNext => app.history_next(),
        KeyAction::Backspace => app.backspace(),
        KeyAction::Delete => app.delete(),
        KeyAction::Left => app.move_cursor_left(),
        KeyAction::Right => app.move_cursor_right(),
        KeyAction::Insert(c) => app.insert_char(c),
        KeyAction::Ignore => {},
    }
    out
}


proof fn lemma_decimal_digits(n: nat)
    ensures
        forall|i: int| 0 <= i < decimal(n).len() ==> (#[trigger] decimal(n)[i]) != '\n',
    decreases n,
{
    if n >= 10 {
        lemma_decimal_digits(n / 10);
        let d = decimal(n);
        assert forall|i: int| 0 <= i < d.len() implies (#[trigger] d[i]) != '\n' by {
            if i < d.len() - 1 {
                assert(d[i] == decimal(n / 10)[i]);
            }
        }
    }
}

/// Pasting a text longer than `LARGE_PASTE_CHAR_THRESHOLD` into an empty
/// composer and submitting right away sends exactly the pasted text.
pub proof fn lemma_large_paste_round_trip(a: App, content: Seq<char>, b: App)
    requires
        a.input@.len() == 0,
        a.input_mode == InputMode::Normal,
        a.pending_pastes@.len() == 0,
        content.len() > LARGE_PASTE_CHAR_THRESHOLD,
        pasted(a, content, b),
    ensures
        expanded_text(b) == content,
{
    let t = paste_display(content);
    let d = decimal(content.len());
    lemma_decimal_digits(content.len());
    reveal_strlit("[Pasted Content ");
    reveal_strlit(" chars]");
    let head = "[Pasted Content "@;
    let tail = " chars]"@;
    assert(t == head + d + tail);
    assert forall|i: int| 0 <= i < t.len() implies t[i] != '\n' by {
        if i < head.len() {
            assert(t[i] == head[i]);
        } else if i < head.len() + d.len() {
            assert(t[i] == d[i - head.len()]);
        } else {
            assert(t[i] == tail[i - head.len() - d.len()]);
        }
    }
    assert(!t.contains('\n'));
    assert(b.input@ =~= t);
    let ps = pastes_view(b.pending_pastes@);
    let added = pastes_view(a.pending_pastes@).push((t, content));
    assert(added =~= seq![(t, content)]);
    assert(t.subrange(0, t.len() as int) =~= t);
    assert(occurs_at(t, t, 0));
    assert(composed_text(b) == t);
    assert(contains_seq(t, t));
    assert(added.drop_last() =~= Seq::<(Seq<char>, Seq<char>)>::empty());
    assert(kept(added.drop_last(), t) =~= Seq::<(Seq<char>, Seq<char>)>::empty());
    assert(added.last().0 == t);
    assert(kept(added, t) =~= seq![(t, content)]);
    assert(ps =~= seq![(t, content)]);
    assert(t.subrange(0, t.len() as int) =~= t);
    assert(occurs_at(t, t, 0));
    assert(find_in(t, t) == Some(0int));
    assert(expand_n(t, ps, 0) == t);
    assert(replace_first(t, t, content) =~= content);
}


// ---------------------------------------------------------------------------
// Shell commands
// ---------------------------------------------------------------------------

/// How running a shell command went.
#[derive(Debug, Clone)]
pub enum CommandRun {
    /// The command ran; `code` is its exit code when it has one.
    Finished { success: bool, code: Option<i32>, stdout: String, stderr: String },
    /// The command could not be started.
    FailedToStart(String),
}

/// An integer in decimal, with a minus sign when negative.
pub open spec fn signed_decimal(i: int) -> Seq<char> {
    if i < 0 {
        seq!['-'] + decimal((-i) as nat)
    } else {
        decimal(i as nat)
    }
}

/// The text shown for a shell command's run.
pub open spec fn command_output_text(run: CommandRun) -> Seq<char> {
    match run {
        CommandRun::Finished { success, code, stdout, stderr } => if success {
            if stdout@.len() == 0 && stderr@.len() == 0 {
                "Command executed successfully (no output)"@
            } else if stderr@.len() == 0 {
                stdout@
            } else {
                "STDOUT:\n"@ + stdout@ + "\n\nSTDERR:\n"@ + stderr@
            }
        } else {
            "Command failed with exit code: "@ + signed_decimal(
                match code {
                    Some(c) => c as int,
                    None => -1,
                },
            ) + "\n\nSTDOUT:\n"@ + stdout@ + "\n\nSTDERR:\n"@ + stderr@
        },
        CommandRun::FailedToStart(e) => "Failed to execute command: "@ + e@,
    }
}

fn push_signed(out: &mut Vec<char>, i: i32)
    ensures
        final(out)@ == old(out)@ + signed_decimal(i as int),
{
    if i < 0 {
        out.push('-');
        let m: u64 = (0i64 - (i as i64)) as u64;
        crate::text::push_decimal_u64(out, m);
        proof {
            assert(final(out)@ =~= old(out)@ + signed_decimal(i as int)) by {
                assert(m as int == -(i as int));
            };
        }
    } else {
        crate::text::push_decimal_u64(out, i as u64);
    }
}

/// The text shown for a shell command's run.
pub fn format_command_output(run: &CommandRun) -> (r: String)
    ensures
        r@ == command_output_text(*run),
{
    match run {
        CommandRun::Finished { success, code, stdout, stderr } => {
            let out_empty = stdout.as_str().unicode_len() == 0;
            let err_empty = stderr.as_str().unicode_len() == 0;
            if *success {
                if out_empty && err_empty {
                    owned("Command executed successfully (no output)")
                } else if err_empty {
                    stdout.clone()
                } else {
                    let mut o = chars_of("STDOUT:\n");
                    push_str(&mut o, stdout.as_str());
                    push_str(&mut o, "\n\nSTDERR:\n");
                    push_str(&mut o, stderr.as_str());
                    string_of(&o)
                }
            } else {
                let c: i32 = match code {
                    Some(c) => *c,
                    None => -1,
                };
                let mut o = chars_of("Command failed with exit code: ");
                push_signed(&mut o, c);
                push_str(&mut o, "\n\nSTDOUT:\n");
                push_str(&mut o, stdout.as_str());
                push_str(&mut o, "\n\nSTDERR:\n");
                push_str(&mut o, stderr.as_str());
                string_of(&o)
            }
        },
        CommandRun::FailedToStart(e) => {
            let mut o = chars_of("Failed to execute command: ");
            push_str(&mut o, e.as_str());
            string_of(&o)
        },
    }
}


/// The program that runs a shell command line on Windows: PowerShell when
/// `SHELL_NAME` names it, cmd when it names cmd, else PowerShell exactly when
/// `PSModulePath` is set.
pub open spec fn prefers_powershell(shell_name: Seq<char>, ps_module_path: Seq<char>) -> bool {
    let o = crate::role::ascii_lower(shell_name);
    if contains_seq(o, "powershell"@) {
        true
    } else if contains_seq(o, "cmd"@) {
        false
    } else {
        ps_module_path.len() > 0
    }
}

/// The program and arguments that run a command line: PowerShell or cmd on
/// Windows (see `prefers_powershell`), else `$SHELL -c` (`/bin/sh` when
/// `SHELL` is unset).
pub fn shell_invocation(
    command: &str,
    windows: bool,
    shell_name: &str,
    ps_module_path: &str,
    shell_env: Option<&str>,
) -> (r: (String, Vec<String>))
    ensures
        windows && prefers_powershell(shell_name@, ps_module_path@) ==> r.0@ == "powershell.exe"@
            && views(r.1@) == seq!["-NoLogo"@, "-NoProfile"@, "-Command"@, command@],
        windows && !prefers_powershell(shell_name@, ps_module_path@) ==> r.0@ == "cmd.exe"@
            && views(r.1@) == seq!["/c"@, command@],
        !windows ==> r.0@ == (match shell_env {
            Some(s) => s@,
            None => "/bin/sh"@,
        }) && views(r.1@) == seq!["-c"@, command@],
{
    let mut args: Vec<String> = Vec::new();
    if windows {
        let o = crate::role::to_ascii_lower(shell_name);
        let ps = if contains_str(o.as_str(), "powershell") {
            true
        } else if contains_str(o.as_str(), "cmd") {
            false
        } else {
            ps_module_path.unicode_len() > 0
        };
        if ps {
            args.push(owned("-NoLogo"));
            args.push(owned("-NoProfile"));
            args.push(owned("-Command"));
            args.push(owned(command));
            proof {
                assert(views(args@) =~= seq!["-NoLogo"@, "-NoProfile"@, "-Command"@, command@]);
            }
            (owned("powershell.exe"), args)
        } else {
            args.push(owned("/c"));
            args.push(owned(command));
            proof {
                assert(views(args@) =~= seq!["/c"@, command@]);
            }
            (owned("cmd.exe"), args)
        }
    } else {
        args.push(owned("-c"));
        args.push(owned(command));
        proof {
            assert(views(args@) =~= seq!["-c"@, command@]);
        }
        let program = match shell_env {
            Some(s) => owned(s),
            None => owned("/bin/sh"),
        };
        (program, args)
    }
}

} // verus!
