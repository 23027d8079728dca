//! Session state: the composer editor, the conversation, popups, the
//! streaming flag and the queue of messages submitted while streaming.
use vstd::prelude::*;
use std::collections::VecDeque;
use crate::interp::InterpreterType;
use crate::message::{ChatMessage, Role, text_message};
use crate::text::{
    join_lines, views, contains_seq, owned, trim_str, trimmed, contains_str, join_newline_then,
    chars_of, string_of, slice_chars, extend_chars, find_chars, find_in, lemma_first_from,
    prev_boundary, next_boundary, clamp_to, prev_word_boundary, next_word_boundary, is_blank,
    is_blank_str, replace_first, decimal, push_decimal, push_str, contains_char, split_chars,
    splits_into, find_substring_char_index,
};

verus! {

/// How the composer takes input.
#[derive(Debug, Clone, Copy, PartialEq, Eq, Structural)]
pub enum InputMode {
    /// One line.
    Normal,
    /// Several lines: finished lines sit in `multiline_buffer`.
    MultiLine,
}

/// The overlay shown above the conversation.
#[derive(Debug, Clone)]
pub enum PopupState {
    Hidden,
    ExecutionResult { command: String, output: String },
    Description { command: String, description: String },
    StreamingDescription { command: String, current_description: String, is_loading: bool },
}

/// State of one interactive session.
#[derive(Debug)]
pub struct App {
    /// Session id; "temp" is never persisted.
    pub chat_id: String,
    /// Conversation history.
    pub messages: Vec<ChatMessage>,
    /// The composer's current line.
    pub input: String,
    /// Cursor in `input`, as a character index.
    pub input_cursor: usize,
    pub input_mode: InputMode,
    /// Finished lines of a multi-line input.
    pub multiline_buffer: Vec<String>,
    /// Lines submitted so far, oldest first.
    pub input_history: Vec<String>,
    /// Position while walking the history; `None` on the live line.
    pub history_index: Option<usize>,
    pub is_shell_mode: bool,
    pub interpreter: Option<InterpreterType>,
    pub allow_interaction: bool,
    /// Last generated command or code block.
    pub last_command: String,
    /// Content received so far for the response being streamed.
    pub current_response: String,
    /// True while a response is being streamed.
    pub is_receiving_response: bool,
    /// Inputs submitted while streaming, oldest first.
    pub message_queue: VecDeque<String>,
    pub status_message: String,
    pub model: String,
    pub show_help: bool,
    pub chat_scroll_offset: usize,
    /// Most messages kept in `messages`.
    pub max_display_messages: usize,
    pub popup_state: PopupState,
    pub collapsed_paste_content: Option<String>,
    /// Pasted texts held out of the composer: (placeholder, actual text).
    pub pending_pastes: Vec<(String, String)>,
    /// Time of the last cancel key, in milliseconds of a monotonic clock.
    pub last_ctrl_c_time: Option<u64>,
    /// Number for the next interpreter request id; it only grows (wrapping).
    pub request_counter: u64,
}

/// Window in which a second cancel ends the session, in milliseconds.
pub const DOUBLE_CTRL_C_TIMEOUT_MS: u64 = 500;

/// Messages kept in a new session.
pub const MAX_DISPLAY_MESSAGES: usize = 100;

// ---------------------------------------------------------------------------
// Model
// ---------------------------------------------------------------------------

/// The pending pastes as pairs of character sequences.
pub open spec fn pastes_view(v: Seq<(String, String)>) -> Seq<(Seq<char>, Seq<char>)> {
    v.map_values(|p: (String, String)| (p.0@, p.1@))
}

/// The composer's whole text: finished lines and the current one, joined by
/// newlines in multi-line mode; the current line otherwise.
pub open spec fn composed_text(a: App) -> Seq<char> {
    match a.input_mode {
        InputMode::MultiLine => join_lines(views(a.multiline_buffer@).push(a.input@)),
        InputMode::Normal => a.input@,
    }
}

/// The pastes whose placeholder still occurs in `t`, in their order.
pub open spec fn kept(ps: Seq<(Seq<char>, Seq<char>)>, t: Seq<char>) -> Seq<(Seq<char>, Seq<char>)>
    decreases ps.len(),
{
    if ps.len() == 0 {
        ps
    } else {
        let rest = kept(ps.drop_last(), t);
        if contains_seq(t, ps.last().0) {
            rest.push(ps.last())
        } else {
            rest
        }
    }
}

/// The cursor, clamped to the current line.
pub open spec fn cursor_of(a: App) -> int {
    if a.input_cursor <= a.input@.len() {
        a.input_cursor as int
    } else {
        a.input@.len() as int
    }
}

/// Everything but the composer is the same in `a` and `b`.
pub open spec fn session_same(a: App, b: App) -> bool {
    &&& a.chat_id == b.chat_id
    &&& a.messages == b.messages
    &&& a.input_history == b.input_history
    &&& a.history_index == b.history_index
    &&& a.is_shell_mode == b.is_shell_mode
    &&& a.interpreter == b.interpreter
    &&& a.allow_interaction == b.allow_interaction
    &&& a.last_command == b.last_command
    &&& a.current_response == b.current_response
    &&& a.is_receiving_response == b.is_receiving_response
    &&& a.message_queue == b.message_queue
    &&& a.status_message == b.status_message
    &&& a.model == b.model
    &&& a.show_help == b.show_help
    &&& a.chat_scroll_offset == b.chat_scroll_offset
    &&& a.max_display_messages == b.max_display_messages
    &&& a.popup_state == b.popup_state
    &&& a.collapsed_paste_content == b.collapsed_paste_content
    &&& a.last_ctrl_c_time == b.last_ctrl_c_time
    &&& a.request_counter == b.request_counter
}

/// The status line for a session's mode.
pub open spec fn status_text(interp: Option<InterpreterType>, shell: bool, allow: bool) -> Seq<
    char,
> {
    match interp {
        Some(InterpreterType::Python) => "Python REPL: e=execute, r=repeat | ctrl+h help"@,
        Some(InterpreterType::R) => "R REPL: e=execute, r=repeat | ctrl+h help"@,
        None => if shell {
            if allow {
                "Shell REPL: e=execute, r=repeat, d=describe | ctrl+h help"@
            } else {
                "Shell Mode | ctrl+h help"@
            }
        } else {
            "Chat Mode | ctrl+h help"@
        },
    }
}

/// The last `max` messages of `s` (all of them when there are fewer).
pub open spec fn keep_last<T>(s: Seq<T>, max: nat) -> Seq<T> {
    if s.len() > max {
        s.subrange(s.len() - max, s.len() as int)
    } else {
        s
    }
}

/// The messages that are not system messages, in order.
pub open spec fn non_system(s: Seq<ChatMessage>) -> Seq<ChatMessage>
    decreases s.len(),
{
    if s.len() == 0 {
        s
    } else if s.last().role == Role::System {
        non_system(s.drop_last())
    } else {
        non_system(s.drop_last()).push(s.last())
    }
}

/// Whether an overlay is shown.
pub open spec fn popup_shown(p: PopupState) -> bool {
    !(p is Hidden)
}

/// Cleaning up the pending pastes twice with no edit in between changes
/// nothing the second time: filtering by the same text again keeps the same
/// pastes.
pub proof fn lemma_cleanup_idempotent(ps: Seq<(Seq<char>, Seq<char>)>, t: Seq<char>)
    ensures
        kept(kept(ps, t), t) == kept(ps, t),
    decreases ps.len(),
{
    if ps.len() > 0 {
        lemma_cleanup_idempotent(ps.drop_last(), t);
        let rest = kept(ps.drop_last(), t);
        if contains_seq(t, ps.last().0) {
            let k = rest.push(ps.last());
            assert(k.drop_last() =~= rest);
        }
    }
}

/// The status line for a session's mode.
pub fn status_line(interp: Option<InterpreterType>, shell: bool, allow: bool) -> (r: String)
    ensures
        r@ == status_text(interp, shell, allow),
{
    match interp {
        Some(InterpreterType::Python) => owned("Python REPL: e=execute, r=repeat | ctrl+h help"),
        Some(InterpreterType::R) => owned("R REPL: e=execute, r=repeat | ctrl+h help"),
        None => if shell {
            if allow {
                owned("Shell REPL: e=execute, r=repeat, d=describe | ctrl+h help")
            } else {
                owned("Shell Mode | ctrl+h help")
            }
        } else {
            owned("Chat Mode | ctrl+h help")
        },
    }
}

fn clone_pair(p: &(String, String)) -> (r: (String, String))
    ensures
        r.0@ == p.0@,
        r.1@ == p.1@,
{
    (p.0.clone(), p.1.clone())
}

/// Effect of `App::finish_response`.
pub open spec fn effect_of_finish_response(a: App, b: App) -> bool {
    &&& a.current_response@.len() > 0 ==> b.messages@ == keep_last(
        a.messages@.push(
            text_message(Role::Assistant, a.current_response),
        ),
        a.max_display_messages as nat,
    )
    &&& a.current_response@.len() == 0 ==> b.messages == a.messages
    &&& a.current_response@.len() > 0 && (a.is_shell_mode || a.interpreter is Some) ==> b.last_command@ == trimmed(
        a.current_response@,
    )
    &&& !(a.current_response@.len() > 0 && (a.is_shell_mode || a.interpreter is Some)) ==> b.last_command == a.last_command
    &&& b.current_response@.len() == 0
    &&& !b.is_receiving_response
    &&& b.status_message@ == status_with_queue(
        a.interpreter,
        a.is_shell_mode,
        a.allow_interaction,
        a.message_queue@.len(),
    )
    &&& b.chat_scroll_offset == if a.current_response@.len() > 0 {
        0
    } else {
        a.chat_scroll_offset
    }
    &&& b == (App {
        messages: b.messages,
        last_command: b.last_command,
        current_response: b.current_response,
        is_receiving_response: false,
        status_message: b.status_message,
        chat_scroll_offset: b.chat_scroll_offset,
        ..a
    })
}

/// Effect of `App::move_cursor_left`.
pub open spec fn effect_of_move_cursor_left(a: App, b: App) -> bool {
    &&& b == (App {
        input_cursor: if a.input_cursor > 0 {
            (a.input_cursor - 1) as usize
        } else {
            0
        },
        ..a
    })
}

/// Effect of `App::move_cursor_right`.
pub open spec fn effect_of_move_cursor_right(a: App, b: App) -> bool {
    &&& b == (App {
        input_cursor: if a.input_cursor < a.input@.len() {
            (a.input_cursor + 1) as usize
        } else {
            a.input_cursor
        },
        ..a
    })
}

/// Effect of `App::move_cursor_home`.
pub open spec fn effect_of_move_cursor_home(a: App, b: App) -> bool {
    &&& b == (App { input_cursor: 0, ..a })
}

/// Effect of `App::move_cursor_end`.
pub open spec fn effect_of_move_cursor_end(a: App, b: App) -> bool {
    &&& b.input_cursor == a.input@.len()
    &&& b == (App { input_cursor: b.input_cursor, ..a })
}

/// Effect of `App::move_cursor_word_left`.
pub open spec fn effect_of_move_cursor_word_left(a: App, b: App) -> bool {
    &&& b.input_cursor == prev_boundary(a.input@, a.input_cursor as int)
    &&& b == (App { input_cursor: b.input_cursor, ..a })
}

/// Effect of `App::move_cursor_word_right`.
pub open spec fn effect_of_move_cursor_word_right(a: App, b: App) -> bool {
    &&& b.input_cursor == next_boundary(a.input@, a.input_cursor as int)
    &&& b == (App { input_cursor: b.input_cursor, ..a })
}

/// Effect of `App::insert_char`.
pub open spec fn effect_of_insert_char(a: App, b: App, c: char) -> bool {
    &&& b.input@ == a.input@.subrange(0, cursor_of(a)).push(c)
        + a.input@.subrange(cursor_of(a), a.input@.len() as int)
    &&& b.input_cursor == cursor_of(a) + 1
    &&& b.input_cursor <= b.input@.len()
    &&& b.input_mode == a.input_mode
    &&& b.multiline_buffer == a.multiline_buffer
    &&& pastes_view(b.pending_pastes@) == kept(
        pastes_view(a.pending_pastes@),
        composed_text(b)
    )
    &&& session_same(a, b)
}

/// Effect of `App::backspace`.
pub open spec fn effect_of_backspace(a: App, b: App) -> bool {
    &&& ({
        let s = a.input@;
        let c = cursor_of(a);
        let ps = pastes_view(a.pending_pastes@);
        match placeholder_hit(s, ps, a.input_cursor as int, true) {
            Some((k, st)) => {
                &&& b.input@ == without_placeholder(s, ps, k, st)
                &&& b.input@.len() == s.len() - ps[k].0.len()
                &&& b.input_cursor == st
                &&& b.input_mode == a.input_mode
                &&& b.multiline_buffer == a.multiline_buffer
                &&& pastes_view(b.pending_pastes@) == kept(
                    ps.remove(k),
                    composed_text(b),
                )
            },
            None => {
                &&& pastes_view(b.pending_pastes@) == kept(
                    ps,
                    composed_text(b),
                )
                &&& if c > 0 {
                    &&& b.input@ == s.subrange(0, c - 1) + s.subrange(
                        c,
                        s.len() as int,
                    )
                    &&& b.input_cursor == c - 1
                    &&& b.input_mode == a.input_mode
                    &&& b.multiline_buffer == a.multiline_buffer
                } else if a.input_mode == InputMode::MultiLine
                    && a.multiline_buffer@.len() > 0 {
                    let prev = a.multiline_buffer@.last()@;
                    &&& b.input@ == prev + s
                    &&& b.input_cursor == prev.len()
                    &&& b.multiline_buffer@
                        == a.multiline_buffer@.drop_last()
                    &&& b.input_mode == if a.multiline_buffer@.len()
                        == 1 {
                        InputMode::Normal
                    } else {
                        InputMode::MultiLine
                    }
                } else {
                    &&& b.input@ == s
                    &&& b.input_cursor == c
                    &&& b.input_mode == a.input_mode
                    &&& b.multiline_buffer == a.multiline_buffer
                }
            },
        }
    })
    &&& b.input_cursor <= b.input@.len()
    &&& session_same(a, b)
}

/// Effect of `App::delete`.
pub open spec fn effect_of_delete(a: App, b: App) -> bool {
    &&& ({
        let s = a.input@;
        let c = cursor_of(a);
        let ps = pastes_view(a.pending_pastes@);
        match placeholder_hit(s, ps, a.input_cursor as int, false) {
            Some((k, st)) => {
                &&& b.input@ == without_placeholder(s, ps, k, st)
                &&& b.input@.len() == s.len() - ps[k].0.len()
                &&& b.input_cursor == st
                &&& pastes_view(b.pending_pastes@) == kept(
                    ps.remove(k),
                    composed_text(b),
                )
            },
            None => {
                &&& pastes_view(b.pending_pastes@) == kept(
                    ps,
                    composed_text(b),
                )
                &&& b.input_cursor == c
                &&& b.input@ == if c < s.len() {
                    s.subrange(0, c) + s.subrange(c + 1, s.len() as int)
                } else {
                    s
                }
            },
        }
    })
    &&& b.input_mode == a.input_mode
    &&& b.multiline_buffer == a.multiline_buffer
    &&& b.input_cursor <= b.input@.len()
    &&& session_same(a, b)
}

/// Effect of `App::delete_prev_word`.
pub open spec fn effect_of_delete_prev_word(a: App, b: App) -> bool {
    &&& a.input_cursor == 0 ==> b == a
    &&& a.input_cursor > 0 ==> {
        let s = a.input@;
        let st = prev_boundary(s, a.input_cursor as int);
        &&& b.input@ == s.subrange(0, st) + s.subrange(
            cursor_of(a),
            s.len() as int,
        )
        &&& b.input_cursor == st
        &&& b.input_mode == a.input_mode
        &&& b.multiline_buffer == a.multiline_buffer
        &&& pastes_view(b.pending_pastes@) == kept(
            pastes_view(a.pending_pastes@),
            composed_text(b),
        )
        &&& session_same(a, b)
    }
}

/// Effect of `App::delete_next_word`.
pub open spec fn effect_of_delete_next_word(a: App, b: App) -> bool {
    &&& ({
        let s = a.input@;
        let c = cursor_of(a);
        let e = next_boundary(s, a.input_cursor as int);
        if e > c {
            &&& b.input@ == s.subrange(0, c) + s.subrange(e, s.len() as int)
            &&& b.input_cursor == a.input_cursor
            &&& b.input_mode == a.input_mode
            &&& b.multiline_buffer == a.multiline_buffer
            &&& pastes_view(b.pending_pastes@) == kept(
                pastes_view(a.pending_pastes@),
                composed_text(b),
            )
            &&& session_same(a, b)
        } else {
            b == a
        }
    })
}

/// Effect of `App::kill_to_line_start`.
pub open spec fn effect_of_kill_to_line_start(a: App, b: App) -> bool {
    &&& a.input_cursor == 0 ==> b == a
    &&& a.input_cursor > 0 ==> {
        &&& b.input@ == a.input@.subrange(
            cursor_of(a),
            a.input@.len() as int,
        )
        &&& b.input_cursor == 0
        &&& b.input_mode == a.input_mode
        &&& b.multiline_buffer == a.multiline_buffer
        &&& pastes_view(b.pending_pastes@) == kept(
            pastes_view(a.pending_pastes@),
            composed_text(b),
        )
        &&& session_same(a, b)
    }
}

/// Effect of `App::kill_to_line_end`.
pub open spec fn effect_of_kill_to_line_end(a: App, b: App) -> bool {
    &&& b.input@ == a.input@.subrange(0, cursor_of(a))
    &&& b.input_cursor == cursor_of(a)
    &&& b.input_mode == a.input_mode
    &&& b.multiline_buffer == a.multiline_buffer
    &&& pastes_view(b.pending_pastes@) == kept(
        pastes_view(a.pending_pastes@),
        composed_text(b)
    )
    &&& session_same(a, b)
}

/// Effect of `App::history_prev`.
pub open spec fn effect_of_history_prev(a: App, b: App) -> bool {
    &&& a.input_history@.len() == 0 ==> b == a
    &&& a.input_history@.len() > 0 ==> {
        let i = prev_history_index(a.history_index, a.input_history@.len());
        &&& b.history_index == Some(i as usize)
        &&& b.input == a.input_history@[i]
        &&& b.input_cursor == b.input@.len()
        &&& pastes_view(b.pending_pastes@) == kept(
            pastes_view(a.pending_pastes@),
            composed_text(b),
        )
        &&& b == (App {
            history_index: b.history_index,
            input: b.input,
            input_cursor: b.input_cursor,
            pending_pastes: b.pending_pastes,
            ..a
        })
    }
}

/// Effect of `App::history_next`.
pub open spec fn effect_of_history_next(a: App, b: App) -> bool {
    &&& ({
        let h = a.input_history@;
        match a.history_index {
            Some(i) => if h.len() == 0 {
                b == a
            } else if i + 1 < h.len() {
                &&& b.history_index == Some((i + 1) as usize)
                &&& b.input == h[i + 1]
                &&& b.input_cursor == b.input@.len()
                &&& pastes_view(b.pending_pastes@) == kept(
                    pastes_view(a.pending_pastes@),
                    composed_text(b),
                )
                &&& b == (App {
                    history_index: b.history_index,
                    input: b.input,
                    input_cursor: b.input_cursor,
                    pending_pastes: b.pending_pastes,
                    ..a
                })
            } else {
                &&& b.input@.len() == 0
                &&& pastes_view(b.pending_pastes@) == kept(
                    pastes_view(a.pending_pastes@),
                    composed_text(b),
                )
                &&& b == (App {
                    history_index: None,
                    input: b.input,
                    input_cursor: 0,
                    pending_pastes: b.pending_pastes,
                    ..a
                })
            },
            None => b == a,
        }
    })
}

/// Effect of `App::scroll_up`.
pub open spec fn effect_of_scroll_up(a: App, b: App) -> bool {
    &&& b == (App {
        chat_scroll_offset: if a.chat_scroll_offset < usize::MAX {
            (a.chat_scroll_offset + 1) as usize
        } else {
            a.chat_scroll_offset
        },
        ..a
    })
}

/// Effect of `App::scroll_down`.
pub open spec fn effect_of_scroll_down(a: App, b: App) -> bool {
    &&& b == (App {
        chat_scroll_offset: if a.chat_scroll_offset > 0 {
            (a.chat_scroll_offset - 1) as usize
        } else {
            0
        },
        ..a
    })
}

/// Effect of `App::expand_placeholders_inline`.
pub open spec fn effect_of_expand_placeholders_inline(a: App, b: App, r: bool) -> bool {
    &&& ({
        let ps = pastes_view(a.pending_pastes@);
        let (line, cursor, changed) = inline_fold(
            a.input@,
            a.input_cursor as int,
            ps,
            ps.len() as int,
        );
        &&& r == changed
        &&& !changed ==> b == a
        &&& changed ==> {
            &&& if line.contains('\n') {
                spread_into(line, b)
            } else {
                &&& b.input@ == line
                &&& b.input_cursor == cursor
                &&& b.input_mode == a.input_mode
                &&& b.multiline_buffer == a.multiline_buffer
            }
            &&& pastes_view(b.pending_pastes@) == kept(
                ps,
                composed_text(b),
            )
            &&& session_same(a, b)
        }
    })
}

/// Effect of `App::handle_ctrl_c`.
pub open spec fn effect_of_handle_ctrl_c(a: App, b: App, now_ms: u64, r: bool) -> bool {
    &&& r == (a.last_ctrl_c_time matches Some(last) && (now_ms < last || now_ms - last
        <= DOUBLE_CTRL_C_TIMEOUT_MS))
    &&& r ==> b == (App { last_ctrl_c_time: None, ..a })
    &&& !r ==> b.input@.len() == 0 && b.multiline_buffer@.len() == 0
        && b.pending_pastes@.len() == 0 && b == (App {
        input: b.input,
        input_cursor: 0,
        multiline_buffer: b.multiline_buffer,
        input_mode: InputMode::Normal,
        history_index: None,
        pending_pastes: b.pending_pastes,
        last_ctrl_c_time: Some(now_ms),
        ..a
    })
}

/// Effect of `App::start_streaming_description`.
pub open spec fn effect_of_start_streaming_description(a: App, b: App, command: String) -> bool {
    &&& b.popup_state matches PopupState::StreamingDescription {
        command: c,
        current_description: d,
        is_loading,
    } && c == command && d@.len() == 0 && is_loading
    &&& b == (App { popup_state: b.popup_state, ..a })
}

/// Effect of `App::append_description_content`.
pub open spec fn effect_of_append_description_content(a: App, b: App, content: Seq<char>) -> bool {
    &&& match a.popup_state {
        PopupState::StreamingDescription { command, current_description, .. } => {
            &&& b.popup_state matches PopupState::StreamingDescription {
                command: c,
                current_description: d,
                is_loading,
            } && c == command && d@ == current_description@ + content && !is_loading
            &&& b == (App { popup_state: b.popup_state, ..a })
        },
        _ => b == a,
    }
}

/// Effect of `App::finish_streaming_description`.
pub open spec fn effect_of_finish_streaming_description(a: App, b: App) -> bool {
    &&& match a.popup_state {
        PopupState::StreamingDescription { command, current_description, .. } => b
            == (App {
            popup_state: PopupState::Description {
                command,
                description: current_description,
            },
            ..a
        }),
        _ => b == a,
    }
}

/// Inputs queued while a response streams leave the queue in the order they
/// came: after `try_queue_message` puts `m` behind queue `q`, the next
/// `dequeue_message` takes the oldest entry, and the rest keep their order.
pub proof fn lemma_queue_is_fifo(q: Seq<String>, m: String)
    ensures
        q.push(m)[0] == if q.len() == 0 {
            m
        } else {
            q[0]
        },
        q.len() > 0 ==> q.push(m).drop_first() == q.drop_first().push(m),
        q.len() == 0 ==> q.push(m).drop_first().len() == 0,
{
    if q.len() > 0 {
        assert(q.push(m).drop_first() =~= q.drop_first().push(m));
    }
}

/// Inserting, backspacing or deleting from any state leaves the cursor a
/// valid character index of the current line.
pub proof fn lemma_edits_keep_cursor_valid(a: App, b: App, c: char)
    requires
        effect_of_insert_char(a, b, c) || effect_of_backspace(a, b) || effect_of_delete(a, b),
    ensures
        b.input_cursor <= b.input@.len(),
{
}

/// A backspace at the end of a pending paste's placeholder removes the whole
/// placeholder: the line gets shorter by the placeholder's length.
pub proof fn lemma_backspace_removes_whole_placeholder(a: App, b: App)
    requires
        effect_of_backspace(a, b),
        placeholder_hit(a.input@, pastes_view(a.pending_pastes@), a.input_cursor as int, true) is Some,
    ensures
        ({
            let (k, st) = placeholder_hit(
                a.input@,
                pastes_view(a.pending_pastes@),
                a.input_cursor as int,
                true,
            )->Some_0;
            &&& b.input@.len() == a.input@.len() - pastes_view(a.pending_pastes@)[k].0.len()
            &&& b.input_cursor == st
        }),
{
}

impl App {
    /// A new session with an empty composer.
    pub fn new(
        chat_id: String,
        messages: Vec<ChatMessage>,
        is_shell_mode: bool,
        allow_interaction: bool,
        model: String,
        interpreter: Option<InterpreterType>,
    ) -> (r: Self)
        ensures
            r.chat_id == chat_id,
            r.messages == messages,
            r.input@.len() == 0,
            r.input_cursor == 0,
            r.input_mode == InputMode::Normal,
            r.multiline_buffer@.len() == 0,
            r.input_history@.len() == 0,
            r.history_index is None,
            r.is_shell_mode == is_shell_mode,
            r.interpreter == interpreter,
            r.allow_interaction == allow_interaction,
            r.last_command@.len() == 0,
            r.current_response@.len() == 0,
            !r.is_receiving_response,
            r.message_queue@.len() == 0,
            r.status_message@ == status_text(interpreter, is_shell_mode, allow_interaction),
            r.model == model,
            !r.show_help,
            r.chat_scroll_offset == 0,
            r.max_display_messages == MAX_DISPLAY_MESSAGES,
            r.popup_state is Hidden,
            r.collapsed_paste_content is None,
            r.pending_pastes@.len() == 0,
            r.last_ctrl_c_time is None,
            r.request_counter == 1,
    {
        let status_message = status_line(interpreter, is_shell_mode, allow_interaction);
        App {
            chat_id,
            messages,
            input: String::new(),
            input_cursor: 0,
            input_mode: InputMode::Normal,
            multiline_buffer: Vec::new(),
            input_history: Vec::new(),
            history_index: None,
            is_shell_mode,
            interpreter,
            allow_interaction,
            last_command: String::new(),
            current_response: String::new(),
            is_receiving_response: false,
            message_queue: VecDeque::new(),
            status_message,
            model,
            show_help: false,
            chat_scroll_offset: 0,
            max_display_messages: MAX_DISPLAY_MESSAGES,
            popup_state: PopupState::Hidden,
            collapsed_paste_content: None,
            pending_pastes: Vec::new(),
            last_ctrl_c_time: None,
            request_counter: 1,
        }
    }

    /// Appends a message, keeps the last `max_display_messages` of them and
    /// scrolls to the bottom.
    pub fn add_message(&mut self, message: ChatMessage)
        ensures
            final(self).messages@ == keep_last(
                old(self).messages@.push(message),
                old(self).max_display_messages as nat,
            ),
            *final(self) == (App {
                messages: final(self).messages,
                chat_scroll_offset: 0,
                ..*old(self)
            }),
    {
        self.messages.push(message);
        let ghost full = self.messages@;
        let max = self.max_display_messages;
        while self.messages.len() > max
            invariant
                max == self.max_display_messages,
                *self == (App { messages: self.messages, ..*old(self) }),
                full.len() >= self.messages@.len(),
                self.messages@.len() == full.len() || self.messages@.len() >= max,
                self.messages@ == full.subrange(
                    full.len() - self.messages@.len(),
                    full.len() as int,
                ),
            decreases self.messages@.len(),
        {
            self.messages.remove(0);
        }
        proof {
            if full.len() <= max {
                assert(full.subrange(0, full.len() as int) =~= full);
            }
        }
        self.chat_scroll_offset = 0;
    }

    /// The messages that are not system messages.
    pub fn visible_messages(&self) -> (r: Vec<&ChatMessage>)
        ensures
            r@.map_values(|m: &ChatMessage| *m) == non_system(self.messages@),
    {
        let mut r: Vec<&ChatMessage> = Vec::new();
        let mut i: usize = 0;
        while i < self.messages.len()
            invariant
                i <= self.messages@.len(),
                r@.map_values(|m: &ChatMessage| *m) == non_system(self.messages@.subrange(0, i as int)),
            decreases self.messages@.len() - i,
        {
            proof {
                assert(self.messages@.subrange(0, i + 1).drop_last() =~= self.messages@.subrange(
                    0,
                    i as int,
                ));
            }
            if self.messages[i].role != Role::System {
                r.push(&self.messages[i]);
            }
            i += 1;
        }
        proof {
            assert(self.messages@.subrange(0, self.messages@.len() as int) =~= self.messages@);
        }
        r
    }

    /// Starts receiving a response.
    pub fn start_response(&mut self)
        ensures
            final(self).current_response@.len() == 0,
            *final(self) == (App {
                current_response: final(self).current_response,
                is_receiving_response: true,
                ..*old(self)
            }),
    {
        self.current_response = String::new();
        self.is_receiving_response = true;
    }

    /// Appends streamed content to the response.
    pub fn append_response(&mut self, content: &str)
        ensures
            final(self).current_response@ == old(self).current_response@ + content@,
            *final(self) == (App { current_response: final(self).current_response, ..*old(self) }),
    {
        self.current_response.append(content);
    }

    /// The status line for this session's mode.
    pub fn update_status_message(&mut self)
        ensures
            final(self).status_message@ == status_text(
                old(self).interpreter,
                old(self).is_shell_mode,
                old(self).allow_interaction,
            ),
            *final(self) == (App { status_message: final(self).status_message, ..*old(self) }),
    {
        self.status_message = status_line(self.interpreter, self.is_shell_mode, self.allow_interaction);
    }

    /// Ends the streamed response: a non-empty response becomes an assistant
    /// message and, in shell or interpreter mode, the trimmed response becomes
    /// the last command.
    pub fn finish_response(&mut self)
        ensures
            effect_of_finish_response(*old(self), *final(self)),
    {
        if self.current_response.as_str().unicode_len() > 0 {
            let response = self.current_response.clone();
            self.add_message(ChatMessage::new(Role::Assistant, response));
            if self.is_shell_mode || self.interpreter.is_some() {
                self.last_command = trim_str(self.current_response.as_str());
            }
        }
        self.current_response = String::new();
        self.is_receiving_response = false;
        self.refresh_status();
    }

    /// Empties the composer; with no text left, no pending paste is kept.
    pub fn clear_input(&mut self)
        ensures
            final(self).input@.len() == 0,
            final(self).multiline_buffer@.len() == 0,
            final(self).pending_pastes@.len() == 0,
            *final(self) == (App {
                input: final(self).input,
                input_cursor: 0,
                multiline_buffer: final(self).multiline_buffer,
                input_mode: InputMode::Normal,
                history_index: None,
                pending_pastes: final(self).pending_pastes,
                ..*old(self)
            }),
    {
        self.input = String::new();
        self.input_cursor = 0;
        self.multiline_buffer = Vec::new();
        self.input_mode = InputMode::Normal;
        self.history_index = None;
        self.pending_pastes = Vec::new();
    }

    /// The composer's whole text.
    pub fn get_input_text(&self) -> (r: String)
        ensures
            r@ == composed_text(*self),
    {
        match self.input_mode {
            InputMode::MultiLine => join_newline_then(&self.multiline_buffer, self.input.as_str()),
            InputMode::Normal => self.input.clone(),
        }
    }

    /// Shows or hides help.
    pub fn toggle_help(&mut self)
        ensures
            *final(self) == (App { show_help: !old(self).show_help, ..*old(self) }),
    {
        self.show_help = !self.show_help;
    }

    /// Scrolls one line towards older messages.
    pub fn scroll_up(&mut self)
        ensures
            effect_of_scroll_up(*old(self), *final(self)),
    {
        if self.chat_scroll_offset < usize::MAX {
            self.chat_scroll_offset += 1;
        }
    }

    /// Scrolls one line towards newer messages.
    pub fn scroll_down(&mut self)
        ensures
            effect_of_scroll_down(*old(self), *final(self)),
    {
        if self.chat_scroll_offset > 0 {
            self.chat_scroll_offset -= 1;
        }
    }

    /// Scrolls to the newest message.
    pub fn scroll_to_bottom(&mut self)
        ensures
            *final(self) == (App { chat_scroll_offset: 0, ..*old(self) }),
    {
        self.chat_scroll_offset = 0;
    }

    /// Drops the pending pastes whose placeholder no longer occurs in the
    /// composer's text.
    pub fn cleanup_pending_pastes(&mut self)
        ensures
            pastes_view(final(self).pending_pastes@) == kept(
                pastes_view(old(self).pending_pastes@),
                composed_text(*old(self)),
            ),
            *final(self) == (App { pending_pastes: final(self).pending_pastes, ..*old(self) }),
    {
        if self.pending_pastes.len() == 0 {
            return;
        }
        let full = self.get_input_text();
        let mut keep: Vec<(String, String)> = Vec::new();
        let mut i: usize = 0;
        while i < self.pending_pastes.len()
            invariant
                i <= self.pending_pastes@.len(),
                full@ == composed_text(*self),
                pastes_view(keep@) == kept(
                    pastes_view(self.pending_pastes@.subrange(0, i as int)),
                    full@,
                ),
            decreases self.pending_pastes@.len() - i,
        {
            let ghost pre = pastes_view(self.pending_pastes@.subrange(0, i as int));
            let ghost cur = pastes_view(self.pending_pastes@.subrange(0, i + 1));
            proof {
                assert(cur.drop_last() =~= pre);
            }
            if contains_str(full.as_str(), self.pending_pastes[i].0.as_str()) {
                let ghost before = keep@;
                keep.push(clone_pair(&self.pending_pastes[i]));
                proof {
                    assert(pastes_view(keep@) =~= pastes_view(before).push(cur.last()));
                }
            }
            i += 1;
        }
        proof {
            assert(self.pending_pastes@.subrange(0, self.pending_pastes@.len() as int)
                =~= self.pending_pastes@);
        }
        self.pending_pastes = keep;
    }
}


/// The first pending paste, from index `k` on, whose placeholder's first
/// occurrence in `line` touches `boundary`: it ends there for a backspace and
/// starts there for a delete. The result is the paste's index and where its
/// placeholder starts.
pub open spec fn hit_from(
    line: Seq<char>,
    ps: Seq<(Seq<char>, Seq<char>)>,
    boundary: int,
    backspace: bool,
    k: int,
) -> Option<(int, int)>
    decreases ps.len() - k,
{
    if k < 0 || k >= ps.len() {
        None
    } else {
        match find_in(line, ps[k].0) {
            Some(st) => if (backspace && boundary == st + ps[k].0.len()) || (!backspace && boundary
                == st) {
                Some((k, st))
            } else {
                hit_from(line, ps, boundary, backspace, k + 1)
            },
            None => hit_from(line, ps, boundary, backspace, k + 1),
        }
    }
}

/// The placeholder that a backspace or delete at `boundary` removes whole.
pub open spec fn placeholder_hit(
    line: Seq<char>,
    ps: Seq<(Seq<char>, Seq<char>)>,
    boundary: int,
    backspace: bool,
) -> Option<(int, int)> {
    if line.len() == 0 || ps.len() == 0 {
        None
    } else {
        hit_from(line, ps, boundary, backspace, 0)
    }
}

/// What a hit removes: `line` without the placeholder of paste `k` at `st`.
pub open spec fn without_placeholder(
    line: Seq<char>,
    ps: Seq<(Seq<char>, Seq<char>)>,
    k: int,
    st: int,
) -> Seq<char> {
    line.subrange(0, st) + line.subrange(st + ps[k].0.len(), line.len() as int)
}

proof fn lemma_hit_from(
    line: Seq<char>,
    ps: Seq<(Seq<char>, Seq<char>)>,
    boundary: int,
    backspace: bool,
    k: int,
)
    requires
        0 <= k,
    ensures
        hit_from(line, ps, boundary, backspace, k) matches Some((i, st)) ==> k <= i < ps.len()
            && find_in(line, ps[i].0) == Some(st) && 0 <= st && st + ps[i].0.len() <= line.len(),
    decreases ps.len() - k,
{
    if k < ps.len() {
        lemma_first_from(line, ps[k].0, 0);
        lemma_hit_from(line, ps, boundary, backspace, k + 1);
    }
}

impl App {
    /// Moves the cursor one character left.
    pub fn move_cursor_left(&mut self)
        ensures
            effect_of_move_cursor_left(*old(self), *final(self)),
    {
        if self.input_cursor > 0 {
            self.input_cursor -= 1;
        }
    }

    /// Moves the cursor one character right, up to the end of the line.
    pub fn move_cursor_right(&mut self)
        ensures
            effect_of_move_cursor_right(*old(self), *final(self)),
    {
        let total = self.input.as_str().unicode_len();
        if self.input_cursor < total {
            self.input_cursor += 1;
        }
    }

    /// Moves the cursor to the start of the line.
    pub fn move_cursor_home(&mut self)
        ensures
            effect_of_move_cursor_home(*old(self), *final(self)),
    {
        self.input_cursor = 0;
    }

    /// Moves the cursor to the end of the line.
    pub fn move_cursor_end(&mut self)
        ensures
            effect_of_move_cursor_end(*old(self), *final(self)),
    {
        self.input_cursor = self.input.as_str().unicode_len();
    }

    /// Moves the cursor to the start of the word on its left.
    pub fn move_cursor_word_left(&mut self)
        ensures
            effect_of_move_cursor_word_left(*old(self), *final(self)),
    {
        self.input_cursor = prev_word_boundary(self.input.as_str(), self.input_cursor);
    }

    /// Moves the cursor to the end of the word on its right.
    pub fn move_cursor_word_right(&mut self)
        ensures
            effect_of_move_cursor_word_right(*old(self), *final(self)),
    {
        self.input_cursor = next_word_boundary(self.input.as_str(), self.input_cursor);
    }

    /// Inserts a character at the cursor and moves the cursor past it.
    pub fn insert_char(&mut self, c: char)
        ensures
            effect_of_insert_char(*old(self), *final(self), c),
    {
        let cs = chars_of(self.input.as_str());
        let n = cs.len();
        let cur: usize = if self.input_cursor <= n {
            self.input_cursor
        } else {
            n
        };
        let mut out = slice_chars(&cs, 0, cur);
        out.push(c);
        let tail = slice_chars(&cs, cur, n);
        extend_chars(&mut out, &tail);
        let total = out.len();
        self.input = string_of(&out);
        self.input_cursor = cur + 1;
        self.cleanup_pending_pastes();
    }

    /// Removes the pending paste whose placeholder a backspace (or a delete)
    /// at the cursor would cut into, with its placeholder text; returns whether
    /// one was removed.
    pub fn try_remove_placeholder_at_cursor(&mut self, is_backspace: bool) -> (r: bool)
        ensures
            match placeholder_hit(
                old(self).input@,
                pastes_view(old(self).pending_pastes@),
                old(self).input_cursor as int,
                is_backspace,
            ) {
                Some((k, st)) => {
                    &&& r
                    &&& final(self).input@ == without_placeholder(
                        old(self).input@,
                        pastes_view(old(self).pending_pastes@),
                        k,
                        st,
                    )
                    &&& final(self).input_cursor == st
                    &&& final(self).pending_pastes@ == old(self).pending_pastes@.remove(k)
                    &&& *final(self) == (App {
                        input: final(self).input,
                        input_cursor: final(self).input_cursor,
                        pending_pastes: final(self).pending_pastes,
                        ..*old(self)
                    })
                },
                None => !r && *final(self) == *old(self),
            },
    {
        let line = chars_of(self.input.as_str());
        if line.len() == 0 || self.pending_pastes.len() == 0 {
            return false;
        }
        let boundary = self.input_cursor;
        let line_len = line.len();
        let ghost ps = pastes_view(self.pending_pastes@);
        let mut idx: usize = 0;
        while idx < self.pending_pastes.len()
            invariant
                *self == *old(self),
                line_len == line@.len(),
                line@ == self.input@,
                ps == pastes_view(self.pending_pastes@),
                boundary == self.input_cursor,
                idx <= ps.len(),
                placeholder_hit(line@, ps, boundary as int, is_backspace) == hit_from(
                    line@,
                    ps,
                    boundary as int,
                    is_backspace,
                    idx as int,
                ),
            decreases ps.len() - idx,
        {
            let ph = chars_of(self.pending_pastes[idx].0.as_str());
            proof {
                assert(ph@ == ps[idx as int].0);
                lemma_first_from(line@, ph@, 0);
            }
            match find_chars(&line, &ph) {
                Some(start) => {
                    let end = start + ph.len();
                    let hit = if is_backspace {
                        boundary == end
                    } else {
                        boundary == start
                    };
                    if hit {
                        let mut out = slice_chars(&line, 0, start);
                        let tail = slice_chars(&line, end, line_len);
                        extend_chars(&mut out, &tail);
                        self.input = string_of(&out);
                        self.input_cursor = start;
                        self.pending_pastes.remove(idx);
                        return true;
                    }
                },
                None => {},
            }
            idx += 1;
        }
        false
    }

    /// Deletes the character left of the cursor: a whole placeholder when the
    /// cursor is at a placeholder's end; at the start of a continuation line,
    /// joins it to the previous line.
    pub fn backspace(&mut self)
        ensures
            effect_of_backspace(*old(self), *final(self)),
    {
        let ghost ps = pastes_view(self.pending_pastes@);
        if self.try_remove_placeholder_at_cursor(true) {
            proof {
                let (k, st) = placeholder_hit(
                    old(self).input@,
                    ps,
                    old(self).input_cursor as int,
                    true,
                )->Some_0;
                lemma_hit_from(old(self).input@, ps, old(self).input_cursor as int, true, 0);
                assert(pastes_view(self.pending_pastes@) =~= ps.remove(k));
            }
            self.cleanup_pending_pastes();
            return;
        }
        let cs = chars_of(self.input.as_str());
        let n = cs.len();
        let cur: usize = if self.input_cursor <= n {
            self.input_cursor
        } else {
            n
        };
        if cur > 0 {
            let mut out = slice_chars(&cs, 0, cur - 1);
            let tail = slice_chars(&cs, cur, n);
            extend_chars(&mut out, &tail);
            self.input = string_of(&out);
            self.input_cursor = cur - 1;
        } else if self.input_mode == InputMode::MultiLine && self.multiline_buffer.len() > 0 {
            let ghost buf = self.multiline_buffer@;
            let previous_line = self.multiline_buffer.pop().unwrap();
            let mut joined = chars_of(previous_line.as_str());
            let prev_chars = joined.len();
            extend_chars(&mut joined, &cs);
            self.input = string_of(&joined);
            self.input_cursor = prev_chars;
            if self.multiline_buffer.len() == 0 {
                self.input_mode = InputMode::Normal;
            }
        } else {
            self.input_cursor = cur;
        }
        self.cleanup_pending_pastes();
    }

    /// Deletes the character under the cursor: a whole placeholder when the
    /// cursor is at a placeholder's start.
    pub fn delete(&mut self)
        ensures
            effect_of_delete(*old(self), *final(self)),
    {
        let ghost ps = pastes_view(self.pending_pastes@);
        if self.try_remove_placeholder_at_cursor(false) {
            proof {
                let (k, st) = placeholder_hit(
                    old(self).input@,
                    ps,
                    old(self).input_cursor as int,
                    false,
                )->Some_0;
                lemma_hit_from(old(self).input@, ps, old(self).input_cursor as int, false, 0);
                assert(pastes_view(self.pending_pastes@) =~= ps.remove(k));
            }
            self.cleanup_pending_pastes();
            return;
        }
        let cs = chars_of(self.input.as_str());
        let n = cs.len();
        let cur: usize = if self.input_cursor <= n {
            self.input_cursor
        } else {
            n
        };
        if cur < n {
            let mut out = slice_chars(&cs, 0, cur);
            let tail = slice_chars(&cs, cur + 1, n);
            extend_chars(&mut out, &tail);
            self.input = string_of(&out);
        }
        self.input_cursor = cur;
        self.cleanup_pending_pastes();
    }

    /// Deletes from the start of the word left of the cursor to the cursor.
    pub fn delete_prev_word(&mut self)
        ensures
            effect_of_delete_prev_word(*old(self), *final(self)),
    {
        if self.input_cursor == 0 {
            return;
        }
        let cs = chars_of(self.input.as_str());
        let n = cs.len();
        let cur: usize = if self.input_cursor <= n {
            self.input_cursor
        } else {
            n
        };
        let start = prev_word_boundary(self.input.as_str(), self.input_cursor);
        let mut out = slice_chars(&cs, 0, start);
        let tail = slice_chars(&cs, cur, n);
        extend_chars(&mut out, &tail);
        self.input = string_of(&out);
        self.input_cursor = start;
        self.cleanup_pending_pastes();
    }

    /// Deletes from the cursor to the end of the word on its right.
    pub fn delete_next_word(&mut self)
        ensures
            effect_of_delete_next_word(*old(self), *final(self)),
    {
        let cs = chars_of(self.input.as_str());
        let n = cs.len();
        let cur: usize = if self.input_cursor <= n {
            self.input_cursor
        } else {
            n
        };
        let end = next_word_boundary(self.input.as_str(), self.input_cursor);
        if end > cur {
            let mut out = slice_chars(&cs, 0, cur);
            let tail = slice_chars(&cs, end, n);
            extend_chars(&mut out, &tail);
            self.input = string_of(&out);
            self.cleanup_pending_pastes();
        }
    }

    /// Deletes from the start of the line to the cursor.
    pub fn kill_to_line_start(&mut self)
        ensures
            effect_of_kill_to_line_start(*old(self), *final(self)),
    {
        if self.input_cursor == 0 {
            return;
        }
        let cs = chars_of(self.input.as_str());
        let n = cs.len();
        let cur: usize = if self.input_cursor <= n {
            self.input_cursor
        } else {
            n
        };
        let out = slice_chars(&cs, cur, n);
        self.input = string_of(&out);
        self.input_cursor = 0;
        self.cleanup_pending_pastes();
    }

    /// Deletes from the cursor to the end of the line.
    pub fn kill_to_line_end(&mut self)
        ensures
            effect_of_kill_to_line_end(*old(self), *final(self)),
    {
        let cs = chars_of(self.input.as_str());
        let n = cs.len();
        let cur: usize = if self.input_cursor <= n {
            self.input_cursor
        } else {
            n
        };
        let out = slice_chars(&cs, 0, cur);
        self.input = string_of(&out);
        self.input_cursor = cur;
        self.cleanup_pending_pastes();
    }
}


/// Where walking back in a history of `len` entries goes from `idx`.
pub open spec fn prev_history_index(idx: Option<usize>, len: nat) -> int {
    match idx {
        None => len - 1,
        Some(i) => if i == 0 {
            0
        } else if i - 1 < len {
            i - 1
        } else {
            len - 1
        },
    }
}

/// The text after each pending paste, in order, has replaced the first
/// occurrence of its placeholder; `k` pastes applied.
pub open spec fn expand_n(t: Seq<char>, ps: Seq<(Seq<char>, Seq<char>)>, k: int) -> Seq<char>
    decreases k,
{
    if k <= 0 {
        t
    } else {
        let prev = expand_n(t, ps, k - 1);
        replace_first(prev, ps[k - 1].0, ps[k - 1].1)
    }
}

/// The composer's text with every pending paste expanded.
pub open spec fn expanded_text(a: App) -> Seq<char> {
    let ps = pastes_view(a.pending_pastes@);
    expand_n(composed_text(a), ps, ps.len() as int)
}

/// Inline expansion of the first `k` pastes into a line, with the cursor and
/// whether anything changed.
pub open spec fn inline_fold(
    line: Seq<char>,
    cursor: int,
    ps: Seq<(Seq<char>, Seq<char>)>,
    k: int,
) -> (Seq<char>, int, bool)
    decreases k,
{
    if k <= 0 {
        (line, cursor, false)
    } else {
        let (l, c, ch) = inline_fold(line, cursor, ps, k - 1);
        match find_in(l, ps[k - 1].0) {
            Some(st) => (
                replace_first(l, ps[k - 1].0, ps[k - 1].1),
                if c >= st {
                    st + ps[k - 1].1.len()
                } else {
                    c
                },
                true,
            ),
            None => (l, c, ch),
        }
    }
}

/// Status line: the mode's line, followed by the queue length when messages wait.
pub open spec fn status_with_queue(
    interp: Option<InterpreterType>,
    shell: bool,
    allow: bool,
    queued: nat,
) -> Seq<char> {
    if queued == 0 {
        status_text(interp, shell, allow)
    } else {
        status_text(interp, shell, allow) + " | queued: "@ + decimal(queued)
    }
}

/// A line holding newlines spread over the composer: all but the last piece
/// become finished lines, the last one the current line.
pub open spec fn spread_into(line: Seq<char>, a: App) -> bool {
    &&& splits_into(line, '\n', views(a.multiline_buffer@).push(a.input@))
    &&& a.input_cursor == a.input@.len()
    &&& a.input_mode == InputMode::MultiLine
}

impl App {
    /// Records a submitted line, unless it is blank or repeats the newest entry.
    pub fn push_history(&mut self, line: String)
        ensures
            final(self).input_history@ == if !is_blank(line@) && (old(self).input_history@.len()
                == 0 || old(self).input_history@.last()@ != line@) {
                old(self).input_history@.push(line)
            } else {
                old(self).input_history@
            },
            *final(self) == (App {
                input_history: final(self).input_history,
                history_index: None,
                ..*old(self)
            }),
    {
        if !is_blank_str(line.as_str()) {
            let n = self.input_history.len();
            if n == 0 || self.input_history[n - 1] != line {
                self.input_history.push(line);
            }
        }
        self.history_index = None;
    }

    /// Shows the previous history entry.
    pub fn history_prev(&mut self)
        ensures
            effect_of_history_prev(*old(self), *final(self)),
    {
        let n = self.input_history.len();
        if n == 0 {
            return;
        }
        let i: usize = match self.history_index {
            None => n - 1,
            Some(i) => if i == 0 {
                0
            } else if i - 1 < n {
                i - 1
            } else {
                n - 1
            },
        };
        self.history_index = Some(i);
        self.input = self.input_history[i].clone();
        self.move_cursor_end();
        self.cleanup_pending_pastes();
    }

    /// Shows the next history entry; past the newest one, an empty line.
    pub fn history_next(&mut self)
        ensures
            effect_of_history_next(*old(self), *final(self)),
    {
        let n = self.input_history.len();
        if n == 0 {
            return;
        }
        match self.history_index {
            None => {},
            Some(i) => {
                if i < n - 1 {
                    let ni = i + 1;
                    self.history_index = Some(ni);
                    self.input = self.input_history[ni].clone();
                    self.move_cursor_end();
                    self.cleanup_pending_pastes();
                } else {
                    self.history_index = None;
                    self.input = String::new();
                    self.input_cursor = 0;
                    self.cleanup_pending_pastes();
                }
            },
        }
    }

    /// Shows the output of a command.
    pub fn show_execution_result(&mut self, command: String, output: String)
        ensures
            *final(self) == (App {
                popup_state: PopupState::ExecutionResult { command, output },
                ..*old(self)
            }),
    {
        self.popup_state = PopupState::ExecutionResult { command, output };
    }

    /// Shows the description of a command.
    pub fn show_description(&mut self, command: String, description: String)
        ensures
            *final(self) == (App {
                popup_state: PopupState::Description { command, description },
                ..*old(self)
            }),
    {
        self.popup_state = PopupState::Description { command, description };
    }

    /// Opens a description popup that is still loading.
    pub fn start_streaming_description(&mut self, command: String)
        ensures
            effect_of_start_streaming_description(*old(self), *final(self), command),
    {
        self.popup_state = PopupState::StreamingDescription {
            command,
            current_description: String::new(),
            is_loading: true,
        };
    }

    /// Appends streamed description text; the popup is no longer loading.
    pub fn append_description_content(&mut self, content: &str)
        ensures
            effect_of_append_description_content(*old(self), *final(self), content@),
    {
        match &self.popup_state {
            PopupState::StreamingDescription { command, current_description, .. } => {
                let mut d = current_description.clone();
                d.append(content);
                let c = command.clone();
                self.popup_state = PopupState::StreamingDescription {
                    command: c,
                    current_description: d,
                    is_loading: false,
                };
            },
            _ => {},
        }
    }

    /// Turns a streaming description into a finished one.
    pub fn finish_streaming_description(&mut self)
        ensures
            effect_of_finish_streaming_description(*old(self), *final(self)),
    {
        match &self.popup_state {
            PopupState::StreamingDescription { command, current_description, .. } => {
                let description = current_description.clone();
                let command = command.clone();
                self.popup_state = PopupState::Description { command, description };
            },
            _ => {},
        }
    }

    /// Closes any popup.
    pub fn hide_popup(&mut self)
        ensures
            *final(self) == (App { popup_state: PopupState::Hidden, ..*old(self) }),
    {
        self.popup_state = PopupState::Hidden;
    }

    /// Whether a popup is shown.
    pub fn is_popup_shown(&self) -> (r: bool)
        ensures
            r == popup_shown(self.popup_state),
    {
        match self.popup_state {
            PopupState::Hidden => false,
            _ => true,
        }
    }

    /// The status line for this session's mode and queue.
    pub fn refresh_status(&mut self)
        ensures
            final(self).status_message@ == status_with_queue(
                old(self).interpreter,
                old(self).is_shell_mode,
                old(self).allow_interaction,
                old(self).message_queue@.len(),
            ),
            *final(self) == (App { status_message: final(self).status_message, ..*old(self) }),
    {
        let n = self.message_queue.len();
        if n == 0 {
            self.update_status_message();
        } else {
            let base = status_line(self.interpreter, self.is_shell_mode, self.allow_interaction);
            let mut out = chars_of(base.as_str());
            push_str(&mut out, " | queued: ");
            push_decimal(&mut out, n);
            self.status_message = string_of(&out);
        }
    }

    /// Queues a message while a response streams, and says whether it did;
    /// otherwise the message is to be sent now.
    pub fn try_queue_message(&mut self, message: String) -> (r: bool)
        ensures
            r == old(self).is_receiving_response,
            r ==> final(self).message_queue@ == old(self).message_queue@.push(message),
            r ==> final(self).status_message@ == status_with_queue(
                old(self).interpreter,
                old(self).is_shell_mode,
                old(self).allow_interaction,
                old(self).message_queue@.len() + 1,
            ),
            r ==> *final(self) == (App {
                message_queue: final(self).message_queue,
                status_message: final(self).status_message,
                ..*old(self)
            }),
            !r ==> *final(self) == *old(self),
    {
        if self.is_receiving_response {
            self.message_queue.push_back(message);
            self.refresh_status();
            true
        } else {
            false
        }
    }

    /// Takes the oldest queued message.
    pub fn dequeue_message(&mut self) -> (r: Option<String>)
        ensures
            old(self).message_queue@.len() == 0 ==> r is None && final(self).message_queue@
                == old(self).message_queue@,
            old(self).message_queue@.len() > 0 ==> r == Some(old(self).message_queue@[0])
                && final(self).message_queue@ == old(self).message_queue@.drop_first(),
            final(self).status_message@ == status_with_queue(
                old(self).interpreter,
                old(self).is_shell_mode,
                old(self).allow_interaction,
                final(self).message_queue@.len(),
            ),
            *final(self) == (App {
                message_queue: final(self).message_queue,
                status_message: final(self).status_message,
                ..*old(self)
            }),
    {
        let msg = self.message_queue.pop_front();
        self.refresh_status();
        msg
    }

    /// Keeps the text of a collapsed paste for later expansion.
    pub fn store_collapsed_paste_content(&mut self, content: String)
        ensures
            *final(self) == (App { collapsed_paste_content: Some(content), ..*old(self) }),
    {
        self.collapsed_paste_content = Some(content);
    }

    /// Handles a cancel key at `now_ms`: a second one within
    /// `DOUBLE_CTRL_C_TIMEOUT_MS` of the first asks to quit (returns true);
    /// otherwise the composer is cleared and the time recorded.
    pub fn handle_ctrl_c(&mut self, now_ms: u64) -> (r: bool)
        ensures
            effect_of_handle_ctrl_c(*old(self), *final(self), now_ms, r),
    {
        if let Some(last) = self.last_ctrl_c_time {
            let elapsed: u64 = if now_ms >= last {
                now_ms - last
            } else {
                0
            };
            if elapsed <= DOUBLE_CTRL_C_TIMEOUT_MS {
                self.last_ctrl_c_time = None;
                return true;
            }
        }
        self.clear_input();
        self.last_ctrl_c_time = Some(now_ms);
        false
    }

    /// Records the text that a placeholder stands for.
    pub fn register_pending_paste(&mut self, placeholder: String, actual: String)
        ensures
            final(self).pending_pastes@ == old(self).pending_pastes@.push((placeholder, actual)),
            *final(self) == (App { pending_pastes: final(self).pending_pastes, ..*old(self) }),
    {
        self.pending_pastes.push((placeholder, actual));
    }

    /// The composer's text with each placeholder replaced, once and in order,
    /// by the text it stands for; the pending pastes are cleared.
    pub fn expand_placeholders_for_submit(&mut self) -> (r: String)
        ensures
            r@ == expanded_text(*old(self)),
            final(self).pending_pastes@.len() == 0,
            *final(self) == (App { pending_pastes: final(self).pending_pastes, ..*old(self) }),
    {
        let text = self.get_input_text();
        if self.pending_pastes.len() == 0 {
            return text;
        }
        let mut cur = chars_of(text.as_str());
        let ghost ps = pastes_view(self.pending_pastes@);
        let mut i: usize = 0;
        while i < self.pending_pastes.len()
            invariant
                *self == *old(self),
                ps == pastes_view(self.pending_pastes@),
                i <= ps.len(),
                cur@ == expand_n(composed_text(*self), ps, i as int),
            decreases ps.len() - i,
        {
            let ph = chars_of(self.pending_pastes[i].0.as_str());
            let actual = chars_of(self.pending_pastes[i].1.as_str());
            proof {
                assert(ph@ == ps[i as int].0);
                assert(actual@ == ps[i as int].1);
            }
            cur = replace_first_chars(&cur, &ph, &actual);
            i += 1;
        }
        self.pending_pastes = Vec::new();
        string_of(&cur)
    }

    /// Splits a current line that holds newlines over the composer's lines.
    fn spread_lines(&mut self)
        ensures
            old(self).input@.contains('\n') ==> spread_into(old(self).input@, *final(self))
                && *final(self) == (App {
                input: final(self).input,
                input_cursor: final(self).input_cursor,
                multiline_buffer: final(self).multiline_buffer,
                input_mode: InputMode::MultiLine,
                ..*old(self)
            }),
            !old(self).input@.contains('\n') ==> *final(self) == *old(self),
    {
        let cs = chars_of(self.input.as_str());
        if !contains_char(&cs, '\n') {
            return;
        }
        let parts = split_chars(&cs, '\n');
        let ghost pv = parts@.map_values(|v: Vec<char>| v@);
        let n = parts.len();
        let mut buffer: Vec<String> = Vec::new();
        let mut i: usize = 0;
        while i < n - 1
            invariant
                n == parts@.len(),
                n >= 1,
                pv == parts@.map_values(|v: Vec<char>| v@),
                i <= n - 1,
                views(buffer@) == pv.subrange(0, i as int),
            decreases n - 1 - i,
        {
            let line = string_of(&parts[i]);
            let ghost before = buffer@;
            buffer.push(line);
            proof {
                assert(pv[i as int] == parts@[i as int]@);
                assert(views(buffer@) =~= views(before).push(pv[i as int]));
                assert(pv.subrange(0, i + 1) =~= pv.subrange(0, i as int).push(pv[i as int]));
            }
            i += 1;
        }
        let last = string_of(&parts[n - 1]);
        proof {
            assert(views(buffer@).push(last@) =~= pv);
        }
        self.multiline_buffer = buffer;
        self.input = last;
        self.input_cursor = parts[n - 1].len();
        self.input_mode = InputMode::MultiLine;
    }

    /// Expands every placeholder found in the current line in place, moving
    /// the cursor past expansions before it; a line that then holds newlines
    /// is spread over the composer's lines. Returns whether anything changed.
    pub fn expand_placeholders_inline(&mut self) -> (r: bool)
        ensures
            effect_of_expand_placeholders_inline(*old(self), *final(self), r),
    {
        if self.pending_pastes.len() == 0 {
            return false;
        }
        let mut changed = false;
        let mut line = chars_of(self.input.as_str());
        let mut cursor = self.input_cursor;
        let ghost ps = pastes_view(self.pending_pastes@);
        let mut i: usize = 0;
        while i < self.pending_pastes.len()
            invariant
                *self == *old(self),
                ps == pastes_view(self.pending_pastes@),
                i <= ps.len(),
                (line@, cursor as int, changed) == inline_fold(
                    self.input@,
                    self.input_cursor as int,
                    ps,
                    i as int,
                ),
            decreases ps.len() - i,
        {
            let ph = chars_of(self.pending_pastes[i].0.as_str());
            let actual = chars_of(self.pending_pastes[i].1.as_str());
            proof {
                assert(ph@ == ps[i as int].0);
                assert(actual@ == ps[i as int].1);
                lemma_first_from(line@, ph@, 0);
            }
            match find_chars(&line, &ph) {
                Some(start) => {
                    let next = replace_first_chars(&line, &ph, &actual);
                    let next_len = next.len();
                    cursor = if cursor >= start {
                        start + actual.len()
                    } else {
                        cursor
                    };
                    line = next;
                    changed = true;
                },
                None => {},
            }
            i += 1;
        }
        if changed {
            self.input = string_of(&line);
            self.input_cursor = cursor;
            self.spread_lines();
            self.cleanup_pending_pastes();
        }
        changed
    }

    /// Puts the stored collapsed paste in place of the first collapsed-paste
    /// marker in the current line, then drops pending pastes whose placeholder
    /// is gone; returns whether it did.
    pub fn try_expand_collapsed_paste(&mut self) -> (r: bool)
        ensures
            ({
                let s = old(self).input@;
                let open = find_in(s, "[pasted content "@);
                let close = find_in(s, " chars]"@);
                match (old(self).collapsed_paste_content, open, close) {
                    (Some(stored), Some(a), Some(b)) => {
                        let line = s.subrange(0, a) + stored@ + s.subrange(b + 7, s.len() as int);
                        &&& r
                        &&& final(self).collapsed_paste_content is None
                        &&& if line.contains('\n') {
                            spread_into(line, *final(self))
                        } else {
                            &&& final(self).input@ == line
                            &&& final(self).input_cursor == a + stored@.len()
                            &&& final(self).input_mode == old(self).input_mode
                            &&& final(self).multiline_buffer == old(self).multiline_buffer
                        }
                        &&& pastes_view(final(self).pending_pastes@) == kept(
                            pastes_view(old(self).pending_pastes@),
                            composed_text(*final(self)),
                        )
                        &&& *final(self) == (App {
                            input: final(self).input,
                            input_cursor: final(self).input_cursor,
                            input_mode: final(self).input_mode,
                            multiline_buffer: final(self).multiline_buffer,
                            collapsed_paste_content: None,
                            pending_pastes: final(self).pending_pastes,
                            ..*old(self)
                        })
                    },
                    _ => !r && *final(self) == *old(self),
                }
            }),
    {
        match &self.collapsed_paste_content {
            None => false,
            Some(stored) => {
                let open = find_substring_char_index(self.input.as_str(), "[pasted content ");
                let close = find_substring_char_index(self.input.as_str(), " chars]");
                match (open, close) {
                    (Some(a), Some(b)) => {
                        let cs = chars_of(self.input.as_str());
                        let n = cs.len();
                        proof {
                            reveal_strlit(" chars]");
                            lemma_first_from(self.input@, " chars]"@, 0);
                            lemma_first_from(self.input@, "[pasted content "@, 0);
                        }
                        let mut out = slice_chars(&cs, 0, a);
                        let body = chars_of(stored.as_str());
                        extend_chars(&mut out, &body);
                        let cursor = out.len();
                        let tail = slice_chars(&cs, b + 7, n);
                        extend_chars(&mut out, &tail);
                        self.input = string_of(&out);
                        self.input_cursor = cursor;
                        self.collapsed_paste_content = None;
                        self.spread_lines();
                        self.cleanup_pending_pastes();
                        true
                    },
                    _ => false,
                }
            },
        }
    }
}

/// `h` with the first occurrence of `p` replaced by `a`.
pub fn replace_first_chars(h: &Vec<char>, p: &Vec<char>, a: &Vec<char>) -> (r: Vec<char>)
    ensures
        r@ == replace_first(h@, p@, a@),
{
    proof {
        lemma_first_from(h@, p@, 0);
    }
    let hl = h.len();
    match find_chars(h, p) {
        Some(st) => {
            let mut out = slice_chars(h, 0, st);
            extend_chars(&mut out, a);
            let tail = slice_chars(h, st + p.len(), hl);
            extend_chars(&mut out, &tail);
            out
        },
        None => {
            let mut out: Vec<char> = Vec::new();
            extend_chars(&mut out, h);
            out
        },
    }
}

} // verus!
