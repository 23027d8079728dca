//! Where chat sessions are kept, and which messages a saved session keeps.
use vstd::prelude::*;
use crate::config::{Config, lookup, joined_path, numeral_value};
use crate::message::ChatMessage;
use crate::text::{chars_of, string_of, push_str};

verus! {

/// Storage of chat sessions: one file per session id under a directory.
#[derive(Debug, Clone)]
pub struct ChatSession {
    /// Number of messages a saved session keeps.
    pub length: usize,
    /// Directory of the session files.
    pub storage_path: String,
}

/// Messages a saved session keeps: the first (system) message, then the
/// newest ones, `length` messages in all when there are more.
pub open spec fn retained(m: Seq<ChatMessage>, length: nat) -> Seq<ChatMessage> {
    if m.len() <= 1 {
        m
    } else {
        let over: int = if m.len() > length {
            m.len() - length
        } else {
            0
        };
        let start: int = if over > 0 {
            1 + over
        } else {
            1
        };
        seq![m[0]] + m.subrange(if start <= m.len() { start } else { m.len() as int }, m.len() as int)
    }
}

impl ChatSession {
    /// Session storage from the settings: `CHAT_CACHE_LENGTH` messages
    /// (100 when unset or unreadable) under `CHAT_CACHE_PATH`.
    pub fn from_config(cfg: &Config) -> (r: Self)
        requires
            lookup(cfg.inner@, "CHAT_CACHE_PATH"@) is Some,
        ensures
            lookup(cfg.inner@, "CHAT_CACHE_PATH"@) == Some(r.storage_path@),
            r.length == match lookup(cfg.inner@, "CHAT_CACHE_LENGTH"@) {
                Some(v) => match numeral_value(v) {
                    Some(n) => if n <= usize::MAX {
                        n
                    } else {
                        100
                    },
                    None => 100,
                },
                None => 100,
            },
    {
        let length = match cfg.get_usize("CHAT_CACHE_LENGTH") {
            Some(n) => n,
            None => 100,
        };
        ChatSession { length, storage_path: cfg.chat_cache_path() }
    }

    /// The file of a session.
    pub fn file_path(&self, chat_id: &str) -> (r: String)
        ensures
            r@ == joined_path(self.storage_path@, chat_id@),
    {
        let mut out = chars_of(self.storage_path.as_str());
        push_str(&mut out, "/");
        push_str(&mut out, chat_id);
        string_of(&out)
    }

    /// The messages a saved session keeps.
    pub fn retained_messages(&self, messages: Vec<ChatMessage>) -> (r: Vec<ChatMessage>)
        ensures
            r@ == retained(messages@, self.length as nat),
    {
        let mut m = messages;
        let len = m.len();
        if len <= 1 {
            return m;
        }
        let over: usize = if len > self.length {
            len - self.length
        } else {
            0
        };
        let start: usize = if over > 0 {
            if over < len - 1 {
                1 + over
            } else {
                len
            }
        } else {
            1
        };
        let ghost all = m@;
        let mut tail = m.split_off(start);
        m.truncate(1);
        m.append(&mut tail);
        proof {
            assert(m@ =~= retained(all, self.length as nat));
        }
        m
    }
}

} // verus!
