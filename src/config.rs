//! Settings: a list of key/value pairs where a later entry overrides an
//! earlier one with the same key.
use vstd::prelude::*;
use crate::text::{
    chars_of, string_of, push_str, owned, has_prefix, starts_with_str, trimmed, trim_chars,
    slice_chars,
};

verus! {

/// Settings read from defaults, the configuration file and the environment.
#[derive(Debug, Clone)]
pub struct Config {
    /// Entries in the order they were set.
    pub inner: Vec<(String, String)>,
    /// Where the configuration file lives.
    pub config_path: String,
}

/// The value of the last entry with key `k`.
pub open spec fn lookup(es: Seq<(String, String)>, k: Seq<char>) -> Option<Seq<char>>
    decreases es.len(),
{
    if es.len() == 0 {
        None
    } else if es.last().0@ == k {
        Some(es.last().1@)
    } else {
        lookup(es.drop_last(), k)
    }
}

/// The keys the configuration knows by name.
pub open spec fn known_key(k: Seq<char>) -> bool {
    k == "OPENAI_API_KEY"@ || k == "API_BASE_URL"@ || k == "CHAT_CACHE_PATH"@ || k
        == "CACHE_PATH"@ || k == "CHAT_CACHE_LENGTH"@ || k == "CACHE_LENGTH"@ || k
        == "REQUEST_TIMEOUT"@ || k == "DEFAULT_MODEL"@ || k == "DEFAULT_COLOR"@ || k
        == "ROLE_STORAGE_PATH"@ || k == "DEFAULT_EXECUTE_SHELL_CMD"@ || k
        == "DISABLE_STREAMING"@ || k == "CODE_THEME"@ || k == "OPENAI_FUNCTIONS_PATH"@ || k
        == "OPENAI_USE_FUNCTIONS"@ || k == "SHOW_FUNCTIONS_OUTPUT"@ || k
        == "PRETTIFY_MARKDOWN"@ || k == "USE_LITELLM"@ || k == "SHELL_INTERACTION"@ || k
        == "OS_NAME"@ || k == "SHELL_NAME"@
}

/// Whether an environment variable is a setting: a known key, or any key
/// that starts with `SGPT_` or `OPENAI_`.
pub open spec fn config_key(k: Seq<char>) -> bool {
    known_key(k) || has_prefix(k, "SGPT_"@) || has_prefix(k, "OPENAI_"@)
}

/// Whether an environment variable is a setting.
pub fn is_config_key(k: &str) -> (r: bool)
    ensures
        r == config_key(k@),
{
    let key = owned(k);
    let known = key == owned("OPENAI_API_KEY")
        || key == owned("API_BASE_URL")
        || key == owned("CHAT_CACHE_PATH")
        || key == owned("CACHE_PATH")
        || key == owned("CHAT_CACHE_LENGTH")
        || key == owned("CACHE_LENGTH")
        || key == owned("REQUEST_TIMEOUT")
        || key == owned("DEFAULT_MODEL")
        || key == owned("DEFAULT_COLOR")
        || key == owned("ROLE_STORAGE_PATH")
        || key == owned("DEFAULT_EXECUTE_SHELL_CMD")
        || key == owned("DISABLE_STREAMING")
        || key == owned("CODE_THEME")
        || key == owned("OPENAI_FUNCTIONS_PATH")
        || key == owned("OPENAI_USE_FUNCTIONS")
        || key == owned("SHOW_FUNCTIONS_OUTPUT")
        || key == owned("PRETTIFY_MARKDOWN")
        || key == owned("USE_LITELLM")
        || key == owned("SHELL_INTERACTION")
        || key == owned("OS_NAME")
        || key == owned("SHELL_NAME");
    known || starts_with_str(k, "SGPT_") || starts_with_str(k, "OPENAI_")
}

/// `a` and `b` are the same character, or the same ASCII letter in either case.
pub open spec fn same_letter(a: char, b: char) -> bool {
    let x = a as u32 as int;
    let y = b as u32 as int;
    x == y || (0x41 <= x <= 0x5a && x + 32 == y) || (0x41 <= y <= 0x5a && y + 32 == x)
}

/// `a` and `b` are equal when ASCII case is ignored.
pub open spec fn eq_ignore_ascii_case(a: Seq<char>, b: Seq<char>) -> bool {
    a.len() == b.len() && forall|i: int| 0 <= i < a.len() ==> same_letter(a[i], b[i])
}

fn letters_match(a: &Vec<char>, b: &Vec<char>) -> (r: bool)
    ensures
        r == eq_ignore_ascii_case(a@, b@),
{
    if a.len() != b.len() {
        return false;
    }
    let mut i: usize = 0;
    while i < a.len()
        invariant
            a@.len() == b@.len(),
            i <= a@.len(),
            forall|j: int| 0 <= j < i ==> same_letter(a@[j], b@[j]),
        decreases a@.len() - i,
    {
        let x = a[i] as u32 as u64;
        let y = b[i] as u32 as u64;
        let same = x == y || (0x41 <= x && x <= 0x5a && x + 32 == y) || (0x41 <= y && y <= 0x5a
            && y + 32 == x);
        if !same {
            return false;
        }
        i += 1;
    }
    true
}

/// Every character is an ASCII digit.
pub open spec fn all_digits(d: Seq<char>) -> bool {
    forall|i: int| 0 <= i < d.len() ==> '0' <= #[trigger] d[i] <= '9'
}

/// The value of a string of ASCII digits.
pub open spec fn digits_value(d: Seq<char>) -> nat
    decreases d.len(),
{
    if d.len() == 0 {
        0
    } else {
        digits_value(d.drop_last()) * 10 + (d.last() as u32 - '0' as u32) as nat
    }
}

/// The value of a decimal numeral: an optional `+`, then at least one digit.
pub open spec fn numeral_value(s: Seq<char>) -> Option<nat> {
    let d = if s.len() > 1 && s[0] == '+' {
        s.drop_first()
    } else {
        s
    };
    if d.len() > 0 && all_digits(d) {
        Some(digits_value(d))
    } else {
        None
    }
}

/// Reads a `usize` written in decimal, with an optional `+`; `None` for
/// anything else or a value that does not fit.
pub fn parse_usize(s: &str) -> (r: Option<usize>)
    ensures
        r matches Some(v) ==> numeral_value(s@) == Some(v as nat),
        r is None ==> match numeral_value(s@) {
            Some(v) => v > usize::MAX,
            None => true,
        },
{
    let cs = chars_of(s);
    let n = cs.len();
    let start: usize = if n > 1 && cs[0] == '+' {
        1
    } else {
        0
    };
    let ghost d = if n > 1 && cs@[0] == '+' {
        cs@.drop_first()
    } else {
        cs@
    };
    proof {
        assert(d =~= cs@.subrange(start as int, n as int));
    }
    proof {
        assert(numeral_value(s@) == (if d.len() > 0 && all_digits(d) {
            Some(digits_value(d))
        } else {
            None::<nat>
        }));
    }
    if n == start {
        return None;
    }
    let mut value: usize = 0;
    let mut fits = true;
    let mut i: usize = start;
    while i < n
        invariant
            n == cs@.len(),
            cs@ == s@,
            start <= i <= n,
            d == cs@.subrange(start as int, n as int),
            numeral_value(s@) == (if d.len() > 0 && all_digits(d) {
                Some(digits_value(d))
            } else {
                None::<nat>
            }),
            n > start,
            all_digits(cs@.subrange(start as int, i as int)),
            fits ==> value == digits_value(cs@.subrange(start as int, i as int)),
            !fits ==> digits_value(cs@.subrange(start as int, i as int)) > usize::MAX,
        decreases n - i,
    {
        let c = cs[i];
        if !('0' <= c && c <= '9') {
            proof {
                assert(d[i - start] == c);
            }
            return None;
        }
        let dv = (c as u32 - '0' as u32) as usize;
        let ghost prev = digits_value(cs@.subrange(start as int, i as int));
        proof {
            let pre = cs@.subrange(start as int, i + 1);
            assert(pre.drop_last() =~= cs@.subrange(start as int, i as int));
            assert(digits_value(pre) == prev * 10 + dv);
        }
        if fits {
            if value > (usize::MAX - dv) / 10 {
                fits = false;
                proof {
                    assert(prev * 10 + dv > usize::MAX) by (nonlinear_arith)
                        requires
                            prev == value,
                            value > (usize::MAX - dv) / 10,
                            dv < 10,
                    ;
                }
            } else {
                proof {
                    assert(value * 10 + dv <= usize::MAX) by (nonlinear_arith)
                        requires
                            value <= (usize::MAX - dv) / 10,
                            dv < 10,
                    ;
                }
                value = value * 10 + dv;
            }
        } else {
            proof {
                assert(prev * 10 + dv > usize::MAX) by (nonlinear_arith)
                    requires
                        prev > usize::MAX,
                ;
            }
        }
        i += 1;
    }
    proof {
        assert(cs@.subrange(start as int, n as int) == d);
    }
    if fits {
        Some(value)
    } else {
        None
    }
}

impl Config {
    /// Settings with no entries.
    pub fn new(config_path: String) -> (r: Self)
        ensures
            r.inner@.len() == 0,
            r.config_path == config_path,
    {
        Config { inner: Vec::new(), config_path }
    }

    /// Sets `key` to `value`, overriding any earlier value.
    pub fn set(&mut self, key: String, value: String)
        ensures
            final(self).inner@ == old(self).inner@.push((key, value)),
            final(self).config_path == old(self).config_path,
    {
        self.inner.push((key, value));
    }

    /// The value of a setting.
    pub fn get(&self, key: &str) -> (r: Option<String>)
        ensures
            match r {
                Some(v) => lookup(self.inner@, key@) == Some(v@),
                None => lookup(self.inner@, key@) is None,
            },
    {
        let k = owned(key);
        let mut i: usize = self.inner.len();
        proof {
            assert(self.inner@.subrange(0, i as int) =~= self.inner@);
        }
        while i > 0
            invariant
                i <= self.inner@.len(),
                k@ == key@,
                lookup(self.inner@, key@) == lookup(self.inner@.subrange(0, i as int), key@),
            decreases i,
        {
            proof {
                assert(self.inner@.subrange(0, i as int).drop_last() =~= self.inner@.subrange(
                    0,
                    i - 1,
                ));
            }
            if self.inner[i - 1].0 == k {
                return Some(self.inner[i - 1].1.clone());
            }
            i -= 1;
        }
        None
    }

    /// Whether a setting is "true", in any ASCII case.
    pub fn get_bool(&self, key: &str) -> (r: bool)
        ensures
            r == (lookup(self.inner@, key@) matches Some(v) && eq_ignore_ascii_case(v, "true"@)),
    {
        match self.get(key) {
            Some(v) => {
                let a = chars_of(v.as_str());
                let b = chars_of("true");
                letters_match(&a, &b)
            },
            None => false,
        }
    }

    /// A setting read as a `usize`.
    pub fn get_usize(&self, key: &str) -> (r: Option<usize>)
        ensures
            r matches Some(n) ==> (lookup(self.inner@, key@) matches Some(v) && numeral_value(v)
                == Some(n as nat)),
            r is None ==> match lookup(self.inner@, key@) {
                Some(v) => match numeral_value(v) {
                    Some(n) => n > usize::MAX,
                    None => true,
                },
                None => true,
            },
    {
        match self.get(key) {
            Some(v) => parse_usize(v.as_str()),
            None => None,
        }
    }

    /// A setting that names a path.
    pub fn get_path(&self, key: &str) -> (r: Option<String>)
        ensures
            match r {
                Some(v) => lookup(self.inner@, key@) == Some(v@),
                None => lookup(self.inner@, key@) is None,
            },
    {
        self.get(key)
    }

    /// Where chat sessions are stored.
    pub fn chat_cache_path(&self) -> (r: String)
        requires
            lookup(self.inner@, "CHAT_CACHE_PATH"@) is Some,
        ensures
            lookup(self.inner@, "CHAT_CACHE_PATH"@) == Some(r@),
    {
        self.get("CHAT_CACHE_PATH").unwrap()
    }

    /// Where cached requests are stored.
    pub fn cache_path(&self) -> (r: String)
        requires
            lookup(self.inner@, "CACHE_PATH"@) is Some,
        ensures
            lookup(self.inner@, "CACHE_PATH"@) == Some(r@),
    {
        self.get("CACHE_PATH").unwrap()
    }

    /// Where roles are stored.
    pub fn roles_path(&self) -> (r: String)
        requires
            lookup(self.inner@, "ROLE_STORAGE_PATH"@) is Some,
        ensures
            lookup(self.inner@, "ROLE_STORAGE_PATH"@) == Some(r@),
    {
        self.get("ROLE_STORAGE_PATH").unwrap()
    }

    /// Where function definitions are stored.
    pub fn functions_path(&self) -> (r: String)
        requires
            lookup(self.inner@, "OPENAI_FUNCTIONS_PATH"@) is Some,
        ensures
            lookup(self.inner@, "OPENAI_FUNCTIONS_PATH"@) == Some(r@),
    {
        self.get("OPENAI_FUNCTIONS_PATH").unwrap()
    }
}

/// `dir` followed by a path separator and `name`.
pub open spec fn joined_path(dir: Seq<char>, name: Seq<char>) -> Seq<char> {
    dir + "/"@ + name
}

fn join_path(dir: &str, name: &str) -> (r: String)
    ensures
        r@ == joined_path(dir@, name@),
{
    let mut out = chars_of(dir);
    push_str(&mut out, "/");
    push_str(&mut out, name);
    string_of(&out)
}

fn set_str(cfg: &mut Config, key: &str, value: &str)
    ensures
        final(cfg).inner@.len() == old(cfg).inner@.len() + 1,
        final(cfg).inner@.drop_last() == old(cfg).inner@,
        final(cfg).inner@.last().0@ == key@,
        final(cfg).inner@.last().1@ == value@,
        final(cfg).config_path == old(cfg).config_path,
{
    cfg.set(owned(key), owned(value));
}

/// The default settings, with the paths placed under the user's
/// configuration directory and the temporary directory.
pub fn default_map(config_dir: &str, temp_dir: &str, config_path: String) -> (r: Config)
    ensures
        r.inner@.len() == 20,
        lookup(r.inner@, "CHAT_CACHE_PATH"@) == Some(
            joined_path(joined_path(temp_dir@, "shell_gpt"@), "chat_cache"@),
        ),
        lookup(r.inner@, "CACHE_PATH"@) == Some(
            joined_path(joined_path(temp_dir@, "shell_gpt"@), "cache"@),
        ),
        lookup(r.inner@, "ROLE_STORAGE_PATH"@) == Some(
            joined_path(joined_path(config_dir@, "shell_gpt"@), "roles"@),
        ),
        lookup(r.inner@, "OPENAI_FUNCTIONS_PATH"@) == Some(
            joined_path(joined_path(config_dir@, "shell_gpt"@), "functions"@),
        ),
        r.config_path == config_path,
{
    let mut cfg = Config::new(config_path);
    let sgpt_dir = join_path(config_dir, "shell_gpt");
    let temp = join_path(temp_dir, "shell_gpt");
    let chat_cache = join_path(temp.as_str(), "chat_cache");
    let cache = join_path(temp.as_str(), "cache");
    let roles = join_path(sgpt_dir.as_str(), "roles");
    let functions = join_path(sgpt_dir.as_str(), "functions");
    set_str(&mut cfg, "CHAT_CACHE_LENGTH", "100");
    set_str(&mut cfg, "CACHE_LENGTH", "100");
    set_str(&mut cfg, "REQUEST_TIMEOUT", "60");
    set_str(&mut cfg, "DEFAULT_MODEL", "gpt-4o");
    set_str(&mut cfg, "DEFAULT_COLOR", "magenta");
    set_str(&mut cfg, "CODE_THEME", "dracula");
    set_str(&mut cfg, "API_BASE_URL", "default");
    set_str(&mut cfg, "OS_NAME", "auto");
    set_str(&mut cfg, "SHELL_NAME", "auto");
    set_str(&mut cfg, "DEFAULT_EXECUTE_SHELL_CMD", "false");
    set_str(&mut cfg, "DISABLE_STREAMING", "false");
    set_str(&mut cfg, "OPENAI_USE_FUNCTIONS", "true");
    set_str(&mut cfg, "SHOW_FUNCTIONS_OUTPUT", "false");
    set_str(&mut cfg, "PRETTIFY_MARKDOWN", "true");
    set_str(&mut cfg, "USE_LITELLM", "false");
    set_str(&mut cfg, "SHELL_INTERACTION", "true");
    set_str(&mut cfg, "CHAT_CACHE_PATH", chat_cache.as_str());
    let ghost e1 = cfg.inner@;
    set_str(&mut cfg, "CACHE_PATH", cache.as_str());
    let ghost e2 = cfg.inner@;
    set_str(&mut cfg, "ROLE_STORAGE_PATH", roles.as_str());
    let ghost e3 = cfg.inner@;
    set_str(&mut cfg, "OPENAI_FUNCTIONS_PATH", functions.as_str());
    proof {
        reveal_strlit("CHAT_CACHE_PATH");
        reveal_strlit("CACHE_PATH");
        reveal_strlit("ROLE_STORAGE_PATH");
        reveal_strlit("OPENAI_FUNCTIONS_PATH");
        let e4 = cfg.inner@;
        assert("CACHE_PATH"@.len() == 10);
        assert("CHAT_CACHE_PATH"@.len() == 15);
        assert("ROLE_STORAGE_PATH"@.len() == 17);
        assert("OPENAI_FUNCTIONS_PATH"@.len() == 21);
        assert(lookup(e1, "CHAT_CACHE_PATH"@) == Some(chat_cache@));
        assert(lookup(e2, "CHAT_CACHE_PATH"@) == lookup(e1, "CHAT_CACHE_PATH"@));
        assert(lookup(e2, "CACHE_PATH"@) == Some(cache@));
        assert(lookup(e3, "ROLE_STORAGE_PATH"@) == Some(roles@));
        assert(lookup(e3, "CHAT_CACHE_PATH"@) == lookup(e2, "CHAT_CACHE_PATH"@));
        assert(lookup(e3, "CACHE_PATH"@) == lookup(e2, "CACHE_PATH"@));
        assert(lookup(e4, "CHAT_CACHE_PATH"@) == lookup(e3, "CHAT_CACHE_PATH"@));
        assert(lookup(e4, "CACHE_PATH"@) == lookup(e3, "CACHE_PATH"@));
        assert(lookup(e4, "ROLE_STORAGE_PATH"@) == lookup(e3, "ROLE_STORAGE_PATH"@));
    }
    cfg
}


/// A `key=value` line of the configuration file, both sides trimmed; blank
/// lines and `#` comments hold no setting.
pub open spec fn config_line(line: Seq<char>) -> Option<(Seq<char>, Seq<char>)> {
    let t = trimmed(line);
    if t.len() == 0 || t[0] == '#' || !t.contains('=') {
        None
    } else {
        let i = choose|i: int| 0 <= i < t.len() && t[i] == '=' && forall|j: int| 0 <= j < i ==> t[j] != '=';
        Some((trimmed(t.subrange(0, i)), trimmed(t.subrange(i + 1, t.len() as int))))
    }
}

/// Reads one line of the configuration file.
pub fn parse_config_line(line: &str) -> (r: Option<(String, String)>)
    ensures
        match r {
            Some((k, v)) => config_line(line@) == Some((k@, v@)),
            None => config_line(line@) is None,
        },
{
    let cs = chars_of(line);
    let t = trim_chars(&cs);
    if t.len() == 0 || t[0] == '#' {
        return None;
    }
    let mut i: usize = 0;
    while i < t.len() && t[i] != '='
        invariant
            i <= t@.len(),
            forall|j: int| 0 <= j < i ==> t@[j] != '=',
        decreases t@.len() - i,
    {
        i += 1;
    }
    if i == t.len() {
        return None;
    }
    let key = slice_chars(&t, 0, i);
    let value = slice_chars(&t, i + 1, t.len());
    let k = trim_chars(&key);
    let v = trim_chars(&value);
    proof {
        assert(t@.contains('='));
        let c = choose|c: int| 0 <= c < t@.len() && t@[c] == '=' && forall|j: int| 0 <= j < c ==> t@[j] != '=';
        assert(c == i) by {
            if c < i {
                assert(t@[c] != '=');
            } else if c > i {
                assert(t@[i as int] != '=');
            }
        }
    }
    Some((string_of(&k), string_of(&v)))
}

} // verus!
