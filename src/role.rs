//! Roles: the built-in system prompts and the stored custom ones.
use vstd::prelude::*;
use crate::config::{Config, lookup};
use crate::text::{
    chars_of, string_of, push_str, owned, contains_seq, contains_str, trimmed, trim_str, is_blank,
    is_blank_str,
};

verus! {

/// Built-in roles.
#[derive(Debug, Clone, Copy, PartialEq, Eq, Structural)]
pub enum DefaultRole {
    Default,
    Shell,
    DescribeShell,
    Code,
}

/// A stored custom role: its name and its system prompt.
#[derive(Debug, Clone)]
pub struct SystemRole {
    pub name: String,
    pub role: String,
}

impl DefaultRole {
    /// The role that command-line flags select: shell first, then describe,
    /// then code.
    pub fn from_flags(shell: bool, describe: bool, code: bool) -> (r: Self)
        ensures
            r == if shell {
                DefaultRole::Shell
            } else if describe {
                DefaultRole::DescribeShell
            } else if code {
                DefaultRole::Code
            } else {
                DefaultRole::Default
            },
    {
        if shell {
            return DefaultRole::Shell;
        }
        if describe {
            return DefaultRole::DescribeShell;
        }
        if code {
            return DefaultRole::Code;
        }
        DefaultRole::Default
    }
}

/// ASCII letters in lower case, other characters unchanged.
pub open spec fn ascii_lower_char(c: char) -> char {
    if 'A' <= c <= 'Z' {
        ((c as u32 + 32) as u8) as char
    } else {
        c
    }
}

/// The string in ASCII lower case.
pub open spec fn ascii_lower(s: Seq<char>) -> Seq<char> {
    s.map_values(|c: char| ascii_lower_char(c))
}

/// The character in ASCII lower case.
fn lower_ascii_char(c: char) -> (r: char)
    ensures
        r == ascii_lower_char(c),
{
    if 'A' <= c && c <= 'Z' {
        ((c as u32 + 32) as u8) as char
    } else {
        c
    }
}

pub(crate) fn to_ascii_lower(s: &str) -> (r: String)
    ensures
        r@ == ascii_lower(s@),
{
    let cs = chars_of(s);
    let mut out: Vec<char> = Vec::new();
    let mut i: usize = 0;
    while i < cs.len()
        invariant
            i <= cs@.len(),
            out@ == ascii_lower(cs@.subrange(0, i as int)),
        decreases cs@.len() - i,
    {
        out.push(lower_ascii_char(cs[i]));
        i += 1;
        proof {
            assert(out@ =~= ascii_lower(cs@.subrange(0, i as int)));
        }
    }
    proof {
        assert(cs@.subrange(0, cs@.len() as int) =~= cs@);
    }
    string_of(&out)
}

/// How to chain several commands in a shell.
pub open spec fn chain_hint_text(shell: Seq<char>) -> Seq<char> {
    if contains_seq(ascii_lower(shell), "powershell"@) {
        "If multiple steps are required, separate commands with ; (not &&)."@
    } else {
        "If multiple steps are required, combine commands with &&."@
    }
}

/// Which commands to prefer in a shell.
pub open spec fn platform_hint_text(shell: Seq<char>) -> Seq<char> {
    if contains_seq(ascii_lower(shell), "powershell"@) {
        "Prefer native PowerShell cmdlets and parameters (e.g., Get-ChildItem, Select-String) rather than Unix commands."@
    } else if contains_seq(ascii_lower(shell), "cmd"@) {
        "Prefer built-in Windows commands (e.g., dir, findstr) where appropriate."@
    } else {
        Seq::empty()
    }
}

/// How to chain several commands in a shell.
pub fn chain_hint(shell: &str) -> (r: String)
    ensures
        r@ == chain_hint_text(shell@),
{
    let sh = to_ascii_lower(shell);
    if contains_str(sh.as_str(), "powershell") {
        owned("If multiple steps are required, separate commands with ; (not &&).")
    } else {
        owned("If multiple steps are required, combine commands with &&.")
    }
}

/// Which commands to prefer in a shell.
pub fn platform_hint(shell: &str) -> (r: String)
    ensures
        r@ == platform_hint_text(shell@),
{
    let sh = to_ascii_lower(shell);
    if contains_str(sh.as_str(), "powershell") {
        owned(
            "Prefer native PowerShell cmdlets and parameters (e.g., Get-ChildItem, Select-String) rather than Unix commands.",
        )
    } else if contains_str(sh.as_str(), "cmd") {
        owned("Prefer built-in Windows commands (e.g., dir, findstr) where appropriate.")
    } else {
        String::new()
    }
}

/// The system prompt of a built-in role for an operating system and shell.
pub open spec fn role_text(os: Seq<char>, shell: Seq<char>, role: DefaultRole) -> Seq<char> {
    match role {
        DefaultRole::Default => "You are programming and system administration assistant.\nYou are managing "@
            + os + " operating system with "@ + shell
            + " shell.\nProvide short responses in about 100 words, unless you are specifically asked for more details.\nIf you need to store any data, assume it will be stored in the conversation."@,
        DefaultRole::Shell => "Provide only "@ + shell + " commands for "@ + os
            + " without any description.\nIf there is a lack of details, provide most logical solution.\nEnsure the output is a valid shell command.\n"@
            + chain_hint_text(shell) + "\n"@ + platform_hint_text(shell)
            + "\nProvide only plain text without Markdown formatting.\nDo not provide markdown formatting such as ```."@,
        DefaultRole::DescribeShell => "Provide a terse, single sentence description of the given shell command.\nDescribe each argument and option of the command.\nProvide short responses in about 80 words."@,
        DefaultRole::Code => "Provide only code as output without any description.\nProvide only code in plain text format without Markdown formatting.\nDo not include symbols such as ``` or ```python.\nIf there is a lack of details, provide most logical solution.\nYou are not allowed to ask for more details.\nFor example if the prompt is \"Hello world Python\", you should return \"print('Hello world')\"."@,
    }
}

/// The system prompt of a built-in role for an operating system and shell.
pub fn default_role_text(os: &str, shell: &str, role: DefaultRole) -> (r: String)
    ensures
        r@ == role_text(os@, shell@, role),
{
    match role {
        DefaultRole::Default => {
            let mut out = chars_of("You are programming and system administration assistant.\nYou are managing ");
            push_str(&mut out, os);
            push_str(&mut out, " operating system with ");
            push_str(&mut out, shell);
            push_str(
                &mut out,
                " shell.\nProvide short responses in about 100 words, unless you are specifically asked for more details.\nIf you need to store any data, assume it will be stored in the conversation.",
            );
            string_of(&out)
        },
        DefaultRole::Shell => {
            let ch = chain_hint(shell);
            let ph = platform_hint(shell);
            let mut out = chars_of("Provide only ");
            push_str(&mut out, shell);
            push_str(&mut out, " commands for ");
            push_str(&mut out, os);
            push_str(
                &mut out,
                " without any description.\nIf there is a lack of details, provide most logical solution.\nEnsure the output is a valid shell command.\n",
            );
            push_str(&mut out, ch.as_str());
            push_str(&mut out, "\n");
            push_str(&mut out, ph.as_str());
            push_str(
                &mut out,
                "\nProvide only plain text without Markdown formatting.\nDo not provide markdown formatting such as ```.",
            );
            string_of(&out)
        },
        DefaultRole::DescribeShell => owned(
            "Provide a terse, single sentence description of the given shell command.\nDescribe each argument and option of the command.\nProvide short responses in about 80 words.",
        ),
        DefaultRole::Code => owned(
            "Provide only code as output without any description.\nProvide only code in plain text format without Markdown formatting.\nDo not include symbols such as ``` or ```python.\nIf there is a lack of details, provide most logical solution.\nYou are not allowed to ask for more details.\nFor example if the prompt is \"Hello world Python\", you should return \"print('Hello world')\".",
        ),
    }
}

/// The system prompt to use: the stored role when one was found, else the
/// built-in fallback role.
pub fn resolve_role_text(stored: Option<SystemRole>, os: &str, shell: &str, fallback: DefaultRole) -> (r: String)
    ensures
        match stored {
            Some(sr) => r == sr.role,
            None => r@ == role_text(os@, shell@, fallback),
        },
{
    match stored {
        Some(sr) => sr.role,
        None => default_role_text(os, shell, fallback),
    }
}

/// The operating system's name: the configured one unless it is "auto",
/// else a readable name for the platform (`platform` as in
/// `std::env::consts::OS`; `os_env` is the `OS` variable, used on Windows).
pub open spec fn os_name(configured: Option<Seq<char>>, platform: Seq<char>, os_env: Seq<char>) -> Seq<char> {
    if configured is Some && configured->Some_0 != "auto"@ {
        configured->Some_0
    } else if platform == "linux"@ {
        "Linux"@
    } else if platform == "macos"@ {
        "Darwin/MacOS"@
    } else if platform == "windows"@ {
        "Windows "@ + os_env
    } else {
        platform
    }
}

/// The operating system's name for the prompts.
pub fn detect_os(cfg: &Config, platform: &str, os_env: &str) -> (r: String)
    ensures
        r@ == os_name(lookup(cfg.inner@, "OS_NAME"@), platform@, os_env@),
{
    if let Some(v) = cfg.get("OS_NAME") {
        if v != owned("auto") {
            return v;
        }
    }
    let p = owned(platform);
    if p == owned("linux") {
        owned("Linux")
    } else if p == owned("macos") {
        owned("Darwin/MacOS")
    } else if p == owned("windows") {
        let mut out = chars_of("Windows ");
        push_str(&mut out, os_env);
        string_of(&out)
    } else {
        p
    }
}

impl SystemRole {
    /// Where stored roles live.
    pub fn storage_dir(cfg: &Config) -> (r: String)
        requires
            lookup(cfg.inner@, "ROLE_STORAGE_PATH"@) is Some,
        ensures
            lookup(cfg.inner@, "ROLE_STORAGE_PATH"@) == Some(r@),
    {
        cfg.roles_path()
    }

    /// The system prompt of a stored role.
    pub fn show(&self) -> (r: String)
        ensures
            r == self.role,
    {
        self.role.clone()
    }
}


/// The system prompt stored for a role named `name` with description `body`.
pub open spec fn stored_role_text(name: Seq<char>, body: Seq<char>) -> Seq<char> {
    "You are "@ + name + "\n"@ + body
}

fn make_role(name: &str, body: &str) -> (r: SystemRole)
    ensures
        r.name@ == name@,
        r.role@ == stored_role_text(name@, body@),
{
    let mut text = chars_of("You are ");
    push_str(&mut text, name);
    push_str(&mut text, "\n");
    push_str(&mut text, body);
    SystemRole { name: owned(name), role: string_of(&text) }
}

/// The roles created on first use: a general assistant, a shell command
/// generator, a command describer and a code generator.
pub fn default_roles(os: &str, shell: &str) -> (r: Vec<SystemRole>)
    ensures
        r@.len() == 4,
        r@[0].name@ == "ShellGPT"@,
        r@[0].role@ == stored_role_text("ShellGPT"@, role_text(os@, shell@, DefaultRole::Default)),
        r@[1].name@ == "Shell Command Generator"@,
        r@[1].role@ == stored_role_text(
            "Shell Command Generator"@,
            role_text(os@, shell@, DefaultRole::Shell),
        ),
        r@[2].name@ == "Shell Command Descriptor"@,
        r@[2].role@ == stored_role_text(
            "Shell Command Descriptor"@,
            role_text(os@, shell@, DefaultRole::DescribeShell),
        ),
        r@[3].name@ == "Code Generator"@,
        r@[3].role@ == stored_role_text(
            "Code Generator"@,
            role_text(os@, shell@, DefaultRole::Code),
        ),
{
    let mut roles: Vec<SystemRole> = Vec::new();
    let general = default_role_text(os, shell, DefaultRole::Default);
    roles.push(make_role("ShellGPT", general.as_str()));
    let generator = default_role_text(os, shell, DefaultRole::Shell);
    roles.push(make_role("Shell Command Generator", generator.as_str()));
    let describer = default_role_text(os, shell, DefaultRole::DescribeShell);
    roles.push(make_role("Shell Command Descriptor", describer.as_str()));
    let coder = default_role_text(os, shell, DefaultRole::Code);
    roles.push(make_role("Code Generator", coder.as_str()));
    roles
}

/// A role typed in by the user: `None` for a blank description, else the
/// role with the trimmed description.
pub fn interactive_role(name: &str, description: &str) -> (r: Option<SystemRole>)
    ensures
        is_blank(description@) ==> r is None,
        !is_blank(description@) ==> (r matches Some(sr) && sr.name@ == name@ && sr.role@
            == stored_role_text(name@, trimmed(description@))),
{
    if is_blank_str(description) {
        return None;
    }
    let body = trim_str(description);
    Some(make_role(name, body.as_str()))
}

/// The last component of a path: the text after the last `/`, ignoring
/// trailing slashes.
pub open spec fn last_component(p: Seq<char>) -> Seq<char>
    decreases p.len(),
{
    if p.len() > 0 && p.last() == '/' {
        last_component(p.drop_last())
    } else {
        after_last_slash(p, p.len() as int)
    }
}

/// The text of `p` after the last `/` before index `i`, up to the end.
pub open spec fn after_last_slash(p: Seq<char>, i: int) -> Seq<char>
    decreases i,
{
    if i <= 0 {
        p
    } else if p[i - 1] == '/' {
        p.subrange(i, p.len() as int)
    } else {
        after_last_slash(p, i - 1)
    }
}

fn last_component_of(p: &str) -> (r: String)
    ensures
        r@ == last_component(p@),
{
    let cs = chars_of(p);
    let mut n: usize = cs.len();
    proof {
        assert(cs@.subrange(0, n as int) =~= cs@);
    }
    while n > 0 && cs[n - 1] == '/'
        invariant
            n <= cs@.len(),
            last_component(cs@) == last_component(cs@.subrange(0, n as int)),
        decreases n,
    {
        proof {
            assert(cs@.subrange(0, n as int).drop_last() =~= cs@.subrange(0, n - 1));
        }
        n -= 1;
    }
    let ghost q = cs@.subrange(0, n as int);
    let mut i: usize = n;
    while i > 0 && cs[i - 1] != '/'
        invariant
            i <= n <= cs@.len(),
            q == cs@.subrange(0, n as int),
            after_last_slash(q, q.len() as int) == after_last_slash(q, i as int),
        decreases i,
    {
        i -= 1;
    }
    crate::text::string_of(&crate::text::slice_chars(&cs, i, n))
}

/// The shell's name: the configured one unless it is "auto"; on Windows
/// "powershell.exe" when `PSModulePath` has at least three entries, else
/// "cmd.exe"; elsewhere the file name of `SHELL`, or "sh".
pub open spec fn shell_name(
    configured: Option<Seq<char>>,
    windows: bool,
    ps_module_path: Seq<char>,
    shell_env: Option<Seq<char>>,
    separator: char,
) -> Seq<char> {
    if configured is Some && configured->Some_0 != "auto"@ {
        configured->Some_0
    } else if windows {
        if crate::text::split_on(ps_module_path, separator).len() >= 3 {
            "powershell.exe"@
        } else {
            "cmd.exe"@
        }
    } else {
        match shell_env {
            Some(s) => last_component(s),
            None => "sh"@,
        }
    }
}

/// The shell's name for the prompts (`separator` is the platform's path
/// list separator).
pub fn detect_shell(
    cfg: &Config,
    windows: bool,
    ps_module_path: &str,
    shell_env: Option<&str>,
    separator: char,
) -> (r: String)
    ensures
        r@ == shell_name(
            lookup(cfg.inner@, "SHELL_NAME"@),
            windows,
            ps_module_path@,
            match shell_env {
                Some(s) => Some(s@),
                None => None,
            },
            separator,
        ),
{
    if let Some(v) = cfg.get("SHELL_NAME") {
        if v != owned("auto") {
            return v;
        }
    }
    if windows {
        let cs = chars_of(ps_module_path);
        let parts = crate::text::split_chars(&cs, separator);
        if parts.len() >= 3 {
            owned("powershell.exe")
        } else {
            owned("cmd.exe")
        }
    } else {
        match shell_env {
            Some(s) => last_component_of(s),
            None => owned("sh"),
        }
    }
}

} // verus!
