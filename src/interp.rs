//! The interpreter bridge: requests written to a child interpreter and the
//! replies read back, one JSON object per line.
use vstd::prelude::*;
use crate::text::{
    chars_of, string_of, slice_chars, extend_chars, push_str, owned, trim_chars, trimmed,
    split_chars, splits_into, starts_with_chars, has_prefix, join_sep, views, push_decimal_u64,
    decimal, is_blank, join_chars, is_blank_str, trim_str, split_on,
};

verus! {

/// Language of the session's interpreter.
#[derive(Debug, Clone, Copy, PartialEq, Eq, Structural)]
pub enum InterpreterType {
    Python,
    R,
}

/// Outcome of running code in the interpreter; `variables` pairs each live
/// variable name with a short type summary, in the order the interpreter
/// reported them.
#[derive(Debug, Clone)]
pub struct ExecutionResult {
    pub success: bool,
    pub output: String,
    pub errors: Vec<String>,
    pub variables: Vec<(String, String)>,
    pub plots: Vec<String>,
}

/// A JSON value as read from the interpreter; numbers keep their text.
#[derive(Debug)]
pub enum JsonValue {
    Null,
    Bool(bool),
    Number(String),
    Str(String),
    Array(Vec<JsonValue>),
    Object(Vec<(String, JsonValue)>),
}

/// What one reply line from the interpreter turns into.
#[derive(Debug, Clone)]
pub enum InterpreterOutput {
    /// Text listing the live variables, for the variables display.
    Variables(String),
    /// Result of running code.
    CodeResult(ExecutionResult),
}

#[verifier::external_type_specification]
#[verifier::external_body]
pub struct ExSerdeJsonValue(serde_json::Value);

/// Name for what `serde_json::from_str` reads from a line of text.
pub uninterp spec fn json_parse(line: Seq<char>) -> Option<JsonValue>;

/// A lower-case hexadecimal digit, for `d < 16`.
pub open spec fn hex_digit(d: int) -> char {
    seq!['0', '1', '2', '3', '4', '5', '6', '7', '8', '9', 'a', 'b', 'c', 'd', 'e', 'f'][d]
}

/// How a JSON string literal writes one character: `"` and `\` behind a
/// backslash; backspace, tab, line feed, form feed and carriage return as
/// `\b \t \n \f \r`; the other characters below U+0020 as `\u00xx` in
/// lower-case hexadecimal; every other character as it is.
pub open spec fn json_escape(c: char) -> Seq<char> {
    let v = c as u32 as int;
    if c == '"' {
        seq!['\\', '"']
    } else if c == '\\' {
        seq!['\\', '\\']
    } else if v == 0x08 {
        seq!['\\', 'b']
    } else if v == 0x09 {
        seq!['\\', 't']
    } else if v == 0x0a {
        seq!['\\', 'n']
    } else if v == 0x0c {
        seq!['\\', 'f']
    } else if v == 0x0d {
        seq!['\\', 'r']
    } else if v < 0x20 {
        seq!['\\', 'u', '0', '0', hex_digit(v / 16), hex_digit(v % 16)]
    } else {
        seq![c]
    }
}

/// The characters of a text, each written as in a JSON string literal.
pub open spec fn json_escaped(s: Seq<char>) -> Seq<char>
    decreases s.len(),
{
    if s.len() == 0 {
        Seq::empty()
    } else {
        json_escaped(s.drop_last()) + json_escape(s.last())
    }
}

/// The JSON string literal for a text.
pub open spec fn json_quote(s: Seq<char>) -> Seq<char> {
    seq!['"'] + json_escaped(s) + seq!['"']
}

/// Relies on `serde_json::Value`'s variants: moves a parsed value, variant
/// for variant, into a `JsonValue` (a number keeps its `Display` text).
#[verifier::external_body]
fn json_from_value(v: serde_json::Value) -> JsonValue {
    match v {
        serde_json::Value::Null => JsonValue::Null,
        serde_json::Value::Bool(b) => JsonValue::Bool(b),
        serde_json::Value::Number(n) => JsonValue::Number(n.to_string()),
        serde_json::Value::String(s) => JsonValue::Str(s),
        serde_json::Value::Array(a) => JsonValue::Array(a.into_iter().map(json_from_value).collect()),
        serde_json::Value::Object(m) => JsonValue::Object(
            m.into_iter().map(|(k, x)| (k, json_from_value(x))).collect(),
        ),
    }
}

/// Relies on `serde_json::from_str`: one JSON document read from the text;
/// `None` when the text is not JSON. The result depends on the text alone.
#[verifier::external_body]
pub(crate) fn parse_json(line: &str) -> (r: Option<JsonValue>)
    ensures
        r == json_parse(line@),
{
    match serde_json::from_str::<serde_json::Value>(line) {
        Ok(v) => Some(json_from_value(v)),
        Err(_) => None,
    }
}

/// Relies on `serde_json::to_string` on a `&str`: the string literal with the
/// escapes of its `ESCAPE` table (see `json_escape`); writing a `&str` cannot
/// fail.
#[verifier::external_body]
pub(crate) fn json_string(s: &str) -> (r: String)
    ensures
        r@ == json_quote(s@),
{
    serde_json::to_string(s).unwrap_or_default()
}

// ---------------------------------------------------------------------------
// Reading replies
// ---------------------------------------------------------------------------

/// The value under key `k` in entries `es`, searching from index `i`.
pub open spec fn entry_from(es: Seq<(String, JsonValue)>, k: Seq<char>, i: int) -> Option<
    JsonValue,
>
    decreases es.len() - i,
{
    if i < 0 || i >= es.len() {
        None
    } else if es[i].0@ == k {
        Some(es[i].1)
    } else {
        entry_from(es, k, i + 1)
    }
}

/// The member `k` of an object; `None` for a missing member or a non-object.
pub open spec fn member(v: JsonValue, k: Seq<char>) -> Option<JsonValue> {
    match v {
        JsonValue::Object(es) => entry_from(es@, k, 0),
        _ => None,
    }
}

/// A string value's text, or `d`.
pub open spec fn str_or(v: Option<JsonValue>, d: Seq<char>) -> Seq<char> {
    match v {
        Some(JsonValue::Str(s)) => s@,
        _ => d,
    }
}

/// A boolean value, or false.
pub open spec fn bool_or_false(v: Option<JsonValue>) -> bool {
    match v {
        Some(JsonValue::Bool(b)) => b,
        _ => false,
    }
}

/// The texts of the string items, in order.
pub open spec fn strings_in(items: Seq<JsonValue>) -> Seq<Seq<char>>
    decreases items.len(),
{
    if items.len() == 0 {
        Seq::empty()
    } else {
        let rest = strings_in(items.drop_last());
        match items.last() {
            JsonValue::Str(s) => rest.push(s@),
            _ => rest,
        }
    }
}

/// The members whose value is a string, as (name, text), in order.
pub open spec fn string_members(es: Seq<(String, JsonValue)>) -> Seq<(Seq<char>, Seq<char>)>
    decreases es.len(),
{
    if es.len() == 0 {
        Seq::empty()
    } else {
        let rest = string_members(es.drop_last());
        match es.last().1 {
            JsonValue::Str(s) => rest.push((es.last().0@, s@)),
            _ => rest,
        }
    }
}

/// The string items of an array value; nothing for other values.
pub open spec fn string_items(v: Option<JsonValue>) -> Seq<Seq<char>> {
    match v {
        Some(JsonValue::Array(items)) => strings_in(items@),
        _ => Seq::empty(),
    }
}

/// The string members of an object value; nothing for other values.
pub open spec fn string_entries(v: Option<JsonValue>) -> Seq<(Seq<char>, Seq<char>)> {
    match v {
        Some(JsonValue::Object(es)) => string_members(es@),
        _ => Seq::empty(),
    }
}

/// An execution result as plain values: success, output, errors and
/// (name, summary) pairs.
pub type ResultModel = (bool, Seq<char>, Seq<Seq<char>>, Seq<(Seq<char>, Seq<char>)>);

/// The plain values of an execution result.
pub open spec fn result_model(r: ExecutionResult) -> ResultModel {
    (
        r.success,
        r.output@,
        views(r.errors@),
        r.variables@.map_values(|p: (String, String)| (p.0@, p.1@)),
    )
}

/// The execution result a reply object describes: its `result` member when
/// present, else a failure carrying the `error` member's message, else a
/// failure for an invalid reply.
pub open spec fn reply_model(v: JsonValue) -> ResultModel {
    match member(v, "result"@) {
        Some(res) => (
            bool_or_false(member(res, "success"@)),
            str_or(member(res, "output"@), Seq::empty()),
            string_items(member(res, "errors"@)),
            string_entries(member(res, "variables"@)),
        ),
        None => match member(v, "error"@) {
            Some(e) => (false, Seq::empty(), seq![str_or(member(e, "message"@), "error"@)], Seq::empty()),
            None => (false, Seq::empty(), seq!["invalid_response"@], Seq::empty()),
        },
    }
}

/// The id of a reply; empty when missing or not a string.
pub open spec fn reply_id(v: JsonValue) -> Seq<char> {
    str_or(member(v, "id"@), Seq::empty())
}

/// Names in `p` never decrease, in character order.
pub open spec fn names_ordered(p: Seq<(Seq<char>, Seq<char>)>) -> bool {
    forall|i: int, j: int| 0 <= i < j < p.len() ==> !lex_lt(p[j].0, p[i].0)
}

/// `a` comes strictly before `b` in character order.
pub open spec fn lex_lt(a: Seq<char>, b: Seq<char>) -> bool {
    (exists|k: int|
        0 <= k < a.len() && k < b.len() && a.subrange(0, k) == b.subrange(0, k) && (a[k] as u32)
            < (b[k] as u32)) || (a.len() < b.len() && b.subrange(0, a.len() as int) == a)
}

/// One line per variable: `- name: summary`.
pub open spec fn variable_lines(p: Seq<(Seq<char>, Seq<char>)>) -> Seq<char>
    decreases p.len(),
{
    if p.len() == 0 {
        Seq::empty()
    } else {
        variable_lines(p.drop_last()) + "- "@ + p.last().0 + ": "@ + p.last().1 + "\n"@
    }
}

/// The variables display for pairs in display order.
pub open spec fn variables_block(p: Seq<(Seq<char>, Seq<char>)>) -> Seq<char> {
    if p.len() == 0 {
        "Variables:\n(none)\n"@
    } else {
        "Variables:\n"@ + variable_lines(p)
    }
}

/// The pairs as character sequences.
pub open spec fn pairs_view(p: Seq<(String, String)>) -> Seq<(Seq<char>, Seq<char>)> {
    p.map_values(|x: (String, String)| (x.0@, x.1@))
}

/// Relies on `slice::sort` on (name, summary) pairs: the same pairs, ordered
/// by name first; std's `Ord` for `String` is the order of the characters.
#[verifier::external_body]
fn sort_pairs(v: &mut Vec<(String, String)>)
    ensures
        pairs_view(final(v)@).to_multiset() == pairs_view(old(v)@).to_multiset(),
        names_ordered(pairs_view(final(v)@)),
{
    v.sort();
}

/// The member `key` of a value.
pub fn get_member<'a>(v: &'a JsonValue, key: &str) -> (r: Option<&'a JsonValue>)
    ensures
        match r {
            Some(x) => member(*v, key@) == Some(*x),
            None => member(*v, key@) is None,
        },
{
    match v {
        JsonValue::Object(es) => {
            let k = owned(key);
            let mut i: usize = 0;
            while i < es.len()
                invariant
                    i <= es@.len(),
                    k@ == key@,
                    member(*v, key@) == entry_from(es@, key@, 0),
                    entry_from(es@, key@, 0) == entry_from(es@, key@, i as int),
                decreases es@.len() - i,
            {
                if es[i].0 == k {
                    proof {
                        assert(es@[i as int].0@ == key@);
                        assert(entry_from(es@, key@, i as int) == Some(es@[i as int].1));
                    }
                    return Some(&es[i].1);
                }
                i += 1;
            }
            None
        },
        _ => None,
    }
}

fn str_member(v: &JsonValue, key: &str, default: &str) -> (r: String)
    ensures
        r@ == str_or(member(*v, key@), default@),
{
    match get_member(v, key) {
        Some(JsonValue::Str(s)) => s.clone(),
        _ => owned(default),
    }
}

fn string_items_of(v: Option<&JsonValue>) -> (r: Vec<String>)
    ensures
        views(r@) == string_items(
            match v {
                Some(x) => Some(*x),
                None => None,
            },
        ),
{
    let mut out: Vec<String> = Vec::new();
    match v {
        Some(JsonValue::Array(items)) => {
            let mut i: usize = 0;
            while i < items.len()
                invariant
                    i <= items@.len(),
                    views(out@) == strings_in(items@.subrange(0, i as int)),
                decreases items@.len() - i,
            {
                proof {
                    assert(items@.subrange(0, i + 1).drop_last() =~= items@.subrange(0, i as int));
                }
                match &items[i] {
                    JsonValue::Str(s) => {
                        let ghost before = out@;
                        out.push(s.clone());
                        proof {
                            assert(views(out@) =~= views(before).push(s@));
                        }
                    },
                    _ => {},
                }
                i += 1;
            }
            proof {
                assert(items@.subrange(0, items@.len() as int) =~= items@);
            }
        },
        _ => {},
    }
    out
}

fn string_entries_of(v: Option<&JsonValue>) -> (r: Vec<(String, String)>)
    ensures
        pairs_view(r@) == string_entries(
            match v {
                Some(x) => Some(*x),
                None => None,
            },
        ),
{
    let mut out: Vec<(String, String)> = Vec::new();
    match v {
        Some(JsonValue::Object(es)) => {
            let mut i: usize = 0;
            while i < es.len()
                invariant
                    i <= es@.len(),
                    pairs_view(out@) == string_members(es@.subrange(0, i as int)),
                decreases es@.len() - i,
            {
                proof {
                    assert(es@.subrange(0, i + 1).drop_last() =~= es@.subrange(0, i as int));
                }
                match &es[i].1 {
                    JsonValue::Str(s) => {
                        let ghost before = out@;
                        out.push((es[i].0.clone(), s.clone()));
                        proof {
                            assert(pairs_view(out@) =~= pairs_view(before).push((es@[i as int].0@, s@)));
                        }
                    },
                    _ => {},
                }
                i += 1;
            }
            proof {
                assert(es@.subrange(0, es@.len() as int) =~= es@);
            }
        },
        _ => {},
    }
    out
}

/// The execution result a reply object describes.
pub fn reply_result(v: &JsonValue) -> (r: ExecutionResult)
    ensures
        result_model(r) == reply_model(*v),
        r.plots@.len() == 0,
{
    match get_member(v, "result") {
        Some(res) => {
            let success = match get_member(res, "success") {
                Some(JsonValue::Bool(b)) => *b,
                _ => false,
            };
            let output = str_member(res, "output", "");
            let errors = string_items_of(get_member(res, "errors"));
            let variables = string_entries_of(get_member(res, "variables"));
            proof {
                reveal_strlit("");
                assert(pairs_view(variables@) == variables@.map_values(
                    |p: (String, String)| (p.0@, p.1@),
                ));
            }
            ExecutionResult { success, output, errors, variables, plots: Vec::new() }
        },
        None => {
            let message = match get_member(v, "error") {
                Some(e) => str_member(e, "message", "error"),
                None => owned("invalid_response"),
            };
            let mut errors: Vec<String> = Vec::new();
            errors.push(message);
            let variables: Vec<(String, String)> = Vec::new();
            proof {
                assert(views(errors@) =~= seq![message@]);
                assert(variables@.map_values(|p: (String, String)| (p.0@, p.1@))
                    =~= Seq::<(Seq<char>, Seq<char>)>::empty());
            }
            ExecutionResult {
                success: false,
                output: String::new(),
                errors,
                variables,
                plots: Vec::new(),
            }
        },
    }
}

/// The variables display: a header, then one line per variable in name order.
pub fn format_variables(vars: &Vec<(String, String)>) -> (r: String)
    ensures
        exists|p: Seq<(Seq<char>, Seq<char>)>|
            p.to_multiset() == pairs_view(vars@).to_multiset() && names_ordered(p) && r@
                == variables_block(p),
{
    let mut sorted: Vec<(String, String)> = Vec::new();
    let mut i: usize = 0;
    while i < vars.len()
        invariant
            i <= vars@.len(),
            sorted@ == vars@.subrange(0, i as int),
        decreases vars@.len() - i,
    {
        sorted.push((vars[i].0.clone(), vars[i].1.clone()));
        proof {
            assert(sorted@ =~= vars@.subrange(0, i + 1));
        }
        i += 1;
    }
    proof {
        assert(vars@.subrange(0, vars@.len() as int) =~= vars@);
    }
    sort_pairs(&mut sorted);
    let mut out: Vec<char> = Vec::new();
    push_str(&mut out, "Variables:\n");
    if sorted.len() == 0 {
        push_str(&mut out, "(none)\n");
        proof {
            reveal_strlit("Variables:\n");
            reveal_strlit("(none)\n");
            reveal_strlit("Variables:\n(none)\n");
            assert(out@ =~= "Variables:\n(none)\n"@);
        }
    } else {
        let ghost head = out@;
        let mut j: usize = 0;
        while j < sorted.len()
            invariant
                j <= sorted@.len(),
                out@ == head + variable_lines(pairs_view(sorted@.subrange(0, j as int))),
            decreases sorted@.len() - j,
        {
            push_str(&mut out, "- ");
            push_str(&mut out, sorted[j].0.as_str());
            push_str(&mut out, ": ");
            push_str(&mut out, sorted[j].1.as_str());
            push_str(&mut out, "\n");
            proof {
                let pv = pairs_view(sorted@.subrange(0, j + 1));
                assert(pv.drop_last() =~= pairs_view(sorted@.subrange(0, j as int)));
            }
            j += 1;
        }
        proof {
            assert(sorted@.subrange(0, sorted@.len() as int) =~= sorted@);
        }
    }
    string_of(&out)
}

/// `out` is what the parsed reply `v` means.
pub open spec fn describes_reply(v: JsonValue, out: InterpreterOutput) -> bool {
    if has_prefix(reply_id(v), "vars-"@) {
        out matches InterpreterOutput::Variables(t) && exists|p: Seq<(Seq<char>, Seq<char>)>|
            p.to_multiset() == reply_model(v).3.to_multiset() && names_ordered(p) && t@
                == variables_block(p)
    } else {
        out matches InterpreterOutput::CodeResult(res) && result_model(res) == reply_model(v)
    }
}

/// What a parsed reply line means: a reply whose id starts with `vars-`
/// feeds the variables display, any other the execution result display.
pub fn interpret_reply(v: &JsonValue) -> (r: InterpreterOutput)
    ensures
        describes_reply(*v, r),
{
    let res = reply_result(v);
    let id = str_member(v, "id", "");
    proof {
        reveal_strlit("");
        assert(""@ =~= Seq::<char>::empty());
        assert(id@ == reply_id(*v));
    }
    let id_chars = chars_of(id.as_str());
    let prefix = chars_of("vars-");
    if starts_with_chars(&id_chars, &prefix) {
        let text = format_variables(&res.variables);
        proof {
            assert(pairs_view(res.variables@) == result_model(res).3);
        }
        InterpreterOutput::Variables(text)
    } else {
        InterpreterOutput::CodeResult(res)
    }
}


/// A `vars-` reply that reports one variable reaches the variables display
/// as the header and that variable's line.
pub proof fn lemma_single_variable_display(
    v: JsonValue,
    out: InterpreterOutput,
    name: Seq<char>,
    summary: Seq<char>,
)
    requires
        describes_reply(v, out),
        has_prefix(reply_id(v), "vars-"@),
        reply_model(v).3 == seq![(name, summary)],
    ensures
        out matches InterpreterOutput::Variables(t) && t@ == "Variables:\n- "@ + name + ": "@
            + summary + "\n"@,
{
    broadcast use vstd::seq_lib::group_to_multiset_ensures;
    let x = (name, summary);
    let p = choose|p: Seq<(Seq<char>, Seq<char>)>|
        p.to_multiset() == reply_model(v).3.to_multiset() && names_ordered(p) && (
        out matches InterpreterOutput::Variables(t) && t@ == variables_block(p));
    assert(p.to_multiset() == seq![x].to_multiset());
    assert(seq![x].len() == 1);
    assert(p.to_multiset().len() == seq![x].to_multiset().len());
    assert(p.len() == 1);
    assert(p.contains(p[0]));
    assert(seq![x].to_multiset().count(p[0]) > 0);
    assert(seq![x].contains(p[0]));
    assert(p[0] == x);
    assert(p.drop_last() =~= Seq::<(Seq<char>, Seq<char>)>::empty());
    reveal_strlit("Variables:\n");
    reveal_strlit("Variables:\n- ");
    reveal_strlit("- ");
    assert(p.last() == x);
    assert(variable_lines(p.drop_last()) =~= Seq::<char>::empty());
    assert(variable_lines(p) =~= "- "@ + name + ": "@ + summary + "\n"@);
    assert(variables_block(p) == "Variables:\n"@ + variable_lines(p));
    assert(variables_block(p) =~= "Variables:\n- "@ + name + ": "@ + summary + "\n"@);
}

/// Reads one line of the interpreter's output: blank lines and lines that
/// are not JSON are dropped; any other line is a reply.
pub fn parse_interpreter_line(line: &str) -> (r: Option<InterpreterOutput>)
    ensures
        is_blank(line@) ==> r is None,
        !is_blank(line@) ==> match json_parse(trimmed(line@)) {
            None => r is None,
            Some(v) => r matches Some(out) && describes_reply(v, out),
        },
{
    let t = trim_str(line);
    if is_blank_str(line) {
        return None;
    }
    match parse_json(t.as_str()) {
        None => None,
        Some(v) => Some(interpret_reply(&v)),
    }
}

/// The text shown for an execution result: the output, then the errors one
/// per line; "(ok)" for a silent success.
pub open spec fn code_result_text(m: ResultModel) -> Seq<char> {
    let base = if m.2.len() > 0 {
        (if m.1.len() > 0 {
            m.1 + "\n"@
        } else {
            m.1
        }) + join_sep(m.2, "\n"@)
    } else {
        m.1
    };
    if base.len() == 0 && m.0 {
        "(ok)"@
    } else {
        base
    }
}

/// The text shown for an execution result.
pub fn format_code_result(res: &ExecutionResult) -> (r: String)
    ensures
        r@ == code_result_text(result_model(*res)),
{
    let mut out = chars_of(res.output.as_str());
    if res.errors.len() > 0 {
        if out.len() > 0 {
            out.push('\n');
        }
        let mut errs: Vec<Vec<char>> = Vec::new();
        let mut i: usize = 0;
        while i < res.errors.len()
            invariant
                i <= res.errors@.len(),
                errs@.map_values(|v: Vec<char>| v@) == views(res.errors@).subrange(0, i as int),
            decreases res.errors@.len() - i,
        {
            let ghost before = errs@;
            errs.push(chars_of(res.errors[i].as_str()));
            proof {
                assert(errs@.map_values(|v: Vec<char>| v@) =~= before.map_values(
                    |v: Vec<char>| v@,
                ).push(res.errors@[i as int]@));
                assert(views(res.errors@).subrange(0, i + 1) =~= views(res.errors@).subrange(
                    0,
                    i as int,
                ).push(res.errors@[i as int]@));
            }
            i += 1;
        }
        proof {
            assert(views(res.errors@).subrange(0, res.errors@.len() as int) =~= views(
                res.errors@,
            ));
        }
        let joined = join_chars(&errs, "\n");
        extend_chars(&mut out, &joined);
    }
    proof {
        reveal_strlit("\n");
    }
    if out.len() == 0 && res.success {
        return owned("(ok)");
    }
    string_of(&out)
}

/// Id of a request: a prefix followed by the counter in decimal.
pub fn request_id(prefix: &str, counter: u64) -> (r: String)
    ensures
        r@ == prefix@ + decimal(counter as nat),
{
    let mut out = chars_of(prefix);
    push_decimal_u64(&mut out, counter);
    string_of(&out)
}

/// The request line that runs `code`, with its output captured.
pub open spec fn execute_request_text(id: Seq<char>, code: Seq<char>) -> Seq<char> {
    "{\"id\":"@ + json_quote(id) + ",\"method\":\"execute\",\"params\":{\"capture_output\":true,\"code\":"@
        + json_quote(code) + "}}\n"@
}

/// The request line that asks for the live variables.
pub open spec fn vars_request_text(id: Seq<char>) -> Seq<char> {
    "{\"id\":"@ + json_quote(id) + ",\"method\":\"vars\",\"params\":{}}\n"@
}

/// The request line that runs `code`.
pub fn execute_request(id: &str, code: &str) -> (r: String)
    ensures
        r@ == execute_request_text(id@, code@),
{
    let mut out: Vec<char> = Vec::new();
    push_str(&mut out, "{\"id\":");
    let q = json_string(id);
    push_str(&mut out, q.as_str());
    push_str(&mut out, ",\"method\":\"execute\",\"params\":{\"capture_output\":true,\"code\":");
    let c = json_string(code);
    push_str(&mut out, c.as_str());
    push_str(&mut out, "}}\n");
    string_of(&out)
}

/// The request line that asks for the live variables.
pub fn vars_request(id: &str) -> (r: String)
    ensures
        r@ == vars_request_text(id@),
{
    let mut out: Vec<char> = Vec::new();
    push_str(&mut out, "{\"id\":");
    let q = json_string(id);
    push_str(&mut out, q.as_str());
    push_str(&mut out, ",\"method\":\"vars\",\"params\":{}}\n");
    string_of(&out)
}

/// A line without a carriage return at its end.
pub open spec fn strip_cr(l: Seq<char>) -> Seq<char> {
    if l.len() > 0 && l.last() == '\r' {
        l.drop_last()
    } else {
        l
    }
}

/// The lines from index `i` up to the first closing fence, each followed by a newline.
pub open spec fn fenced_body(lines: Seq<Seq<char>>, i: int) -> Seq<char>
    decreases lines.len() - i,
{
    if i < 0 || i >= lines.len() || has_prefix(lines[i], "```"@) {
        Seq::empty()
    } else {
        lines[i] + "\n"@ + fenced_body(lines, i + 1)
    }
}

fn line_at(parts: &Vec<Vec<char>>, i: usize) -> (r: Vec<char>)
    requires
        i < parts@.len(),
    ensures
        r@ == strip_cr(parts@[i as int]@),
{
    let p = &parts[i];
    let pl = p.len();
    proof {
        assert(p@.subrange(0, pl as int) =~= p@);
    }
    if pl > 0 && p[pl - 1] == '\r' {
        slice_chars(p, 0, pl - 1)
    } else {
        slice_chars(p, 0, pl)
    }
}

/// Generated code without surrounding white space; for code that opens with
/// a fence, the lines between the opening fence and the next fence.
pub open spec fn sanitized(s: Seq<char>) -> Seq<char> {
    let t = trimmed(s);
    if has_prefix(t, "```"@) {
        fenced_body(split_on(t, '\n').map_values(|l: Seq<char>| strip_cr(l)), 1)
    } else {
        t
    }
}

/// Generated code without surrounding white space; for code that opens with
/// a fence, the lines between the opening fence and the next fence.
pub fn sanitize_generated_code(s: &str) -> (r: String)
    ensures
        r@ == sanitized(s@),
{
    let t = trim_str(s);
    let tc = chars_of(t.as_str());
    let fence = chars_of("```");
    if !starts_with_chars(&tc, &fence) {
        return t;
    }
    let parts = split_chars(&tc, '\n');
    let ghost lines = parts@.map_values(|v: Vec<char>| v@).map_values(|l: Seq<char>| strip_cr(l));
    let n = parts.len();
    let mut i: usize = 1;
    while i < n && !starts_with_chars(&line_at(&parts, i), &fence)
        invariant
            n == parts@.len(),
            1 <= i <= n,
            fence@ == "```"@,
            lines == parts@.map_values(|v: Vec<char>| v@).map_values(|l: Seq<char>| strip_cr(l)),
            forall|k: int| 1 <= k < i ==> !has_prefix(#[trigger] lines[k], "```"@),
        decreases n - i,
    {
        i += 1;
    }
    let end = i;
    let mut out: Vec<char> = Vec::new();
    let mut j: usize = end;
    while j > 1
        invariant
            n == parts@.len(),
            1 <= j <= end <= n,
            lines == parts@.map_values(|v: Vec<char>| v@).map_values(|l: Seq<char>| strip_cr(l)),
            forall|k: int| 1 <= k < end ==> !has_prefix(#[trigger] lines[k], "```"@),
            out@ == fenced_body(lines, j as int),
        decreases j,
    {
        j -= 1;
        let mut line = line_at(&parts, j);
        line.push('\n');
        extend_chars(&mut line, &out);
        proof {
            reveal_strlit("\n");
        }
        out = line;
    }
    string_of(&out)
}

} // verus!
