//! Character-indexed text operations.
//!
//! Every position in this module is a character index (a position in the
//! string's `Seq<char>` view), never a byte offset.
use vstd::prelude::*;

verus! {

// ---------------------------------------------------------------------------
// Character classes
// ---------------------------------------------------------------------------

/// The Unicode `White_Space` code points.
pub open spec fn is_space_char(c: char) -> bool {
    let v = c as u32;
    (0x9 <= v && v <= 0xd) || v == 0x20 || v == 0x85 || v == 0xa0 || v == 0x1680 || (0x2000
        <= v && v <= 0x200a) || v == 0x2028 || v == 0x2029 || v == 0x202f || v == 0x205f || v
        == 0x3000
}

/// ASCII letters and digits.
pub open spec fn is_ascii_alnum(c: char) -> bool {
    let v = c as u32;
    (0x30 <= v && v <= 0x39) || (0x41 <= v && v <= 0x5a) || (0x61 <= v && v <= 0x7a)
}

/// Whether a character is Unicode `Alphabetic` or `Numeric`.
pub uninterp spec fn alphanumeric(c: char) -> bool;

/// A word character: alphanumeric or underscore.
pub open spec fn word_char(c: char) -> bool {
    alphanumeric(c) || c == '_'
}

/// Whether a character is Unicode `White_Space`.
pub(crate) fn char_is_whitespace(c: char) -> (r: bool)
    ensures
        r == is_space_char(c),
{
    let v = c as u32;
    (0x9 <= v && v <= 0xd) || v == 0x20 || v == 0x85 || v == 0xa0 || v == 0x1680 || (0x2000 <= v
        && v <= 0x200a) || v == 0x2028 || v == 0x2029 || v == 0x202f || v == 0x205f || v == 0x3000
}

/// Relies on `char::is_alphanumeric`; on ASCII it holds exactly for letters and digits.
#[verifier::external_body]
pub(crate) fn char_is_alphanumeric(c: char) -> (r: bool)
    ensures
        r == alphanumeric(c),
        (c as u32) < 0x80 ==> r == is_ascii_alnum(c),
{
    c.is_alphanumeric()
}

/// A word character: alphanumeric or underscore.
pub fn is_word_char(c: char) -> (r: bool)
    ensures
        r == word_char(c),
{
    char_is_alphanumeric(c) || c == '_'
}

// ---------------------------------------------------------------------------
// Conversions between strings and character vectors
// ---------------------------------------------------------------------------

/// Relies on `str::chars`: the characters of the string, in order.
#[verifier::external_body]
pub(crate) fn chars_of(s: &str) -> (r: Vec<char>)
    ensures
        r@ == s@,
{
    s.chars().collect()
}

/// Relies on `String: FromIterator<char>`: the string made of the given characters.
#[verifier::external_body]
pub(crate) fn string_of(cs: &Vec<char>) -> (r: String)
    ensures
        r@ == cs@,
{
    cs.iter().collect()
}

/// Name for the result of `str::to_lowercase`.
pub uninterp spec fn lower_of(s: Seq<char>) -> Seq<char>;

/// Relies on `str::to_lowercase`: the result depends on the characters alone.
#[verifier::external_body]
pub(crate) fn lowercase(s: &str) -> (r: String)
    ensures
        r@ == lower_of(s@),
{
    s.to_lowercase()
}

/// Copies a string literal or slice into an owned string.
pub fn owned(s: &str) -> (r: String)
    ensures
        r@ == s@,
{
    String::from_str(s)
}

/// Appends one sequence of characters to a vector.
pub fn extend_chars(v: &mut Vec<char>, s: &Vec<char>)
    ensures
        final(v)@ == old(v)@ + s@,
{
    let mut i: usize = 0;
    while i < s.len()
        invariant
            i <= s@.len(),
            v@ == old(v)@ + s@.subrange(0, i as int),
        decreases s@.len() - i,
    {
        v.push(s[i]);
        i += 1;
        proof {
            assert(s@.subrange(0, i as int) =~= s@.subrange(0, i - 1) + seq![s@[i - 1]]);
        }
    }
    proof {
        assert(s@.subrange(0, s@.len() as int) =~= s@);
    }
}

/// The characters `s[from..to]`, as a new vector.
pub fn slice_chars(s: &Vec<char>, from: usize, to: usize) -> (r: Vec<char>)
    requires
        from <= to <= s@.len(),
    ensures
        r@ == s@.subrange(from as int, to as int),
{
    let mut r: Vec<char> = Vec::new();
    let mut i: usize = from;
    while i < to
        invariant
            from <= i <= to <= s@.len(),
            r@ == s@.subrange(from as int, i as int),
        decreases to - i,
    {
        r.push(s[i]);
        i += 1;
        proof {
            assert(s@.subrange(from as int, i as int) =~= s@.subrange(from as int, i - 1)
                + seq![s@[i - 1]]);
        }
    }
    r
}

// ---------------------------------------------------------------------------
// Searching
// ---------------------------------------------------------------------------

/// `n` occurs in `h` starting at character index `i`.
pub open spec fn occurs_at(h: Seq<char>, n: Seq<char>, i: int) -> bool {
    0 <= i && i + n.len() <= h.len() && h.subrange(i, i + n.len()) == n
}

/// `n` occurs somewhere in `h`.
pub open spec fn contains_seq(h: Seq<char>, n: Seq<char>) -> bool {
    exists|i: int| occurs_at(h, n, i)
}

/// The first occurrence of `n` in `h` at or after index `i`.
pub open spec fn first_from(h: Seq<char>, n: Seq<char>, i: int) -> Option<int>
    decreases h.len() + 1 - i,
{
    if i < 0 || i + n.len() > h.len() {
        None
    } else if occurs_at(h, n, i) {
        Some(i)
    } else {
        first_from(h, n, i + 1)
    }
}

/// The character index of the first occurrence of `n` in `h`.
pub open spec fn find_in(h: Seq<char>, n: Seq<char>) -> Option<int> {
    first_from(h, n, 0)
}

/// `h` with the first occurrence of `p` replaced by `a` (unchanged if `p` does not occur).
pub open spec fn replace_first(h: Seq<char>, p: Seq<char>, a: Seq<char>) -> Seq<char> {
    match find_in(h, p) {
        Some(i) => h.subrange(0, i) + a + h.subrange(i + p.len(), h.len() as int),
        None => h,
    }
}

/// A first occurrence is an occurrence, and nothing earlier is one.
pub proof fn lemma_first_from(h: Seq<char>, n: Seq<char>, i: int)
    requires
        0 <= i,
    ensures
        first_from(h, n, i) matches Some(k) ==> i <= k && occurs_at(h, n, k) && forall|j: int|
            i <= j < k ==> !occurs_at(h, n, j),
        first_from(h, n, i) is None ==> forall|j: int| i <= j ==> !occurs_at(h, n, j),
    decreases h.len() + 1 - i,
{
    if i + n.len() > h.len() {
    } else if occurs_at(h, n, i) {
    } else {
        lemma_first_from(h, n, i + 1);
    }
}

/// The first occurrence of `needle` in `hay`, as a character index.
pub fn find_chars(hay: &Vec<char>, needle: &Vec<char>) -> (r: Option<usize>)
    ensures
        r matches Some(i) ==> find_in(hay@, needle@) == Some(i as int),
        r is None ==> find_in(hay@, needle@) is None,
        r is Some <==> contains_seq(hay@, needle@),
{
    proof {
        lemma_first_from(hay@, needle@, 0);
    }
    if needle.len() > hay.len() {
        return None;
    }
    let mut i: usize = 0;
    while needle.len() <= hay.len() - i
        invariant
            i <= hay@.len(),
            find_in(hay@, needle@) == first_from(hay@, needle@, i as int),
        decreases hay@.len() + 1 - i,
    {
        let mut k: usize = 0;
        while k < needle.len() && hay[i + k] == needle[k]
            invariant
                i + needle@.len() <= hay@.len(),
                hay@.len() <= usize::MAX,
                find_in(hay@, needle@) == first_from(hay@, needle@, i as int),
                k <= needle@.len(),
                forall|m: int| 0 <= m < k ==> hay@[i + m] == needle@[m],
            decreases needle@.len() - k,
        {
            k += 1;
        }
        if k == needle.len() {
            proof {
                assert(hay@.subrange(i as int, i + needle@.len()) =~= needle@);
                assert(occurs_at(hay@, needle@, i as int));
                assert(first_from(hay@, needle@, i as int) == Some(i as int));
            }
            return Some(i);
        }
        proof {
            assert(hay@.subrange(i as int, i + needle@.len())[k as int] != needle@[k as int]);
        }
        i += 1;
    }
    None
}

/// Character index of the first occurrence of `needle` in `haystack`.
pub fn find_substring_char_index(haystack: &str, needle: &str) -> (r: Option<usize>)
    ensures
        r matches Some(i) ==> find_in(haystack@, needle@) == Some(i as int),
        r is None ==> find_in(haystack@, needle@) is None,
        r is Some <==> contains_seq(haystack@, needle@),
{
    let h = chars_of(haystack);
    let n = chars_of(needle);
    find_chars(&h, &n)
}

/// The text before character index `char_idx` and the text from it on (all
/// of it before, when the index is past the end).
pub fn split_by_char_index(s: &str, char_idx: usize) -> (r: (String, String))
    ensures
        r.0@ == s@.subrange(0, if char_idx <= s@.len() { char_idx as int } else { s@.len() as int }),
        r.1@ == s@.subrange(
            if char_idx <= s@.len() {
                char_idx as int
            } else {
                s@.len() as int
            },
            s@.len() as int,
        ),
{
    let cs = chars_of(s);
    let n = cs.len();
    let k: usize = if char_idx <= n {
        char_idx
    } else {
        n
    };
    let before = slice_chars(&cs, 0, k);
    let after = slice_chars(&cs, k, n);
    (string_of(&before), string_of(&after))
}

/// Whether `needle` occurs in `hay`.
pub fn contains_str(hay: &str, needle: &str) -> (r: bool)
    ensures
        r == contains_seq(hay@, needle@),
{
    find_substring_char_index(hay, needle).is_some()
}

/// Whether the character `c` occurs in `s`.
pub fn contains_char(s: &Vec<char>, c: char) -> (r: bool)
    ensures
        r == s@.contains(c),
{
    let mut i: usize = 0;
    while i < s.len()
        invariant
            i <= s@.len(),
            forall|j: int| 0 <= j < i ==> s@[j] != c,
        decreases s@.len() - i,
    {
        if s[i] == c {
            return true;
        }
        i += 1;
    }
    false
}

/// `p` is a prefix of `s`.
pub open spec fn has_prefix(s: Seq<char>, p: Seq<char>) -> bool {
    p.len() <= s.len() && s.subrange(0, p.len() as int) == p
}

/// `p` is a suffix of `s`.
pub open spec fn has_suffix(s: Seq<char>, p: Seq<char>) -> bool {
    p.len() <= s.len() && s.subrange(s.len() - p.len(), s.len() as int) == p
}

/// Whether `s` begins with `p`.
pub fn starts_with_chars(s: &Vec<char>, p: &Vec<char>) -> (r: bool)
    ensures
        r == has_prefix(s@, p@),
{
    if p.len() > s.len() {
        return false;
    }
    let mut k: usize = 0;
    while k < p.len()
        invariant
            p@.len() <= s@.len(),
            s@.len() <= usize::MAX,
            k <= p@.len(),
            forall|m: int| 0 <= m < k ==> s@[m] == p@[m],
        decreases p@.len() - k,
    {
        if s[k] != p[k] {
            proof {
                assert(s@.subrange(0, p@.len() as int)[k as int] != p@[k as int]);
            }
            return false;
        }
        k += 1;
    }
    proof {
        assert(s@.subrange(0, p@.len() as int) =~= p@);
    }
    true
}

/// Whether the string `s` begins with `p`.
pub fn starts_with_str(s: &str, p: &str) -> (r: bool)
    ensures
        r == has_prefix(s@, p@),
{
    let sc = chars_of(s);
    let pc = chars_of(p);
    starts_with_chars(&sc, &pc)
}

/// Whether `s` ends with `p`.
pub fn ends_with_chars(s: &Vec<char>, p: &Vec<char>) -> (r: bool)
    ensures
        r == has_suffix(s@, p@),
{
    if p.len() > s.len() {
        return false;
    }
    let off: usize = s.len() - p.len();
    let mut k: usize = 0;
    while k < p.len()
        invariant
            off == s@.len() - p@.len(),
            p@.len() <= s@.len(),
            s@.len() <= usize::MAX,
            k <= p@.len(),
            forall|m: int| 0 <= m < k ==> s@[off + m] == p@[m],
        decreases p@.len() - k,
    {
        if s[off + k] != p[k] {
            proof {
                assert(s@.subrange(off as int, s@.len() as int)[k as int] != p@[k as int]);
            }
            return false;
        }
        k += 1;
    }
    proof {
        assert(s@.subrange(off as int, s@.len() as int) =~= p@);
    }
    true
}

// ---------------------------------------------------------------------------
// Trimming
// ---------------------------------------------------------------------------

/// `s` without its leading white space.
pub open spec fn trim_start(s: Seq<char>) -> Seq<char>
    decreases s.len(),
{
    if s.len() > 0 && is_space_char(s[0]) {
        trim_start(s.drop_first())
    } else {
        s
    }
}

/// `s` without its trailing white space.
pub open spec fn trim_end(s: Seq<char>) -> Seq<char>
    decreases s.len(),
{
    if s.len() > 0 && is_space_char(s.last()) {
        trim_end(s.drop_last())
    } else {
        s
    }
}

/// `s` without leading and trailing white space.
pub open spec fn trimmed(s: Seq<char>) -> Seq<char> {
    trim_end(trim_start(s))
}

/// `s` is empty or white space only.
pub open spec fn is_blank(s: Seq<char>) -> bool {
    trimmed(s).len() == 0
}

proof fn lemma_trim_start_skip(s: Seq<char>, i: int)
    requires
        0 <= i <= s.len(),
        forall|j: int| 0 <= j < i ==> is_space_char(s[j]),
    ensures
        trim_start(s) == trim_start(s.subrange(i, s.len() as int)),
    decreases i,
{
    if i > 0 {
        lemma_trim_start_skip(s, i - 1);
        let t = s.subrange(i - 1, s.len() as int);
        assert(t[0] == s[i - 1]);
        assert(is_space_char(t[0]));
        assert(t.drop_first() =~= s.subrange(i, s.len() as int));
        assert(trim_start(t) == trim_start(t.drop_first()));
    } else {
        assert(s.subrange(0, s.len() as int) =~= s);
    }
}

proof fn lemma_trim_end_skip(s: Seq<char>, i: int)
    requires
        0 <= i <= s.len(),
        forall|j: int| i <= j < s.len() ==> is_space_char(s[j]),
    ensures
        trim_end(s) == trim_end(s.subrange(0, i)),
    decreases s.len() - i,
{
    if i < s.len() {
        lemma_trim_end_skip(s, i + 1);
        let t = s.subrange(0, i + 1);
        assert(t.drop_last() =~= s.subrange(0, i));
    } else {
        assert(s.subrange(0, i) =~= s);
    }
}

/// The characters of `s` without leading and trailing white space.
pub fn trim_chars(s: &Vec<char>) -> (r: Vec<char>)
    ensures
        r@ == trimmed(s@),
{
    let mut a: usize = 0;
    while a < s.len() && char_is_whitespace(s[a])
        invariant
            a <= s@.len(),
            forall|j: int| 0 <= j < a ==> is_space_char(s@[j]),
        decreases s@.len() - a,
    {
        a += 1;
    }
    proof {
        lemma_trim_start_skip(s@, a as int);
    }
    let mut b: usize = s.len();
    while b > a && char_is_whitespace(s[b - 1])
        invariant
            a <= b <= s@.len(),
            forall|j: int| b <= j < s@.len() ==> is_space_char(s@[j]),
        decreases b,
    {
        b -= 1;
    }
    let ghost u = s@.subrange(a as int, s@.len() as int);
    proof {
        if a < s@.len() {
            assert(!is_space_char(u[0]));
        }
        assert(trim_start(u) == u);
        assert forall|j: int| (b - a) <= j < u.len() implies is_space_char(u[j]) by {
            assert(u[j] == s@[a + j]);
        }
        lemma_trim_end_skip(u, b - a);
        assert(u.subrange(0, b - a) =~= s@.subrange(a as int, b as int));
        let w = s@.subrange(a as int, b as int);
        if w.len() > 0 {
            assert(w.last() == s@[b - 1]);
        }
    }
    slice_chars(s, a, b)
}

/// Whether the string is empty or white space only.
pub fn is_blank_str(s: &str) -> (r: bool)
    ensures
        r == is_blank(s@),
{
    let cs = chars_of(s);
    let t = trim_chars(&cs);
    t.len() == 0
}

/// The string without leading and trailing white space.
pub fn trim_str(s: &str) -> (r: String)
    ensures
        r@ == trimmed(s@),
{
    let cs = chars_of(s);
    let t = trim_chars(&cs);
    string_of(&t)
}

// ---------------------------------------------------------------------------
// Lines
// ---------------------------------------------------------------------------

/// Lines joined with a newline between each pair.
pub open spec fn join_lines(lines: Seq<Seq<char>>) -> Seq<char>
    decreases lines.len(),
{
    if lines.len() == 0 {
        Seq::empty()
    } else if lines.len() == 1 {
        lines[0]
    } else {
        join_lines(lines.drop_last()) + seq!['\n'] + lines.last()
    }
}

/// Pieces separated by `sep`: joining the pieces back with `sep` gives the text,
/// and no piece holds `sep`.
pub open spec fn splits_into(s: Seq<char>, sep: char, pieces: Seq<Seq<char>>) -> bool {
    &&& pieces.len() >= 1
    &&& join_with(pieces, sep) == s
    &&& forall|i: int| 0 <= i < pieces.len() ==> !(#[trigger] pieces[i]).contains(sep)
}

/// Pieces joined with `sep` between each pair.
pub open spec fn join_with(pieces: Seq<Seq<char>>, sep: char) -> Seq<char>
    decreases pieces.len(),
{
    if pieces.len() == 0 {
        Seq::empty()
    } else if pieces.len() == 1 {
        pieces[0]
    } else {
        join_with(pieces.drop_last(), sep) + seq![sep] + pieces.last()
    }
}

/// The views of a vector of strings.
pub open spec fn views(v: Seq<String>) -> Seq<Seq<char>> {
    v.map_values(|s: String| s@)
}

/// Joins strings with a newline between each pair.
pub fn join_newline(lines: &Vec<String>) -> (r: String)
    ensures
        r@ == join_lines(views(lines@)),
{
    let mut out: Vec<char> = Vec::new();
    let mut i: usize = 0;
    while i < lines.len()
        invariant
            i <= lines@.len(),
            out@ == join_lines(views(lines@.subrange(0, i as int))),
        decreases lines@.len() - i,
    {
        let line = chars_of(lines[i].as_str());
        if i > 0 {
            out.push('\n');
        }
        extend_chars(&mut out, &line);
        i += 1;
        proof {
            let pre = views(lines@.subrange(0, i as int));
            assert(pre.drop_last() =~= views(lines@.subrange(0, i - 1)));
            assert(pre.last() == lines@[i - 1]@);
            if i == 1 {
                assert(views(lines@.subrange(0, 0)) =~= Seq::<Seq<char>>::empty());
            }
        }
    }
    proof {
        assert(lines@.subrange(0, lines@.len() as int) =~= lines@);
    }
    string_of(&out)
}

/// Strings joined with a newline between each pair, followed by one more line.
pub fn join_newline_then(lines: &Vec<String>, last: &str) -> (r: String)
    ensures
        r@ == join_lines(views(lines@).push(last@)),
{
    let head = join_newline(lines);
    let mut out = chars_of(head.as_str());
    if lines.len() > 0 {
        out.push('\n');
    }
    push_str(&mut out, last);
    proof {
        let xs = views(lines@).push(last@);
        assert(xs.drop_last() =~= views(lines@));
        if lines@.len() == 0 {
            assert(xs.len() == 1);
        }
    }
    string_of(&out)
}

/// The pieces of `s` between occurrences of `sep`; one piece more than
/// there are separators.
pub open spec fn split_on(s: Seq<char>, sep: char) -> Seq<Seq<char>>
    decreases s.len(),
{
    if s.len() == 0 {
        seq![Seq::empty()]
    } else {
        let rest = split_on(s.drop_last(), sep);
        if s.last() == sep {
            rest.push(Seq::empty())
        } else {
            rest.update(rest.len() - 1, rest.last().push(s.last()))
        }
    }
}

proof fn lemma_split_on_len(s: Seq<char>, sep: char)
    ensures
        split_on(s, sep).len() >= 1,
    decreases s.len(),
{
    if s.len() > 0 {
        lemma_split_on_len(s.drop_last(), sep);
    }
}

/// Splits characters at each `sep`.
pub fn split_chars(s: &Vec<char>, sep: char) -> (r: Vec<Vec<char>>)
    ensures
        splits_into(s@, sep, r@.map_values(|v: Vec<char>| v@)),
        r@.map_values(|v: Vec<char>| v@) == split_on(s@, sep),
{
    let mut pieces: Vec<Vec<char>> = Vec::new();
    let mut cur: Vec<char> = Vec::new();
    let mut i: usize = 0;
    let mut start: usize = 0;
    while i < s.len()
        invariant
            start <= i <= s@.len(),
            cur@ == s@.subrange(start as int, i as int),
            !cur@.contains(sep),
            pieces@.len() > 0 ==> join_with(pieces@.map_values(|v: Vec<char>| v@), sep)
                + seq![sep] == s@.subrange(0, start as int),
            pieces@.len() == 0 ==> start == 0,
            forall|j: int|
                0 <= j < pieces@.len() ==> !(#[trigger] pieces@[j]@).contains(sep),
            pieces@.map_values(|v: Vec<char>| v@).push(cur@) == split_on(
                s@.subrange(0, i as int),
                sep,
            ),
        decreases s@.len() - i,
    {
        let c = s[i];
        proof {
            assert(s@.subrange(0, i + 1).drop_last() =~= s@.subrange(0, i as int));
            lemma_split_on_len(s@.subrange(0, i as int), sep);
        }
        let ghost old_pieces = pieces@;
        if c == sep {
            let ghost joined_before = join_with(old_pieces.map_values(|v: Vec<char>| v@), sep);
            pieces.push(cur);
            cur = Vec::new();
            proof {
                let pv = pieces@.map_values(|v: Vec<char>| v@);
                assert(pv.drop_last() =~= old_pieces.map_values(|v: Vec<char>| v@));
                assert(pv.last() == s@.subrange(start as int, i as int));
                if old_pieces.len() == 0 {
                    assert(pv.len() == 1);
                    assert(join_with(pv, sep) == pv[0]);
                    assert(s@.subrange(0, i + 1) =~= s@.subrange(0, i as int) + seq![sep]);
                } else {
                    assert(join_with(pv, sep) == joined_before + seq![sep] + pv.last());
                    assert(s@.subrange(0, i + 1) =~= s@.subrange(0, start as int)
                        + s@.subrange(start as int, i as int) + seq![sep]);
                }
                assert(cur@ =~= s@.subrange(i + 1, i + 1));
                assert(pv.push(cur@) =~= split_on(s@.subrange(0, i as int), sep).push(
                    Seq::empty(),
                ));
            }
            start = i + 1;
        } else {
            let ghost prev = cur@;
            cur.push(c);
            proof {
                let sp = split_on(s@.subrange(0, i as int), sep);
                assert(pieces@.map_values(|v: Vec<char>| v@).push(cur@) =~= sp.update(
                    sp.len() - 1,
                    sp.last().push(c),
                ));
                assert(cur@ =~= s@.subrange(start as int, i + 1));
                assert forall|k: int| 0 <= k < cur@.len() implies cur@[k] != sep by {
                    if k < prev.len() {
                        assert(cur@[k] == prev[k]);
                        assert(prev.contains(prev[k]));
                    }
                }
            }
        }
        i += 1;
    }
    let ghost old_pieces = pieces@;
    proof {
        assert(s@.subrange(0, s@.len() as int) =~= s@);
    }
    pieces.push(cur);
    proof {
        let pv = pieces@.map_values(|v: Vec<char>| v@);
        assert(pv =~= old_pieces.map_values(|v: Vec<char>| v@).push(cur@));
        assert(pv.drop_last() =~= old_pieces.map_values(|v: Vec<char>| v@));
        assert(pv.last() == s@.subrange(start as int, s@.len() as int));
        if old_pieces.len() == 0 {
            assert(s@.subrange(0, s@.len() as int) =~= s@);
            assert(pv[0] =~= s@);
        } else {
            assert(s@ =~= s@.subrange(0, start as int) + s@.subrange(
                start as int,
                s@.len() as int,
            ));
        }
    }
    pieces
}

// ---------------------------------------------------------------------------
// Word boundaries
// ---------------------------------------------------------------------------

/// Moving left from `i`, the first position that is 0 or not white space.
pub open spec fn skip_space_left(s: Seq<char>, i: int) -> int
    decreases i,
{
    if i > 0 && is_space_char(s[i]) {
        skip_space_left(s, i - 1)
    } else {
        i
    }
}

/// Start of the run that ends at `i`: characters that are not white space and
/// whose word class is `cls`.
pub open spec fn run_start(s: Seq<char>, i: int, cls: bool) -> int
    decreases i,
{
    if i > 0 && !is_space_char(s[i - 1]) && word_char(s[i - 1]) == cls {
        run_start(s, i - 1, cls)
    } else {
        i
    }
}

/// Moving right from `i`, the first position that is the end or not white space.
pub open spec fn skip_space_right(s: Seq<char>, i: int) -> int
    decreases s.len() - i,
{
    if 0 <= i < s.len() && is_space_char(s[i]) {
        skip_space_right(s, i + 1)
    } else {
        i
    }
}

/// End of the run that starts at `i`: characters that are not white space and
/// whose word class is `cls`.
pub open spec fn run_end(s: Seq<char>, i: int, cls: bool) -> int
    decreases s.len() - i,
{
    if 0 <= i < s.len() && !is_space_char(s[i]) && word_char(s[i]) == cls {
        run_end(s, i + 1, cls)
    } else {
        i
    }
}

/// `i` clamped to `0..=s.len()`.
pub open spec fn clamp_to(s: Seq<char>, i: int) -> int {
    if i <= s.len() {
        i
    } else {
        s.len() as int
    }
}

/// Start of the word left of `cursor`: skip white space leftwards, then the
/// run of characters of the same class (word characters, or punctuation).
pub open spec fn prev_boundary(s: Seq<char>, cursor: int) -> int {
    let n = clamp_to(s, cursor);
    if n <= 0 {
        0
    } else {
        let j = skip_space_left(s, n - 1);
        if j == 0 {
            0
        } else {
            run_start(s, j, word_char(s[j]))
        }
    }
}

/// End of the word right of `cursor`: skip white space rightwards, then the
/// run of characters of the same class.
pub open spec fn next_boundary(s: Seq<char>, cursor: int) -> int {
    let i = clamp_to(s, cursor);
    if i >= s.len() {
        s.len() as int
    } else {
        let j = skip_space_right(s, i);
        if j >= s.len() {
            s.len() as int
        } else {
            run_end(s, j, word_char(s[j]))
        }
    }
}

/// Character index of the start of the word left of `cursor`.
pub fn prev_word_boundary(s: &str, cursor: usize) -> (r: usize)
    ensures
        r == prev_boundary(s@, cursor as int),
        r <= clamp_to(s@, cursor as int),
        cursor > 0 && s@.len() > 0 ==> r < clamp_to(s@, cursor as int),
{
    if cursor == 0 {
        return 0;
    }
    let chars = chars_of(s);
    let n: usize = if cursor <= chars.len() {
        cursor
    } else {
        chars.len()
    };
    if n == 0 {
        return 0;
    }
    let mut i: usize = n - 1;
    while i > 0 && char_is_whitespace(chars[i])
        invariant
            i < n <= chars@.len(),
            skip_space_left(chars@, n - 1) == skip_space_left(chars@, i as int),
        decreases i,
    {
        i -= 1;
    }
    if i == 0 {
        return 0;
    }
    let cls = is_word_char(chars[i]);
    let ghost j = i as int;
    while i > 0 && !char_is_whitespace(chars[i - 1]) && is_word_char(chars[i - 1]) == cls
        invariant
            0 < j < n <= chars@.len(),
            i <= j,
            j == skip_space_left(chars@, n - 1),
            cls == word_char(chars@[j]),
            run_start(chars@, j, cls) == run_start(chars@, i as int, cls),
        decreases i,
    {
        i -= 1;
    }
    proof {
        assert(run_start(chars@, i as int, cls) == i);
    }
    i
}

/// Character index of the end of the word right of `cursor`.
pub fn next_word_boundary(s: &str, cursor: usize) -> (r: usize)
    ensures
        r == next_boundary(s@, cursor as int),
        clamp_to(s@, cursor as int) <= r <= s@.len(),
{
    let chars = chars_of(s);
    let n = chars.len();
    let mut i: usize = if cursor <= n {
        cursor
    } else {
        n
    };
    if i >= n {
        return n;
    }
    let ghost start = i as int;
    while i < n && char_is_whitespace(chars[i])
        invariant
            n == chars@.len(),
            start <= i <= n,
            skip_space_right(chars@, start) == skip_space_right(chars@, i as int),
        decreases n - i,
    {
        i += 1;
    }
    if i >= n {
        return n;
    }
    let cls = is_word_char(chars[i]);
    let ghost j = i as int;
    while i < n && !char_is_whitespace(chars[i]) && is_word_char(chars[i]) == cls
        invariant
            n == chars@.len(),
            start <= j <= i <= n,
            j < n,
            j == skip_space_right(chars@, start),
            cls == word_char(chars@[j]),
            run_end(chars@, j, cls) == run_end(chars@, i as int, cls),
        decreases n - i,
    {
        i += 1;
    }
    proof {
        assert(run_end(chars@, i as int, cls) == i);
    }
    i
}

/// Pieces joined with the separator `sep` between each pair.
pub open spec fn join_sep(pieces: Seq<Seq<char>>, sep: Seq<char>) -> Seq<char>
    decreases pieces.len(),
{
    if pieces.len() == 0 {
        Seq::empty()
    } else if pieces.len() == 1 {
        pieces[0]
    } else {
        join_sep(pieces.drop_last(), sep) + sep + pieces.last()
    }
}

/// Joins character sequences with `sep` between each pair.
pub fn join_chars(pieces: &Vec<Vec<char>>, sep: &str) -> (r: Vec<char>)
    ensures
        r@ == join_sep(pieces@.map_values(|v: Vec<char>| v@), sep@),
{
    let mut out: Vec<char> = Vec::new();
    let ghost pv = pieces@.map_values(|v: Vec<char>| v@);
    let mut i: usize = 0;
    while i < pieces.len()
        invariant
            i <= pieces@.len(),
            pv == pieces@.map_values(|v: Vec<char>| v@),
            out@ == join_sep(pv.subrange(0, i as int), sep@),
        decreases pieces@.len() - i,
    {
        if i > 0 {
            push_str(&mut out, sep);
        }
        extend_chars(&mut out, &pieces[i]);
        proof {
            let pre = pv.subrange(0, i + 1);
            assert(pre.drop_last() =~= pv.subrange(0, i as int));
            assert(pre.last() == pieces@[i as int]@);
        }
        i += 1;
    }
    proof {
        assert(pv.subrange(0, pieces@.len() as int) =~= pv);
    }
    out
}

/// The text before the first newline, without a carriage return at its end.
pub open spec fn first_line(s: Seq<char>) -> Seq<char> {
    let head = match find_in(s, seq!['\n']) {
        Some(i) => s.subrange(0, i),
        None => s,
    };
    if head.len() > 0 && head.last() == '\r' {
        head.drop_last()
    } else {
        head
    }
}

/// Number of newline characters in `s`.
pub open spec fn newline_count(s: Seq<char>) -> nat
    decreases s.len(),
{
    if s.len() == 0 {
        0
    } else {
        newline_count(s.drop_last()) + if s.last() == '\n' {
            1nat
        } else {
            0nat
        }
    }
}

/// Number of lines of `s`: a final newline ends the last line and does not
/// start another one.
pub open spec fn line_count(s: Seq<char>) -> nat {
    if s.len() == 0 {
        0
    } else if s.last() == '\n' {
        newline_count(s)
    } else {
        newline_count(s) + 1
    }
}

proof fn lemma_newline_count_bound(s: Seq<char>)
    ensures
        newline_count(s) <= s.len(),
    decreases s.len(),
{
    if s.len() > 0 {
        lemma_newline_count_bound(s.drop_last());
    }
}

/// The number of lines of the text.
pub fn count_lines(s: &Vec<char>) -> (r: usize)
    ensures
        r == line_count(s@),
{
    let mut n: usize = 0;
    let mut i: usize = 0;
    while i < s.len()
        invariant
            i <= s@.len(),
            n == newline_count(s@.subrange(0, i as int)),
            n <= i,
        decreases s@.len() - i,
    {
        proof {
            assert(s@.subrange(0, i + 1).drop_last() =~= s@.subrange(0, i as int));
        }
        if s[i] == '\n' {
            n += 1;
        }
        i += 1;
    }
    proof {
        assert(s@.subrange(0, s@.len() as int) =~= s@);
    }
    if s.len() == 0 {
        0
    } else if s[s.len() - 1] == '\n' {
        n
    } else {
        proof {
            lemma_newline_count_bound(s@.drop_last());
        }
        n + 1
    }
}

/// The first line of the text.
pub fn first_line_of(s: &Vec<char>) -> (r: Vec<char>)
    ensures
        r@ == first_line(s@),
{
    let nl: Vec<char> = vec!['\n'];
    proof {
        assert(nl@ =~= seq!['\n']);
        lemma_first_from(s@, nl@, 0);
    }
    let head = match find_chars(s, &nl) {
        Some(i) => slice_chars(s, 0, i),
        None => slice_chars(s, 0, s.len()),
    };
    proof {
        assert(s@.subrange(0, s@.len() as int) =~= s@);
    }
    let hl = head.len();
    if hl > 0 && head[hl - 1] == '\r' {
        slice_chars(&head, 0, hl - 1)
    } else {
        head
    }
}

// ---------------------------------------------------------------------------
// Numbers
// ---------------------------------------------------------------------------

/// The decimal digit for `d < 10`.
pub open spec fn digit_char(d: nat) -> char {
    if d == 0 {
        '0'
    } else if d == 1 {
        '1'
    } else if d == 2 {
        '2'
    } else if d == 3 {
        '3'
    } else if d == 4 {
        '4'
    } else if d == 5 {
        '5'
    } else if d == 6 {
        '6'
    } else if d == 7 {
        '7'
    } else if d == 8 {
        '8'
    } else {
        '9'
    }
}

/// The decimal representation of `n`, without leading zeros.
pub open spec fn decimal(n: nat) -> Seq<char>
    decreases n,
{
    if n < 10 {
        seq![digit_char(n)]
    } else {
        decimal(n / 10).push(digit_char(n % 10))
    }
}

fn digit(d: usize) -> (c: char)
    requires
        d < 10,
    ensures
        c == digit_char(d as nat),
{
    if d == 0 {
        '0'
    } else if d == 1 {
        '1'
    } else if d == 2 {
        '2'
    } else if d == 3 {
        '3'
    } else if d == 4 {
        '4'
    } else if d == 5 {
        '5'
    } else if d == 6 {
        '6'
    } else if d == 7 {
        '7'
    } else if d == 8 {
        '8'
    } else {
        '9'
    }
}

/// Appends the decimal representation of `n`.
pub fn push_decimal(out: &mut Vec<char>, n: usize)
    ensures
        final(out)@ == old(out)@ + decimal(n as nat),
    decreases n,
{
    if n < 10 {
        out.push(digit(n));
        proof {
            assert(decimal(n as nat) =~= seq![digit_char(n as nat)]);
        }
    } else {
        push_decimal(out, n / 10);
        out.push(digit(n % 10));
        proof {
            assert(old(out)@ + decimal(n as nat) =~= old(out)@ + decimal((n / 10) as nat) + seq![
                digit_char((n % 10) as nat),
            ]);
        }
    }
}

/// Appends the decimal representation of a 64-bit `n`.
pub fn push_decimal_u64(out: &mut Vec<char>, n: u64)
    ensures
        final(out)@ == old(out)@ + decimal(n as nat),
    decreases n,
{
    if n < 10 {
        out.push(digit(n as usize));
        proof {
            assert(decimal(n as nat) =~= seq![digit_char(n as nat)]);
        }
    } else {
        push_decimal_u64(out, n / 10);
        out.push(digit((n % 10) as usize));
        proof {
            assert(old(out)@ + decimal(n as nat) =~= old(out)@ + decimal((n / 10) as nat) + seq![
                digit_char((n % 10) as nat),
            ]);
        }
    }
}

/// Appends the characters of a string.
pub fn push_str(out: &mut Vec<char>, s: &str)
    ensures
        final(out)@ == old(out)@ + s@,
{
    let cs = chars_of(s);
    extend_chars(out, &cs);
}

// ---------------------------------------------------------------------------
// Byte offsets
// ---------------------------------------------------------------------------

/// Number of bytes in the UTF-8 encoding of `c`.
pub open spec fn utf8_width(c: char) -> nat {
    let v = c as u32;
    if v < 0x80 {
        1
    } else if v < 0x800 {
        2
    } else if v < 0x10000 {
        3
    } else {
        4
    }
}

/// Bytes taken by the UTF-8 encoding of `s`.
pub open spec fn utf8_size(s: Seq<char>) -> nat
    decreases s.len(),
{
    if s.len() == 0 {
        0
    } else {
        utf8_size(s.drop_last()) + utf8_width(s.last())
    }
}

proof fn lemma_utf8_size_bound(s: Seq<char>)
    ensures
        utf8_size(s) <= 4 * s.len(),
    decreases s.len(),
{
    if s.len() > 0 {
        lemma_utf8_size_bound(s.drop_last());
    }
}

/// Byte offset of character index `n` in `s`; the byte length of `s` when `n`
/// is past its last character.
pub fn char_to_byte_index(s: &str, n: usize) -> (r: usize)
    requires
        4 * s@.len() <= usize::MAX,
    ensures
        r == utf8_size(s@.subrange(0, if n <= s@.len() { n as int } else { s@.len() as int })),
{
    let cs = chars_of(s);
    let end: usize = if n <= cs.len() { n } else { cs.len() };
    let mut i: usize = 0;
    let mut total: usize = 0;
    while i < end
        invariant
            end <= cs@.len(),
            cs@ == s@,
            4 * cs@.len() <= usize::MAX,
            i <= end,
            total == utf8_size(cs@.subrange(0, i as int)),
        decreases end - i,
    {
        let v = cs[i] as u32;
        let w: usize = if v < 0x80 {
            1
        } else if v < 0x800 {
            2
        } else if v < 0x10000 {
            3
        } else {
            4
        };
        proof {
            lemma_utf8_size_bound(cs@.subrange(0, i as int));
            assert(cs@.subrange(0, i + 1).drop_last() =~= cs@.subrange(0, i as int));
        }
        total = total + w;
        i += 1;
    }
    total
}

} // verus!
