//! Documents given along with a prompt: combining them with the prompt, and
//! laying out text extracted from a PDF by page and line.
use vstd::prelude::*;
use crate::text::{
    chars_of, string_of, extend_chars, push_str, push_decimal, decimal, is_blank, is_blank_str,
    split_chars, split_on, lower_of, lowercase, has_suffix, ends_with_chars, slice_chars, owned,
};

verus! {

/// How a document is read, by the extension of its file name.
#[derive(Debug, Clone, Copy, PartialEq, Eq, Structural)]
pub enum DocumentKind {
    /// Read as UTF-8 text: md, txt, rst, log, or no extension.
    Text,
    /// Text extracted from a PDF.
    Pdf,
    /// Not supported.
    Unsupported,
}

/// The kind of document for a lower-cased extension.
pub open spec fn kind_of_extension(ext: Seq<char>) -> DocumentKind {
    if ext == "md"@ || ext == "txt"@ || ext == "rst"@ || ext == "log"@ || ext.len() == 0 {
        DocumentKind::Text
    } else if ext == "pdf"@ {
        DocumentKind::Pdf
    } else {
        DocumentKind::Unsupported
    }
}

/// How a document with this file extension (any case; empty when the name
/// has none) is read.
pub fn document_kind(extension: &str) -> (r: DocumentKind)
    ensures
        r == kind_of_extension(lower_of(extension@)),
{
    let e = lowercase(extension);
    if e == owned("md") || e == owned("txt") || e == owned("rst") || e == owned("log")
        || e.as_str().unicode_len() == 0 {
        DocumentKind::Text
    } else if e == owned("pdf") {
        DocumentKind::Pdf
    } else {
        DocumentKind::Unsupported
    }
}

/// Whether a file name ends in ".pdf", in any case.
pub fn is_pdf_file(file_path: &str) -> (r: bool)
    ensures
        r == has_suffix(lower_of(file_path@), ".pdf"@),
{
    let lower = lowercase(file_path);
    let l = chars_of(lower.as_str());
    let ext = chars_of(".pdf");
    ends_with_chars(&l, &ext)
}

/// The document text followed by the question, or the document alone when
/// the question is blank.
pub open spec fn doc_and_prompt(doc: Seq<char>, prompt: Seq<char>) -> Seq<char> {
    if is_blank(prompt) {
        "Document content:\n"@ + doc
    } else {
        "Document content:\n"@ + doc + "\n\nUser question: "@ + prompt
    }
}

/// Puts document text and the user's question into one prompt.
pub fn combine_doc_and_prompt(doc_content: &str, user_prompt: &str) -> (r: String)
    ensures
        r@ == doc_and_prompt(doc_content@, user_prompt@),
{
    let mut out: Vec<char> = Vec::new();
    push_str(&mut out, "Document content:\n");
    push_str(&mut out, doc_content);
    if !is_blank_str(user_prompt) {
        push_str(&mut out, "\n\nUser question: ");
        push_str(&mut out, user_prompt);
    }
    string_of(&out)
}

/// Documents in order, each under a header that names its file, separated
/// by blank lines.
pub open spec fn documents_text(paths: Seq<Seq<char>>, contents: Seq<Seq<char>>) -> Seq<char>
    decreases paths.len(),
{
    if paths.len() == 0 {
        Seq::empty()
    } else {
        let k = paths.len() - 1;
        let before = documents_text(paths.drop_last(), contents.subrange(0, k));
        (if k > 0 {
            before + "\n\n"@
        } else {
            before
        }) + "=== Document: "@ + paths[k] + " ===\n"@ + contents[k]
    }
}

/// Combines the documents read from `file_paths` (their texts in
/// `contents`, in the same order) into one text.
pub fn read_documents(file_paths: &Vec<String>, contents: &Vec<String>) -> (r: String)
    requires
        file_paths@.len() == contents@.len(),
    ensures
        r@ == documents_text(
            file_paths@.map_values(|s: String| s@),
            contents@.map_values(|s: String| s@),
        ),
{
    let ghost ps = file_paths@.map_values(|s: String| s@);
    let ghost cs = contents@.map_values(|s: String| s@);
    let mut out: Vec<char> = Vec::new();
    let mut i: usize = 0;
    while i < file_paths.len()
        invariant
            file_paths@.len() == contents@.len(),
            i <= file_paths@.len(),
            ps == file_paths@.map_values(|s: String| s@),
            cs == contents@.map_values(|s: String| s@),
            out@ == documents_text(ps.subrange(0, i as int), cs.subrange(0, i as int)),
        decreases file_paths@.len() - i,
    {
        if i > 0 {
            push_str(&mut out, "\n\n");
        }
        push_str(&mut out, "=== Document: ");
        push_str(&mut out, file_paths[i].as_str());
        push_str(&mut out, " ===\n");
        push_str(&mut out, contents[i].as_str());
        proof {
            let p = ps.subrange(0, i + 1);
            let c = cs.subrange(0, i + 1);
            assert(p.drop_last() =~= ps.subrange(0, i as int));
            assert(c.subrange(0, i as int) =~= cs.subrange(0, i as int));
        }
        i += 1;
    }
    proof {
        assert(ps.subrange(0, ps.len() as int) =~= ps);
        assert(cs.subrange(0, cs.len() as int) =~= cs);
    }
    string_of(&out)
}

/// `l` without the carriage returns at its end.
pub open spec fn strip_crs(l: Seq<char>) -> Seq<char>
    decreases l.len(),
{
    if l.len() > 0 && l.last() == '\r' {
        strip_crs(l.drop_last())
    } else {
        l
    }
}

/// The lines of a page: a final newline ends the last line, and each line
/// loses the carriage returns at its end.
pub open spec fn page_lines(p: Seq<char>) -> Seq<Seq<char>> {
    let pieces = split_on(p, '\n');
    let ls = if p.len() == 0 {
        Seq::empty()
    } else if p.last() == '\n' {
        pieces.drop_last()
    } else {
        pieces
    };
    ls.map_values(|l: Seq<char>| strip_crs(l))
}

/// Lines numbered from 1: "L1: ...", each ending in a newline.
pub open spec fn numbered_lines(ls: Seq<Seq<char>>) -> Seq<char>
    decreases ls.len(),
{
    if ls.len() == 0 {
        Seq::empty()
    } else {
        numbered_lines(ls.drop_last()) + "L"@ + decimal(ls.len()) + ": "@ + ls.last() + "\n"@
    }
}

/// Pages numbered from 1, each under a "--page N----" header, separated by
/// an empty line.
pub open spec fn pages_text(pages: Seq<Seq<char>>) -> Seq<char>
    decreases pages.len(),
{
    if pages.len() == 0 {
        Seq::empty()
    } else {
        let before = pages_text(pages.drop_last());
        (if pages.len() > 1 {
            before + "\n"@
        } else {
            before
        }) + "--page "@ + decimal(pages.len()) + "----\n"@ + numbered_lines(
            page_lines(pages.last()),
        )
    }
}

fn strip_crs_chars(l: &Vec<char>) -> (r: Vec<char>)
    ensures
        r@ == strip_crs(l@),
{
    let mut n: usize = l.len();
    proof {
        assert(l@.subrange(0, l@.len() as int) =~= l@);
    }
    while n > 0 && l[n - 1] == '\r'
        invariant
            n <= l@.len(),
            strip_crs(l@) == strip_crs(l@.subrange(0, n as int)),
        decreases n,
    {
        proof {
            assert(l@.subrange(0, n as int).drop_last() =~= l@.subrange(0, n - 1));
        }
        n -= 1;
    }
    proof {
        assert(l@.subrange(0, l@.len() as int) =~= l@);
    }
    slice_chars(l, 0, n)
}

fn page_block(out: &mut Vec<char>, page: &Vec<char>, number: usize)
    ensures
        final(out)@ == old(out)@ + "--page "@ + decimal(number as nat) + "----\n"@ + numbered_lines(
            page_lines(page@),
        ),
{
    push_str(out, "--page ");
    push_decimal(out, number);
    push_str(out, "----\n");
    let ghost start = out@;
    let pieces = split_chars(page, '\n');
    let ghost pv = pieces@.map_values(|v: Vec<char>| v@);
    let count: usize = if page.len() == 0 {
        0
    } else if page[page.len() - 1] == '\n' {
        pieces.len() - 1
    } else {
        pieces.len()
    };
    let ghost ls = page_lines(page@);
    proof {
        if page@.len() > 0 {
            assert(pv.len() >= 1);
        }
        assert(ls.len() == count);
    }
    let mut i: usize = 0;
    while i < count
        invariant
            count <= pieces@.len(),
            pv == pieces@.map_values(|v: Vec<char>| v@),
            pv == split_on(page@, '\n'),
            ls == page_lines(page@),
            ls.len() == count,
            i <= count,
            out@ == start + numbered_lines(ls.subrange(0, i as int)),
        decreases count - i,
    {
        let line = strip_crs_chars(&pieces[i]);
        push_str(out, "L");
        push_decimal(out, i + 1);
        push_str(out, ": ");
        extend_chars(out, &line);
        push_str(out, "\n");
        proof {
            assert(line@ == ls[i as int]);
            assert(ls.subrange(0, i + 1).drop_last() =~= ls.subrange(0, i as int));
        }
        i += 1;
    }
    proof {
        assert(ls.subrange(0, ls.len() as int) =~= ls);
    }
}

/// Lays out text extracted from a PDF by page and line: pages are separated
/// by form feeds (one page when there is none).
pub fn format_pages_and_lines(raw: &str) -> (r: String)
    ensures
        r@ == pages_text(split_on(raw@, '\u{000C}')),
{
    let cs = chars_of(raw);
    let pages = split_chars(&cs, '\u{000C}');
    let ghost pv = pages@.map_values(|v: Vec<char>| v@);
    let mut out: Vec<char> = Vec::new();
    let mut i: usize = 0;
    while i < pages.len()
        invariant
            i <= pages@.len(),
            pv == pages@.map_values(|v: Vec<char>| v@),
            out@ == pages_text(pv.subrange(0, i as int)),
        decreases pages@.len() - i,
    {
        if i > 0 {
            push_str(&mut out, "\n");
        }
        page_block(&mut out, &pages[i], i + 1);
        proof {
            let p = pv.subrange(0, i + 1);
            assert(p.drop_last() =~= pv.subrange(0, i as int));
            assert(p.last() == pages@[i as int]@);
        }
        i += 1;
    }
    proof {
        assert(pv.subrange(0, pv.len() as int) =~= pv);
    }
    string_of(&out)
}

} // verus!
