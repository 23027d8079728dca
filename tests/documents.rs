use sgpt_session::document::{
    combine_doc_and_prompt, document_kind, format_pages_and_lines, is_pdf_file, read_documents,
    DocumentKind,
};

#[test]
fn test_is_pdf_file() {
    assert!(is_pdf_file("test.pdf"));
    assert!(is_pdf_file("Test.PDF"));
    assert!(is_pdf_file("document.Pdf"));
    assert!(!is_pdf_file("document.txt"));
    assert!(!is_pdf_file("document"));
    assert!(!is_pdf_file("document.pdf.txt"));
}

#[test]
fn test_format_pages_and_lines_single_page() {
    let raw = "Title\nHello world\n";
    let formatted = format_pages_and_lines(raw);
    let expected_start = "--page 1----\nL1: Title\nL2: Hello world\n";
    assert!(formatted.starts_with(expected_start), "Got: {}", formatted);
}

#[test]
fn test_format_pages_and_lines_multi_page() {
    let raw = "A\nB\n\u{000C}C\nD\n";
    let formatted = format_pages_and_lines(raw);
    let want = "--page 1----\nL1: A\nL2: B\n\n--page 2----\nL1: C\nL2: D\n";
    assert_eq!(formatted, want);
}

#[test]
fn pages_strip_carriage_returns_and_keep_empty_lines() {
    assert_eq!(format_pages_and_lines("a\r\n\nb"), "--page 1----\nL1: a\nL2: \nL3: b\n");
    assert_eq!(format_pages_and_lines(""), "--page 1----\n");
}

#[test]
fn combine_document_with_and_without_question() {
    assert_eq!(combine_doc_and_prompt("DOC", "  "), "Document content:\nDOC");
    assert_eq!(
        combine_doc_and_prompt("DOC", "why?"),
        "Document content:\nDOC\n\nUser question: why?"
    );
}

#[test]
fn documents_are_combined_with_headers() {
    let paths = vec!["a.md".to_string(), "b.txt".to_string()];
    let contents = vec!["one".to_string(), "two".to_string()];
    assert_eq!(
        read_documents(&paths, &contents),
        "=== Document: a.md ===\none\n\n=== Document: b.txt ===\ntwo"
    );
}

#[test]
fn document_kinds_by_extension() {
    assert_eq!(document_kind("MD"), DocumentKind::Text);
    assert_eq!(document_kind(""), DocumentKind::Text);
    assert_eq!(document_kind("Pdf"), DocumentKind::Pdf);
    assert_eq!(document_kind("docx"), DocumentKind::Unsupported);
}
