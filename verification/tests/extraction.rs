use macro_lexer::errors::SyntaxError;
use macro_lexer::preprocessor::Preprocessor;

fn texts(document: &str) -> Vec<String> {
    let mut preprocessor = Preprocessor::new(document);
    let out = preprocessor.preprocess();
    assert_eq!(out.error, None);
    out.blocks.into_iter().map(|block| block.text).collect()
}

#[test]
fn document_without_marker_has_no_blocks() {
    assert!(texts("").is_empty());
    assert!(texts("plain {text} with \\ and % only").is_empty());
}

#[test]
fn single_block_is_extracted_with_its_delimiters() {
    assert_eq!(texts("before \\%{let x = 1;} after"), vec!["\\%{let x = 1;}".to_string()]);
}

#[test]
fn blocks_come_in_document_order() {
    let found = texts("a \\%{one} b \\%{two}\n\\%{three}");
    assert_eq!(
        found,
        vec!["\\%{one}".to_string(), "\\%{two}".to_string(), "\\%{three}".to_string()]
    );
}

#[test]
fn every_block_starts_with_marker_and_ends_with_brace() {
    let found = texts("x\\%{a{b}c}y\\%{}z\\%{{}}");
    assert_eq!(found.len(), 3);
    for text in &found {
        assert!(text.starts_with("\\%{"));
        assert!(text.ends_with('}'));
    }
    assert_eq!(found[0], "\\%{a{b}c}");
    assert_eq!(found[1], "\\%{}");
    assert_eq!(found[2], "\\%{{}}");
}

#[test]
fn nested_braces_form_one_block() {
    assert_eq!(texts("\\%{{{{}}}}"), vec!["\\%{{{{}}}}".to_string()]);
}

#[test]
fn deeply_nested_braces_form_one_block() {
    for depth in 1..40 {
        let document = format!("\\%{{{}{}}}", "{".repeat(depth), "}".repeat(depth));
        assert_eq!(texts(&document), vec![document.clone()]);
    }
}

#[test]
fn block_ends_at_the_first_balancing_brace() {
    assert_eq!(texts("\\%{a}b}"), vec!["\\%{a}".to_string()]);
}

#[test]
fn braces_in_strings_count_like_any_other() {
    assert_eq!(texts("\\%{\"}\" x}"), vec!["\\%{\"}".to_string()]);
}

#[test]
fn escaped_percent_without_brace_is_skipped() {
    assert!(texts("50\\% of {them}").is_empty());
    assert_eq!(texts("\\%\\%{x}"), vec!["\\%{x}".to_string()]);
    assert_eq!(texts("\\\\%{x}"), vec!["\\%{x}".to_string()]);
}

#[test]
fn marker_at_end_of_document_is_no_block() {
    assert!(texts("abc\\%").is_empty());
    assert!(texts("abc\\").is_empty());
}

#[test]
fn unterminated_marker_is_an_error() {
    let mut preprocessor = Preprocessor::new("\\%{abc");
    let out = preprocessor.preprocess();
    assert_eq!(out.error, Some(SyntaxError::UnterminatedBlock { line: 0, offset: 0 }));
    assert!(out.blocks.is_empty());
}

#[test]
fn unterminated_marker_names_its_start_line() {
    let mut preprocessor = Preprocessor::new("one\ntwo\n  \\%{abc {\n}\n");
    let out = preprocessor.preprocess();
    assert_eq!(out.error, Some(SyntaxError::UnterminatedBlock { line: 2, offset: 10 }));
}

#[test]
fn blocks_before_an_unterminated_marker_are_kept() {
    let mut preprocessor = Preprocessor::new("\\%{a}\n\\%{b");
    let out = preprocessor.preprocess();
    assert_eq!(out.blocks.len(), 1);
    assert_eq!(out.blocks[0].text, "\\%{a}");
    assert_eq!(out.error, Some(SyntaxError::UnterminatedBlock { line: 1, offset: 6 }));
}

#[test]
fn block_carries_the_line_of_its_marker() {
    let mut preprocessor = Preprocessor::new("\\%{a\nb}\n\ntext \\%{c}");
    let out = preprocessor.preprocess();
    assert_eq!(out.error, None);
    assert_eq!(out.blocks.len(), 2);
    assert_eq!(out.blocks[0].line, 0);
    assert_eq!(out.blocks[0].text, "\\%{a\nb}");
    assert_eq!(out.blocks[1].line, 3);
    assert_eq!(out.blocks[1].text, "\\%{c}");
}

#[test]
fn blocks_are_cut_by_codepoint() {
    let found = texts("héllo → \\%{let ü = \"ß\";} ✓");
    assert_eq!(found, vec!["\\%{let ü = \"ß\";}".to_string()]);
}

#[test]
fn extraction_leaves_the_cursor_at_the_end() {
    let mut preprocessor = Preprocessor::new("ab\\%{c}d");
    let first = preprocessor.preprocess();
    assert_eq!(first.blocks.len(), 1);
    assert!(preprocessor.is_at_end());
    assert_eq!(preprocessor.current(), None);
    let second = preprocessor.preprocess();
    assert!(second.blocks.is_empty());
    assert_eq!(second.error, None);
}

#[test]
fn preprocessor_steps_by_codepoint() {
    let mut preprocessor = Preprocessor::new("é\nz");
    assert_eq!(preprocessor.current(), Some('é'));
    assert_eq!(preprocessor.peek(), Some('\n'));
    assert!(preprocessor.matches('\n'));
    assert!(!preprocessor.matches('z'));
    assert_eq!(preprocessor.advance(), Some('é'));
    assert_eq!(preprocessor.cursor.line, 0);
    assert_eq!(preprocessor.advance(), Some('\n'));
    assert_eq!(preprocessor.cursor.line, 1);
    assert_eq!(preprocessor.peek(), None);
    assert_eq!(preprocessor.advance(), Some('z'));
    assert_eq!(preprocessor.advance(), None);
    assert!(preprocessor.is_at_end());
}
