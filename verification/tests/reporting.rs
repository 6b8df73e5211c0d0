use macro_lexer::cursor::Cursor;
use macro_lexer::errors::{split_lines, ErrorStruct, Errorable, SyntaxError};
use macro_lexer::preprocessor::Preprocessor;
use macro_lexer::scanner::Scanner;
use macro_lexer::text::{codepoints, text_of};

fn context(source: &str) -> ErrorStruct {
    ErrorStruct { source: source.to_string(), max: source.chars().count() }
}

fn lines(source: &str) -> Vec<String> {
    let chars: Vec<char> = source.chars().collect();
    split_lines(&chars).into_iter().map(|line| line.into_iter().collect()).collect()
}

#[test]
fn codepoints_are_the_chars_of_the_text() {
    assert_eq!(codepoints(""), Vec::<char>::new());
    assert_eq!(codepoints("aé→\n"), vec!['a', 'é', '→', '\n']);
}

#[test]
fn text_of_cuts_by_codepoint() {
    let chars = vec!['a', 'é', '→', 'b'];
    assert_eq!(text_of(&chars, 1, 3), "é→");
    assert_eq!(text_of(&chars, 2, 2), "");
    assert_eq!(text_of(&chars, 0, 4), "aé→b");
}

#[test]
fn cursor_counts_newlines_as_it_passes_them() {
    let mut cursor = Cursor::new(vec!['a', '\n', '\n', 'b'], 0);
    assert_eq!(cursor.current(), Some('a'));
    assert_eq!(cursor.peek(), '\n');
    assert_eq!(cursor.peek_next(), '\n');
    assert_eq!(cursor.look(3), 'b');
    assert_eq!(cursor.look(4), '\0');
    assert_eq!(cursor.look(usize::MAX), '\0');
    assert_eq!(cursor.advance(), Some('a'));
    assert_eq!((cursor.offset, cursor.line), (1, 0));
    assert_eq!(cursor.advance(), Some('\n'));
    assert_eq!((cursor.offset, cursor.line), (2, 1));
    assert!(!cursor.matches('b'));
    assert!(cursor.matches('\n'));
    assert_eq!((cursor.offset, cursor.line), (3, 2));
    assert_eq!(cursor.peek(), '\0');
    assert_eq!(cursor.advance(), Some('b'));
    assert!(cursor.is_at_end());
    assert_eq!(cursor.current(), None);
    assert_eq!(cursor.advance(), None);
    assert_eq!((cursor.offset, cursor.line), (4, 2));
}

#[test]
fn lines_end_at_newlines() {
    assert_eq!(lines(""), Vec::<String>::new());
    assert_eq!(lines("a"), vec!["a"]);
    assert_eq!(lines("a\n"), vec!["a"]);
    assert_eq!(lines("a\nb"), vec!["a", "b"]);
    assert_eq!(lines("a\n\nb\n"), vec!["a", "", "b"]);
    assert_eq!(lines("\n"), vec![""]);
    assert_eq!(lines("a\r\nb\r\n"), vec!["a", "b"]);
    assert_eq!(lines("a\rb\nc\r"), vec!["a\rb", "c\r"]);
}

#[test]
fn lines_agree_with_the_standard_library() {
    for source in ["", "one", "one\n", "one\r\ntwo", "\n\n", "a\n\r\nb", "x\r"] {
        let expected: Vec<String> = source.lines().map(|line| line.to_string()).collect();
        assert_eq!(lines(source), expected);
    }
}

#[test]
fn window_in_the_middle_has_both_ellipses() {
    let shown = context("l1\nl2\nl3\nl4\nl5\nl6\nl7").get_surrounding_lines(3);
    assert_eq!(
        shown,
        "   | ...\n  2: l2\n  3: l3\n\x1b[1;33m  4: l4\x1b[0m\n  5: l5\n  6: l6\n   | ..."
    );
}

#[test]
fn window_at_the_start_has_no_leading_ellipsis() {
    let shown = context("l1\nl2\nl3\nl4\nl5\nl6\nl7").get_surrounding_lines(0);
    assert_eq!(shown, "\x1b[1;33m  1: l1\x1b[0m\n  2: l2\n  3: l3\n   | ...");
    let shown = context("l1\nl2\nl3\nl4\nl5\nl6\nl7").get_surrounding_lines(2);
    assert_eq!(shown, "  1: l1\n  2: l2\n\x1b[1;33m  3: l3\x1b[0m\n  4: l4\n  5: l5\n   | ...");
}

#[test]
fn window_at_the_end_has_no_trailing_ellipsis() {
    let shown = context("l1\nl2\nl3\nl4\nl5\nl6\nl7").get_surrounding_lines(6);
    assert_eq!(shown, "   | ...\n  5: l5\n  6: l6\n\x1b[1;33m  7: l7\x1b[0m");
    let shown = context("l1\nl2\nl3\nl4\nl5\nl6\nl7").get_surrounding_lines(4);
    assert_eq!(shown, "   | ...\n  3: l3\n  4: l4\n\x1b[1;33m  5: l5\x1b[0m\n  6: l6\n  7: l7");
}

#[test]
fn window_of_a_short_text_shows_all_of_it() {
    assert_eq!(context("only").get_surrounding_lines(0), "\x1b[1;33m  1: only\x1b[0m");
    assert_eq!(context("a\nb").get_surrounding_lines(1), "  1: a\n\x1b[1;33m  2: b\x1b[0m");
}

#[test]
fn window_of_an_empty_text_is_empty() {
    assert_eq!(context("").get_surrounding_lines(0), "");
    assert_eq!(context("").get_surrounding_lines(5), "");
}

#[test]
fn window_behind_the_text_shows_what_is_near() {
    assert_eq!(context("a\nb\nc\nd").get_surrounding_lines(5), "   | ...\n  4: d");
    assert_eq!(context("a\nb\nc\nd").get_surrounding_lines(9), "   | ...");
    assert_eq!(context("a\nb\nc\nd").get_surrounding_lines(usize::MAX), "   | ...");
}

#[test]
fn window_shows_no_more_lines_than_max() {
    let limited = ErrorStruct { source: "a\nb\nc\nd\ne".to_string(), max: 2 };
    assert_eq!(limited.get_surrounding_lines(0), "\x1b[1;33m  1: a\x1b[0m\n  2: b");
    let none = ErrorStruct { source: "a\nb".to_string(), max: 0 };
    assert_eq!(none.get_surrounding_lines(0), "");
}

#[test]
fn line_numbers_are_right_aligned_to_three_columns() {
    let source = "x\n".repeat(1200);
    let at = |index: usize| ErrorStruct { source: source.clone(), max: 1200 }.get_surrounding_lines(index);
    assert_eq!(
        at(9),
        "   | ...\n  8: x\n  9: x\n\x1b[1;33m 10: x\x1b[0m\n 11: x\n 12: x\n   | ..."
    );
    assert_eq!(
        at(99),
        "   | ...\n 98: x\n 99: x\n\x1b[1;33m100: x\x1b[0m\n101: x\n102: x\n   | ..."
    );
    assert_eq!(
        at(999),
        "   | ...\n998: x\n999: x\n\x1b[1;33m1000: x\x1b[0m\n1001: x\n1002: x\n   | ..."
    );
}

#[test]
fn report_frames_the_window_and_the_message() {
    let text = context("a\nb\nc").err_string("went wrong".to_string(), 1);
    assert_eq!(
        text,
        "=====\n  1: a\n\x1b[1;33m  2: b\x1b[0m\n  3: c\n=====\n\x1b[1;31merror\x1b[0m: went wrong\n====="
    );
}

#[test]
fn throw_carries_the_report() {
    let errors = context("a\nb\nc");
    let fatal = errors.throw("went wrong".to_string(), 1);
    assert_eq!(fatal.report, errors.err_string("went wrong".to_string(), 1));
}

#[test]
fn throw_if_fails_only_where_the_predicate_holds() {
    let errors = context("a\nb\nc");
    assert!(errors.throw_if(|| false, "no".to_string(), 0).is_ok());
    let failed = errors.throw_if(|| true, "yes".to_string(), 2);
    assert_eq!(failed.unwrap_err().report, errors.err_string("yes".to_string(), 2));
}

#[test]
fn throw_if_asks_the_predicate_once_and_only_when_called() {
    let errors = context("a");
    let mut asked = 0;
    let predicate = || {
        asked += 1;
        asked > 1
    };
    assert!(errors.throw_if(predicate, "m".to_string(), 0).is_ok());
    assert_eq!(asked, 1);
}

#[test]
fn messages_name_lines_from_one() {
    assert_eq!(
        SyntaxError::UnterminatedBlock { line: 0, offset: 12 }.message(),
        "Mismatched brackets for block starting at line 1, character 12 to end of file."
    );
    assert_eq!(
        SyntaxError::UnterminatedString { line: 41, offset: 7 }.message(),
        "Unterminated string from line 42, character 7, to end of file."
    );
    assert_eq!(
        SyntaxError::InvalidDigitForRadix { digit: '9', radix: 8, line: 3, offset: 5 }.message(),
        "Unexpected digit '9' in number literal with radix 8."
    );
    assert_eq!(
        SyntaxError::UnexpectedCharacter { character: '#', line: 9, start: 100, end: 101 }.message(),
        "Unexpected character '#' at line 10, characters 100 to 101."
    );
    assert_eq!(
        SyntaxError::UnterminatedString { line: usize::MAX, offset: 0 }.message(),
        format!(
            "Unterminated string from line {}, character 0, to end of file.",
            usize::MAX as u128 + 1
        )
    );
}

#[test]
fn errors_know_their_line() {
    assert_eq!(SyntaxError::UnterminatedBlock { line: 4, offset: 0 }.line(), 4);
    assert_eq!(SyntaxError::UnterminatedString { line: 5, offset: 0 }.line(), 5);
    assert_eq!(
        SyntaxError::InvalidDigitForRadix { digit: 'a', radix: 2, line: 6, offset: 0 }.line(),
        6
    );
    assert_eq!(
        SyntaxError::UnexpectedCharacter { character: 'a', line: 7, start: 0, end: 1 }.line(),
        7
    );
}

#[test]
fn extractor_hands_out_its_error_context() {
    let preprocessor = Preprocessor::new("é\n\\%{x");
    let errors = preprocessor.to_error();
    assert_eq!(errors.source, "é\n\\%{x");
    assert_eq!(errors.max, 6);
}

#[test]
fn scanner_hands_out_its_error_context() {
    let scanner = Scanner::new("\\%{é}");
    let errors = scanner.to_error();
    assert_eq!(errors.source, "\\%{é}");
    assert_eq!(errors.max, 5);
}

#[test]
fn unterminated_block_is_reported_with_its_lines() {
    let mut preprocessor = Preprocessor::new("a\nb\n\\%{c\nd");
    let out = preprocessor.preprocess();
    let error = out.error.unwrap();
    let fatal = preprocessor.to_error().throw(error.message(), error.line());
    assert_eq!(
        fatal.report,
        "=====\n  1: a\n  2: b\n\x1b[1;33m  3: \\%{c\x1b[0m\n  4: d\n=====\n\x1b[1;31merror\x1b[0m: Mismatched brackets for block starting at line 3, character 4 to end of file.\n====="
    );
}
