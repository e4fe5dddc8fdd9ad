use zeptoclaw::cli::agent::classify_command;
use zeptoclaw::cli::agent::ReplKind;
use zeptoclaw::cli::common::contains_text;
use zeptoclaw::cli::common::lowercase_all;
use zeptoclaw::deps::replace_text;
use zeptoclaw::split::split_char_ranges;
use zeptoclaw::split::word_ranges;
use zeptoclaw::text::chars_of;
use zeptoclaw::text::decimal_text;
use zeptoclaw::text::find_char;
use zeptoclaw::text::find_seq;
use zeptoclaw::text::is_whitespace;
use zeptoclaw::text::matches_at;
use zeptoclaw::text::parse_uint_range;
use zeptoclaw::text::str_contains;
use zeptoclaw::text::str_eq;
use zeptoclaw::text::str_starts_with;
use zeptoclaw::text::string_of_chars;
use zeptoclaw::text::string_of_range;
use zeptoclaw::text::text_le_exec;
use zeptoclaw::text::to_ascii_lowercase;
use zeptoclaw::text::trim_range;
use zeptoclaw::text::trimmed;
use zeptoclaw::text::trimmed_end;
use zeptoclaw::text::utf8_len_range;
use zeptoclaw::whatsapp::text_eq_ignore_ascii_case;

#[test]
fn test_chars_and_ranges() {
    let v = chars_of("héllo");
    assert_eq!(v.len(), 5);
    assert_eq!(string_of_range(&v, 1, 4), "éll");
    assert_eq!(string_of_chars(&v), "héllo");
    assert_eq!(utf8_len_range(&v, 0, 5), 6);
}

#[test]
fn test_trimming() {
    assert_eq!(trimmed("  a b \n"), "a b");
    assert_eq!(trimmed_end("  a b \n"), "  a b");
    let v = chars_of("  x  ");
    assert_eq!(trim_range(&v, 0, 5), (2, 3));
    assert!(is_whitespace('\t'));
    assert!(!is_whitespace('x'));
}

#[test]
fn test_searching() {
    let v = chars_of("a=b=c");
    assert_eq!(find_char(&v, 0, 5, '='), Some(1));
    assert_eq!(find_char(&v, 2, 5, '='), Some(3));
    assert_eq!(find_char(&v, 4, 5, '='), None);
    let p = chars_of("b=c");
    assert_eq!(find_seq(&v, &p), Some(2));
    assert!(matches_at(&v, 2, &p));
    assert!(!matches_at(&v, 1, &p));
    assert!(str_contains("hello world", "o w"));
    assert!(!str_contains("hello", "world"));
    assert!(str_starts_with("hello", "he"));
    assert!(!str_starts_with("he", "hello"));
    assert!(str_eq("abc", "abc"));
    assert!(!str_eq("abc", "abd"));
}

#[test]
fn test_numbers() {
    let v = chars_of("x1234y");
    assert_eq!(parse_uint_range(&v, 1, 5, 10_000), Some(1234));
    assert_eq!(parse_uint_range(&v, 1, 5, 1000), None);
    assert_eq!(parse_uint_range(&v, 0, 5, 10_000), None);
    assert_eq!(decimal_text(0), "0");
    assert_eq!(decimal_text(18_446_744_073_709_551_615), "18446744073709551615");
}

#[test]
fn test_case_mapping() {
    assert_eq!(to_ascii_lowercase("ÄBC"), "Äbc");
    assert!(text_eq_ignore_ascii_case("Content-Length", "content-length"));
    assert!(!text_eq_ignore_ascii_case("Ä", "ä"));
    assert_eq!(lowercase_all(&vec!["Shell".to_string(), "WEB".to_string()]), vec!["shell", "web"]);
    assert!(contains_text(&vec!["a".to_string(), "b".to_string()], "b"));
    assert!(!contains_text(&vec!["a".to_string()], "A"));
}

#[test]
fn test_text_order() {
    assert!(text_le_exec("abc", "abd"));
    assert!(text_le_exec("ab", "abc"));
    assert!(text_le_exec("", "a"));
    assert!(text_le_exec("same", "same"));
    assert!(!text_le_exec("b", "abc"));
    assert!(!text_le_exec("abc", "ab"));
    assert!(text_le_exec("Z", "a"));
    assert_eq!(text_le_exec("é", "z"), "é" <= "z");
}

#[test]
fn test_splitting() {
    let v = chars_of("a,,b");
    assert_eq!(split_char_ranges(&v, 0, 4, ','), vec![(0, 1), (2, 2), (3, 4)]);
    let w = chars_of("  one two\tthree ");
    assert_eq!(word_ranges(&w, 0, w.len()), vec![(2, 5), (6, 9), (10, 15)]);
}

#[test]
fn test_replace_text() {
    assert_eq!(replace_text("{os}-{os}", "{os}", "linux"), "linux-linux");
    assert_eq!(replace_text("abc", "x", "y"), "abc");
}

#[test]
fn test_classify_command() {
    assert!(matches!(classify_command("quit"), ReplKind::Quit));
    assert!(matches!(classify_command("exit"), ReplKind::Quit));
    assert!(matches!(classify_command("model small"), ReplKind::Model));
    assert!(matches!(classify_command("trust on"), ReplKind::TrustOn));
    assert!(matches!(classify_command("bogus"), ReplKind::Unknown));
}
