use macos_watcher::text::{
    contains_ci_str, fold_char_exec, i64_to_string, parse_u64_or_zero, split_tokens, str_eq,
    tenths_to_string, u64_to_string,
};

#[test]
fn fold_char_maps_upper_to_lower() {
    assert_eq!(fold_char_exec('A'), 'a');
    assert_eq!(fold_char_exec('Z'), 'z');
    assert_eq!(fold_char_exec('a'), 'a');
    assert_eq!(fold_char_exec('7'), '7');
    assert_eq!(fold_char_exec('.'), '.');
}

#[test]
fn contains_ci_finds_substring_any_case() {
    assert!(contains_ci_str("Example-Mac-App.17759", "mac-app"));
    assert!(contains_ci_str("example-mac-app.17759", "17759"));
    assert!(contains_ci_str("abc", ""));
    assert!(!contains_ci_str("example", "examples"));
    assert!(!contains_ci_str("", "x"));
    assert!(contains_ci_str("MYAPP.42", "myapp.42"));
}

#[test]
fn split_tokens_on_whitespace() {
    let toks = split_tokens("myapp.42   1500 500");
    assert_eq!(toks.len(), 3);
    assert_eq!(toks[0], "myapp.42");
    assert_eq!(toks[1], "1500");
    assert_eq!(toks[2], "500");
}

#[test]
fn split_tokens_handles_edges() {
    let toks = split_tokens("  a\tb  ");
    assert_eq!(toks, vec!["a".to_string(), "b".to_string()]);
    let empty = split_tokens("   ");
    assert_eq!(empty.len(), 0);
    let one = split_tokens("only");
    assert_eq!(one, vec!["only".to_string()]);
}

#[test]
fn parse_u64_reads_numerals() {
    assert_eq!(parse_u64_or_zero("0"), 0);
    assert_eq!(parse_u64_or_zero("1500"), 1500);
    assert_eq!(parse_u64_or_zero("18446744073709551615"), u64::MAX);
}

#[test]
fn parse_u64_malformed_reads_zero() {
    assert_eq!(parse_u64_or_zero(""), 0);
    assert_eq!(parse_u64_or_zero("12x"), 0);
    assert_eq!(parse_u64_or_zero("-5"), 0);
    assert_eq!(parse_u64_or_zero("18446744073709551616"), 0);
    assert_eq!(parse_u64_or_zero("1.5"), 0);
}

#[test]
fn numbers_render_in_decimal() {
    assert_eq!(u64_to_string(0), "0");
    assert_eq!(u64_to_string(42), "42");
    assert_eq!(u64_to_string(u64::MAX), "18446744073709551615");
    assert_eq!(i64_to_string(-17), "-17");
    assert_eq!(i64_to_string(0), "0");
    assert_eq!(i64_to_string(i64::MIN), "-9223372036854775808");
}

#[test]
fn tenths_render_with_one_decimal() {
    assert_eq!(tenths_to_string(1000), "100.0");
    assert_eq!(tenths_to_string(2001), "200.1");
    assert_eq!(tenths_to_string(-5), "-0.5");
    assert_eq!(tenths_to_string(0), "0.0");
}

#[test]
fn str_eq_compares_by_characters() {
    assert!(str_eq("AXButton", "AXButton"));
    assert!(!str_eq("AXButton", "AXbutton"));
    assert!(!str_eq("AXButton", "AXButtons"));
    assert!(str_eq("", ""));
}
