use github_activity_mirror::text::{
    count_nonblank_lines, parse_u64, split_all, splitn, str_ends_with, trim_end_str, trim_str,
    u64_to_dec,
};

#[test]
fn dec_rendering_zero() {
    assert_eq!(u64_to_dec(0), "0");
}

#[test]
fn dec_rendering_plain() {
    assert_eq!(u64_to_dec(1234567890), "1234567890");
}

#[test]
fn dec_rendering_max() {
    assert_eq!(u64_to_dec(u64::MAX), "18446744073709551615");
}

#[test]
fn parse_u64_plain() {
    assert_eq!(parse_u64("123"), Some(123));
}

#[test]
fn parse_u64_plus_sign() {
    assert_eq!(parse_u64("+5"), Some(5));
}

#[test]
fn parse_u64_rejects_empty() {
    assert_eq!(parse_u64(""), None);
    assert_eq!(parse_u64("+"), None);
}

#[test]
fn parse_u64_rejects_letters() {
    assert_eq!(parse_u64("abc"), None);
    assert_eq!(parse_u64("12x"), None);
}

#[test]
fn parse_u64_boundary() {
    assert_eq!(parse_u64("18446744073709551615"), Some(u64::MAX));
    assert_eq!(parse_u64("18446744073709551616"), None);
}

#[test]
fn parse_then_render_round_trip() {
    let rendered = u64_to_dec(987654321);
    assert_eq!(parse_u64(&rendered), Some(987654321));
}

#[test]
fn trims_both_edges() {
    assert_eq!(trim_str("  hi there\t\n"), "hi there");
    assert_eq!(trim_str("\r\n"), "");
    assert_eq!(trim_str("solid"), "solid");
}

#[test]
fn trims_end_only() {
    assert_eq!(trim_end_str("  hi  "), "  hi");
}

#[test]
fn suffix_test() {
    assert!(str_ends_with("abcdef", "def"));
    assert!(!str_ends_with("abcdef", "deg"));
    assert!(!str_ends_with("ab", "abc"));
    assert!(str_ends_with("abc", ""));
}

#[test]
fn split_all_keeps_empty_parts() {
    let parts = split_all("a|b||c", '|');
    assert_eq!(parts, vec!["a", "b", "", "c"]);
    assert_eq!(split_all("", '|'), vec![""]);
    assert_eq!(split_all("|", '|'), vec!["", ""]);
}

#[test]
fn splitn_last_part_swallows() {
    let parts = splitn("a|b|c|d", '|', 2);
    assert_eq!(parts, vec!["a", "b|c|d"]);
    let parts = splitn("a|b", '|', 5);
    assert_eq!(parts, vec!["a", "b"]);
    let parts = splitn("abc", '|', 1);
    assert_eq!(parts, vec!["abc"]);
}

#[test]
fn counts_nonblank_lines() {
    assert_eq!(count_nonblank_lines("+ one\n\n  \n+ two\n"), 2);
    assert_eq!(count_nonblank_lines(""), 0);
    assert_eq!(count_nonblank_lines("solo"), 1);
}

