use process_killer::text::{
    chars_contain_str, str_eq, str_lex_le, str_starts_with, to_char_vec, to_lowercase,
    u32_decimal,
};

#[test]
fn str_eq_compares_characters() {
    assert!(str_eq("init", "init"));
    assert!(!str_eq("init", "init "));
    assert!(!str_eq("init", "Init"));
    assert!(str_eq("", ""));
}

#[test]
fn str_starts_with_checks_prefixes() {
    assert!(str_starts_with("sshd-session", "sshd"));
    assert!(str_starts_with("sshd", "sshd"));
    assert!(str_starts_with("anything", ""));
    assert!(!str_starts_with("ssh", "sshd"));
    assert!(!str_starts_with("xsshd", "sshd"));
}

#[test]
fn str_lex_le_orders_by_code_point() {
    assert!(str_lex_le("apple", "banana"));
    assert!(!str_lex_le("banana", "apple"));
    assert!(str_lex_le("app", "apple"));
    assert!(str_lex_le("same", "same"));
    // upper-case letters come before lower-case ones, hence the folding
    assert!(str_lex_le("Banana", "apple"));
}

#[test]
fn chars_contain_str_matches_runs() {
    let hay = to_char_vec("process-killer");
    assert!(chars_contain_str(&hay, "cess"));
    assert!(chars_contain_str(&hay, ""));
    assert!(chars_contain_str(&hay, "process-killer"));
    assert!(!chars_contain_str(&hay, "process-killers"));
    assert!(!chars_contain_str(&hay, "xyz"));
    let digits: Vec<char> = vec!['4', '2', '4', '2'];
    assert!(chars_contain_str(&digits, "42"));
    assert!(!chars_contain_str(&digits, "43"));
}

#[test]
fn to_char_vec_lists_characters_in_order() {
    assert_eq!(to_char_vec("abc"), vec!['a', 'b', 'c']);
    assert!(to_char_vec("").is_empty());
}

#[test]
fn u32_decimal_renders_digits() {
    assert_eq!(u32_decimal(0), vec!['0']);
    assert_eq!(u32_decimal(7), vec!['7']);
    assert_eq!(u32_decimal(4242), vec!['4', '2', '4', '2']);
    assert_eq!(
        u32_decimal(u32::MAX),
        "4294967295".chars().collect::<Vec<char>>()
    );
}

#[test]
fn lowercasing_folds_case() {
    assert_eq!(to_lowercase("MyApp"), "myapp");
    assert_eq!(to_lowercase("sshd"), "sshd");
    assert_eq!(to_lowercase(""), "");
}
