use sqlquiz::text::{concat_strs, join_strings, str_contains, str_eq};

#[test]
fn contains_and_equality() {
    assert!(str_contains("select rank() over", "rank"));
    assert!(str_contains("abc", ""));
    assert!(!str_contains("ab", "abc"));
    assert!(!str_contains("a b", "ab"));
    assert!(str_contains("ünïcode", "ïc"));
    assert!(str_eq("x", "x"));
    assert!(!str_eq("x", "xy"));
}

#[test]
fn joining() {
    let v = vec!["a".to_string(), "bc".to_string(), "".to_string()];
    assert_eq!(join_strings(&v, ","), "a,bc,");
    assert_eq!(join_strings(&vec![], ","), "");
    assert_eq!(concat_strs(&vec!["lag", "lead", "min"]), "lagleadmin");
}
