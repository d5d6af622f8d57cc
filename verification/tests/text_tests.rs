use ifop::text::{split_on, str_eq};

#[test]
fn split_keeps_every_token_in_order() {
    let r = split_on("a,b,c", ',');
    assert_eq!(r, vec!["a".to_string(), "b".to_string(), "c".to_string()]);
}

#[test]
fn split_of_a_single_path_is_that_path() {
    let r = split_on("C:\\t\\x", ',');
    assert_eq!(r, vec!["C:\\t\\x".to_string()]);
}

#[test]
fn split_of_the_empty_string_is_one_empty_token() {
    let r = split_on("", ',');
    assert_eq!(r, vec![String::new()]);
}

#[test]
fn split_keeps_empty_tokens_around_separators() {
    assert_eq!(
        split_on("a,", ','),
        vec!["a".to_string(), String::new()]
    );
    assert_eq!(
        split_on(",a", ','),
        vec![String::new(), "a".to_string()]
    );
    assert_eq!(
        split_on("a,,b", ','),
        vec!["a".to_string(), String::new(), "b".to_string()]
    );
}

#[test]
fn split_on_pipe_matches_flag_strings() {
    assert_eq!(
        split_on("ALLOWUNDO|NORECURSION", '|'),
        vec!["ALLOWUNDO".to_string(), "NORECURSION".to_string()]
    );
}

#[test]
fn str_eq_compares_by_characters() {
    assert!(str_eq("abc", "abc"));
    assert!(str_eq("", ""));
    assert!(!str_eq("abc", "abd"));
    assert!(!str_eq("abc", "ab"));
    assert!(!str_eq("abc", "abcd"));
}
