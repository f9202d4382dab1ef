use jankenoboe::text::{
    i64_to_string, join_strings, join_strs, parse_comma_list, parse_int_list, str_eq,
    u64_to_string,
};

#[test]
fn test_parse_comma_list_basic() {
    assert_eq!(
        parse_comma_list("a,b,c"),
        vec!["a".to_string(), "b".to_string(), "c".to_string()]
    );
}

#[test]
fn test_parse_comma_list_trims_and_drops_empty() {
    assert_eq!(
        parse_comma_list(" a , ,b,, c "),
        vec!["a".to_string(), "b".to_string(), "c".to_string()]
    );
}

#[test]
fn test_parse_comma_list_empty_input() {
    assert!(parse_comma_list("").is_empty());
    assert!(parse_comma_list(" , ,, ").is_empty());
}

#[test]
fn test_parse_int_list_curve() {
    assert_eq!(
        parse_int_list("[1,1,2,3]").unwrap(),
        vec![1i64, 1, 2, 3]
    );
}

#[test]
fn test_parse_int_list_spaces_and_empty() {
    assert_eq!(parse_int_list("[ 1, 2 , 3 ]").unwrap(), vec![1i64, 2, 3]);
    assert_eq!(parse_int_list("[]").unwrap(), Vec::<i64>::new());
    assert_eq!(parse_int_list(" [7] ").unwrap(), vec![7i64]);
}

#[test]
fn test_parse_int_list_rejects_malformed() {
    assert!(parse_int_list("1,2,3").is_none());
    assert!(parse_int_list("[1,x]").is_none());
    assert!(parse_int_list("[1,2").is_none());
    assert!(parse_int_list("[99999999999999999999999]").is_none());
}

#[test]
fn test_u64_to_string() {
    assert_eq!(u64_to_string(0), "0");
    assert_eq!(u64_to_string(574), "574");
    assert_eq!(u64_to_string(18446744073709551615), "18446744073709551615");
}

#[test]
fn test_i64_to_string() {
    assert_eq!(i64_to_string(0), "0");
    assert_eq!(i64_to_string(42), "42");
    assert_eq!(i64_to_string(-7), "-7");
    assert_eq!(i64_to_string(i64::MIN), "-9223372036854775808");
}

#[test]
fn test_join_strings() {
    let v = vec!["a".to_string(), "b".to_string(), "c".to_string()];
    assert_eq!(join_strings(&v, ", "), "a, b, c");
    assert_eq!(join_strings(&Vec::new(), ", "), "");
}

#[test]
fn test_join_strs() {
    let v = vec!["x", "y"];
    assert_eq!(join_strs(&v, " | "), "x | y");
}

#[test]
fn test_str_eq() {
    assert!(str_eq("abc", "abc"));
    assert!(!str_eq("abc", "abd"));
    assert!(!str_eq("abc", "ab"));
    assert!(str_eq("", ""));
}
