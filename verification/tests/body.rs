use okr_tracker::body::{bool_field, opt_bool_field, str_list_field, u64_field};
use okr_tracker::handlers::str_field;

#[test]
fn body_fields() {
    let body = r#"{"name":"Ann","isAdmin":true,"version":3,"ids":["a",1,"b",null],"neg":-2}"#;
    assert_eq!(str_field(body, "name"), "Ann");
    assert_eq!(str_field(body, "isAdmin"), "");
    assert!(bool_field(body, "isAdmin"));
    assert!(!bool_field(body, "name"));
    assert_eq!(opt_bool_field(body, "isAdmin"), Some(true));
    assert_eq!(opt_bool_field(body, "missing"), None);
    assert_eq!(u64_field(body, "version"), 3);
    assert_eq!(u64_field(body, "neg"), 0);
    assert_eq!(u64_field(body, "missing"), 0);
    assert_eq!(str_list_field(body, "ids"), vec!["a".to_string(), "b".to_string()]);
    assert_eq!(str_list_field(body, "name"), Vec::<String>::new());
}

#[test]
fn a_body_that_is_not_json_has_no_fields() {
    assert_eq!(str_field("", "name"), "");
    assert!(!bool_field("null", "done"));
    assert_eq!(u64_field("[1]", "version"), 0);
    assert!(str_list_field("{", "ids").is_empty());
}
