use concoct::args::arg_value;

#[test]
fn test_arg_value() {
    let args = &["--bar=bar", "--foobar", "123", "--foo"];

    assert_eq!(arg_value(&[] as &[&str], "--foobar", |_| true), None);
    assert_eq!(arg_value(args, "--bar", |_| false), None);
    assert_eq!(arg_value(args, "--bar", |_| true), Some("bar"));
    assert_eq!(arg_value(args, "--bar", |p| p == "bar"), Some("bar"));
    assert_eq!(arg_value(args, "--bar", |p| p == "foo"), None);
    assert_eq!(arg_value(args, "--foobar", |p| p == "foo"), None);
    assert_eq!(arg_value(args, "--foobar", |p| p == "123"), Some("123"));
    assert_eq!(
        arg_value(args, "--foobar", |p| p.contains("12")),
        Some("123")
    );
    assert_eq!(arg_value(args, "--foo", |_| true), None);
}

#[test]
fn arg_value_tries_later_occurrences() {
    let args = &["--level=1", "--level", "2", "--level=3"];
    assert_eq!(arg_value(args, "--level", |p| p == "2"), Some("2"));
    assert_eq!(arg_value(args, "--level", |p| p == "3"), Some("3"));
    assert_eq!(arg_value(args, "--level", |_| true), Some("1"));
}

#[test]
fn arg_value_consumes_the_next_argument() {
    // "--x" takes "--x=1" as its value, so the inline value 1 is never offered.
    let args = &["--x", "--x=1"];
    assert_eq!(arg_value(args, "--x", |p| p == "1"), None);
    assert_eq!(arg_value(args, "--x", |_| true), Some("--x=1"));
}

#[test]
fn arg_value_splits_at_the_first_equals_sign() {
    let args = &["--cfg=a=b"];
    assert_eq!(arg_value(args, "--cfg", |_| true), Some("a=b"));
    assert_eq!(arg_value(args, "--cfg=a", |_| true), None);
    let empty = &["--cfg="];
    assert_eq!(arg_value(empty, "--cfg", |_| true), Some(""));
}
