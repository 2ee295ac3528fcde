use rift::Flags;
use rift::Regex;

#[test]
fn test_regex_compilation() {
    let flags = Flags::default();
    let re = Regex::new("abc", flags);
    assert!(re.is_ok());
    let re = re.unwrap();
    assert_eq!(re.pattern(), "abc");
}

#[test]
fn test_flags_default() {
    let flags = Flags::default();
    assert_eq!(flags.ignore_case, None);
    assert_eq!(flags.multiline, false);
    assert_eq!(flags.dotall, false);
    assert_eq!(flags.verbose, false);
    assert_eq!(flags.unicode, false);
    assert_eq!(flags.global, false);
}
