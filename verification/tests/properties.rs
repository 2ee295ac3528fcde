use rift::CompileError;
use rift::Flags;
use rift::Regex;

// A found match agrees with is_match, both ways round.
#[test]
fn match_iff_find() {
    let re = Regex::new("cat|dog", Flags::default()).unwrap();
    assert_eq!(re.is_match("dog"), re.find("dog").is_some());
    assert_eq!(re.is_match("bird"), re.find("bird").is_some());
    assert!(re.find("dog").is_some());
    assert!(re.find("bird").is_none());
}

// Spans lie within the text, on character boundaries, start before end.
#[test]
fn span_within_bounds() {
    let re = Regex::new("é", Flags::default()).unwrap();
    let text = "café";
    let m = re.find(text).unwrap();
    // 'é' takes two bytes; the span is byte offsets on character boundaries.
    assert_eq!(m.start, 3);
    assert_eq!(m.end, 5);
    assert!(m.start <= m.end && m.end <= text.len());
    assert_eq!(m.as_str(text), "é");
    assert_eq!(&text[m.start..m.end], "é");
}

// Non-overlapping matches, strictly increasing starts.
#[test]
fn find_all_ordering() {
    let re = Regex::new("an", Flags::default()).unwrap();
    let ms = re.find_all("banana");
    assert_eq!(ms.len(), 2);
    assert_eq!((ms[0].start, ms[0].end), (1, 3));
    assert_eq!((ms[1].start, ms[1].end), (3, 5));
    assert!(ms[0].end <= ms[1].start);
    assert!(ms[0].start < ms[1].start);
}

// The zero-width guard: an empty match at offset 0, and one empty span at
// every position of "bbb" (between every character and at both ends).
#[test]
fn zero_width_guard() {
    let re = Regex::new("a*", Flags::default()).unwrap();
    let m = re.find("bbb").unwrap();
    assert_eq!((m.start, m.end), (0, 0));
    let ms = re.find_all("bbb");
    assert_eq!(ms.len(), 4);
    for (i, m) in ms.iter().enumerate() {
        assert_eq!((m.start, m.end), (i, i));
    }
    assert!(ms.len() <= "bbb".len() + 1);
}

// The full match is group zero, and it is what find reports.
#[test]
fn captures_group_zero_is_find() {
    let re = Regex::new("(b)(an)", Flags::default()).unwrap();
    let text = "banana";
    let m = re.find(text).unwrap();
    let caps = re.captures(text).unwrap();
    assert_eq!(caps.get(0), Some(&caps.full_match));
    assert_eq!(*caps.get(0).unwrap(), m);
    assert_eq!(caps.as_str(text, 0), Some("ban"));
    assert_eq!(caps.as_str(text, 1), Some("b"));
    assert_eq!(caps.as_str(text, 2), Some("an"));
    assert_eq!(caps.get(3), None);
}

// Replacing every match with its own matched text leaves the text unchanged.
#[test]
fn replace_all_with_own_match() {
    let re = Regex::new("an", Flags::default()).unwrap();
    assert_eq!(re.replace_all("banana", "an"), "banana");
    let re = Regex::new("a", Flags::default()).unwrap();
    assert_eq!(re.replace_all("banana", "a"), "banana");
}

// Alternation is left-biased.
#[test]
fn alternation_left_bias() {
    let re = Regex::new("a|ab", Flags::default()).unwrap();
    let m = re.find("ab").unwrap();
    assert_eq!(&"ab"[m.start..m.end], "a");
}

// Greedy takes all, lazy takes least.
#[test]
fn greedy_vs_lazy() {
    let re = Regex::new("a+", Flags::default()).unwrap();
    let m = re.find("aaaa").unwrap();
    assert_eq!(&"aaaa"[m.start..m.end], "aaaa");
    let re = Regex::new("a+?", Flags::default()).unwrap();
    let m = re.find("aaaa").unwrap();
    assert_eq!(&"aaaa"[m.start..m.end], "a");
}

// Anchors with and without multiline, next to a newline.
#[test]
fn anchors_multiline() {
    let text = "foo\nbar";
    assert!(!Regex::new("^bar", Flags::default()).unwrap().is_match(text));
    assert!(!Regex::new("foo$", Flags::default()).unwrap().is_match(text));
    let mut ml = Flags::default();
    ml.multiline = true;
    assert!(Regex::new("^bar", ml).unwrap().is_match(text));
    assert!(Regex::new("foo$", ml).unwrap().is_match(text));
}

// Match-boundary overrides report exactly the overridden bounds.
#[test]
fn override_bounds_exact() {
    let re = Regex::new("foo\\zsbar\\zebaz", Flags::default()).unwrap();
    let m = re.find("foobarbaz").unwrap();
    assert_eq!(m.start, 3);
    assert_eq!(m.end, 6);
    assert_eq!(m.as_str("foobarbaz"), "bar");
}

// Case-insensitive matching spans the whole text.
#[test]
fn insensitive_span() {
    let mut flags = Flags::default();
    flags.ignore_case = Some(true);
    let re = Regex::new("abc", flags).unwrap();
    let m = re.find("AbC").unwrap();
    assert_eq!((m.start, m.end), (0, 3));
}

// Named groups are retrievable by name after a real match.
#[test]
fn named_groups() {
    let re = Regex::new(r"(?<first>\w+) (?<second>\w+)", Flags::default()).unwrap();
    let text = "hello world";
    let caps = re.captures(text).unwrap();
    assert_eq!(caps.as_str_named(text, "first"), Some("hello"));
    assert_eq!(caps.as_str_named(text, "second"), Some("world"));
    assert_eq!(caps.get_named("third"), None);
    assert_eq!(caps.as_str(text, 1), Some("hello"));
    assert_eq!(caps.as_str(text, 2), Some("world"));
}

// A backreference requires the captured text to repeat.
#[test]
fn backreference() {
    let re = Regex::new(r"(a+)b\1", Flags::default()).unwrap();
    assert!(re.is_match("aabaa"));
    assert!(!re.is_match("aab"));
}

// Non-capturing groups match without capturing.
#[test]
fn non_capturing_group() {
    let re = Regex::new("(?:ab)+", Flags::default()).unwrap();
    let m = re.find("ababab").unwrap();
    assert_eq!((m.start, m.end), (0, 6));
    let caps = re.captures("ababab").unwrap();
    assert_eq!(caps.get(1), None);
}

// Each compile error kind, on an input that raises it.
#[test]
fn compile_error_kinds() {
    assert!(matches!(
        Regex::new("a{2", Flags::default()),
        Err(CompileError::InvalidQuantifier(_))
    ));
    assert!(matches!(
        Regex::new("(ab", Flags::default()),
        Err(CompileError::UnmatchedParen)
    ));
    assert!(matches!(
        Regex::new("a\\zx", Flags::default()),
        Err(CompileError::InvalidEscape(_))
    ));
    assert!(matches!(
        Regex::new("(?<n>a)(?<n>b)", Flags::default()),
        Err(CompileError::DuplicateGroupName(_))
    ));
    assert!(matches!(
        Regex::new("(?~a)", Flags::default()),
        Err(CompileError::InvalidGroup(_))
    ));
    assert!(matches!(
        Regex::new("\\", Flags::default()),
        Err(CompileError::InvalidPattern(_))
    ));
    // A non-numeric or missing bound is a malformed quantifier.
    assert!(matches!(
        Regex::new("a{x}", Flags::default()),
        Err(CompileError::InvalidQuantifier(_))
    ));
    assert!(matches!(
        Regex::new("a{}", Flags::default()),
        Err(CompileError::InvalidQuantifier(_))
    ));
    // Group names admit only ASCII alphanumerics and underscore.
    assert!(matches!(
        Regex::new("(?<\u{fc}>a)", Flags::default()),
        Err(CompileError::InvalidGroup(_))
    ));
}

// captures_all steps like find_all and carries each match's groups.
#[test]
fn captures_all_matches_find_all() {
    let re = Regex::new("(a)(n)", Flags::default()).unwrap();
    let text = "banana";
    let spans = re.find_all(text);
    let all = re.captures_all(text);
    assert_eq!(all.len(), spans.len());
    assert_eq!(all.len(), 2);
    for (caps, m) in all.iter().zip(spans.iter()) {
        assert_eq!(caps.full_match, *m);
    }
    assert_eq!(all[0].as_str(text, 1), Some("a"));
    assert_eq!(all[0].as_str(text, 2), Some("n"));
    assert_eq!(all[1].as_str(text, 1), Some("a"));
}

// An empty pattern matches emptily at the start of any text.
#[test]
fn empty_pattern() {
    let re = Regex::new("", Flags::default()).unwrap();
    let m = re.find("abc").unwrap();
    assert_eq!((m.start, m.end), (0, 0));
    let m = re.find("").unwrap();
    assert_eq!((m.start, m.end), (0, 0));
}

// The exact bounded-quantifier scenarios.
#[test]
fn bounded_quantifiers_exact() {
    let re = Regex::new("ba*", Flags::default()).unwrap();
    let m = re.find("baaaac").unwrap();
    assert_eq!(&"baaaac"[m.start..m.end], "baaaa");
    let re = Regex::new("ba*?", Flags::default()).unwrap();
    let m = re.find("baaaac").unwrap();
    assert_eq!(&"baaaac"[m.start..m.end], "b");
    let re = Regex::new("a{2,4}", Flags::default()).unwrap();
    let m = re.find("aaaaa").unwrap();
    assert_eq!(&"aaaaa"[m.start..m.end], "aaaa");
    let re = Regex::new("a{2,4}?", Flags::default()).unwrap();
    let m = re.find("aaaaa").unwrap();
    assert_eq!(&"aaaaa"[m.start..m.end], "aa");
}

// The verbose flag skips whitespace through the host's whitespace predicate.
#[test]
fn verbose_whitespace_kinds() {
    let mut flags = Flags::default();
    flags.verbose = true;
    let re = Regex::new("a\t b\n c", flags).unwrap();
    assert!(re.is_match("abc"));
    // A whitespace class still matches real whitespace.
    let re = Regex::new(r"a\sb", Flags::default()).unwrap();
    assert!(re.is_match("a b"));
    assert!(!re.is_match("axb"));
}

// The flavor splitter and matching, end to end.
#[test]
fn rift_end_to_end() {
    let (pattern, flags) = rift::parse_rift_format("foo/bar/i").unwrap();
    assert_eq!(pattern, "foo/bar");
    assert_eq!(flags.ignore_case, Some(true));
    let re = Regex::new(&pattern, flags).unwrap();
    assert!(re.is_match("FOO/BAR"));
}
