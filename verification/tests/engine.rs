use rift::Flags;
use rift::Regex;

// --- Helper Functions ---

fn assert_match(pattern: &str, text: &str) {
    let re = Regex::new(pattern, Flags::default())
        .unwrap_or_else(|e| panic!("Failed to compile pattern '{}': {:?}", pattern, e));
    assert!(
        re.is_match(text),
        "Pattern '{}' should match text '{}'",
        pattern,
        text
    );
}

fn assert_no_match(pattern: &str, text: &str) {
    let re = Regex::new(pattern, Flags::default())
        .unwrap_or_else(|e| panic!("Failed to compile pattern '{}': {:?}", pattern, e));
    assert!(
        !re.is_match(text),
        "Pattern '{}' should NOT match text '{}'",
        pattern,
        text
    );
}

fn assert_find(pattern: &str, text: &str, expected_match: &str) {
    let re = Regex::new(pattern, Flags::default()).unwrap();
    let m = re
        .find(text)
        .unwrap_or_else(|| panic!("Pattern '{}' should find a match in '{}'", pattern, text));
    let matched_text = &text[m.start..m.end];
    assert_eq!(
        matched_text, expected_match,
        "Pattern '{}' found '{}' but expected '{}'",
        pattern, matched_text, expected_match
    );
}

#[allow(dead_code)]
fn assert_find_all(pattern: &str, text: &str, expected: Vec<&str>) {
    let re = Regex::new(pattern, Flags::default()).unwrap();
    let matches: Vec<String> = re
        .find_all(text)
        .iter()
        .map(|m| text[m.start..m.end].to_string())
        .collect();
    assert_eq!(
        matches, expected,
        "Find all mismatch for pattern '{}'",
        pattern
    );
}

// --- 1. General Syntax & Literals ---

#[test]
fn test_literals() {
    assert_match("abc", "abc");
    assert_match("abc", "zabc");
    assert_match("abc", "abcz");
    assert_match("abc", "zabcz");
    assert_no_match("abc", "ab");
    assert_no_match("abc", "bc");
    assert_no_match("abc", "ac");
}

#[test]
fn test_special_characters_escaped() {
    assert_match(r"\.", ".");
    assert_match(r"\*", "*");
    assert_match(r"\+", "+");
    assert_match(r"\?", "?");
    assert_match(r"\^", "^");
    assert_match(r"\$", "$");
    assert_match(r"\|", "|");
    assert_match(r"\(", "(");
    assert_match(r"\)", ")");
    assert_match(r"\[", "[");
    assert_match(r"\]", "]");
    assert_match(r"\{", "{");
    assert_match(r"\}", "}");
    assert_match(r"\\", "\\");
}

#[test]
fn test_escape_sequences() {
    assert_match(r"\n", "\n");
    assert_match(r"\t", "\t");
    assert_match(r"\r", "\r");
    assert_match(r"\f", "\x0C");
    assert_match(r"\v", "\x0B");
}

#[test]
fn engine_test_dot() {
    assert_match(".", "a");
    assert_match(".", "z");
    assert_match(".", " ");
    assert_no_match(".", ""); // Empty string has no chars
    assert_no_match(".", "\n"); // Default doesn't match newline

    // Dotall flag
    let mut flags = Flags::default();
    flags.dotall = true;
    let re = Regex::new(".", flags).unwrap();
    assert!(re.is_match("\n"));
}

// --- 2. Quantifiers ---

#[test]
fn test_quantifiers_greedy() {
    // * (0 or more)
    assert_match("a*", "");
    assert_match("a*", "a");
    assert_match("a*", "aaaa");
    assert_find("ba*", "baaaac", "baaaa");

    // + (1 or more)
    assert_no_match("a+", "");
    assert_match("a+", "a");
    assert_find("a+", "baaaac", "aaaa");

    // ? (0 or 1)
    assert_match("a?", "");
    assert_match("a?", "a");
    assert_find("ba?", "baaaac", "ba"); // Matches b then one a
    assert_find("ba?", "bc", "b"); // Matches b then zero a

    // {n}
    assert_match("a{3}", "aaa");
    assert_no_match("a{3}", "aa");
    assert_find("a{3}", "aaaaa", "aaa");

    // {n,m}
    assert_find("a{2,4}", "aaaaa", "aaaa"); // Greedy, takes 4
    assert_find("a{2,4}", "aaa", "aaa");
    assert_find("a{2,4}", "aa", "aa");
    assert_no_match("a{2,4}", "a");

    // {n,}
    assert_find("a{2,}", "aaaaa", "aaaaa");
    assert_no_match("a{2,}", "a");

    // {,m}
    assert_find("a{,3}", "aaaa", "aaa");
}

#[test]
fn test_quantifiers_lazy() {
    // *?
    assert_find("a*?", "aaaa", ""); // Matches 0 times immediately
    assert_find("ba*?", "baaaa", "b"); // Matches b then 0 a's

    // +?
    assert_find("a+?", "aaaa", "a"); // Matches 1 time (minimal)

    // ??
    assert_find("ba??", "ba", "b"); // Prefers 0 matches

    // {n,m}?
    assert_find("a{2,4}?", "aaaaa", "aa"); // Minimal 2
}

// --- 3. Character Classes ---

#[test]
fn test_standard_classes() {
    // \d Digit
    assert_match(r"\d", "0");
    assert_match(r"\d", "9");
    assert_no_match(r"\d", "a");

    // \D Non-digit
    assert_match(r"\D", "a");
    assert_no_match(r"\D", "1");

    // \w Word
    assert_match(r"\w", "a");
    assert_match(r"\w", "Z");
    assert_match(r"\w", "0");
    assert_match(r"\w", "_");
    assert_no_match(r"\w", "!");

    // \W Non-word
    assert_match(r"\W", "!");
    assert_match(r"\W", " ");
    assert_no_match(r"\W", "a");

    // \s Whitespace
    assert_match(r"\s", " ");
    assert_match(r"\s", "\t");
    assert_match(r"\s", "\n");
    assert_no_match(r"\s", "a");

    // \S Non-whitespace
    assert_match(r"\S", "a");
    assert_no_match(r"\S", " ");
}

#[test]
fn test_extended_classes() {
    // \l Lowercase
    assert_match(r"\l", "a");
    assert_no_match(r"\l", "A");
    assert_no_match(r"\l", "0");

    // \u Uppercase
    assert_match(r"\u", "A");
    assert_no_match(r"\u", "a");

    // \x Hex digit
    assert_match(r"\x", "a");
    assert_match(r"\x", "F");
    assert_match(r"\x", "0");
    assert_no_match(r"\x", "g");

    // \a Alphanumeric
    assert_match(r"\a", "a");
    assert_match(r"\a", "0");
    assert_no_match(r"\a", "_");
    assert_no_match(r"\a", "!");

    // \L Non-lowercase
    assert_match(r"\L", "A");
    assert_match(r"\L", "0");
    assert_no_match(r"\L", "a");

    // \U Non-uppercase
    assert_match(r"\U", "a");
    assert_match(r"\U", "0");
    assert_no_match(r"\U", "A");

    // \X Non-hex digit
    assert_match(r"\X", "g");
    assert_no_match(r"\X", "a");
    assert_no_match(r"\X", "F");
    assert_no_match(r"\X", "0");

    // \o Octal digit
    assert_match(r"\o", "0");
    assert_match(r"\o", "7");
    assert_no_match(r"\o", "8");

    // \O Non-octal digit
    assert_match(r"\O", "8");
    assert_match(r"\O", "a");
    assert_no_match(r"\O", "0");

    // \h Head of word character (start of a word)
    assert_match(r"\h", "a");
    assert_match(r"\h", "_");
    assert_no_match(r"\h", "0");

    // \H Non-head of word character
    assert_match(r"\H", "0");
    assert_match(r"\H", "!");
    assert_no_match(r"\H", "a");

    // \p Punctuation
    assert_match(r"\p", "!");
    assert_match(r"\p", ".");
    assert_no_match(r"\p", "a");
    assert_no_match(r"\p", "0");

    // \P Non-punctuation
    assert_match(r"\P", "a");
    assert_match(r"\P", "0");
    assert_no_match(r"\P", "!");

    // \A Non-alphanumeric
    assert_match(r"\A", "_");
    assert_match(r"\A", "!");
    assert_no_match(r"\A", "a");
    assert_no_match(r"\A", "0");
}

#[test]
fn test_custom_sets() {
    assert_match("[abc]", "a");
    assert_match("[abc]", "b");
    assert_match("[abc]", "c");
    assert_no_match("[abc]", "d");

    // Ranges
    assert_match("[a-z]", "m");
    assert_no_match("[a-z]", "M"); // Default is case sensitive in current impl

    // Force case sensitive
    let mut flags = Flags::default();
    flags.ignore_case = Some(false);
    let re = Regex::new("[a-z]", flags).unwrap();
    assert!(!re.is_match("M"));

    // Negation
    assert_match("[^abc]", "d");
    assert_no_match("[^abc]", "a");
}

// --- 4. Anchors and Boundaries ---

#[test]
fn test_anchors() {
    // ^ Start
    assert_match("^abc", "abc");
    assert_match("^abc", "abcd");
    assert_no_match("^abc", "zabc");

    // $ End
    assert_match("abc$", "abc");
    assert_match("abc$", "zabc");
    assert_no_match("abc$", "abcd");

    // Both
    assert_match("^abc$", "abc");
    assert_no_match("^abc$", "abcd");
}

#[test]
fn test_word_boundaries() {
    // \b
    assert_find(r"\bword\b", "a word b", "word");
    assert_no_match(r"\bword\b", "sword");
    assert_no_match(r"\bword\b", "words");

    // \< Start of word
    assert_match(r"\<word", "word");
    assert_match(r"\<word", " word");
    assert_no_match(r"\<word", "sword");

    // \> End of word
    assert_match(r"word\>", "word");
    assert_match(r"word\>", "word ");
    assert_no_match(r"word\>", "words");
}

#[test]
fn test_match_boundaries_zs_ze() {
    // \zs Sets start
    assert_find("foo\\zsbar", "foobar", "bar");

    // \ze Sets end
    assert_find("foo\\zebar", "foobar", "foo");

    // Both
    assert_find("foo\\zsbar\\zebaz", "foobarbaz", "bar");
}

// --- 5. Flags ---

#[test]
fn test_flags_multiline() {
    let mut flags = Flags::default();
    flags.multiline = true;
    let re = Regex::new("^bar", flags).unwrap();

    assert!(re.is_match("foo\nbar"));
    // Without multiline
    assert_no_match("^bar", "foo\nbar");
}

#[test]
fn test_flags_case_sensitivity() {
    // i flag (ignore-case)
    let mut flags = Flags::default();
    flags.ignore_case = Some(true);
    let re = Regex::new("abc", flags).unwrap();
    assert!(re.is_match("ABC"));
    assert!(re.is_match("AbC"));

    // c flag (case-sensitive)
    let mut flags = Flags::default();
    flags.ignore_case = Some(false);
    let re = Regex::new("abc", flags).unwrap();
    assert!(re.is_match("abc"));
    assert!(!re.is_match("ABC"));
}

// --- 6. Alternation & Grouping ---

#[test]
fn test_alternation() {
    assert_match("cat|dog", "cat");
    assert_match("cat|dog", "dog");
    assert_no_match("cat|dog", "bat");

    // Precedence
    assert_find("a|ab", "ab", "a"); // First alternative matches 'a'
}

// --- 7. Lookarounds ---

#[test]
fn test_lookahead() {
    // Positive (?>=...)
    assert_find("foo(?>=bar)", "foobar", "foo");
    assert_no_match("foo(?>=bar)", "foobaz");

    // Negative (?>!...)
    assert_find("foo(?>!bar)", "foobaz", "foo");
    assert_no_match("foo(?>!bar)", "foobar");
}

#[test]
fn test_lookbehind() {
    // Positive (?<=...)
    assert_find("(?<=foo)bar", "foobar", "bar");
    assert_no_match("(?<=foo)bar", "bazbar");

    // Negative (?<!...)
    assert_find("(?<!foo)bar", "bazbar", "bar");
    assert_no_match("(?<!foo)bar", "foobar");
}

// --- 8. Replacement ---

#[test]
fn test_replace() {
    let re = Regex::new("a", Flags::default()).unwrap();
    assert_eq!(re.replace("banana", "o"), "bonana"); // Replaces first
}

#[test]
fn test_replace_all() {
    let re = Regex::new("a", Flags::default()).unwrap();
    assert_eq!(re.replace_all("banana", "o"), "bonono");
}

#[test]
fn test_replace_groups() {
    let re = Regex::new(r"\w+", Flags::default()).unwrap();
    assert_eq!(re.replace_all("hello world", "word"), "word word");
}

// --- 9. Complex Scenarios ---

#[test]
fn test_ipv4() {
    let pattern = r"\d{1,3}\.\d{1,3}\.\d{1,3}\.\d{1,3}";
    assert_match(pattern, "192.168.1.1");
    assert_no_match(pattern, "192.168.1");
}

#[test]
fn engine_test_unicode_flag() {
    let mut flags = Flags::default();
    flags.unicode = true;

    // \w should match unicode letters
    let _re = Regex::new(r"\w+", flags).unwrap();
    assert!(_re.is_match("über"));

    // \w is Unicode-aware by default (using the host's alphanumeric
    // predicate), so we check that it DOES match, rather than DOES NOT match.
    let _re_ascii = Regex::new(r"\w+", Flags::default()).unwrap();
    assert!(_re_ascii.is_match("über"));
}
