use inflector::cases::screamingsnakecase::{is_screaming_snake_case, to_screaming_snake_case};
use inflector::cases::uppercase::{to_ascii_upper, to_upper_case};
use inflector::text::{contains_char, replace_char};

fn convert(s: &str) -> String {
    to_screaming_snake_case(s.to_string())
}

#[test]
fn converts_snake_case() {
    assert_eq!(convert("foo_bar"), "FOO_BAR");
}

#[test]
fn converts_phrase_with_acronym() {
    assert_eq!(convert("HTTP Foo bar"), "HTTP_FOO_BAR");
}

#[test]
fn converts_sentence_case() {
    assert_eq!(convert("Foo bar"), "FOO_BAR");
}

#[test]
fn converts_title_case() {
    assert_eq!(convert("Foo Bar"), "FOO_BAR");
}

#[test]
fn converts_pascal_case() {
    assert_eq!(convert("FooBar"), "FOO_BAR");
}

#[test]
fn converts_camel_case() {
    assert_eq!(convert("fooBar"), "FOO_BAR");
}

#[test]
fn converts_camel_case_with_digit() {
    assert_eq!(convert("fooBar3"), "FOO_BAR_3");
}

#[test]
fn converts_empty_string() {
    assert_eq!(convert(""), "");
}

#[test]
fn converts_kebab_case() {
    assert_eq!(convert("foo-bar-baz"), "FOO_BAR_BAZ");
}

#[test]
fn keeps_consecutive_delimiters() {
    assert_eq!(convert("foo  bar--baz__qux"), "FOO__BAR__BAZ__QUX");
}

#[test]
fn delimiter_branch_ignores_casing() {
    assert_eq!(convert("fooBar baz"), "FOOBAR_BAZ");
    assert_eq!(convert("fooBar_baz"), "FOOBAR_BAZ");
    assert_eq!(convert("fooBar-baz"), "FOOBAR_BAZ");
}

#[test]
fn camel_branch_splits_before_each_capital() {
    assert_eq!(convert("HTTPServer"), "H_T_T_P_SERVER");
}

#[test]
fn camel_branch_splits_before_other_characters() {
    assert_eq!(convert("foo.bar"), "FOO_.BAR");
    assert_eq!(convert("caf\u{e9}"), "CAF_\u{e9}");
}

#[test]
fn converts_single_character() {
    assert_eq!(convert("a"), "A");
    assert_eq!(convert("Z"), "Z");
    assert_eq!(convert("_"), "_");
}

#[test]
fn converting_twice_is_converting_once() {
    for s in ["foo_bar", "HTTP Foo bar", "Foo Bar", "FooBar", "fooBar3", "", "x", "a-b c"] {
        let once = convert(s);
        assert_eq!(to_screaming_snake_case(once.clone()), once);
    }
}

#[test]
fn lowercase_run_is_not_a_fixed_point() {
    assert_eq!(convert("foo"), "FOO");
    assert_eq!(convert("FOO"), "F_O_O");
}

#[test]
fn predicate_accepts_screaming_snake_case() {
    assert!(is_screaming_snake_case("FOO_BAR_STRING_THAT_IS_REALLY_REALLY_LONG".to_string()));
}

#[test]
fn predicate_accepts_screaming_snake_case_with_digit() {
    assert!(is_screaming_snake_case("FOO_BAR_1_STRING_THAT_IS_REALLY_REALLY_LONG".to_string()));
}

#[test]
fn predicate_rejects_pascal_case() {
    assert!(!is_screaming_snake_case("FooBarIsAReallyReallyLongString".to_string()));
}

#[test]
fn predicate_rejects_other_forms() {
    assert!(!is_screaming_snake_case("Foo bar string that is really really long".to_string()));
    assert!(!is_screaming_snake_case("foo-bar-string-that-is-really-really-long".to_string()));
    assert!(!is_screaming_snake_case("Foo Bar Is A Really Really Long String".to_string()));
    assert!(!is_screaming_snake_case("fooBarIsAReallyReallyLongString".to_string()));
    assert!(!is_screaming_snake_case("foo_bar_string_that_is_really_really_long".to_string()));
}

#[test]
fn predicate_matches_round_trip() {
    for s in ["FOO__BAR", "", "A", "FOO", "foo_bar", "X_Y", "fooBar"] {
        assert_eq!(is_screaming_snake_case(s.to_string()), convert(s) == s);
    }
    assert!(is_screaming_snake_case("FOO__BAR".to_string()));
    assert!(!is_screaming_snake_case("FOO".to_string()));
}

#[test]
fn uppercases_ascii_letters_only() {
    assert_eq!(to_upper_case("abc-XYZ_09 \u{e9}"), "ABC-XYZ_09 \u{e9}");
    assert_eq!(to_ascii_upper('q'), 'Q');
    assert_eq!(to_ascii_upper('Q'), 'Q');
    assert_eq!(to_ascii_upper('{'), '{');
}

#[test]
fn replaces_and_finds_characters() {
    assert_eq!(replace_char("a b c", ' ', '_'), "a_b_c");
    assert_eq!(replace_char("abc", ' ', '_'), "abc");
    assert!(contains_char("ab-c", '-'));
    assert!(!contains_char("abc", '-'));
    assert!(!contains_char("", 'a'));
}
