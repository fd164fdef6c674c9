use vstd::prelude::*;

use crate::cases::uppercase::{is_ascii_lower, to_ascii_upper, to_upper_case, upper_char, upper_seq};
use crate::text::{contains_char, has_char, push_char, replace_char, replace_seq};

verus! {

/// True when the text holds a space, an underscore or a hyphen, and is
/// therefore read as a delimiter-separated phrase.
pub open spec fn has_delimiter(s: Seq<char>) -> bool {
    has_char(s, ' ') || has_char(s, '_') || has_char(s, '-')
}

/// A delimiter-separated phrase in screaming snake case: spaces and hyphens
/// become underscores, then every ASCII letter is uppercased.
pub open spec fn sentence_or_kebab_of(s: Seq<char>) -> Seq<char> {
    upper_seq(replace_seq(replace_seq(s, ' ', '_'), '-', '_'))
}

/// True when a character opens a new word in camelCase or PascalCase text:
/// anything that is not an ASCII lowercase letter, except at the very start.
pub open spec fn starts_word(c: char, first: bool) -> bool {
    !first && !is_ascii_lower(c)
}

/// What one character of camelCase or PascalCase text turns into: its
/// uppercase form, with an underscore before it when it opens a new word.
pub open spec fn word_piece(c: char, first: bool) -> Seq<char> {
    if starts_word(c, first) {
        seq!['_', upper_char(c)]
    } else {
        seq![upper_char(c)]
    }
}

/// camelCase or PascalCase text in screaming snake case, built one character
/// at a time.
pub open spec fn camel_or_class_of(s: Seq<char>) -> Seq<char>
    decreases s.len(),
{
    if s.len() == 0 {
        Seq::empty()
    } else {
        camel_or_class_of(s.drop_last()) + word_piece(s.last(), s.len() == 1)
    }
}

/// The screaming snake case form of any text: the phrase rule when it holds
/// a delimiter, the camelCase rule otherwise.
pub open spec fn screaming_snake_of(s: Seq<char>) -> Seq<char> {
    if has_delimiter(s) {
        sentence_or_kebab_of(s)
    } else {
        camel_or_class_of(s)
    }
}

/// True of a character that screaming snake case leaves as it is: no
/// space, no hyphen and no ASCII lowercase letter.
pub open spec fn is_settled(c: char) -> bool {
    c != ' ' && c != '-' && !is_ascii_lower(c)
}

proof fn lemma_upper_char_settles(c: char)
    requires
        c != ' ',
        c != '-',
    ensures
        is_settled(upper_char(c)),
        upper_char(c) == '_' <==> c == '_',
{
}

/// Text whose characters are all settled is its own phrase form.
proof fn lemma_settled_phrase_unchanged(t: Seq<char>)
    requires
        forall|k: int| 0 <= k < t.len() ==> is_settled(#[trigger] t[k]),
    ensures
        sentence_or_kebab_of(t) == t,
{
    assert(sentence_or_kebab_of(t) =~= t);
}

/// Every character of the camelCase form of text without spaces or hyphens
/// is settled.
proof fn lemma_camel_settled(s: Seq<char>)
    requires
        !has_char(s, ' '),
        !has_char(s, '-'),
    ensures
        forall|k: int|
            0 <= k < camel_or_class_of(s).len() ==> is_settled(
                #[trigger] camel_or_class_of(s)[k],
            ),
    decreases s.len(),
{
    if s.len() > 0 {
        let p = s.drop_last();
        assert(!has_char(p, ' ') && !has_char(p, '-')) by {
            assert forall|j: int| 0 <= j < p.len() implies p[j] != ' ' && p[j] != '-' by {
                assert(p[j] == s[j]);
            }
        }
        lemma_camel_settled(p);
        assert(s.last() == s[s.len() - 1]);
        lemma_upper_char_settles(s.last());
        let c = camel_or_class_of(p);
        let w = word_piece(s.last(), s.len() == 1);
        assert forall|k: int| 0 <= k < w.len() implies is_settled(#[trigger] w[k]) by {}
        assert(camel_or_class_of(s) == c + w);
        assert forall|k: int| 0 <= k < camel_or_class_of(s).len() implies is_settled(
            #[trigger] camel_or_class_of(s)[k],
        ) by {
            if k >= c.len() {
                assert(camel_or_class_of(s)[k] == w[k - c.len()]);
            } else {
                assert(camel_or_class_of(s)[k] == c[k]);
            }
        }
    }
}

/// The camelCase form holds an underscore once some character after the
/// first opens a word.
proof fn lemma_camel_has_underscore(s: Seq<char>, i: int)
    requires
        1 <= i < s.len(),
        !is_ascii_lower(s[i]),
    ensures
        has_char(camel_or_class_of(s), '_'),
    decreases s.len(),
{
    let p = s.drop_last();
    let c = camel_or_class_of(p);
    if i == s.len() - 1 {
        assert(camel_or_class_of(s)[c.len() as int] == '_');
    } else {
        assert(p[i] == s[i]);
        lemma_camel_has_underscore(p, i);
        let k = choose|k: int| 0 <= k < c.len() && c[k] == '_';
        assert(camel_or_class_of(s)[k] == '_');
    }
}

/// No ASCII lowercase letter is left in the screaming snake case form of
/// any text.
pub proof fn lemma_screaming_snake_has_no_lowercase(s: Seq<char>)
    ensures
        forall|k: int|
            0 <= k < screaming_snake_of(s).len() ==> !is_ascii_lower(
                #[trigger] screaming_snake_of(s)[k],
            ),
{
    let t = screaming_snake_of(s);
    if has_delimiter(s) {
        assert forall|k: int| 0 <= k < t.len() implies !is_ascii_lower(#[trigger] t[k]) by {
            let r = replace_seq(replace_seq(s, ' ', '_'), '-', '_');
            lemma_upper_char_settles(r[k]);
        }
    } else {
        lemma_camel_settled(s);
    }
}

/// Converting twice gives what converting once gives, for all text but one
/// kind: text with no delimiter whose characters after the first are all
/// lowercase ASCII letters (such as `foo`, which becomes `FOO`, which in
/// turn becomes `F_O_O`).
pub proof fn lemma_screaming_snake_idempotent(s: Seq<char>)
    requires
        has_delimiter(s) || s.len() < 2 || exists|i: int|
            1 <= i < s.len() && !is_ascii_lower(#[trigger] s[i]),
    ensures
        screaming_snake_of(screaming_snake_of(s)) == screaming_snake_of(s),
{
    let t = screaming_snake_of(s);
    if has_delimiter(s) {
        let j = choose|j: int| 0 <= j < s.len() && (s[j] == ' ' || s[j] == '_' || s[j] == '-');
        assert forall|k: int| 0 <= k < t.len() implies is_settled(#[trigger] t[k]) by {
            let r = replace_seq(replace_seq(s, ' ', '_'), '-', '_');
            lemma_upper_char_settles(r[k]);
        }
        assert(t[j] == '_') by {
            let r = replace_seq(replace_seq(s, ' ', '_'), '-', '_');
            lemma_upper_char_settles(r[j]);
        }
        lemma_settled_phrase_unchanged(t);
    } else if s.len() < 2 {
        if s.len() == 1 {
            assert(s.drop_last() =~= Seq::<char>::empty());
            assert(camel_or_class_of(Seq::<char>::empty()) == Seq::<char>::empty());
            assert(s.last() == s[0]);
            assert(t =~= seq![upper_char(s[0])]);
            lemma_upper_char_settles(s[0]);
            assert(t.drop_last() =~= Seq::<char>::empty());
            assert(!has_delimiter(t));
            assert(camel_or_class_of(t) =~= t);
        } else {
            assert(t =~= s);
        }
    } else {
        let i = choose|i: int| 1 <= i < s.len() && !is_ascii_lower(#[trigger] s[i]);
        lemma_camel_has_underscore(s, i);
        lemma_camel_settled(s);
        lemma_settled_phrase_unchanged(t);
    }
}

/// Converts text to `SCREAMING_SNAKE_CASE`.
///
/// Text with a space, underscore or hyphen has its spaces and hyphens turned
/// into underscores and its letters uppercased. Other text is read as
/// camelCase or PascalCase: every character after the first that is not a
/// lowercase ASCII letter gets an underscore before it.
pub fn to_screaming_snake_case(non_snake_case_string: String) -> (r: String)
    ensures
        r@ == screaming_snake_of(non_snake_case_string@),
        forall|k: int| 0 <= k < r@.len() ==> !is_ascii_lower(#[trigger] r@[k]),
        has_delimiter(non_snake_case_string@) ==> r@ == sentence_or_kebab_of(
            non_snake_case_string@,
        ),
        !has_delimiter(non_snake_case_string@) ==> r@ == camel_or_class_of(
            non_snake_case_string@,
        ),
{
    proof {
        lemma_screaming_snake_has_no_lowercase(non_snake_case_string@);
    }
    let s = non_snake_case_string.as_str();
    if contains_char(s, ' ') || contains_char(s, '_') || contains_char(s, '-') {
        to_snake_from_sentence_or_kebab(non_snake_case_string)
    } else {
        to_snake_from_camel_or_class(non_snake_case_string)
    }
}

fn to_snake_from_camel_or_class(non_snake_case_string: String) -> (r: String)
    ensures
        r@ == camel_or_class_of(non_snake_case_string@),
{
    let ghost s = non_snake_case_string@;
    let mut result = String::new();
    let mut first_character: bool = true;
    for character in it: non_snake_case_string.as_str().chars()
        invariant
            it.seq() == s,
            first_character == (it.index() == 0),
            result@ == camel_or_class_of(s.take(it.index() as int)),
    {
        proof {
            let i = it.index() as int;
            assert(s.take(i + 1).drop_last() == s.take(i));
        }
        if !first_character && !('a' <= character && character <= 'z') {
            push_char(&mut result, '_');
            push_char(&mut result, to_ascii_upper(character));
        } else {
            push_char(&mut result, to_ascii_upper(character));
            first_character = false;
        }
        proof {
            assert(result@ =~= camel_or_class_of(s.take(it.index() + 1)));
        }
    }
    proof {
        assert(s.take(s.len() as int) == s);
    }
    result
}

fn to_snake_from_sentence_or_kebab(non_snake_case_string: String) -> (r: String)
    ensures
        r@ == sentence_or_kebab_of(non_snake_case_string@),
{
    let spaces_replaced = replace_char(non_snake_case_string.as_str(), ' ', '_');
    let hyphens_replaced = replace_char(spaces_replaced.as_str(), '-', '_');
    to_upper_case(hyphens_replaced.as_str())
}

/// Tells whether text is already in `SCREAMING_SNAKE_CASE`, that is, whether
/// converting it gives back the same text.
pub fn is_screaming_snake_case(test_string: String) -> (r: bool)
    ensures
        r == (screaming_snake_of(test_string@) == test_string@),
{
    let converted = to_screaming_snake_case(test_string.clone());
    converted == test_string
}

} // verus!
