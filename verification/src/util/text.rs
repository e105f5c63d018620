//! Texts: whether two are the same, and which comes first.

use vstd::prelude::*;

verus! {

/// Whether a text comes before another in the order of a dictionary, by
/// the codes of the characters: a text comes before every text that it
/// begins.
pub open spec fn comes_before(text: Seq<char>, other: Seq<char>) -> bool
    decreases text.len(),
{
    if other.len() == 0 {
        false
    } else if text.len() == 0 {
        true
    } else if text[0] != other[0] {
        text[0] < other[0]
    } else {
        comes_before(text.skip(1), other.skip(1))
    }
}

/// No text comes before itself.
pub proof fn lemma_not_before_itself(text: Seq<char>)
    ensures
        !comes_before(text, text),
    decreases text.len(),
{
    if text.len() > 0 {
        lemma_not_before_itself(text.skip(1));
    }
}

/// A text that comes before a second, which comes before a third, comes
/// before the third.
pub proof fn lemma_before_chain(first: Seq<char>, second: Seq<char>, third: Seq<char>)
    requires
        comes_before(first, second),
        comes_before(second, third),
    ensures
        comes_before(first, third),
    decreases first.len(),
{
    if first.len() > 0 && first[0] == second[0] && second[0] == third[0] {
        lemma_before_chain(first.skip(1), second.skip(1), third.skip(1));
    }
}

/// Of two different texts one comes before the other.
pub proof fn lemma_one_before(text: Seq<char>, other: Seq<char>)
    requires
        text != other,
    ensures
        comes_before(text, other) || comes_before(other, text),
    decreases text.len(),
{
    if text.len() > 0 && other.len() > 0 && text[0] == other[0] {
        if text.skip(1) == other.skip(1) {
            assert(text =~= seq![text[0]] + text.skip(1));
            assert(other =~= seq![other[0]] + other.skip(1));
            assert(text == other);
        } else {
            lemma_one_before(text.skip(1), other.skip(1));
        }
    } else if text.len() == 0 && other.len() == 0 {
        assert(text =~= other);
    }
}

/// Whether two texts hold the same characters.
pub fn same_text(text: &str, other: &str) -> (same: bool)
    ensures
        same == (text@ == other@),
{
    let length = text.unicode_len();
    if length != other.unicode_len() {
        return false;
    }
    let mut i: usize = 0;
    while i < length
        invariant
            i <= length,
            length == text@.len(),
            length == other@.len(),
            forall|j: int| 0 <= j < i ==> text@[j] == other@[j],
        decreases length - i,
    {
        if text.get_char(i) != other.get_char(i) {
            return false;
        }
        i += 1;
    }
    assert(text@ =~= other@);
    true
}

/// Whether a text comes before another in the order of a dictionary.
#[verifier::loop_isolation(false)]
pub fn text_before(text: &str, other: &str) -> (before: bool)
    ensures
        before == comes_before(text@, other@),
{
    let first = crate::parser::lexer::characters(text);
    let second = crate::parser::lexer::characters(other);
    let mut i: usize = 0;
    assert(first@.skip(0) =~= first@);
    assert(second@.skip(0) =~= second@);
    while i < first.len() && i < second.len() && first[i] == second[i]
        invariant
            i <= first.len(),
            i <= second.len(),
            comes_before(first@.skip(i as int), second@.skip(i as int)) == comes_before(
                text@,
                other@,
            ),
        decreases first.len() - i,
    {
        assert(first@.skip(i as int).skip(1) =~= first@.skip(i + 1));
        assert(second@.skip(i as int).skip(1) =~= second@.skip(i + 1));
        i += 1;
    }
    if i >= second.len() {
        false
    } else if i >= first.len() {
        true
    } else {
        first[i] < second[i]
    }
}

} // verus!
