//! Operations on texts that the pipeline shares: replacing, putting a text
//! on one line, and testing the end of a text.

use vstd::prelude::*;

verus! {

/// A text in which every occurrence of a pattern, found from left to right
/// without overlap, has given way to a replacement. The pattern is not
/// empty.
pub open spec fn replaced(text: Seq<char>, from: Seq<char>, to: Seq<char>) -> Seq<char>
    decreases text.len(),
{
    if from.len() == 0 || text.len() < from.len() {
        text
    } else if text.subrange(0, from.len() as int) == from {
        to + replaced(text.skip(from.len() as int), from, to)
    } else {
        seq![text[0]] + replaced(text.skip(1), from, to)
    }
}

/// Whether a character is white space: whether it has the Unicode property
/// `White_Space`.
pub uninterp spec fn is_white_space(c: char) -> bool;

/// A text on one line: its words, each behind one space. A word is a run of
/// characters that are no white space; the white space between, before and
/// behind the words is left out.
pub open spec fn squeezed(text: Seq<char>) -> Seq<char>
    decreases text.len(),
{
    if text.len() == 0 {
        Seq::empty()
    } else if is_white_space(text.last()) {
        squeezed(text.drop_last())
    } else if text.len() >= 2 && !is_white_space(text[text.len() - 2]) {
        squeezed(text.drop_last()).push(text.last())
    } else {
        squeezed(text.drop_last()).push(' ').push(text.last())
    }
}

/// Whether a text ends with another.
pub open spec fn has_suffix(text: Seq<char>, suffix: Seq<char>) -> bool {
    text.len() >= suffix.len() && text.skip(text.len() - suffix.len()) == suffix
}

/// Calls `str::replace` of the standard library, which replaces all matches
/// of a pattern in a text. The matches of a text pattern are found from left
/// to right and do not overlap.
#[verifier::external_body]
pub(crate) fn replace_text(text: &str, from: &str, to: &str) -> (result: String)
    requires
        from@.len() > 0,
    ensures
        result@ == replaced(text@, from@, to@),
{
    text.replace(from, to)
}

/// Calls `char::is_whitespace` of the standard library, which says whether
/// a character has the property `White_Space`.
#[verifier::external_body]
pub(crate) fn is_whitespace(c: char) -> (white: bool)
    ensures
        white == is_white_space(c),
{
    c.is_whitespace()
}

/// Calls `String::push` of the standard library, which appends a character
/// to the end of a string.
#[verifier::external_body]
pub(crate) fn push_char(text: &mut String, c: char)
    ensures
        final(text)@ == old(text)@.push(c),
{
    text.push(c)
}

/// Appends to a line the words of a text, each behind one space.
pub fn squeeze_onto(line: &mut String, text: &str)
    ensures
        final(line)@ == old(line)@ + squeezed(text@),
{
    let ghost before = line@;
    let mut in_word = false;
    assert(text@.take(0) =~= Seq::<char>::empty());
    for c in it: text.chars()
        invariant
            it.seq() == text@,
            line@ == before + squeezed(text@.take(it.index() as int)),
            in_word == (it.index() > 0 && !is_white_space(text@[it.index() - 1])),
    {
        proof {
            let upto = text@.take(it.index() + 1);
            assert(upto.drop_last() =~= text@.take(it.index() as int));
        }
        if is_whitespace(c) {
            in_word = false;
        } else {
            if !in_word {
                push_char(line, ' ');
            }
            push_char(line, c);
            in_word = true;
        }
    }
    assert(text@.take(text@.len() as int) =~= text@);
}

/// A text on one line: its words, each behind one space.
pub fn squeeze(text: &str) -> (line: String)
    ensures
        line@ == squeezed(text@),
{
    let mut line = String::new();
    squeeze_onto(&mut line, text);
    line
}

/// On a squeezed line the only white space is a single space in front of
/// each word: a character of the line that is white space is a space, is
/// not the last, and the character behind it is no white space. The line is
/// at most twice as long as the text.
pub proof fn lemma_squeezed_is_one_line(text: Seq<char>)
    ensures
        squeezed(text).len() <= 2 * text.len(),
        squeezed(text).len() > 0 ==> !is_white_space(squeezed(text).last()),
        forall|i: int|
            0 <= i < squeezed(text).len() && is_white_space(#[trigger] squeezed(text)[i]) ==> {
                &&& squeezed(text)[i] == ' '
                &&& i + 1 < squeezed(text).len()
                &&& !is_white_space(squeezed(text)[i + 1])
            },
    decreases text.len(),
{
    if text.len() > 0 {
        lemma_squeezed_is_one_line(text.drop_last());
    }
}

/// Whether a text ends with another.
pub fn ends_with(text: &str, suffix: &str) -> (found: bool)
    ensures
        found == has_suffix(text@, suffix@),
{
    let length = text.unicode_len();
    let wanted = suffix.unicode_len();
    if length < wanted {
        return false;
    }
    let tail = text.substring_char(length - wanted, length);
    String::from_str(tail) == String::from_str(suffix)
}

} // verus!
