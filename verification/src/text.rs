//! Text as sequences of characters.
//!
//! Every contract in this crate speaks of a string through its view, a
//! `Seq<char>`, and of a list of words through its deep view, a
//! `Seq<Seq<char>>`. This module holds the few string utilities the rest of the
//! crate is built from, each with a contract over those views.

use vstd::prelude::*;
use vstd::std_specs::iter::IteratorSpec;
use vstd::string::StringExecFns;

verus! {

/// Trusted: `String::push` of the standard library, which appends the given
/// character to the end of the string and changes nothing else.
pub assume_specification[ String::push ](s: &mut String, ch: char)
    ensures
        final(s)@ == old(s)@.push(ch),
;

/// The words joined into one text, with a single space between neighbours.
pub open spec fn join(words: Seq<Seq<char>>) -> Seq<char>
    decreases words.len(),
{
    if words.len() == 0 {
        Seq::empty()
    } else if words.len() == 1 {
        words[0]
    } else {
        join(words.drop_last()) + seq![' '] + words.last()
    }
}

/// Pushing an element onto a vector pushes its deep view onto the deep view.
pub proof fn lemma_deep_view_push<T: DeepView>(before: Seq<T>, after: Seq<T>, last: T)
    requires
        after == before.push(last),
    ensures
        Seq::new(after.len(), |i: int| after[i].deep_view()) == Seq::new(
            before.len(),
            |i: int| before[i].deep_view(),
        ).push(last.deep_view()),
{
    assert(Seq::new(after.len(), |i: int| after[i].deep_view()) =~= Seq::new(
        before.len(),
        |i: int| before[i].deep_view(),
    ).push(last.deep_view()));
}

/// Whether two strings hold the same characters.
pub fn same_text(a: &str, b: &str) -> (same: bool)
    ensures
        same == (a@ == b@),
{
    broadcast use vstd::string::group_string_axioms;

    let mut left = a.chars();
    let mut right = b.chars();
    let ghost mut seen: Seq<char> = Seq::empty();
    loop
        invariant
            left.obeys_prophetic_iter_laws(),
            right.obeys_prophetic_iter_laws(),
            left.decrease() is Some,
            seen + left.remaining() == a@,
            seen + right.remaining() == b@,
        decreases left.decrease()->0,
    {
        let ghost rest_left = left.remaining();
        let ghost rest_right = right.remaining();
        let x = left.next();
        let y = right.next();
        match (x, y) {
            (Some(p), Some(q)) => {
                if p != q {
                    assert(a@[seen.len() as int] == rest_left[0]);
                    assert(b@[seen.len() as int] == rest_right[0]);
                    return false;
                }
                proof {
                    seen = seen.push(p);
                    assert(seen + left.remaining() =~= a@);
                    assert(seen + right.remaining() =~= b@);
                }
            },
            (None, None) => {
                return true;
            },
            _ => {
                assert(a@.len() != b@.len());
                return false;
            },
        }
    }
}

/// Joins the words with single spaces.
pub fn join_words(words: &[String]) -> (text: String)
    ensures
        text@ == join(words.deep_view()),
{
    let mut text = String::new();
    let mut i: usize = 0;
    while i < words.len()
        invariant
            i <= words.len(),
            text@ == join(words.deep_view().take(i as int)),
        decreases words.len() - i,
    {
        let ghost before = words.deep_view().take(i as int);
        let ghost after = words.deep_view().take(i + 1);
        assert(after.drop_last() =~= before);
        assert(after.last() == words[i as int]@);
        if i > 0 {
            text.push(' ');
        }
        text.append(words[i].as_str());
        assert(text@ =~= join(after));
        i += 1;
    }
    assert(words.deep_view().take(i as int) =~= words.deep_view());
    text
}

/// The characters of a string, in order.
pub fn chars_of(text: &str) -> (chars: Vec<char>)
    ensures
        chars@ == text@,
{
    broadcast use vstd::string::group_string_axioms;

    let mut chars: Vec<char> = Vec::new();
    for c in iter: text.chars()
        invariant
            iter.seq() == text@,
            chars@ == text@.take(iter.index() as int),
    {
        chars.push(c);
        assert(chars@ =~= text@.take(iter.index() + 1));
    }
    assert(text@.take(text@.len() as int) =~= text@);
    chars
}

/// The string made of the characters from position `start` on.
pub(crate) fn text_from(chars: &Vec<char>, start: usize) -> (text: String)
    requires
        start <= chars.len(),
    ensures
        text@ == chars@.skip(start as int),
{
    let mut text = String::new();
    let mut i: usize = start;
    while i < chars.len()
        invariant
            start <= i <= chars.len(),
            text@ == chars@.subrange(start as int, i as int),
        decreases chars.len() - i,
    {
        text.push(chars[i]);
        assert(text@ =~= chars@.subrange(start as int, i + 1));
        i += 1;
    }
    assert(chars@.subrange(start as int, i as int) =~= chars@.skip(start as int));
    text
}

/// A copy of each word, in the same order.
pub fn copy_words(words: &[String]) -> (copy: Vec<String>)
    ensures
        copy.deep_view() == words.deep_view(),
{
    let mut copy: Vec<String> = Vec::new();
    let mut i: usize = 0;
    while i < words.len()
        invariant
            i <= words.len(),
            copy.deep_view() == words.deep_view().take(i as int),
        decreases words.len() - i,
    {
        let word = words[i].clone();
        proof {
            lemma_deep_view_push(copy@, copy@.push(word), word);
            assert(words.deep_view().take(i as int).push(word@) =~= words.deep_view().take(i + 1));
        }
        copy.push(word);
        i += 1;
    }
    assert(words.deep_view().take(i as int) =~= words.deep_view());
    copy
}

} // verus!
