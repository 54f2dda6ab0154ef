//! Completion of command names.

use vstd::prelude::*;
use vstd::seq_lib::{to_multiset_build, to_multiset_insert};
use vstd::std_specs::iter::IteratorSpec;
use crate::text::lemma_deep_view_push;

verus! {

/// The order of texts: character by character, by the characters' code
/// points; a text comes before every text that it is a proper beginning of.
pub open spec fn text_le(a: Seq<char>, b: Seq<char>) -> bool
    decreases a.len(),
{
    if a.len() == 0 {
        true
    } else if b.len() == 0 {
        false
    } else if a[0] != b[0] {
        a[0] < b[0]
    } else {
        text_le(a.skip(1), b.skip(1))
    }
}

/// Whether the first text comes before the second or equals it.
pub fn text_precedes(a: &str, b: &str) -> (le: bool)
    ensures
        le == text_le(a@, b@),
{
    broadcast use vstd::string::group_string_axioms;

    let mut left = a.chars();
    let mut right = b.chars();
    loop
        invariant
            left.obeys_prophetic_iter_laws(),
            right.obeys_prophetic_iter_laws(),
            left.decrease() is Some,
            text_le(a@, b@) == text_le(left.remaining(), right.remaining()),
        decreases left.decrease()->0,
    {
        let ghost rest_left = left.remaining();
        let ghost rest_right = right.remaining();
        match left.next() {
            None => {
                return true;
            },
            Some(p) => match right.next() {
                None => {
                    return false;
                },
                Some(q) => {
                    if p != q {
                        return p < q;
                    }
                    assert(rest_left.skip(1) =~= left.remaining());
                    assert(rest_right.skip(1) =~= right.remaining());
                },
            },
        }
    }
}

/// Of two different characters, one comes first.
proof fn lemma_char_order(c: char, d: char)
    requires
        c != d,
    ensures
        c < d || d < c,
{
}

/// Of two texts, one comes before the other or equals it.
pub proof fn lemma_text_le_total(a: Seq<char>, b: Seq<char>)
    ensures
        text_le(a, b) || text_le(b, a),
    decreases a.len(),
{
    if a.len() > 0 && b.len() > 0 {
        if a[0] == b[0] {
            lemma_text_le_total(a.skip(1), b.skip(1));
        } else {
            lemma_char_order(a[0], b[0]);
        }
    }
}

/// The order of texts is transitive.
pub proof fn lemma_text_le_transitive(a: Seq<char>, b: Seq<char>, c: Seq<char>)
    requires
        text_le(a, b),
        text_le(b, c),
    ensures
        text_le(a, c),
    decreases a.len(),
{
    if a.len() > 0 && a[0] == b[0] && b[0] == c[0] {
        lemma_text_le_transitive(a.skip(1), b.skip(1), c.skip(1));
    }
}

/// Whether the texts stand in ascending order.
pub open spec fn is_sorted(words: Seq<Seq<char>>) -> bool {
    forall|i: int, j: int| 0 <= i < j < words.len() ==> text_le(words[i], words[j])
}

/// The part of a line after its last space: the word that is being typed.
pub open spec fn last_word(line: Seq<char>) -> Seq<char>
    decreases line.len(),
{
    if line.len() == 0 || line.last() == ' ' {
        Seq::empty()
    } else {
        last_word(line.drop_last()).push(line.last())
    }
}

/// The names that begin with `word`, in the order in which they stand.
pub open spec fn matching(names: Seq<Seq<char>>, word: Seq<char>) -> Seq<Seq<char>>
    decreases names.len(),
{
    if names.len() == 0 {
        Seq::empty()
    } else if word.is_prefix_of(names.last()) {
        matching(names.drop_last(), word).push(names.last())
    } else {
        matching(names.drop_last(), word)
    }
}

/// Whether `text` begins with `prefix`.
pub fn begins_with(text: &str, prefix: &str) -> (begins: bool)
    ensures
        begins == prefix@.is_prefix_of(text@),
{
    broadcast use vstd::string::group_string_axioms;

    let mut left = prefix.chars();
    let mut right = text.chars();
    let ghost mut seen: Seq<char> = Seq::empty();
    loop
        invariant
            left.obeys_prophetic_iter_laws(),
            right.obeys_prophetic_iter_laws(),
            left.decrease() is Some,
            seen + left.remaining() == prefix@,
            seen + right.remaining() == text@,
        decreases left.decrease()->0,
    {
        let ghost rest_left = left.remaining();
        let ghost rest_right = right.remaining();
        match left.next() {
            None => {
                assert(prefix@ =~= seen);
                assert(text@.subrange(0, prefix@.len() as int) =~= prefix@);
                return true;
            },
            Some(p) => match right.next() {
                None => {
                    return false;
                },
                Some(q) => {
                    if p != q {
                        assert(prefix@[seen.len() as int] == rest_left[0]);
                        assert(text@[seen.len() as int] == rest_right[0]);
                        return false;
                    }
                    proof {
                        seen = seen.push(p);
                        assert(seen + left.remaining() =~= prefix@);
                        assert(seen + right.remaining() =~= text@);
                    }
                },
            },
        }
    }
}

/// Completes command names from a sorted list.
pub struct ShellCompleter {
    commands: Vec<String>,
}

impl View for ShellCompleter {
    type V = Seq<Seq<char>>;

    closed spec fn view(&self) -> Seq<Seq<char>> {
        self.commands.deep_view()
    }
}

/// The place at which `word` is put into a sorted list: behind everything that
/// comes before it or equals it.
fn insertion_point(sorted: &Vec<String>, word: &str) -> (at: usize)
    ensures
        at <= sorted.len(),
        forall|i: int| 0 <= i < at ==> text_le(#[trigger] sorted[i]@, word@),
        at < sorted.len() ==> !text_le(sorted[at as int]@, word@),
{
    let mut at: usize = 0;
    while at < sorted.len()
        invariant
            at <= sorted.len(),
            forall|i: int| 0 <= i < at ==> text_le(#[trigger] sorted[i]@, word@),
        ensures
            at <= sorted.len(),
            forall|i: int| 0 <= i < at ==> text_le(#[trigger] sorted[i]@, word@),
            at < sorted.len() ==> !text_le(sorted[at as int]@, word@),
        decreases sorted.len() - at,
    {
        if !text_precedes(sorted[at].as_str(), word) {
            break;
        }
        at += 1;
    }
    at
}

impl ShellCompleter {
    /// A completer for these command names. It keeps every name, as often as
    /// it was given, and holds them in ascending order.
    pub fn new(commands: Vec<String>) -> (completer: Self)
        ensures
            is_sorted(completer@),
            completer@.to_multiset() == commands.deep_view().to_multiset(),
    {
        let mut sorted: Vec<String> = Vec::new();
        let ghost all = commands.deep_view();
        assert(sorted.deep_view() =~= all.take(0));
        let mut i: usize = 0;
        while i < commands.len()
            invariant
                all == commands.deep_view(),
                i <= commands.len(),
                is_sorted(sorted.deep_view()),
                sorted.deep_view().to_multiset() == all.take(i as int).to_multiset(),
            decreases commands.len() - i,
        {
            let word = commands[i].clone();
            let at = insertion_point(&sorted, word.as_str());
            let ghost before = sorted.deep_view();
            sorted.insert(at, word);
            proof {
                let after = sorted.deep_view();
                assert(after =~= before.insert(at as int, word@));
                assert(all.take(i + 1) =~= all.take(i as int).push(word@));
                to_multiset_insert(before, at as int, word@);
                to_multiset_build(all.take(i as int), word@);
                assert forall|x: int, y: int| 0 <= x < y < after.len() implies text_le(
                    after[x],
                    after[y],
                ) by {
                    if y == at {
                        assert(after[x] == before[x]);
                    } else if x == at {
                        assert(after[y] == before[y - 1]);
                        lemma_text_le_total(before[at as int], word@);
                        if y - 1 > at {
                            lemma_text_le_transitive(word@, before[at as int], before[y - 1]);
                        }
                    } else {
                        let px = if x < at { x } else { x - 1 };
                        let py = if y < at { y } else { y - 1 };
                        assert(after[x] == before[px] && after[y] == before[py]);
                    }
                }
            }
            i += 1;
        }
        assert(all.take(i as int) =~= all);
        ShellCompleter { commands: sorted }
    }

    /// The command names, in ascending order.
    pub fn commands(&self) -> (commands: &Vec<String>)
        ensures
            commands.deep_view() == self@,
    {
        &self.commands
    }

    /// The word being typed at the end of `line`, and the command names that
    /// begin with it, in ascending order.
    pub fn complete(&self, line: &str) -> (result: (String, Vec<String>))
        ensures
            result.0@ == last_word(line@),
            result.1.deep_view() == matching(self@, last_word(line@)),
    {
        broadcast use vstd::string::group_string_axioms;

        let mut word = String::new();
        for c in iter: line.chars()
            invariant
                iter.seq() == line@,
                word@ == last_word(line@.take(iter.index() as int)),
        {
            let ghost after = line@.take(iter.index() + 1);
            assert(after.drop_last() =~= line@.take(iter.index() as int));
            assert(after.last() == c);
            if c == ' ' {
                word = String::new();
            } else {
                word.push(c);
            }
        }
        assert(line@.take(line@.len() as int) =~= line@);

        let mut found: Vec<String> = Vec::new();
        assert(found.deep_view() =~= matching(self@.take(0), word@));
        let mut i: usize = 0;
        while i < self.commands.len()
            invariant
                i <= self.commands.len(),
                found.deep_view() == matching(self@.take(i as int), word@),
            decreases self.commands.len() - i,
        {
            assert(self@.take(i + 1).drop_last() =~= self@.take(i as int));
            assert(self@.take(i + 1).last() == self.commands[i as int]@);
            if begins_with(self.commands[i].as_str(), word.as_str()) {
                let name = self.commands[i].clone();
                proof {
                    lemma_deep_view_push(found@, found@.push(name), name);
                }
                found.push(name);
            }
            i += 1;
        }
        assert(self@.take(i as int) =~= self@);
        (word, found)
    }
}

} // verus!
