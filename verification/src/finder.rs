//! Rules of the search path.

use vstd::prelude::*;
use crate::text::lemma_deep_view_push;

verus! {

/// The permission bits that let someone execute a file: owner, group, others.
pub const EXECUTE_BITS: u32 = 0o111;

/// The directories named by `text` up to its end, the one under construction
/// last: a colon ends a directory, any other character belongs to it.
pub open spec fn path_entries(text: Seq<char>) -> Seq<Seq<char>>
    decreases text.len(),
{
    if text.len() == 0 {
        seq![Seq::empty()]
    } else {
        let before = path_entries(text.drop_last());
        if text.last() == ':' {
            before.push(Seq::empty())
        } else {
            before.drop_last().push(before.last().push(text.last()))
        }
    }
}

/// Finds what can be executed.
pub struct ExecutablesFinder {}

impl ExecutablesFinder {
    pub fn new() -> (finder: Self) {
        ExecutablesFinder {  }
    }

    /// The directories of a search path, in the order in which they are
    /// listed. Colons separate them; an empty piece is kept as an empty
    /// directory name.
    pub fn directories(&self, path: &str) -> (entries: Vec<String>)
        ensures
            entries.deep_view() == path_entries(path@),
    {
        broadcast use vstd::string::group_string_axioms;

        let mut done: Vec<String> = Vec::new();
        let mut current = String::new();
        assert(done.deep_view().push(current@) =~= path_entries(path@.take(0)));
        for c in iter: path.chars()
            invariant
                iter.seq() == path@,
                done.deep_view().push(current@) == path_entries(
                    path@.take(iter.index() as int),
                ),
        {
            let ghost before = path@.take(iter.index() as int);
            let ghost after = path@.take(iter.index() + 1);
            assert(after.drop_last() =~= before);
            assert(after.last() == c);
            let ghost entries = done.deep_view().push(current@);
            assert(entries.drop_last() =~= done.deep_view());
            if c == ':' {
                let mut entry = String::new();
                std::mem::swap(&mut current, &mut entry);
                proof {
                    lemma_deep_view_push(done@, done@.push(entry), entry);
                }
                done.push(entry);
            } else {
                current.push(c);
            }
        }
        assert(path@.take(path@.len() as int) =~= path@);
        proof {
            lemma_deep_view_push(done@, done@.push(current), current);
        }
        done.push(current);
        done
    }

    /// Whether something with these properties counts as an executable: it
    /// must be a regular file, and at least one of the three permission bits
    /// for execution must be set in its mode.
    pub fn is_executable(&self, is_file: bool, mode: u32) -> (executable: bool)
        ensures
            executable == (is_file && mode & EXECUTE_BITS != 0),
    {
        is_file && mode & EXECUTE_BITS != 0
    }
}

} // verus!
