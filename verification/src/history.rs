//! The lines entered so far.

use vstd::prelude::*;
use crate::text::lemma_deep_view_push;

verus! {

/// The input lines of a session, oldest first.
pub struct History {
    pub items: Vec<String>,
}

impl History {
    /// A history without lines.
    pub fn new() -> (history: Self)
        ensures
            history.items.deep_view() == Seq::<Seq<char>>::empty(),
    {
        let items: Vec<String> = Vec::new();
        assert(items.deep_view() =~= Seq::<Seq<char>>::empty());
        History { items }
    }

    /// Adds a line at the end.
    pub fn add_history_item(&mut self, line: &str)
        ensures
            final(self).items.deep_view() == old(self).items.deep_view().push(line@),
    {
        let item = line.to_owned();
        proof {
            lemma_deep_view_push(self.items@, self.items@.push(item), item);
        }
        self.items.push(item);
    }
}

} // verus!
