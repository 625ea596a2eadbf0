//! Addon prefixes: names that stand for the directory of a module.

use vstd::prelude::*;
use crate::paths::matches_prefix;
use crate::paths::prefix_matches;

verus! {

/// The prefixes that a project declares, each with the directory that it
/// stands for, in the order of declaration.
#[derive(Debug, Clone, PartialEq, Eq)]
pub struct PrefixMap {
    entries: Vec<(String, String)>,
}

/// The first index at or after `from` whose prefix is the leading segment
/// of `target`, or the number of entries when there is none.
pub open spec fn first_match_from(
    entries: Seq<(Seq<char>, Seq<char>)>,
    target: Seq<char>,
    from: int,
) -> int
    decreases entries.len() - from,
{
    if from < 0 || from >= entries.len() || prefix_matches(entries[from].0, target) {
        from
    } else {
        first_match_from(entries, target, from + 1)
    }
}

/// The index of the entry that `target` is resolved through: the first one,
/// in the order of declaration, whose prefix is the leading segment of
/// `target`.
pub open spec fn first_match(entries: Seq<(Seq<char>, Seq<char>)>, target: Seq<char>) -> Option<
    int,
> {
    let at = first_match_from(entries, target, 0);
    if at < entries.len() {
        Some(at)
    } else {
        None
    }
}

/// The entry found from `from` on matches, and none between `from` and it
/// does.
proof fn lemma_first_match_from(
    entries: Seq<(Seq<char>, Seq<char>)>,
    target: Seq<char>,
    from: int,
)
    requires
        0 <= from <= entries.len(),
    ensures
        from <= first_match_from(entries, target, from) <= entries.len(),
        first_match_from(entries, target, from) < entries.len() ==> prefix_matches(
            entries[first_match_from(entries, target, from)].0,
            target,
        ),
        forall|i: int|
            from <= i < first_match_from(entries, target, from) ==> !prefix_matches(
                #[trigger] entries[i].0,
                target,
            ),
    decreases entries.len() - from,
{
    if from < entries.len() && !prefix_matches(entries[from].0, target) {
        lemma_first_match_from(entries, target, from + 1);
    }
}

/// The first matching prefix in the order of declaration wins, whatever
/// follows it; and a prefix matches only as a whole segment.
pub proof fn law_first_match_wins(entries: Seq<(Seq<char>, Seq<char>)>, target: Seq<char>)
    ensures
        match first_match(entries, target) {
            Some(at) => {
                &&& 0 <= at < entries.len()
                &&& prefix_matches(entries[at].0, target)
                &&& forall|i: int| 0 <= i < at ==> !prefix_matches(#[trigger] entries[i].0, target)
            },
            None => forall|i: int|
                0 <= i < entries.len() ==> !prefix_matches(#[trigger] entries[i].0, target),
        },
{
    lemma_first_match_from(entries, target, 0);
}

/// Entries that are declared after the one that matches do not change
/// which one is found.
pub proof fn law_later_entries_are_shadowed(
    entries: Seq<(Seq<char>, Seq<char>)>,
    later: Seq<(Seq<char>, Seq<char>)>,
    target: Seq<char>,
)
    requires
        first_match(entries, target) is Some,
    ensures
        first_match(entries + later, target) == first_match(entries, target),
{
    let all = entries + later;
    lemma_first_match_from(entries, target, 0);
    lemma_first_match_from(all, target, 0);
    let at = first_match_from(entries, target, 0);
    let found = first_match_from(all, target, 0);
    assert(all[at] == entries[at]);
    if found < at {
        assert(all[found] == entries[found]);
    }
}

impl View for PrefixMap {
    type V = Seq<(Seq<char>, Seq<char>)>;

    closed spec fn view(&self) -> Seq<(Seq<char>, Seq<char>)> {
        Seq::new(
            self.entries.len() as nat,
            |i: int| (self.entries[i].0@, self.entries[i].1@),
        )
    }
}

impl PrefixMap {
    /// A map without entries.
    pub fn new() -> (map: Self)
        ensures
            map@ == Seq::<(Seq<char>, Seq<char>)>::empty(),
    {
        let map = PrefixMap { entries: Vec::new() };
        assert(map@ =~= Seq::empty());
        map
    }

    /// Declares `prefix` to stand for `directory`, after the entries that
    /// are already there.
    pub fn insert(&mut self, prefix: String, directory: String)
        ensures
            final(self)@ == old(self)@.push((prefix@, directory@)),
    {
        self.entries.push((prefix, directory));
        assert(self@ =~= old(self)@.push((prefix@, directory@)));
    }

    /// The number of entries.
    pub fn len(&self) -> (len: usize)
        ensures
            len == self@.len(),
    {
        self.entries.len()
    }

    /// The entries, in the order of declaration.
    pub fn inner(&self) -> (entries: &Vec<(String, String)>)
        ensures
            entries.len() == self@.len(),
            forall|i: int|
                0 <= i < entries.len() ==> (#[trigger] entries[i]).0@ == self@[i].0
                    && entries[i].1@ == self@[i].1,
    {
        &self.entries
    }

    /// The index of the entry that `target` is resolved through, if any.
    pub fn find(&self, target: &str) -> (found: Option<usize>)
        ensures
            match found {
                Some(at) => first_match(self@, target@) == Some(at as int),
                None => first_match(self@, target@) is None,
            },
    {
        let mut at: usize = 0;
        while at < self.entries.len()
            invariant
                at <= self.entries.len(),
                first_match_from(self@, target@, 0) == first_match_from(self@, target@, at as int),
            decreases self.entries.len() - at,
        {
            if matches_prefix(self.entries[at].0.as_str(), target) {
                return Some(at);
            }
            at += 1;
        }
        None
    }
}

} // verus!
