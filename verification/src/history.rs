//! The rules of the query history list: no consecutive duplicates, the
//! newest-first display order, and removal of a chosen entry.
//!
//! Reading and writing the history file is the caller's business; these
//! functions only decide.

use vstd::prelude::*;
use vstd::string::*;
use crate::text::str_eq;

verus! {

/// What the history page asks its caller to do.
pub enum HistoryPageAction {
    Back,
    SelectQuery(String),
    DeleteQuery(String),
}

/// A query is saved unless it repeats the most recent entry.
pub fn should_save_query(history: &Vec<String>, query: &str) -> (r: bool)
    ensures
        r == (history@.len() == 0 || history@.last()@ != query@),
{
    if history.len() == 0 {
        true
    } else {
        !str_eq(history[history.len() - 1].as_str(), query)
    }
}

/// The history entry shown at a display position: the list is shown newest
/// first, so position 0 names the last entry. Out-of-range positions fall
/// back to the oldest entry.
pub open spec fn spec_display_index(len: int, selected: int) -> int {
    let last = if len >= 1 {
        len - 1
    } else {
        0
    };
    if selected <= last {
        last - selected
    } else {
        0
    }
}

/// Maps a display position to the index of the entry it shows.
pub fn history_display_index(len: usize, selected: usize) -> (r: usize)
    ensures
        r as int == spec_display_index(len as int, selected as int),
{
    let last = if len >= 1 {
        len - 1
    } else {
        0
    };
    if selected <= last {
        last - selected
    } else {
        0
    }
}

/// The position of the first entry equal to `q`, if one exists.
pub open spec fn first_match(history: Seq<Seq<char>>, q: Seq<char>) -> Option<int>
    decreases history.len(),
{
    if history.len() == 0 {
        None
    } else if history[0] == q {
        Some(0int)
    } else {
        match first_match(history.drop_first(), q) {
            Some(k) => Some(k + 1),
            None => None,
        }
    }
}

/// Removes the first entry equal to `query`, if any; otherwise leaves the
/// history as it was.
pub fn remove_first_match(history: &mut Vec<String>, query: &str)
    ensures
        final(history).deep_view() == (match first_match(old(history).deep_view(), query@) {
            Some(k) => old(history).deep_view().remove(k),
            None => old(history).deep_view(),
        }),
{
    let ghost all = history.deep_view();
    let mut i: usize = 0;
    proof {
        assert(all.skip(0) =~= all);
    }
    while i < history.len()
        invariant
            all == history.deep_view(),
            all == old(history).deep_view(),
            all.len() == history@.len(),
            i <= history@.len(),
            match first_match(all.skip(i as int), query@) {
                Some(k) => first_match(all, query@) == Some(k + i),
                None => first_match(all, query@) is None,
            },
        decreases history@.len() - i,
    {
        let ghost rest = all.skip(i as int);
        proof {
            assert(rest[0] == all[i as int]);
            assert(rest.drop_first() =~= all.skip(i as int + 1));
            assert(history@[i as int]@ == all[i as int]);
        }
        if str_eq(history[i].as_str(), query) {
            let ghost pre = history.deep_view();
            history.remove(i);
            proof {
                assert(first_match(all, query@) == Some(i as int));
                assert(history.deep_view() =~= pre.remove(i as int));
            }
            return;
        }
        i += 1;
    }
    proof {
        assert(all.skip(i as int) =~= Seq::<Seq<char>>::empty());
        assert(first_match(all, query@) is None);
    }
}

} // verus!
