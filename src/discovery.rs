//! Finding the widest manifest above a directory, and member lists.
//!
//! The search walks from a directory up to the filesystem root. Each
//! directory that holds a manifest scores by tier; the search keeps the
//! outermost directory with the best score seen so far and stops at the
//! first directory whose score falls below it.

use vstd::prelude::*;
use crate::text::{contains_str, views};

verus! {

/// The result of the search over `scores` (one per directory, innermost
/// first, `None` where no manifest loads) from position `i` on, with `best`
/// the position and score kept so far.
pub open spec fn widest_after(scores: Seq<Option<u8>>, best: Option<(int, u8)>, i: int) -> Option<(int, u8)>
    decreases scores.len() - i,
{
    if i < 0 || i >= scores.len() {
        best
    } else {
        match scores[i] {
            None => widest_after(scores, best, i + 1),
            Some(s) => match best {
                Some(b) => if s < b.1 {
                    best
                } else {
                    widest_after(scores, Some((i, s)), i + 1)
                },
                None => widest_after(scores, Some((i, s)), i + 1),
            },
        }
    }
}

/// The position that the search over `scores` settles on.
pub open spec fn widest(scores: Seq<Option<u8>>) -> Option<int> {
    match widest_after(scores, None, 0) {
        Some(b) => Some(b.0),
        None => None,
    }
}

/// One step of the search: what it keeps after seeing `score` at position
/// `index`, and whether it goes on upward.
pub fn widest_step(best: Option<(usize, u8)>, index: usize, score: Option<u8>) -> (r: (Option<(usize, u8)>, bool))
    ensures
        match score {
            None => r == (best, true),
            Some(s) => match best {
                Some(b) => if s < b.1 {
                    r == (best, false)
                } else {
                    r == (Some((index, s)), true)
                },
                None => r == (Some((index, s)), true),
            },
        },
{
    match score {
        None => (best, true),
        Some(s) => match best {
            Some(b) => if s < b.1 {
                (best, false)
            } else {
                (Some((index, s)), true)
            },
            None => (Some((index, s)), true),
        },
    }
}

/// The position, among directories from innermost to outermost with the
/// tier score of each (`None` where none loads), of the widest manifest.
pub fn find_widest_manifest(scores: &Vec<Option<u8>>) -> (r: Option<usize>)
    ensures
        match r {
            Some(i) => widest(scores@) == Some(i as int),
            None => widest(scores@) is None,
        },
{
    let mut best: Option<(usize, u8)> = None;
    let mut i: usize = 0;
    while i < scores.len()
        invariant
            i <= scores@.len(),
            widest_after(scores@, None, 0) == widest_after(scores@, match best {
                Some(b) => Some((b.0 as int, b.1)),
                None => None,
            }, i as int),
        decreases scores@.len() - i,
    {
        let (next, go_on) = widest_step(best, i, scores[i]);
        if !go_on {
            return match best {
                Some(b) => Some(b.0),
                None => None,
            };
        }
        best = next;
        i = i + 1;
    }
    match best {
        Some(b) => Some(b.0),
        None => None,
    }
}

/// The members found for the member patterns, less those found for the
/// exclude patterns, in their order.
pub fn subtract_excluded(included: &Vec<String>, excluded: &Vec<String>) -> (r: Vec<String>)
    ensures
        views(r@) == views(included@).filter(|p: Seq<char>| !views(excluded@).contains(p)),
{
    let mut r: Vec<String> = Vec::new();
    let mut i: usize = 0;
    while i < included.len()
        invariant
            i <= included@.len(),
            views(r@) == views(included@.subrange(0, i as int)).filter(|p: Seq<char>| !views(excluded@).contains(p)),
        decreases included@.len() - i,
    {
        let ghost before = r@;
        assert(views(included@.subrange(0, i + 1)).drop_last() =~= views(included@.subrange(0, i as int)));
        reveal(Seq::filter);
        if !contains_str(excluded, &included[i]) {
            r.push(included[i].clone());
            assert(views(r@) =~= views(before).push(included@[i as int]@));
        }
        i = i + 1;
    }
    assert(included@.subrange(0, included@.len() as int) =~= included@);
    r
}

} // verus!
