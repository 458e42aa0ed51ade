//! Decisions of the submodule commands; running the version-control tool
//! is the caller's part.

use vstd::prelude::*;
use crate::text::views;

verus! {

/// The whitespace-separated words of `s`.
pub uninterp spec fn words_of(s: Seq<char>) -> Seq<Seq<char>>;

/// The lines of `s`.
pub uninterp spec fn lines_of(s: Seq<char>) -> Seq<Seq<char>>;

/// Relies on `str::split_whitespace`: a function of the text alone.
#[verifier::external_body]
fn split_words(s: &str) -> (r: Vec<String>)
    ensures
        views(r@) == words_of(s@),
{
    s.split_whitespace().map(|w| w.to_string()).collect()
}

/// Relies on `str::lines`: a function of the text alone.
#[verifier::external_body]
fn split_lines(s: &str) -> (r: Vec<String>)
    ensures
        views(r@) == lines_of(s@),
{
    s.lines().map(|l| l.to_string()).collect()
}

/// The submodule paths listed in `lines`: the second word of each line
/// that has one.
pub open spec fn paths_in(lines: Seq<Seq<char>>) -> Seq<Seq<char>>
    decreases lines.len(),
{
    if lines.len() == 0 {
        Seq::empty()
    } else {
        let rest = paths_in(lines.drop_last());
        let w = words_of(lines.last());
        if w.len() >= 2 { rest.push(w[1]) } else { rest }
    }
}

/// The submodule paths in the output of the version-control tool's
/// configuration query, one `key path` pair per line.
pub fn list(output: &str) -> (r: Vec<String>)
    ensures
        views(r@) == paths_in(lines_of(output@)),
{
    let lines = split_lines(output);
    let mut r: Vec<String> = Vec::new();
    let mut i: usize = 0;
    while i < lines.len()
        invariant
            i <= lines@.len(),
            views(lines@) == lines_of(output@),
            views(r@) == paths_in(views(lines@).subrange(0, i as int)),
        decreases lines@.len() - i,
    {
        let ghost before = views(r@);
        assert(views(lines@).subrange(0, i + 1).drop_last() =~= views(lines@).subrange(0, i as int));
        let words = split_words(lines[i].as_str());
        if words.len() >= 2 {
            r.push(words[1].clone());
            assert(views(r@) =~= before.push(words@[1]@));
        }
        i = i + 1;
    }
    assert(views(lines@).subrange(0, lines@.len() as int) =~= views(lines@));
    r
}

/// The arguments that update submodule `path`, from its remote where
/// `remote` holds.
pub fn update(path: &String, remote: bool) -> (r: Vec<String>)
    ensures
        views(r@) == if remote {
            seq!["submodule"@, "update"@, "--init"@, "--remote"@, path@]
        } else {
            seq!["submodule"@, "update"@, "--init"@, path@]
        },
{
    let mut r: Vec<String> = Vec::new();
    r.push("submodule".to_string());
    r.push("update".to_string());
    r.push("--init".to_string());
    if remote {
        r.push("--remote".to_string());
    }
    r.push(path.clone());
    proof {
        if remote {
            assert(views(r@) =~= seq!["submodule"@, "update"@, "--init"@, "--remote"@, path@]);
        } else {
            assert(views(r@) =~= seq!["submodule"@, "update"@, "--init"@, path@]);
        }
    }
    r
}

} // verus!
