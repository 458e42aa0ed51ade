//! Choosing the tier of a new manifest from where it is created.

use vstd::prelude::*;
use crate::config::MagnetConfigType;
use crate::text::{contains_str, views};

verus! {

/// The tier for a new manifest in a directory whose path has the named
/// components `components`, with or without a `src` and a `crates`
/// subdirectory: a directory under a `nexus` directory, or one holding
/// `crates` without being inside one, is a nexus; one holding `crates`, or
/// holding no sources outside any `crates` directory, is a workspace; the
/// rest are packages.
pub open spec fn detected_type(components: Seq<Seq<char>>, has_src_dir: bool, has_crates_dir: bool) -> MagnetConfigType {
    let crates = seq!['c', 'r', 'a', 't', 'e', 's'];
    let nexus = seq!['n', 'e', 'x', 'u', 's'];
    let in_crates = components.contains(crates) && components.len() > 0 && components.last() != crates;
    let in_nexus = components.contains(nexus);
    if in_nexus || (has_crates_dir && !in_crates) {
        MagnetConfigType::Nexus
    } else if has_crates_dir || (!in_crates && !has_src_dir) {
        MagnetConfigType::Workspace
    } else {
        MagnetConfigType::Package
    }
}

/// The tier for a new manifest; see [`detected_type`].
pub fn detect_config_type_from_path(components: &Vec<String>, has_src_dir: bool, has_crates_dir: bool) -> (r: MagnetConfigType)
    ensures
        r == detected_type(views(components@), has_src_dir, has_crates_dir),
{
    proof {
        reveal_strlit("crates");
        reveal_strlit("nexus");
    }
    let crates = "crates".to_string();
    let nexus = "nexus".to_string();
    assert(crates@ =~= seq!['c', 'r', 'a', 't', 'e', 's']);
    assert(nexus@ =~= seq!['n', 'e', 'x', 'u', 's']);
    let n = components.len();
    let in_crates = contains_str(components, &crates) && n > 0 && !(components[n - 1] == crates);
    proof {
        if n > 0 {
            assert(views(components@).last() == components@[n - 1]@);
        }
    }
    let in_nexus = contains_str(components, &nexus);
    if in_nexus || (has_crates_dir && !in_crates) {
        MagnetConfigType::Nexus
    } else if has_crates_dir || (!in_crates && !has_src_dir) {
        MagnetConfigType::Workspace
    } else {
        MagnetConfigType::Package
    }
}

} // verus!
