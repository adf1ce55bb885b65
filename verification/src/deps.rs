//! Which dependency crates are scanned for type definitions.

use vstd::prelude::*;
use crate::config::{TerraffiConfig, name_set, contains_name};
use crate::text::{str_eq, copy_string};

verus! {

/// A direct dependency of the crate, as the package metadata describes it.
pub struct DependencyCandidate {
    /// The dependency's name, as the manifest declares it.
    pub name: String,
    /// Whether a package of that name, other than the crate itself, is known.
    pub package_found: bool,
    /// Whether the package is a local one, not from a registry or a repository.
    pub is_local: bool,
    /// The `src` directory next to the package's manifest.
    pub src_dir: String,
    /// Whether that directory exists.
    pub src_dir_exists: bool,
}

/// Whether `name` is one of the crates of the generator itself, whose
/// types are never scanned.
pub open spec fn is_own_crate(name: Seq<char>) -> bool {
    name == "terraffi_ctypes"@ || name == "terraffi_gen"@ || name == "terraffi_helpers"@ || name == "terraffi_macro"@
}

/// Whether a dependency is scanned: a known, local package with a `src`
/// directory, neither one of the generator's own crates nor excluded.
pub open spec fn is_scanned(c: DependencyCandidate, excluded: Set<Seq<char>>) -> bool {
    &&& !is_own_crate(c.name@)
    &&& c.package_found
    &&& !excluded.contains(c.name@)
    &&& c.is_local
    &&& c.src_dir_exists
}

/// The `src` directories of the scanned dependencies, in declaration order.
pub open spec fn scanned_dirs(cs: Seq<DependencyCandidate>, excluded: Set<Seq<char>>) -> Seq<Seq<char>>
    decreases cs.len(),
{
    if cs.len() == 0 {
        Seq::empty()
    } else if is_scanned(cs.last(), excluded) {
        scanned_dirs(cs.drop_last(), excluded).push(cs.last().src_dir@)
    } else {
        scanned_dirs(cs.drop_last(), excluded)
    }
}

/// The `src` directories of the dependencies to scan (see [`is_scanned`]).
pub fn dependency_source_dirs(candidates: &Vec<DependencyCandidate>, config: &TerraffiConfig) -> (r: Vec<String>)
    ensures
        r@.map_values(|s: String| s@) == scanned_dirs(candidates@, name_set(config.exclude_crates@)),
{
    let mut out: Vec<String> = Vec::new();
    let mut i: usize = 0;
    while i < candidates.len()
        invariant
            i <= candidates@.len(),
            out@.map_values(|s: String| s@) == scanned_dirs(
                candidates@.subrange(0, i as int),
                name_set(config.exclude_crates@),
            ),
        decreases candidates.len() - i,
    {
        assert(candidates@.subrange(0, i + 1).drop_last() =~= candidates@.subrange(0, i as int));
        let c = &candidates[i];
        let n = c.name.as_str();
        let own = str_eq(n, "terraffi_ctypes") || str_eq(n, "terraffi_gen") || str_eq(n, "terraffi_helpers")
            || str_eq(n, "terraffi_macro");
        if !own && c.package_found && !contains_name(&config.exclude_crates, n) && c.is_local && c.src_dir_exists {
            out.push(copy_string(&c.src_dir));
        }
        i = i + 1;
        assert(out@.map_values(|s: String| s@) =~= scanned_dirs(
            candidates@.subrange(0, i as int),
            name_set(config.exclude_crates@),
        ));
    }
    assert(candidates@.subrange(0, candidates@.len() as int) =~= candidates@);
    out
}

} // verus!
