//! The binary names that a manifest declares.

use crate::paths::opt_view;
use crate::resolve::views;
use vstd::prelude::*;

verus! {

/// The part of a manifest that names its binaries: the package name, and
/// the name given in each `[[bin]]` table, in declaration order (none where
/// a table gives no name).
#[derive(Debug)]
pub struct ManifestInfo {
    pub package_name: Option<String>,
    pub bin_names: Vec<Option<String>>,
}

/// The target is not a usable manifest.
#[derive(Clone, Copy, Debug, PartialEq, Eq, Structural)]
pub enum ManifestError {
    /// The manifest is missing, unreadable, malformed, or names no package
    /// or an unnamed binary.
    Invalid,
}

impl ManifestInfo {
    pub open spec fn package_spec(&self) -> Option<Seq<char>> {
        opt_view(self.package_name)
    }

    pub open spec fn bins_spec(&self) -> Seq<Option<Seq<char>>> {
        self.bin_names@.map_values(|b: Option<String>| opt_view(b))
    }
}

/// The binary names of a manifest: the declared binaries in order, or the
/// package name alone where none is declared. A manifest without a package
/// name, or with a binary that has no name, is invalid.
pub open spec fn names_spec(package: Option<Seq<char>>, bins: Seq<Option<Seq<char>>>) -> Result<
    Seq<Seq<char>>,
    ManifestError,
> {
    if package is None {
        Err(ManifestError::Invalid)
    } else if exists|i: int| 0 <= i < bins.len() && #[trigger] bins[i] is None {
        Err(ManifestError::Invalid)
    } else if bins.len() == 0 {
        Ok(seq![package->0])
    } else {
        Ok(bins.map_values(|b: Option<Seq<char>>| b->0))
    }
}

/// The names of the binaries that a manifest declares (see [`names_spec`]).
pub fn names_bin(info: &ManifestInfo) -> (r: Result<Vec<String>, ManifestError>)
    ensures
        match names_spec(info.package_spec(), info.bins_spec()) {
            Ok(ns) => r is Ok && views(r->Ok_0@) == ns,
            Err(e) => r == Err::<Vec<String>, ManifestError>(e),
        },
{
    let package = match &info.package_name {
        Some(p) => p,
        None => return Err(ManifestError::Invalid),
    };
    let mut names: Vec<String> = Vec::new();
    let mut i: usize = 0;
    while i < info.bin_names.len()
        invariant
            i <= info.bin_names@.len(),
            names@.len() == i,
            forall|k: int| 0 <= k < i ==> #[trigger] info.bins_spec()[k] is Some,
            forall|k: int| 0 <= k < i ==> Some(#[trigger] names@[k]@) == info.bins_spec()[k],
        decreases info.bin_names@.len() - i,
    {
        match &info.bin_names[i] {
            Some(n) => names.push(n.clone()),
            None => {
                assert(info.bins_spec()[i as int] is None);
                return Err(ManifestError::Invalid);
            },
        }
        i = i + 1;
    }
    if names.len() == 0 {
        let mut only: Vec<String> = Vec::new();
        only.push(package.clone());
        assert(views(only@) =~= seq![info.package_spec()->0]);
        return Ok(only);
    }
    assert(views(names@) =~= info.bins_spec().map_values(|b: Option<Seq<char>>| b->0));
    Ok(names)
}

} // verus!
