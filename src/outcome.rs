//! Where the candidate names come from, and the status a run ends with.

use crate::manifest::ManifestError;
use vstd::prelude::*;

verus! {

/// At least one executable was found.
pub const STATUS_OK: i32 = 0;

/// The project is valid but no executable was found.
pub const STATUS_NO_BIN: i32 = 1;

/// The target is not a valid project.
pub const STATUS_NO_PROJECT: i32 = 2;

/// Where the candidate names of a run come from.
#[derive(Debug)]
pub enum NameSource {
    /// The names given on the command line; the manifest is not read.
    Given(Vec<String>),
    /// The names that the manifest declares.
    Manifest,
}

/// Names given on the command line replace the manifest's; only where
/// none are given is the manifest read.
pub fn name_source(overrides: Vec<String>) -> (r: NameSource)
    ensures
        overrides@.len() > 0 ==> r == NameSource::Given(overrides),
        overrides@.len() == 0 ==> r is Manifest,
{
    if overrides.len() > 0 {
        NameSource::Given(overrides)
    } else {
        NameSource::Manifest
    }
}

/// The status of a run that settled on `names` and found `found` paths.
pub open spec fn status_spec(names: Result<Seq<Seq<char>>, ManifestError>, found: nat) -> i32 {
    match names {
        Err(_) => STATUS_NO_PROJECT,
        Ok(ns) => if ns.len() == 0 || found == 0 {
            STATUS_NO_BIN
        } else {
            STATUS_OK
        },
    }
}

/// The status of a run: no project where the names could not be had, no
/// binary where there were no names or nothing was found, success otherwise.
pub fn exit_status(names: &Result<Vec<String>, ManifestError>, found: usize) -> (r: i32)
    ensures
        r == status_spec(
            match names {
                Ok(ns) => Ok(crate::resolve::views(ns@)),
                Err(e) => Err(*e),
            },
            found as nat,
        ),
{
    match names {
        Err(_) => STATUS_NO_PROJECT,
        Ok(ns) => if ns.len() == 0 || found == 0 {
            STATUS_NO_BIN
        } else {
            STATUS_OK
        },
    }
}

} // verus!
