//! Laws that relate the resolver's results across modes, names and runs.

use crate::outcome::{status_spec, STATUS_NO_BIN, STATUS_NO_PROJECT};
use crate::resolve::{
    candidate_spec, candidates_spec, eligible, found_spec, latest_spec,
    lemma_latest_is_first_maximum, present, resolved, Entry, FileInfo, Mode,
};
use vstd::prelude::*;

verus! {

/// Where every probe finds an eligible file, every path is reported.
proof fn lemma_found_all(paths: Seq<Seq<char>>, probes: Seq<Option<FileInfo>>)
    requires
        paths.len() == probes.len(),
        forall|i: int| 0 <= i < probes.len() ==> present(#[trigger] probes[i]),
    ensures
        found_spec(paths, probes) == paths,
    decreases paths.len(),
{
    if paths.len() > 0 {
        let pd = probes.drop_last();
        assert forall|i: int| 0 <= i < pd.len() implies present(#[trigger] pd[i]) by {
            assert(pd[i] == probes[i]);
        }
        lemma_found_all(paths.drop_last(), pd);
        assert(paths.drop_last().push(paths.last()) =~= paths);
    }
}

/// Where no probe finds an eligible file, nothing is reported.
proof fn lemma_found_none(paths: Seq<Seq<char>>, probes: Seq<Option<FileInfo>>)
    requires
        paths.len() == probes.len(),
        forall|i: int| 0 <= i < probes.len() ==> !present(#[trigger] probes[i]),
    ensures
        found_spec(paths, probes).len() == 0,
    decreases paths.len(),
{
    if paths.len() > 0 {
        let pd = probes.drop_last();
        assert forall|i: int| 0 <= i < pd.len() implies !present(#[trigger] pd[i]) by {
            assert(pd[i] == probes[i]);
        }
        lemma_found_none(paths.drop_last(), pd);
    }
}

/// Resolving twice from the same project, mode, names and filesystem gives
/// the same paths in the same order.
pub proof fn lemma_resolution_repeatable(
    mode: Mode,
    root: Seq<char>,
    names: Seq<Seq<char>>,
    suffix: Seq<char>,
    fs: spec_fn(Seq<char>) -> Option<FileInfo>,
    tree: Seq<Entry>,
    again_fs: spec_fn(Seq<char>) -> Option<FileInfo>,
    again_tree: Seq<Entry>,
)
    requires
        again_fs == fs,
        again_tree == tree,
    ensures
        resolved(mode, root, names, suffix, fs, tree) == resolved(
            mode,
            root,
            names,
            suffix,
            again_fs,
            again_tree,
        ),
{
}

/// Names given on the command line never make a run report an invalid
/// project, whatever the manifest holds and whatever was found.
pub proof fn lemma_given_names_never_invalid(names: Seq<Seq<char>>, found: nat)
    requires
        names.len() > 0,
    ensures
        status_spec(Ok(names), found) != STATUS_NO_PROJECT,
{
}

/// An artifact that exists only under `debug/` is found in debug mode and
/// not in release mode; the two modes differ only in the profile directory
/// they consult.
pub proof fn lemma_debug_release_independent(
    root: Seq<char>,
    name: Seq<char>,
    suffix: Seq<char>,
    fs: spec_fn(Seq<char>) -> Option<FileInfo>,
    tree: Seq<Entry>,
)
    requires
        present(fs(candidate_spec(root, "debug"@, name, suffix))),
        !present(fs(candidate_spec(root, "release"@, name, suffix))),
    ensures
        resolved(Mode::Debug, root, seq![name], suffix, fs, tree) == seq![
            candidate_spec(root, "debug"@, name, suffix),
        ],
        resolved(Mode::Release, root, seq![name], suffix, fs, tree).len() == 0,
{
    let d = candidates_spec(root, "debug"@, seq![name], suffix);
    let r = candidates_spec(root, "release"@, seq![name], suffix);
    let dp = d.map_values(|x: Seq<char>| fs(x));
    let rp = r.map_values(|x: Seq<char>| fs(x));
    assert(d.drop_last() =~= Seq::<Seq<char>>::empty());
    assert(dp.drop_last() =~= Seq::<Option<FileInfo>>::empty());
    assert(r.drop_last() =~= Seq::<Seq<char>>::empty());
    assert(rp.drop_last() =~= Seq::<Option<FileInfo>>::empty());
    assert(d.len() == 1 && d[0] == candidate_spec(root, "debug"@, name, suffix));
    assert(dp.len() == 1 && dp[0] == fs(d[0]));
    assert(r.len() == 1 && rp[0] == fs(r[0]) && r[0] == candidate_spec(root, "release"@, name, suffix));
    assert(found_spec(d.drop_last(), dp.drop_last()) == Seq::<Seq<char>>::empty());
    assert(found_spec(r.drop_last(), rp.drop_last()) == Seq::<Seq<char>>::empty());
    assert(found_spec(d, dp) =~= seq![candidate_spec(root, "debug"@, name, suffix)]);
}

/// Where one eligible file was modified after every other eligible file,
/// latest mode reports exactly that file, wherever it lies in the tree.
pub proof fn lemma_latest_unique_maximum(
    root: Seq<char>,
    names: Seq<Seq<char>>,
    suffix: Seq<char>,
    fs: spec_fn(Seq<char>) -> Option<FileInfo>,
    tree: Seq<Entry>,
    i: int,
)
    requires
        0 <= i < tree.len(),
        eligible(tree[i].info),
        forall|j: int|
            0 <= j < tree.len() && j != i && eligible(#[trigger] tree[j].info)
                ==> tree[j].info.modified < tree[i].info.modified,
    ensures
        resolved(Mode::Latest, root, names, suffix, fs, tree) == seq![tree[i].path@],
{
    lemma_latest_is_first_maximum(tree);
    match latest_spec(tree) {
        Some(k) => {
            if k != i {
                assert(tree[i].info.modified <= tree[k].info.modified);
            }
        },
        None => {
            assert(!eligible(tree[i].info));
        },
    }
}

/// In latest mode the candidate names do not affect the result.
pub proof fn lemma_latest_ignores_names(
    root: Seq<char>,
    names: Seq<Seq<char>>,
    other_names: Seq<Seq<char>>,
    suffix: Seq<char>,
    fs: spec_fn(Seq<char>) -> Option<FileInfo>,
    tree: Seq<Entry>,
)
    ensures
        resolved(Mode::Latest, root, names, suffix, fs, tree) == resolved(
            Mode::Latest,
            root,
            other_names,
            suffix,
            fs,
            tree,
        ),
{
}

/// A valid project whose build tree holds no executable reports nothing, in
/// every mode, and ends with the no-binary status rather than an error.
pub proof fn lemma_no_match_is_empty(
    mode: Mode,
    root: Seq<char>,
    names: Seq<Seq<char>>,
    suffix: Seq<char>,
    fs: spec_fn(Seq<char>) -> Option<FileInfo>,
    tree: Seq<Entry>,
)
    requires
        forall|p: Seq<char>| !present(#[trigger] fs(p)),
        forall|j: int| 0 <= j < tree.len() ==> !eligible(#[trigger] tree[j].info),
    ensures
        resolved(mode, root, names, suffix, fs, tree).len() == 0,
        status_spec(Ok(names), resolved(mode, root, names, suffix, fs, tree).len())
            == STATUS_NO_BIN,
{
    lemma_latest_is_first_maximum(tree);
    match mode.profile_spec() {
        Some(p) => {
            let c = candidates_spec(root, p, names, suffix);
            let probes = c.map_values(|x: Seq<char>| fs(x));
            assert forall|i: int| 0 <= i < probes.len() implies !present(#[trigger] probes[i]) by {
                assert(!present(fs(c[i])));
            }
            lemma_found_none(c, probes);
        },
        None => {},
    }
}

/// Where every candidate exists, debug and release mode report one path
/// per declared name, in declaration order.
pub proof fn lemma_declaration_order_kept(
    mode: Mode,
    root: Seq<char>,
    names: Seq<Seq<char>>,
    suffix: Seq<char>,
    fs: spec_fn(Seq<char>) -> Option<FileInfo>,
    tree: Seq<Entry>,
)
    requires
        mode.profile_spec() is Some,
        forall|i: int|
            0 <= i < names.len() ==> present(
                fs(#[trigger] candidate_spec(root, mode.profile_spec()->0, names[i], suffix)),
            ),
    ensures
        resolved(mode, root, names, suffix, fs, tree) == candidates_spec(
            root,
            mode.profile_spec()->0,
            names,
            suffix,
        ),
        forall|i: int|
            0 <= i < names.len() ==> #[trigger] resolved(mode, root, names, suffix, fs, tree)[i]
                == candidate_spec(root, mode.profile_spec()->0, names[i], suffix),
{
    let p = mode.profile_spec()->0;
    let c = candidates_spec(root, p, names, suffix);
    let probes = c.map_values(|x: Seq<char>| fs(x));
    assert forall|i: int| 0 <= i < probes.len() implies present(#[trigger] probes[i]) by {
        assert(c[i] == candidate_spec(root, p, names[i], suffix));
    }
    lemma_found_all(c, probes);
}

} // verus!
