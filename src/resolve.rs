//! Mapping a selection mode and candidate names onto build artifacts.

use crate::paths::{push_path, push_spec};
use vstd::prelude::*;

verus! {

/// Which build output to look for.
#[derive(Clone, Copy, Debug, PartialEq, Eq, Structural)]
pub enum Mode {
    /// `target/debug/<name>`.
    Debug,
    /// `target/release/<name>`.
    Release,
    /// The most recently modified executable anywhere under `target/`.
    Latest,
}

/// What the filesystem reports of one path.
#[derive(Clone, Copy, Debug, PartialEq, Eq)]
pub struct FileInfo {
    /// Whether the path is a regular file.
    pub is_file: bool,
    /// The Unix permission bits, where the platform has them.
    pub permissions: Option<u32>,
    /// The last modification time, in nanoseconds since the Unix epoch.
    pub modified: u128,
}

/// A file met while walking a build tree.
#[derive(Debug)]
pub struct Entry {
    pub path: String,
    pub info: FileInfo,
}

/// The mode that the command-line flags select: `latest` wins over
/// `release`, and debug is the default.
pub open spec fn mode_of(latest: bool, release: bool) -> Mode {
    if latest {
        Mode::Latest
    } else if release {
        Mode::Release
    } else {
        Mode::Debug
    }
}

/// The permission bits that mark a file executable by someone.
pub open spec fn exec_bits(mode: u32) -> bool {
    mode & 0o111u32 != 0
}

/// A regular file that may be run: its executable bit is set, or the
/// platform has no such bit.
pub open spec fn eligible(info: FileInfo) -> bool {
    info.is_file && match info.permissions {
        Some(m) => exec_bits(m),
        None => true,
    }
}

/// A probe that found an eligible file.
pub open spec fn present(probe: Option<FileInfo>) -> bool {
    match probe {
        Some(info) => eligible(info),
        None => false,
    }
}

/// The candidate path for `name` under a profile directory of `root`.
pub open spec fn candidate_spec(
    root: Seq<char>,
    profile: Seq<char>,
    name: Seq<char>,
    suffix: Seq<char>,
) -> Seq<char> {
    push_spec(push_spec(root, profile), name + suffix)
}

/// The views of a sequence of strings.
pub open spec fn views(v: Seq<String>) -> Seq<Seq<char>> {
    v.map_values(|s: String| s@)
}

/// The paths among `paths` whose probe found an eligible file, in order.
pub open spec fn found_spec(paths: Seq<Seq<char>>, probes: Seq<Option<FileInfo>>) -> Seq<
    Seq<char>,
>
    decreases paths.len(),
{
    if paths.len() == 0 {
        Seq::empty()
    } else {
        let rest = found_spec(paths.drop_last(), probes.drop_last());
        if present(probes.last()) {
            rest.push(paths.last())
        } else {
            rest
        }
    }
}

/// The index of the entry that latest mode picks: the eligible entry with
/// the greatest modification time, the first of them where several share it.
pub open spec fn latest_spec(es: Seq<Entry>) -> Option<int>
    decreases es.len(),
{
    if es.len() == 0 {
        None
    } else {
        let prev = latest_spec(es.drop_last());
        let e = es.last();
        let better = match prev {
            Some(j) => es[j].info.modified < e.info.modified,
            None => true,
        };
        if eligible(e.info) && better {
            Some(es.len() - 1)
        } else {
            prev
        }
    }
}

/// The candidate path of each name, in order, under profile `p` of `root`.
pub open spec fn candidates_spec(
    root: Seq<char>,
    p: Seq<char>,
    names: Seq<Seq<char>>,
    suffix: Seq<char>,
) -> Seq<Seq<char>> {
    names.map_values(|n: Seq<char>| candidate_spec(root, p, n, suffix))
}

/// What a run reports: in debug and release mode the candidate paths whose
/// probe (`fs`) finds an eligible file, in the order of `names`; in latest
/// mode the one file that [`latest_spec`] picks from the walk `tree`, if any.
pub open spec fn resolved(
    mode: Mode,
    root: Seq<char>,
    names: Seq<Seq<char>>,
    suffix: Seq<char>,
    fs: spec_fn(Seq<char>) -> Option<FileInfo>,
    tree: Seq<Entry>,
) -> Seq<Seq<char>> {
    match mode.profile_spec() {
        Some(p) => {
            let c = candidates_spec(root, p, names, suffix);
            found_spec(c, c.map_values(|x: Seq<char>| fs(x)))
        },
        None => match latest_spec(tree) {
            Some(i) => seq![tree[i].path@],
            None => Seq::empty(),
        },
    }
}

impl Mode {
    /// The profile directory that the mode consults, if it names one.
    pub open spec fn profile_spec(self) -> Option<Seq<char>> {
        match self {
            Mode::Debug => Some("debug"@),
            Mode::Release => Some("release"@),
            Mode::Latest => None,
        }
    }

    /// The mode that the `--latest` and `--release` flags select.
    pub fn from_flags(latest: bool, release: bool) -> (m: Mode)
        ensures
            m == mode_of(latest, release),
    {
        if latest {
            Mode::Latest
        } else if release {
            Mode::Release
        } else {
            Mode::Debug
        }
    }

    /// The profile directory that the mode consults; none for latest mode,
    /// which searches the whole build tree.
    pub fn profile(&self) -> (r: Option<&'static str>)
        ensures
            match r {
                Some(p) => self.profile_spec() == Some(p@),
                None => self.profile_spec() is None,
            },
    {
        match self {
            Mode::Debug => Some("debug"),
            Mode::Release => Some("release"),
            Mode::Latest => None,
        }
    }

    /// The path at which this mode looks for `name` under `root`, with the
    /// platform's executable `suffix`; none in latest mode.
    pub fn make_path(&self, root: &str, name: &str, suffix: &str) -> (r: Option<String>)
        ensures
            match self.profile_spec() {
                Some(p) => r matches Some(s) && s@ == candidate_spec(root@, p, name@, suffix@),
                None => r is None,
            },
    {
        match self.profile() {
            None => None,
            Some(p) => {
                let dir = push_path(root, p);
                let mut file = name.to_owned();
                file.append(suffix);
                Some(push_path(dir.as_str(), file.as_str()))
            },
        }
    }
}

/// Whether a file with this metadata counts as an executable.
pub fn is_eligible(info: &FileInfo) -> (r: bool)
    ensures
        r == eligible(*info),
{
    info.is_file && match info.permissions {
        Some(m) => m & 0o111u32 != 0,
        None => true,
    }
}

/// The candidate path of each name, in order; none in latest mode.
pub fn candidate_paths(mode: Mode, root: &str, names: &Vec<String>, suffix: &str) -> (r: Vec<
    String,
>)
    ensures
        match mode.profile_spec() {
            Some(p) => views(r@) == candidates_spec(root@, p, views(names@), suffix@),
            None => r@.len() == 0,
        },
{
    let mut r: Vec<String> = Vec::new();
    let mut i: usize = 0;
    if mode == Mode::Latest {
        return r;
    }
    while i < names.len()
        invariant
            mode.profile_spec() is Some,
            i <= names@.len(),
            r@.len() == i,
            forall|k: int|
                0 <= k < i ==> #[trigger] r@[k]@ == candidate_spec(
                    root@,
                    mode.profile_spec()->0,
                    names@[k]@,
                    suffix@,
                ),
        decreases names@.len() - i,
    {
        match mode.make_path(root, names[i].as_str(), suffix) {
            Some(path) => r.push(path),
            None => {},
        }
        i = i + 1;
    }
    assert(views(r@) =~= candidates_spec(
        root@,
        mode.profile_spec()->0,
        views(names@),
        suffix@,
    ));
    r
}

/// The paths whose probe found an eligible file, in the order given.
/// `probes[i]` is what the filesystem reported of `paths[i]`, or none where
/// nothing could be read there.
pub fn collect_found(paths: &Vec<String>, probes: &Vec<Option<FileInfo>>) -> (r: Vec<String>)
    requires
        paths@.len() == probes@.len(),
    ensures
        views(r@) == found_spec(views(paths@), probes@),
{
    let mut r: Vec<String> = Vec::new();
    let mut i: usize = 0;
    while i < paths.len()
        invariant
            paths@.len() == probes@.len(),
            i <= paths@.len(),
            views(r@) == found_spec(
                views(paths@).subrange(0, i as int),
                probes@.subrange(0, i as int),
            ),
        decreases paths@.len() - i,
    {
        let ghost before = r@;
        assert(views(paths@).subrange(0, i + 1).drop_last() =~= views(paths@).subrange(
            0,
            i as int,
        ));
        assert(probes@.subrange(0, i + 1).drop_last() =~= probes@.subrange(0, i as int));
        let present_here = match &probes[i] {
            Some(info) => is_eligible(info),
            None => false,
        };
        if present_here {
            r.push(paths[i].clone());
            assert(views(r@) =~= views(before).push(paths@[i as int]@));
        }
        i = i + 1;
    }
    assert(views(paths@).subrange(0, paths@.len() as int) =~= views(paths@));
    assert(probes@.subrange(0, paths@.len() as int) =~= probes@);
    r
}

/// The index that latest mode picks lies in range and is eligible.
pub proof fn lemma_latest_in_range(es: Seq<Entry>)
    ensures
        match latest_spec(es) {
            Some(i) => 0 <= i < es.len() && eligible(es[i].info),
            None => true,
        },
    decreases es.len(),
{
    if es.len() > 0 {
        lemma_latest_in_range(es.drop_last());
    }
}

/// Latest mode picks the first eligible entry of greatest modification
/// time, and picks nothing only where no entry is eligible.
pub proof fn lemma_latest_is_first_maximum(es: Seq<Entry>)
    ensures
        match latest_spec(es) {
            Some(i) => {
                &&& 0 <= i < es.len()
                &&& eligible(es[i].info)
                &&& forall|j: int|
                    0 <= j < es.len() && eligible(#[trigger] es[j].info) ==> es[j].info.modified
                        <= es[i].info.modified
                &&& forall|j: int|
                    0 <= j < i && eligible(#[trigger] es[j].info) ==> es[j].info.modified
                        < es[i].info.modified
            },
            None => forall|j: int| 0 <= j < es.len() ==> !eligible(#[trigger] es[j].info),
        },
    decreases es.len(),
{
    if es.len() > 0 {
        let d = es.drop_last();
        lemma_latest_is_first_maximum(d);
        lemma_latest_in_range(d);
        assert forall|j: int| 0 <= j < d.len() implies #[trigger] d[j] == es[j] by {}
        let last = es.len() - 1;
        assert(es[last] == es.last());
        match latest_spec(d) {
            Some(k) => {
                assert(d[k] == es[k]);
                if eligible(es[last].info) && es[k].info.modified < es[last].info.modified {
                    assert(latest_spec(es) == Some(last));
                    assert forall|j: int|
                        0 <= j < last && eligible(#[trigger] es[j].info) implies es[j].info.modified
                        < es[last].info.modified by {
                        assert(d[j] == es[j]);
                    }
                } else {
                    assert(latest_spec(es) == Some(k));
                    assert forall|j: int|
                        0 <= j < es.len() && eligible(#[trigger] es[j].info) implies es[j].info.modified
                        <= es[k].info.modified by {
                        if j < last {
                            assert(d[j] == es[j]);
                        }
                    }
                    assert forall|j: int|
                        0 <= j < k && eligible(#[trigger] es[j].info) implies es[j].info.modified
                        < es[k].info.modified by {
                        assert(d[j] == es[j]);
                    }
                }
            },
            None => {
                if eligible(es[last].info) {
                    assert(latest_spec(es) == Some(last));
                    assert forall|j: int|
                        0 <= j < es.len() && eligible(#[trigger] es[j].info) implies es[j].info.modified
                        <= es[last].info.modified by {
                        if j < last {
                            assert(d[j] == es[j]);
                        }
                    }
                    assert forall|j: int|
                        0 <= j < last && eligible(#[trigger] es[j].info) implies es[j].info.modified
                        < es[last].info.modified by {
                        assert(d[j] == es[j]);
                    }
                } else {
                    assert(latest_spec(es) is None);
                    assert forall|j: int| 0 <= j < es.len() implies !eligible(
                        #[trigger] es[j].info,
                    ) by {
                        if j < last {
                            assert(d[j] == es[j]);
                        }
                    }
                }
            },
        }
    }
}

fn latest_index(entries: &Vec<Entry>) -> (r: Option<usize>)
    ensures
        match latest_spec(entries@) {
            Some(i) => r is Some && r->0 as int == i,
            None => r is None,
        },
{
    let mut best: Option<usize> = None;
    let mut i: usize = 0;
    while i < entries.len()
        invariant
            i <= entries@.len(),
            match latest_spec(entries@.subrange(0, i as int)) {
                Some(k) => best is Some && best->0 as int == k && 0 <= k < i,
                None => best is None,
            },
        decreases entries@.len() - i,
    {
        let ghost pre = entries@.subrange(0, i as int);
        let ghost next = entries@.subrange(0, i + 1);
        assert(next.drop_last() =~= pre);
        proof {
            lemma_latest_in_range(pre);
        }
        let better = match best {
            Some(b) => entries[b].info.modified < entries[i].info.modified,
            None => true,
        };
        if is_eligible(&entries[i].info) && better {
            best = Some(i);
        }
        i = i + 1;
    }
    assert(entries@.subrange(0, entries@.len() as int) =~= entries@);
    best
}

/// The path of the file that latest mode picks from a walk of the build
/// tree: the eligible entry modified last, the first of them in walk order
/// where several share that time; none where no entry is eligible.
pub fn latest(entries: &Vec<Entry>) -> (r: Option<String>)
    ensures
        match latest_spec(entries@) {
            Some(i) => r is Some && r->0@ == entries@[i].path@,
            None => r is None,
        },
{
    proof {
        lemma_latest_in_range(entries@);
    }
    match latest_index(entries) {
        Some(i) => {
            let p = entries[i].path.clone();
            assert(p@ == entries@[i as int].path@);
            Some(p)
        },
        None => None,
    }
}

} // verus!
