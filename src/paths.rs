//! Path strings: joining, taking the parent, and finding a project's manifest.

use vstd::prelude::*;

verus! {

/// The file name of a Cargo manifest.
pub const FILE_MANIFEST: &'static str = "Cargo.toml";

/// The directory, beside the manifest, that holds the build output.
pub const DIR_TARGET: &'static str = "target";

/// The path separator.
pub open spec fn sep() -> char {
    '/'
}

/// `base` with `part` appended, as `PathBuf::push` does it on Unix: an
/// absolute `part` replaces `base`; otherwise a separator is put between the
/// two unless `base` is empty or already ends in one.
pub open spec fn push_spec(base: Seq<char>, part: Seq<char>) -> Seq<char> {
    if part.len() > 0 && part[0] == sep() {
        part
    } else if base.len() == 0 || base.last() == sep() {
        base + part
    } else {
        base + seq![sep()] + part
    }
}

/// The index of the last separator in `s`, or -1 where there is none.
pub open spec fn last_sep(s: Seq<char>) -> int
    decreases s.len(),
{
    if s.len() == 0 {
        -1
    } else if s.last() == sep() {
        s.len() - 1
    } else {
        last_sep(s.drop_last())
    }
}

/// The directory part of a path: what stands before its last separator,
/// the root itself where that separator is the first character, and the
/// empty path where there is no separator.
pub open spec fn parent_spec(s: Seq<char>) -> Seq<char> {
    let i = last_sep(s);
    if i < 0 {
        Seq::empty()
    } else if i == 0 {
        seq![sep()]
    } else {
        s.subrange(0, i)
    }
}

/// The target that an absent input stands for: the current directory.
pub open spec fn target_spec(input: Option<Seq<char>>) -> Seq<char> {
    match input {
        Some(s) => s,
        None => seq!['.'],
    }
}

/// The manifest path for a target: inside it where it is a directory, the
/// target itself otherwise.
pub open spec fn manifest_path_spec(target: Seq<char>, is_dir: bool) -> Seq<char> {
    if is_dir {
        push_spec(target, FILE_MANIFEST@)
    } else {
        target
    }
}

/// The build-output root of the project whose manifest lies at `manifest`.
pub open spec fn target_dir_spec(manifest: Seq<char>) -> Seq<char> {
    push_spec(parent_spec(manifest), DIR_TARGET@)
}

pub open spec fn opt_view(input: Option<String>) -> Option<Seq<char>> {
    match input {
        Some(s) => Some(s@),
        None => None,
    }
}

/// Appends `part` to `base` as a path component.
pub fn push_path(base: &str, part: &str) -> (r: String)
    ensures
        r@ == push_spec(base@, part@),
{
    proof {
        reveal_strlit("/");
    }
    let pn = part.unicode_len();
    if pn > 0 && part.get_char(0) == '/' {
        return part.to_owned();
    }
    let bn = base.unicode_len();
    let mut r = base.to_owned();
    if bn > 0 && base.get_char(bn - 1) != '/' {
        r.append("/");
    }
    r.append(part);
    r
}

/// The index of the last separator in `s`, if any.
fn find_last_sep(s: &str) -> (r: Option<usize>)
    ensures
        match r {
            Some(i) => i == last_sep(s@) && i < s@.len(),
            None => last_sep(s@) == -1,
        },
{
    let n = s.unicode_len();
    let mut last: Option<usize> = None;
    let mut i: usize = 0;
    while i < n
        invariant
            n == s@.len(),
            i <= n,
            match last {
                Some(k) => k == last_sep(s@.subrange(0, i as int)) && k < i,
                None => last_sep(s@.subrange(0, i as int)) == -1,
            },
        decreases n - i,
    {
        assert(s@.subrange(0, i + 1).drop_last() =~= s@.subrange(0, i as int));
        if s.get_char(i) == '/' {
            last = Some(i);
        }
        i = i + 1;
    }
    assert(s@.subrange(0, n as int) =~= s@);
    last
}

/// The directory that holds the file at `path` (see [`parent_spec`]).
pub fn path_project(path: &str) -> (r: String)
    ensures
        r@ == parent_spec(path@),
{
    match find_last_sep(path) {
        None => String::new(),
        Some(i) => {
            if i == 0 {
                let r = "/".to_owned();
                proof {
                    reveal_strlit("/");
                    assert(r@ =~= seq![sep()]);
                }
                r
            } else {
                path.substring_char(0, i).to_owned()
            }
        },
    }
}

/// The target an optional input names: the input, or the current directory.
pub fn target_or_current(input: Option<String>) -> (r: String)
    ensures
        r@ == target_spec(opt_view(input)),
{
    match input {
        Some(s) => s,
        None => {
            let r = ".".to_owned();
            proof {
                reveal_strlit(".");
                assert(r@ =~= seq!['.']);
            }
            r
        },
    }
}

/// The manifest path for an optional target. `is_dir` tells whether the
/// target (the current directory where `input` is absent) is a directory.
pub fn find_target(input: Option<String>, is_dir: bool) -> (r: String)
    ensures
        r@ == manifest_path_spec(target_spec(opt_view(input)), is_dir),
{
    let target = target_or_current(input);
    if is_dir {
        push_path(target.as_str(), FILE_MANIFEST)
    } else {
        target
    }
}

/// The build-output root beside the manifest at `manifest`.
pub fn target_dir(manifest: &str) -> (r: String)
    ensures
        r@ == target_dir_spec(manifest@),
{
    let project = path_project(manifest);
    push_path(project.as_str(), DIR_TARGET)
}

/// An absent target resolves as the current directory does.
pub proof fn lemma_absent_target_is_current(is_dir: bool)
    ensures
        manifest_path_spec(target_spec(None), is_dir) == manifest_path_spec(
            target_spec(Some(seq!['.'])),
            is_dir,
        ),
{
}

} // verus!
