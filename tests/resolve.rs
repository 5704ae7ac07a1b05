use cargo_exe_path::resolve::{
    candidate_paths, collect_found, is_eligible, latest, Entry, FileInfo, Mode,
};

fn exe(modified: u128) -> FileInfo {
    FileInfo { is_file: true, permissions: Some(0o755), modified }
}

fn entry(path: &str, info: FileInfo) -> Entry {
    Entry { path: path.to_string(), info }
}

fn names(ns: &[&str]) -> Vec<String> {
    ns.iter().map(|s| s.to_string()).collect()
}

#[test]
fn flags_select_mode() {
    assert_eq!(Mode::from_flags(false, false), Mode::Debug);
    assert_eq!(Mode::from_flags(false, true), Mode::Release);
    assert_eq!(Mode::from_flags(true, false), Mode::Latest);
    assert_eq!(Mode::from_flags(true, true), Mode::Latest);
}

#[test]
fn make_path_per_mode() {
    assert_eq!(Mode::Debug.make_path("t", "app", ""), Some("t/debug/app".to_string()));
    assert_eq!(Mode::Release.make_path("t", "app", ""), Some("t/release/app".to_string()));
    assert_eq!(Mode::Release.make_path("t", "app", ".exe"), Some("t/release/app.exe".to_string()));
    assert_eq!(Mode::Latest.make_path("t", "app", ""), None);
    assert_eq!(Mode::Debug.profile(), Some("debug"));
    assert_eq!(Mode::Latest.profile(), None);
}

#[test]
fn make_path_subpath_name() {
    assert_eq!(
        Mode::Debug.make_path("./target", "examples/demo", ""),
        Some("./target/debug/examples/demo".to_string())
    );
}

#[test]
fn eligibility_needs_file_and_exec_bit() {
    assert!(is_eligible(&exe(1)));
    assert!(!is_eligible(&FileInfo { is_file: true, permissions: Some(0o644), modified: 1 }));
    assert!(is_eligible(&FileInfo { is_file: true, permissions: Some(0o100), modified: 1 }));
    assert!(is_eligible(&FileInfo { is_file: true, permissions: Some(0o001), modified: 1 }));
    assert!(!is_eligible(&FileInfo { is_file: false, permissions: Some(0o755), modified: 1 }));
    assert!(is_eligible(&FileInfo { is_file: true, permissions: None, modified: 1 }));
}

#[test]
fn declaration_order_preserved() {
    let paths = candidate_paths(Mode::Debug, "t", &names(&["b", "a", "c"]), "");
    assert_eq!(paths, names(&["t/debug/b", "t/debug/a", "t/debug/c"]));
    let probes = vec![Some(exe(1)), Some(exe(2)), Some(exe(3))];
    assert_eq!(collect_found(&paths, &probes), names(&["t/debug/b", "t/debug/a", "t/debug/c"]));
}

#[test]
fn latest_mode_has_no_candidates() {
    assert!(candidate_paths(Mode::Latest, "t", &names(&["a"]), "").is_empty());
}

#[test]
fn missing_candidates_are_skipped() {
    let paths = names(&["t/debug/a", "t/debug/b", "t/debug/c"]);
    let not_exec = FileInfo { is_file: true, permissions: Some(0o644), modified: 1 };
    let probes = vec![None, Some(exe(2)), Some(not_exec)];
    assert_eq!(collect_found(&paths, &probes), names(&["t/debug/b"]));
}

#[test]
fn debug_only_artifact_not_found_in_release() {
    let on_disk = |p: &String| if p == "t/debug/app" { Some(exe(5)) } else { None };
    let debug = candidate_paths(Mode::Debug, "t", &names(&["app"]), "");
    let release = candidate_paths(Mode::Release, "t", &names(&["app"]), "");
    let dp: Vec<Option<FileInfo>> = debug.iter().map(on_disk).collect();
    let rp: Vec<Option<FileInfo>> = release.iter().map(on_disk).collect();
    assert_eq!(collect_found(&debug, &dp), names(&["t/debug/app"]));
    assert!(collect_found(&release, &rp).is_empty());
}

#[test]
fn latest_picks_greatest_time_at_any_depth() {
    let tree = vec![
        entry("t/debug/a", exe(10)),
        entry("t/release/deps/x/y/c", exe(30)),
        entry("t/debug/build/b", exe(20)),
    ];
    assert_eq!(latest(&tree), Some("t/release/deps/x/y/c".to_string()));
}

#[test]
fn latest_skips_ineligible_files() {
    let tree = vec![
        entry("t/debug/a", exe(10)),
        entry("t/debug/a.d", FileInfo { is_file: true, permissions: Some(0o644), modified: 50 }),
        entry("t/debug/dir", FileInfo { is_file: false, permissions: Some(0o755), modified: 60 }),
    ];
    assert_eq!(latest(&tree), Some("t/debug/a".to_string()));
}

#[test]
fn latest_tie_goes_to_first_in_walk_order() {
    let tree = vec![entry("t/x", exe(7)), entry("t/y", exe(7)), entry("t/z", exe(3))];
    assert_eq!(latest(&tree), Some("t/x".to_string()));
}

#[test]
fn latest_without_executables_is_none() {
    let tree = vec![entry("t/a.rlib", FileInfo { is_file: true, permissions: Some(0o644), modified: 9 })];
    assert_eq!(latest(&tree), None);
    assert_eq!(latest(&Vec::new()), None);
}

#[test]
fn repeated_resolution_is_identical() {
    let tree = vec![entry("t/a", exe(1)), entry("t/b", exe(2))];
    assert_eq!(latest(&tree), latest(&tree));
    let paths = candidate_paths(Mode::Release, "t", &names(&["a", "b"]), "");
    let probes = vec![Some(exe(1)), None];
    assert_eq!(collect_found(&paths, &probes), collect_found(&paths, &probes));
}
