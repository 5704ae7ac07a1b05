use cargo_exe_path::manifest::{names_bin, ManifestError, ManifestInfo};
use cargo_exe_path::outcome::{
    exit_status, name_source, NameSource, STATUS_NO_BIN, STATUS_NO_PROJECT, STATUS_OK,
};

fn info(package: Option<&str>, bins: &[Option<&str>]) -> ManifestInfo {
    ManifestInfo {
        package_name: package.map(String::from),
        bin_names: bins.iter().map(|b| b.map(String::from)).collect(),
    }
}

fn strings(ns: &[&str]) -> Vec<String> {
    ns.iter().map(|s| s.to_string()).collect()
}

#[test]
fn package_name_is_implicit_binary() {
    assert_eq!(names_bin(&info(Some("tool"), &[])), Ok(strings(&["tool"])));
}

#[test]
fn declared_binaries_in_order() {
    let m = info(Some("tool"), &[Some("b"), Some("a"), Some("c")]);
    assert_eq!(names_bin(&m), Ok(strings(&["b", "a", "c"])));
}

#[test]
fn missing_package_is_invalid() {
    assert_eq!(names_bin(&info(None, &[Some("a")])), Err(ManifestError::Invalid));
}

#[test]
fn unnamed_binary_is_invalid() {
    assert_eq!(names_bin(&info(Some("tool"), &[Some("a"), None])), Err(ManifestError::Invalid));
}

#[test]
fn overrides_skip_manifest() {
    match name_source(strings(&["x", "y"])) {
        NameSource::Given(ns) => assert_eq!(ns, strings(&["x", "y"])),
        NameSource::Manifest => panic!("overrides were ignored"),
    }
    assert!(matches!(name_source(Vec::new()), NameSource::Manifest));
    assert_ne!(exit_status(&Ok(strings(&["x"])), 0), STATUS_NO_PROJECT);
}

#[test]
fn status_codes() {
    assert_eq!(exit_status(&Err(ManifestError::Invalid), 3), STATUS_NO_PROJECT);
    assert_eq!(exit_status(&Ok(Vec::new()), 0), STATUS_NO_BIN);
    assert_eq!(exit_status(&Ok(strings(&["a"])), 0), STATUS_NO_BIN);
    assert_eq!(exit_status(&Ok(strings(&["a"])), 2), STATUS_OK);
    assert_eq!((STATUS_OK, STATUS_NO_BIN, STATUS_NO_PROJECT), (0, 1, 2));
}
