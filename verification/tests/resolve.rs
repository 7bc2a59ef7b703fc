//! The package resolver against small build graphs.

use library_mode::{find_package_by_crate_name, Error, PackageRecord};

fn pkg(name: &str, deps: &[&str], root: &str, targets: &[&str]) -> PackageRecord {
    PackageRecord {
        name: name.to_string(),
        dependencies: deps.iter().map(|d| d.to_string()).collect(),
        root: root.to_string(),
        targets: targets.iter().map(|t| t.to_string()).collect(),
    }
}

#[test]
fn one_matching_package_resolves() {
    let packages = vec![
        pkg("foo", &[], "/w/foo", &["foo"]),
        pkg("bar", &[], "/w/bar", &["bar"]),
    ];
    let found = find_package_by_crate_name(&packages, &"foo".to_string()).unwrap();
    assert_eq!("foo", found.name);
    assert_eq!("/w/foo", found.root);
}

#[test]
fn hyphens_normalize_to_underscores() {
    let packages = vec![pkg("my-crate", &[], "/w/my-crate", &["my-crate"])];
    let found = find_package_by_crate_name(&packages, &"my_crate".to_string()).unwrap();
    assert_eq!("my-crate", found.name);
}

#[test]
fn zero_matches_is_not_found() {
    let packages = vec![pkg("bar", &[], "/w/bar", &["bar"])];
    let r = find_package_by_crate_name(&packages, &"foo".to_string());
    assert_eq!(
        Err(Error::PackageNotFound { crate_name: "foo".to_string() }),
        r
    );
}

#[test]
fn two_matches_are_ambiguous() {
    let packages = vec![
        pkg("a", &[], "/w/a", &["foo"]),
        pkg("b", &[], "/w/b", &["foo"]),
    ];
    let r = find_package_by_crate_name(&packages, &"foo".to_string());
    assert_eq!(
        Err(Error::PackageAmbiguous { crate_name: "foo".to_string(), count: 2 }),
        r
    );
}
