//! End-to-end runs of the pipeline on small scenes: two components in
//! one binary, configuration inheritance across their dependency edge,
//! crate filters, and artifact validation.

use library_mode::{
    generate_bindings, ComponentGroup, ConfigurationObject, Error, MetadataRecord, PackageRecord,
    Source, TargetLanguage, UdlParseOutcome,
};

fn pkg(name: &str, deps: &[&str], root: &str, targets: &[&str]) -> PackageRecord {
    PackageRecord {
        name: name.to_string(),
        dependencies: deps.iter().map(|d| d.to_string()).collect(),
        root: root.to_string(),
        targets: targets.iter().map(|t| t.to_string()).collect(),
    }
}

fn decl(symbol: &str) -> MetadataRecord {
    MetadataRecord::Decl { symbol: symbol.to_string() }
}

fn group(crate_name: &str, records: Vec<MetadataRecord>) -> ComponentGroup {
    ComponentGroup { crate_name: crate_name.to_string(), records }
}

fn cfg(pairs: &[(&str, &str)]) -> ConfigurationObject {
    let mut c = ConfigurationObject::new();
    for (k, v) in pairs {
        c.set_if_absent((*k).to_string(), (*v).to_string());
    }
    c
}

/// Two components, `core` without dependencies and `app` depending on
/// it; `core` sets `render_style = compact`.
fn two_component_scene() -> (Vec<PackageRecord>, Vec<ComponentGroup>, Vec<(String, ConfigurationObject)>) {
    let packages = vec![
        pkg("core", &[], "/w/core", &["core"]),
        pkg("app", &["core"], "/w/app", &["app"]),
    ];
    let groups = vec![
        group("core", vec![decl("fn core_init")]),
        group("app", vec![decl("fn app_run")]),
    ];
    let initial = vec![("/w/core".to_string(), cfg(&[("render_style", "compact")]))];
    (packages, groups, initial)
}

fn run(
    library_path: &str,
    filter: Option<&str>,
    languages: &[TargetLanguage],
    scene: &(Vec<PackageRecord>, Vec<ComponentGroup>, Vec<(String, ConfigurationObject)>),
) -> Result<Vec<Source>, Error> {
    let files: Vec<(String, UdlParseOutcome)> = vec![];
    generate_bindings(
        &library_path.to_string(),
        &filter.map(|f| f.to_string()),
        &languages.to_vec(),
        &scene.0,
        &scene.1,
        &files,
        &scene.2,
    )
}

#[test]
fn two_components_resolve_and_inherit() {
    let scene = two_component_scene();
    let sources = run("/out/libdemo.so", None, &[TargetLanguage::Kotlin], &scene).unwrap();
    assert_eq!(2, sources.len());
    assert_eq!("core", sources[0].crate_name);
    assert_eq!("app", sources[1].crate_name);
    // `app` inherits the dependency's setting it did not set itself.
    assert_eq!(
        Some("compact".to_string()),
        sources[1].config.get(&"render_style".to_string())
    );
    // Values derived from the artifact and the model are in place.
    assert_eq!(
        Some("demo".to_string()),
        sources[1].config.get(&"cdylib_name".to_string())
    );
    assert_eq!(
        Some("app".to_string()),
        sources[1].config.get(&"module_name".to_string())
    );
    assert_eq!(
        Some("core".to_string()),
        sources[0].config.get(&"module_name".to_string())
    );
}

#[test]
fn own_setting_beats_inherited_one() {
    let (packages, groups, mut initial) = two_component_scene();
    initial.push(("/w/app".to_string(), cfg(&[("render_style", "dense")])));
    let scene = (packages, groups, initial);
    let sources = run("/out/libdemo.so", None, &[TargetLanguage::Kotlin], &scene).unwrap();
    assert_eq!(
        Some("dense".to_string()),
        sources[1].config.get(&"render_style".to_string())
    );
}

#[test]
fn crate_identities_are_pairwise_distinct() {
    let scene = two_component_scene();
    let sources = run("/out/libdemo.so", None, &[TargetLanguage::Kotlin], &scene).unwrap();
    for i in 0..sources.len() {
        for j in 0..sources.len() {
            if i != j {
                assert_ne!(sources[i].crate_name, sources[j].crate_name);
            }
        }
    }
}

#[test]
fn rerunning_gives_byte_identical_results() {
    let scene = two_component_scene();
    let first = run("/out/libdemo.so", None, &[TargetLanguage::Kotlin], &scene);
    let second = run("/out/libdemo.so", None, &[TargetLanguage::Kotlin], &scene);
    assert_eq!(format!("{first:?}"), format!("{second:?}"));
}

#[test]
fn filter_narrows_to_one_component() {
    let scene = two_component_scene();
    let sources = run("/out/libdemo.so", Some("core"), &[TargetLanguage::Kotlin], &scene).unwrap();
    assert_eq!(1, sources.len());
    assert_eq!("core", sources[0].crate_name);
}

#[test]
fn filter_for_absent_crate_is_not_found() {
    let packages = vec![pkg("core", &[], "/w/core", &["core"])];
    let groups = vec![group("core", vec![decl("fn core_init")])];
    let scene = (packages, groups, vec![]);
    let r = run("/out/libdemo.so", Some("app"), &[TargetLanguage::Kotlin], &scene);
    assert!(matches!(r, Err(Error::CrateNotFound { crate_name }) if crate_name == "app"));
}

#[test]
fn duplicate_identities_make_a_filter_ambiguous() {
    // The selector doubles as an integrity check: were the grouping
    // invariant ever violated upstream, a filter would refuse to pick.
    let packages = vec![pkg("core", &[], "/w/core", &["core"])];
    let groups = vec![
        group("core", vec![decl("fn core_init")]),
        group("core", vec![decl("fn core_extra")]),
    ];
    let scene = (packages, groups, vec![]);
    let r = run("/out/libdemo.so", Some("core"), &[TargetLanguage::Kotlin], &scene);
    assert_eq!(
        Err(Error::AmbiguousCrate { crate_name: "core".to_string(), count: 2 }),
        r.map(|_| ())
    );
}

#[test]
fn non_dylib_artifact_fails_validation_for_kotlin() {
    let scene = two_component_scene();
    let r = run("/out/notadll.txt", None, &[TargetLanguage::Kotlin], &scene);
    assert!(matches!(
        r,
        Err(Error::ValidationError { language: TargetLanguage::Kotlin, library_path })
            if library_path == "/out/notadll.txt"
    ));
}

#[test]
fn non_dylib_artifact_passes_for_swift_alone() {
    let scene = two_component_scene();
    let sources = run("/out/notadll.txt", None, &[TargetLanguage::Swift], &scene).unwrap();
    assert_eq!(2, sources.len());
    // No artifact name, so none was derived into the configuration.
    assert_eq!(None, sources[0].config.get(&"cdylib_name".to_string()));
}

#[test]
fn unattributable_component_is_fatal() {
    let packages = vec![pkg("core", &[], "/w/core", &["core"])];
    let groups = vec![
        group("core", vec![decl("fn core_init")]),
        group("ghost_component", vec![decl("fn ghost_run")]),
    ];
    let scene = (packages, groups, vec![]);
    let r = run("/out/libdemo.so", None, &[TargetLanguage::Kotlin], &scene);
    assert!(matches!(
        r,
        Err(Error::PackageNotFound { crate_name }) if crate_name == "ghost_component"
    ));
}

#[test]
fn inheritance_reads_the_pre_pass_configurations() {
    // mid depends on low, top depends on mid. A value set only by low
    // reaches mid, but not top: one pass over direct dependencies only.
    let packages = vec![
        pkg("low", &[], "/w/low", &["low"]),
        pkg("mid", &["low"], "/w/mid", &["mid"]),
        pkg("top", &["mid"], "/w/top", &["top"]),
    ];
    let groups = vec![
        group("low", vec![decl("fn low_f")]),
        group("mid", vec![decl("fn mid_f")]),
        group("top", vec![decl("fn top_f")]),
    ];
    let initial = vec![("/w/low".to_string(), cfg(&[("render_style", "compact")]))];
    let scene = (packages, groups, initial);
    let sources = run("/out/libdemo.so", None, &[TargetLanguage::Kotlin], &scene).unwrap();
    assert_eq!(
        Some("compact".to_string()),
        sources[1].config.get(&"render_style".to_string())
    );
    assert_eq!(None, sources[2].config.get(&"render_style".to_string()));
}
