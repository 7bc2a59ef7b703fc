//! The interface materializer: in-binary records, legacy interface
//! files, and their failure modes. The legacy texts here go through
//! the real interface-definition parser, the way the surrounding
//! program would run it, and its answers are handed to the library.

use library_mode::materialize::materialize_interface;
use library_mode::{ComponentGroup, Error, MetadataRecord, UdlParseOutcome};

fn decl(symbol: &str) -> MetadataRecord {
    MetadataRecord::Decl { symbol: symbol.to_string() }
}

fn udl(name: &str) -> MetadataRecord {
    MetadataRecord::UdlFile { name: name.to_string() }
}

fn group(crate_name: &str, records: Vec<MetadataRecord>) -> ComponentGroup {
    ComponentGroup { crate_name: crate_name.to_string(), records }
}

/// What the external parser answers for `text`, converted the way the
/// surrounding program hands it to the library.
fn real_parse(text: &str, crate_name: &str) -> UdlParseOutcome {
    match uniffi_udl::parse_udl(text, crate_name) {
        Ok(parsed) => UdlParseOutcome::Parsed {
            records: parsed
                .items
                .into_iter()
                .map(|item| match item {
                    uniffi_meta::Metadata::UdlFile(f) => {
                        MetadataRecord::UdlFile { name: f.file_stub }
                    }
                    other => MetadataRecord::Decl { symbol: format!("{other:?}") },
                })
                .collect(),
        },
        Err(e) => UdlParseOutcome::Rejected { message: e.to_string() },
    }
}

#[test]
fn zero_udl_records_build_from_binary_records_alone() {
    let g = group("demo", vec![decl("fn demo_a"), decl("fn demo_b")]);
    let files: Vec<(String, UdlParseOutcome)> = vec![];
    let model = materialize_interface(&g, &"/w/demo".to_string(), &files).unwrap();
    assert_eq!("demo", model.namespace);
    assert_eq!(
        vec!["fn demo_a".to_string(), "fn demo_b".to_string()],
        model.symbols
    );
}

#[test]
fn missing_udl_file_is_fatal() {
    let g = group("demo", vec![udl("demo"), decl("fn demo_a")]);
    let files: Vec<(String, UdlParseOutcome)> = vec![];
    let r = materialize_interface(&g, &"/w/demo".to_string(), &files);
    assert_eq!(
        Err(Error::UdlFileNotFound { path: "/w/demo/src/demo.udl".to_string() }),
        r
    );
}

#[test]
fn two_udl_records_are_fatal_even_with_files_present() {
    let g = group("demo", vec![udl("demo"), udl("other")]);
    let files = vec![
        ("/w/demo/src/demo.udl".to_string(), real_parse("namespace demo{};", "demo")),
        ("/w/demo/src/other.udl".to_string(), real_parse("namespace demo{};", "demo")),
    ];
    let r = materialize_interface(&g, &"/w/demo".to_string(), &files);
    assert_eq!(
        Err(Error::MultipleUdlFiles { crate_name: "demo".to_string(), count: 2 }),
        r
    );
}

#[test]
fn udl_declarations_come_before_binary_declarations() {
    let g = group("demo", vec![udl("demo"), decl("fn demo_late")]);
    let files = vec![(
        "/w/demo/src/demo.udl".to_string(),
        real_parse(
            "namespace demo{};\ndictionary First {};\ndictionary Second {};",
            "demo",
        ),
    )];
    let model = materialize_interface(&g, &"/w/demo".to_string(), &files).unwrap();
    assert_eq!("demo", model.namespace);
    // Two parsed legacy declarations stand before the in-binary one.
    assert_eq!(3, model.symbols.len());
    assert_eq!("fn demo_late", model.symbols[2]);
    assert!(model.symbols[0].contains("First"));
    assert!(model.symbols[1].contains("Second"));
}

#[test]
fn well_typed_throwing_constructor_parses() {
    // A declared error type thrown by a constructor is everyday valid
    // input; the parser accepts it and the records fold in.
    let text = "namespace demo{};\n[Error]\nenum DemoError { \"Oops\" };\ninterface Obj { [Throws=DemoError] constructor(); };";
    let outcome = real_parse(text, "demo");
    assert!(matches!(outcome, UdlParseOutcome::Parsed { .. }));
    let g = group("demo", vec![udl("demo")]);
    let files = vec![("/w/demo/src/demo.udl".to_string(), outcome)];
    let model = materialize_interface(&g, &"/w/demo".to_string(), &files).unwrap();
    assert!(!model.symbols.is_empty());
}

#[test]
fn unparsable_udl_text_is_fatal() {
    let g = group("demo", vec![udl("demo")]);
    let files = vec![(
        "/w/demo/src/demo.udl".to_string(),
        real_parse("not udl at all {{{", "demo"),
    )];
    let r = materialize_interface(&g, &"/w/demo".to_string(), &files);
    assert!(matches!(
        r,
        Err(Error::UdlParseError { crate_name, .. }) if crate_name == "demo"
    ));
}

#[test]
fn unknown_function_throws_type_fails_cleanly() {
    let g = group("demo", vec![udl("demo")]);
    let files = vec![(
        "/w/demo/src/demo.udl".to_string(),
        real_parse("namespace demo{ [Throws=Nope] void f(); };", "demo"),
    )];
    let r = materialize_interface(&g, &"/w/demo".to_string(), &files);
    assert!(matches!(
        r,
        Err(Error::UdlParseError { crate_name, .. }) if crate_name == "demo"
    ));
}

#[test]
fn aborted_parser_answer_is_fatal() {
    // When the parser cannot answer for a file — the surrounding
    // program reports its abort as a rejection — the run fails with
    // that report.
    let g = group("demo", vec![udl("demo")]);
    let files = vec![(
        "/w/demo/src/demo.udl".to_string(),
        UdlParseOutcome::Rejected { message: "parser aborted".to_string() },
    )];
    let r = materialize_interface(&g, &"/w/demo".to_string(), &files);
    assert_eq!(
        Err(Error::UdlParseError {
            crate_name: "demo".to_string(),
            message: "parser aborted".to_string(),
        }),
        r
    );
}

#[test]
fn redeclared_symbol_is_a_conflict() {
    let g = group("demo", vec![decl("fn twice"), decl("fn twice")]);
    let files: Vec<(String, UdlParseOutcome)> = vec![];
    let r = materialize_interface(&g, &"/w/demo".to_string(), &files);
    assert_eq!(
        Err(Error::MetadataConflict {
            crate_name: "demo".to_string(),
            symbol: "fn twice".to_string(),
        }),
        r
    );
}
