//! Configuration objects and the dependency-defaults fold.

use library_mode::ConfigurationObject;

fn cfg(pairs: &[(&str, &str)]) -> ConfigurationObject {
    let mut c = ConfigurationObject::new();
    for (k, v) in pairs {
        c.set_if_absent((*k).to_string(), (*v).to_string());
    }
    c
}

#[test]
fn get_returns_what_was_set() {
    let c = cfg(&[("render_style", "compact"), ("indent", "4")]);
    assert_eq!(Some("compact".to_string()), c.get(&"render_style".to_string()));
    assert_eq!(Some("4".to_string()), c.get(&"indent".to_string()));
    assert_eq!(None, c.get(&"missing".to_string()));
}

#[test]
fn set_if_absent_keeps_first_value() {
    let mut c = cfg(&[("render_style", "compact")]);
    c.set_if_absent("render_style".to_string(), "dense".to_string());
    assert_eq!(Some("compact".to_string()), c.get(&"render_style".to_string()));
}

#[test]
fn merge_defaults_fills_only_gaps() {
    let mut own = cfg(&[("indent", "4")]);
    let defaults = cfg(&[("render_style", "compact"), ("indent", "2")]);
    own.merge_defaults(&defaults);
    // A key the component had not set carries the dependency's value.
    assert_eq!(Some("compact".to_string()), own.get(&"render_style".to_string()));
    // A key both define keeps the component's own value.
    assert_eq!(Some("4".to_string()), own.get(&"indent".to_string()));
}

#[test]
fn merge_defaults_with_empty_defaults_changes_nothing() {
    let mut own = cfg(&[("indent", "4")]);
    let before = format!("{own:?}");
    own.merge_defaults(&ConfigurationObject::new());
    assert_eq!(before, format!("{own:?}"));
}
