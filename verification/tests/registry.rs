use muskitty_cascade::registry::{builtin_properties, lookup_property, PercentageBasis};

#[test]
fn lookup_known_property() {
    let def = lookup_property("color").unwrap();
    assert!(def.inherited);
    assert_eq!(def.initial_value, "black");
}

#[test]
fn lookup_case_insensitive() {
    assert!(lookup_property("COLOR").is_some());
    assert!(lookup_property("Font-Size").is_some());
}

#[test]
fn lookup_unknown_property() {
    assert!(lookup_property("nonexistent").is_none());
}

#[test]
fn inherited_properties() {
    assert!(lookup_property("color").unwrap().inherited);
    assert!(lookup_property("font-size").unwrap().inherited);
    assert!(lookup_property("visibility").unwrap().inherited);
}

#[test]
fn non_inherited_properties() {
    assert!(!lookup_property("display").unwrap().inherited);
    assert!(!lookup_property("width").unwrap().inherited);
    assert!(!lookup_property("background-color").unwrap().inherited);
}

#[test]
fn percentage_basis() {
    assert_eq!(lookup_property("width").unwrap().percentages, PercentageBasis::ParentWidth);
    assert_eq!(lookup_property("font-size").unwrap().percentages, PercentageBasis::ParentFontSize);
    assert_eq!(lookup_property("color").unwrap().percentages, PercentageBasis::NotApplicable);
}

#[test]
fn builtin_property_count() {
    assert!(builtin_properties().len() >= 20);
}

#[test]
fn expanded_registry_inherited() {
    assert!(lookup_property("white-space").unwrap().inherited);
    assert!(lookup_property("cursor").unwrap().inherited);
    assert!(lookup_property("letter-spacing").unwrap().inherited);
    assert!(lookup_property("word-spacing").unwrap().inherited);
    assert!(lookup_property("font-style").unwrap().inherited);
    assert!(lookup_property("text-transform").unwrap().inherited);
}

#[test]
fn expanded_registry_non_inherited() {
    assert!(!lookup_property("position").unwrap().inherited);
    assert!(!lookup_property("z-index").unwrap().inherited);
    assert!(!lookup_property("overflow").unwrap().inherited);
    assert!(!lookup_property("border-top-width").unwrap().inherited);
    assert!(!lookup_property("outline-color").unwrap().inherited);
}

#[test]
fn expanded_registry_initial_values() {
    assert_eq!(lookup_property("white-space").unwrap().initial_value, "normal");
    assert_eq!(lookup_property("position").unwrap().initial_value, "static");
    assert_eq!(lookup_property("overflow").unwrap().initial_value, "visible");
}

#[test]
fn registry_names_are_unique_and_lowercase() {
    let table = builtin_properties();
    for (i, a) in table.iter().enumerate() {
        assert_eq!(a.name, a.name.to_ascii_lowercase());
        for b in &table[i + 1..] {
            assert_ne!(a.name, b.name);
        }
        assert_eq!(lookup_property(a.name).unwrap().name, a.name);
        assert_eq!(lookup_property(&a.name.to_ascii_uppercase()).unwrap().name, a.name);
    }
}
