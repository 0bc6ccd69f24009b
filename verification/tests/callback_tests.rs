use cargo_agent::cache::{get_annotation_data, insert_annotation_data};
use cargo_agent::callback::{
    complete_extraction, disable_event, enable_event, method_entry_callback, with_method, Action,
    Agent, EventMode, MethodEntry, SkipReason, STATUS_OK,
};
use cargo_agent::extractor::{AccessorReply, AnnotationReplies};

fn entry(method: &str, class: &str) -> MethodEntry {
    MethodEntry::Resolved { method_name: method.to_string(), class_name: class.to_string() }
}

fn row(items: &[&str]) -> Vec<String> {
    items.iter().map(|s| s.to_string()).collect()
}

fn replies() -> AnnotationReplies {
    AnnotationReplies {
        source_project_id: AccessorReply::Object(Some("proj".to_string())),
        is_direct_dependency: AccessorReply::Boolean(0),
        id: AccessorReply::Object(Some("g:a:1".to_string())),
        artefact: AccessorReply::Object(Some("a".to_string())),
        group: AccessorReply::Object(Some("g".to_string())),
        version: AccessorReply::Object(Some("1".to_string())),
        child_ids: AccessorReply::Array(vec![Some("c1".to_string()), Some("c2".to_string())]),
    }
}

/// A runtime that reports a method entry for every reflective call made
/// during an extraction, and counts how many of them reach the extraction
/// path.
fn observe(agent: &mut Agent, method: &str, class: &str, annotated: bool, sink: &mut Vec<Vec<String>>) -> usize {
    let mut nested_extractions = 0;
    match method_entry_callback(agent, &entry(method, class)) {
        Action::Skip(_) => {}
        Action::Emit(rows) => sink.extend(rows),
        Action::Suspend => {
            assert!(disable_event(agent, STATUS_OK));
            for reflective in ["getAnnotation", "sourceProjectId", "isDirectDependency", "toString"] {
                match method_entry_callback(agent, &entry(reflective, "Ljava/lang/Class;")) {
                    Action::Skip(SkipReason::Suppressed) => {}
                    _ => nested_extractions += 1,
                }
            }
            let answers = replies();
            let found = if annotated { Some(&answers) } else { None };
            let action = complete_extraction(agent, method, class, found);
            assert_eq!(agent.mode, EventMode::Disabled);
            assert!(enable_event(agent, STATUS_OK));
            if let Action::Emit(rows) = action {
                sink.extend(rows);
            }
        }
    }
    nested_extractions
}

#[test]
fn agent_starts_enabled_and_empty() {
    let agent = Agent::new();
    assert_eq!(agent.mode, EventMode::Enabled);
    assert_eq!(agent.cache.len(), 0);
}

#[test]
fn null_handle_is_skipped() {
    let agent = Agent::new();
    assert_eq!(
        method_entry_callback(&agent, &MethodEntry::NullHandle),
        Action::Skip(SkipReason::NullHandle)
    );
}

#[test]
fn unresolved_names_are_skipped() {
    let agent = Agent::new();
    assert_eq!(
        method_entry_callback(&agent, &MethodEntry::Unresolved),
        Action::Skip(SkipReason::Unresolved)
    );
}

#[test]
fn unknown_class_suspends_delivery_first() {
    let agent = Agent::new();
    assert_eq!(method_entry_callback(&agent, &entry("run", "LMain;")), Action::Suspend);
    assert_eq!(agent.mode, EventMode::Enabled);
}

#[test]
fn cache_hit_substitutes_the_method_name() {
    let mut agent = Agent::new();
    insert_annotation_data(
        &mut agent.cache,
        "LMain;".to_string(),
        vec![row(&["first", "LMain;", "p", "true", "i", "a", "g", "1", ""])],
    );
    assert_eq!(
        method_entry_callback(&agent, &entry("second", "LMain;")),
        Action::Emit(vec![row(&["second", "LMain;", "p", "true", "i", "a", "g", "1", ""])])
    );
    assert_eq!(
        get_annotation_data(&agent.cache, "LMain;"),
        Some(vec![row(&["first", "LMain;", "p", "true", "i", "a", "g", "1", ""])])
    );
    assert_eq!(agent.mode, EventMode::Enabled);
}

#[test]
fn two_observations_differ_in_the_method_field_only() {
    let mut agent = Agent::new();
    let mut sink: Vec<Vec<String>> = Vec::new();
    observe(&mut agent, "m1", "LMain;", true, &mut sink);
    observe(&mut agent, "m2", "LMain;", true, &mut sink);
    observe(&mut agent, "m3", "LMain;", true, &mut sink);
    assert_eq!(sink.len(), 3);
    assert_eq!(sink[0], row(&["m1", "LMain;", "proj", "false", "g:a:1", "a", "g", "1", "c1,c2"]));
    assert_eq!(sink[1][0], "m2");
    assert_eq!(sink[2][0], "m3");
    assert_eq!(sink[0][1..], sink[1][1..]);
    assert_eq!(sink[0][1..], sink[2][1..]);
    assert_eq!(agent.cache.len(), 1);
}

#[test]
fn no_nested_extraction_while_disabled() {
    let mut agent = Agent::new();
    let mut sink: Vec<Vec<String>> = Vec::new();
    assert_eq!(observe(&mut agent, "run", "LMain;", true, &mut sink), 0);
    assert_eq!(agent.mode, EventMode::Enabled);
    assert_eq!(observe(&mut agent, "run", "LPlain;", false, &mut sink), 0);
    assert_eq!(agent.mode, EventMode::Enabled);
    assert_eq!(sink.len(), 1);
}

#[test]
fn every_event_is_suppressed_while_disabled() {
    let mut agent = Agent::new();
    insert_annotation_data(&mut agent.cache, "LMain;".to_string(), vec![row(&["m", "LMain;"])]);
    assert!(disable_event(&mut agent, STATUS_OK));
    for event in [
        MethodEntry::NullHandle,
        MethodEntry::Unresolved,
        entry("m", "LMain;"),
        entry("m", "LOther;"),
    ] {
        assert_eq!(
            method_entry_callback(&agent, &event),
            Action::Skip(SkipReason::Suppressed)
        );
    }
    assert!(enable_event(&mut agent, STATUS_OK));
    assert_eq!(
        method_entry_callback(&agent, &entry("n", "LMain;")),
        Action::Emit(vec![row(&["n", "LMain;"])])
    );
}

#[test]
fn refused_switch_keeps_the_mode() {
    let mut agent = Agent::new();
    assert!(!disable_event(&mut agent, 99));
    assert_eq!(agent.mode, EventMode::Enabled);
    assert!(disable_event(&mut agent, 0));
    assert_eq!(agent.mode, EventMode::Disabled);
    assert!(!enable_event(&mut agent, 1));
    assert_eq!(agent.mode, EventMode::Disabled);
    assert!(enable_event(&mut agent, 0));
    assert_eq!(agent.mode, EventMode::Enabled);
}

#[test]
fn extraction_stores_and_emits_the_row() {
    let mut agent = Agent::new();
    assert!(disable_event(&mut agent, STATUS_OK));
    let answers = replies();
    let action = complete_extraction(&mut agent, "run", "LMain;", Some(&answers));
    let expected = vec![row(&["run", "LMain;", "proj", "false", "g:a:1", "a", "g", "1", "c1,c2"])];
    assert_eq!(action, Action::Emit(expected.clone()));
    assert_eq!(get_annotation_data(&agent.cache, "LMain;"), Some(expected));
    assert_eq!(agent.mode, EventMode::Disabled);
}

#[test]
fn extraction_without_annotation_changes_nothing() {
    let mut agent = Agent::new();
    assert!(disable_event(&mut agent, STATUS_OK));
    assert_eq!(
        complete_extraction(&mut agent, "run", "LPlain;", None),
        Action::Skip(SkipReason::NoAnnotation)
    );
    assert_eq!(agent.cache.len(), 0);
    assert!(enable_event(&mut agent, STATUS_OK));
    assert_eq!(method_entry_callback(&agent, &entry("again", "LPlain;")), Action::Suspend);
}

#[test]
fn cached_rows_without_a_method_field_emit_nothing() {
    let mut agent = Agent::new();
    insert_annotation_data(&mut agent.cache, "E".to_string(), Vec::new());
    insert_annotation_data(&mut agent.cache, "F".to_string(), vec![Vec::new()]);
    assert_eq!(
        method_entry_callback(&agent, &entry("m", "E")),
        Action::Skip(SkipReason::NoMethodField)
    );
    assert_eq!(
        method_entry_callback(&agent, &entry("m", "F")),
        Action::Skip(SkipReason::NoMethodField)
    );
}

#[test]
fn with_method_touches_the_first_field_of_the_first_row_only() {
    let rows = vec![row(&["old", "x"]), row(&["keep", "y"])];
    assert_eq!(
        with_method(rows, "new"),
        Some(vec![row(&["new", "x"]), row(&["keep", "y"])])
    );
    assert_eq!(with_method(Vec::new(), "new"), None);
    assert_eq!(with_method(vec![Vec::new(), row(&["a"])], "new"), None);
}
