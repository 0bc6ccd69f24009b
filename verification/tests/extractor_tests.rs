use cargo_agent::extractor::{
    accessor_signature, fallback, field, get_annotation_value, get_annotation_values, kind_of_name,
    present, property_kind, property_name, AccessorReply, AnnotationReplies, Property, PropertyKind,
};
use cargo_agent::text::{clone_row, clone_rows, join};

fn text(s: &str) -> AccessorReply {
    AccessorReply::Object(Some(s.to_string()))
}

fn strings(items: &[&str]) -> Vec<String> {
    items.iter().map(|s| s.to_string()).collect()
}

fn sample_replies() -> AnnotationReplies {
    AnnotationReplies {
        source_project_id: text("org.example:app:jar:1.0"),
        is_direct_dependency: AccessorReply::Boolean(1),
        id: text("org.example:lib:jar:2.3"),
        artefact: text("lib"),
        group: text("org.example"),
        version: text("2.3"),
        child_ids: AccessorReply::Array(vec![
            Some("a".to_string()),
            Some("b".to_string()),
            Some("c".to_string()),
        ]),
    }
}

#[test]
fn boolean_true_renders_true() {
    assert_eq!(
        get_annotation_value(&AccessorReply::Boolean(1)),
        Some("true".to_string())
    );
    assert_eq!(
        field(Property::IsDirectDependency, &AccessorReply::Boolean(1)),
        "true"
    );
}

#[test]
fn boolean_false_renders_false() {
    assert_eq!(
        get_annotation_value(&AccessorReply::Boolean(0)),
        Some("false".to_string())
    );
    assert_eq!(
        get_annotation_value(&AccessorReply::Boolean(2)),
        Some("false".to_string())
    );
    assert_eq!(
        field(Property::IsDirectDependency, &AccessorReply::Boolean(0)),
        "false"
    );
}

#[test]
fn absent_boolean_falls_back_to_false() {
    assert_eq!(get_annotation_value(&AccessorReply::Missing), None);
    assert_eq!(get_annotation_value(&AccessorReply::Null), None);
    assert_eq!(
        field(Property::IsDirectDependency, &AccessorReply::Missing),
        "false"
    );
    assert_eq!(
        field(Property::IsDirectDependency, &AccessorReply::Null),
        "false"
    );
}

#[test]
fn child_ids_are_joined_by_commas() {
    let reply = AccessorReply::Array(vec![
        Some("a".to_string()),
        Some("b".to_string()),
        Some("c".to_string()),
    ]);
    assert_eq!(get_annotation_value(&reply), Some("a,b,c".to_string()));
    assert_eq!(field(Property::ChildIds, &reply), "a,b,c");
}

#[test]
fn empty_child_id_array_renders_empty() {
    let reply = AccessorReply::Array(Vec::new());
    assert_eq!(get_annotation_value(&reply), Some(String::new()));
    assert_eq!(field(Property::ChildIds, &reply), "");
}

#[test]
fn null_array_elements_are_left_out() {
    let elements = vec![None, Some("a".to_string()), None, Some("b".to_string()), None];
    assert_eq!(present(&elements), strings(&["a", "b"]));
    assert_eq!(
        get_annotation_value(&AccessorReply::Array(elements)),
        Some("a,b".to_string())
    );
    assert_eq!(
        get_annotation_value(&AccessorReply::Array(vec![None, None])),
        Some(String::new())
    );
}

#[test]
fn null_array_falls_back_to_empty() {
    assert_eq!(field(Property::ChildIds, &AccessorReply::Null), "");
    assert_eq!(field(Property::ChildIds, &AccessorReply::Missing), "");
}

#[test]
fn object_renders_its_string_conversion() {
    assert_eq!(get_annotation_value(&text("1.2.3")), Some("1.2.3".to_string()));
    assert_eq!(get_annotation_value(&AccessorReply::Object(None)), None);
    assert_eq!(field(Property::Version, &text("1.2.3")), "1.2.3");
    assert_eq!(field(Property::Version, &AccessorReply::Object(None)), "");
    assert_eq!(field(Property::Group, &AccessorReply::Null), "");
    assert_eq!(field(Property::Id, &AccessorReply::Missing), "");
}

#[test]
fn row_has_nine_fields_in_column_order() {
    let rows = get_annotation_values("run", "Lorg/example/Main;", &sample_replies());
    assert_eq!(
        rows,
        vec![strings(&[
            "run",
            "Lorg/example/Main;",
            "org.example:app:jar:1.0",
            "true",
            "org.example:lib:jar:2.3",
            "lib",
            "org.example",
            "2.3",
            "a,b,c",
        ])]
    );
}

#[test]
fn row_degrades_field_by_field() {
    let replies = AnnotationReplies {
        source_project_id: AccessorReply::Missing,
        is_direct_dependency: AccessorReply::Missing,
        id: AccessorReply::Null,
        artefact: text("lib"),
        group: AccessorReply::Object(None),
        version: AccessorReply::Missing,
        child_ids: AccessorReply::Null,
    };
    let rows = get_annotation_values("m", "C", &replies);
    assert_eq!(
        rows,
        vec![strings(&["m", "C", "", "false", "", "lib", "", "", ""])]
    );
}

#[test]
fn property_names_and_kinds() {
    let all = [
        (Property::SourceProjectId, "sourceProjectId", PropertyKind::Object),
        (Property::IsDirectDependency, "isDirectDependency", PropertyKind::Boolean),
        (Property::Id, "id", PropertyKind::Object),
        (Property::Artefact, "artefact", PropertyKind::Object),
        (Property::Group, "group", PropertyKind::Object),
        (Property::Version, "version", PropertyKind::Object),
        (Property::ChildIds, "childIds", PropertyKind::StringArray),
    ];
    for (property, name, kind) in all {
        assert_eq!(property_name(property), name);
        assert_eq!(property_kind(property), kind);
        assert_eq!(kind_of_name(name), kind);
    }
    assert_eq!(kind_of_name("somethingElse"), PropertyKind::Object);
    assert_eq!(kind_of_name(""), PropertyKind::Object);
    assert_eq!(kind_of_name("childids"), PropertyKind::Object);
}

#[test]
fn accessor_signatures() {
    assert_eq!(accessor_signature(PropertyKind::Boolean), "()Z");
    assert_eq!(accessor_signature(PropertyKind::StringArray), "()[Ljava/lang/String;");
    assert_eq!(accessor_signature(PropertyKind::Object), "()Ljava/lang/String;");
}

#[test]
fn fallbacks() {
    assert_eq!(fallback(Property::IsDirectDependency), "false");
    for p in [
        Property::SourceProjectId,
        Property::Id,
        Property::Artefact,
        Property::Group,
        Property::Version,
        Property::ChildIds,
    ] {
        assert_eq!(fallback(p), "");
    }
}

#[test]
fn join_puts_the_separator_between_parts() {
    assert_eq!(join(&strings(&[]), ","), "");
    assert_eq!(join(&strings(&["one"]), ","), "one");
    assert_eq!(join(&strings(&["a", "b", "c"]), ","), "a,b,c");
    assert_eq!(join(&strings(&["", ""]), ","), ",");
    assert_eq!(join(&strings(&["a", "b"]), ", "), "a, b");
    assert_eq!(join(&strings(&["a,b", "c"]), ","), "a,b,c");
}

#[test]
fn clones_are_equal_to_what_they_copy() {
    let row = strings(&["x", "", "z"]);
    assert_eq!(clone_row(&row), row);
    let rows = vec![row, Vec::new(), strings(&["q"])];
    assert_eq!(clone_rows(&rows), rows);
    assert_eq!(clone_rows(&Vec::new()), Vec::<Vec<String>>::new());
}
