//! Turning what an annotation's accessors answered into the fields of a row.
//!
//! The caller asks the runtime; this module says what to ask for and what
//! each answer means. Extraction is best effort field by field: an accessor
//! that cannot be found, or that answers null, costs that field its value and
//! nothing else.

use vstd::prelude::*;
use vstd::string::*;
use crate::text::{join, spec_join};

verus! {

/// The properties that the provenance annotation declares, in the order in
/// which a row holds them.
#[derive(Clone, Copy, Debug, PartialEq, Eq, Structural)]
pub enum Property {
    SourceProjectId,
    IsDirectDependency,
    Id,
    Artefact,
    Group,
    Version,
    ChildIds,
}

/// How a property's accessor is called and its answer rendered.
#[derive(Clone, Copy, Debug, PartialEq, Eq, Structural)]
pub enum PropertyKind {
    /// The accessor answers a primitive boolean.
    Boolean,
    /// The accessor answers an array of strings.
    StringArray,
    /// The accessor answers an object, rendered by its string conversion.
    Object,
}

/// What the runtime answered when a property's accessor was called.
#[derive(Clone, Debug, PartialEq, Eq)]
pub enum AccessorReply {
    /// The accessor could not be resolved.
    Missing,
    /// The accessor answered null.
    Null,
    /// A boolean accessor answered this primitive; one stands for true.
    Boolean(u8),
    /// An array accessor answered these elements; `None` stands for an
    /// element that was null or whose characters could not be had.
    Array(Vec<Option<String>>),
    /// An object accessor answered an object; the text is its string
    /// conversion, `None` where that could not be had.
    Object(Option<String>),
}

/// The answers of all seven accessors of one annotation.
#[derive(Clone, Debug, PartialEq, Eq)]
pub struct AnnotationReplies {
    pub source_project_id: AccessorReply,
    pub is_direct_dependency: AccessorReply,
    pub id: AccessorReply,
    pub artefact: AccessorReply,
    pub group: AccessorReply,
    pub version: AccessorReply,
    pub child_ids: AccessorReply,
}

/// The name of a property's accessor.
pub open spec fn spec_property_name(property: Property) -> Seq<char> {
    match property {
        Property::SourceProjectId => "sourceProjectId"@,
        Property::IsDirectDependency => "isDirectDependency"@,
        Property::Id => "id"@,
        Property::Artefact => "artefact"@,
        Property::Group => "group"@,
        Property::Version => "version"@,
        Property::ChildIds => "childIds"@,
    }
}

/// The kind of the accessor with the given name: two names are special,
/// every other accessor answers an object.
pub open spec fn spec_kind_of_name(name: Seq<char>) -> PropertyKind {
    if name == "isDirectDependency"@ {
        PropertyKind::Boolean
    } else if name == "childIds"@ {
        PropertyKind::StringArray
    } else {
        PropertyKind::Object
    }
}

/// The kind of a declared property.
pub open spec fn spec_property_kind(property: Property) -> PropertyKind {
    match property {
        Property::IsDirectDependency => PropertyKind::Boolean,
        Property::ChildIds => PropertyKind::StringArray,
        _ => PropertyKind::Object,
    }
}

/// The type signature under which an accessor of the given kind is looked
/// up.
pub open spec fn spec_accessor_signature(kind: PropertyKind) -> Seq<char> {
    match kind {
        PropertyKind::Boolean => "()Z"@,
        PropertyKind::StringArray => "()[Ljava/lang/String;"@,
        PropertyKind::Object => "()Ljava/lang/String;"@,
    }
}

/// What a row holds for a property whose value could not be had.
pub open spec fn spec_fallback(property: Property) -> Seq<char> {
    match property {
        Property::IsDirectDependency => "false"@,
        _ => Seq::empty(),
    }
}

/// The elements of an array answer that are there, in order.
pub open spec fn spec_present(elements: Seq<Option<Seq<char>>>) -> Seq<Seq<char>>
    decreases elements.len(),
{
    if elements.len() == 0 {
        Seq::empty()
    } else {
        match elements.last() {
            Some(text) => spec_present(elements.drop_last()).push(text),
            None => spec_present(elements.drop_last()),
        }
    }
}

/// The value that an accessor's answer stands for, if it stands for one.
pub open spec fn spec_annotation_value(reply: AccessorReply) -> Option<Seq<char>> {
    match reply {
        AccessorReply::Missing => None,
        AccessorReply::Null => None,
        AccessorReply::Boolean(b) => Some(
            if b == 1 {
                "true"@
            } else {
                "false"@
            },
        ),
        AccessorReply::Array(elements) => Some(spec_join(spec_present(elements.deep_view()), ","@)),
        AccessorReply::Object(text) => text.deep_view(),
    }
}

/// The field that a row holds for `property` when its accessor answered
/// `reply`.
pub open spec fn spec_field(property: Property, reply: AccessorReply) -> Seq<char> {
    match spec_annotation_value(reply) {
        Some(text) => text,
        None => spec_fallback(property),
    }
}

/// The row for one annotation: the method and class names, then one field
/// for each property.
pub open spec fn spec_row(method: Seq<char>, class_name: Seq<char>, replies: AnnotationReplies) -> Seq<
    Seq<char>,
> {
    seq![
        method,
        class_name,
        spec_field(Property::SourceProjectId, replies.source_project_id),
        spec_field(Property::IsDirectDependency, replies.is_direct_dependency),
        spec_field(Property::Id, replies.id),
        spec_field(Property::Artefact, replies.artefact),
        spec_field(Property::Group, replies.group),
        spec_field(Property::Version, replies.version),
        spec_field(Property::ChildIds, replies.child_ids),
    ]
}

/// The name of a property's accessor.
pub fn property_name(property: Property) -> (name: String)
    ensures
        name@ == spec_property_name(property),
{
    match property {
        Property::SourceProjectId => String::from_str("sourceProjectId"),
        Property::IsDirectDependency => String::from_str("isDirectDependency"),
        Property::Id => String::from_str("id"),
        Property::Artefact => String::from_str("artefact"),
        Property::Group => String::from_str("group"),
        Property::Version => String::from_str("version"),
        Property::ChildIds => String::from_str("childIds"),
    }
}

/// The kind of the accessor with the given name.
pub fn kind_of_name(name: &str) -> (kind: PropertyKind)
    ensures
        kind == spec_kind_of_name(name@),
{
    let name = String::from_str(name);
    if name == String::from_str("isDirectDependency") {
        PropertyKind::Boolean
    } else if name == String::from_str("childIds") {
        PropertyKind::StringArray
    } else {
        PropertyKind::Object
    }
}

/// The kind of a declared property.
pub fn property_kind(property: Property) -> (kind: PropertyKind)
    ensures
        kind == spec_property_kind(property),
        kind == spec_kind_of_name(spec_property_name(property)),
{
    proof {
        lemma_kind_of_property_name();
    }
    match property {
        Property::IsDirectDependency => PropertyKind::Boolean,
        Property::ChildIds => PropertyKind::StringArray,
        _ => PropertyKind::Object,
    }
}

/// Classifying a declared property by the name of its accessor gives the
/// property's kind: only the two special names are special.
pub proof fn lemma_kind_of_property_name()
    ensures
        forall|p: Property| spec_kind_of_name(#[trigger] spec_property_name(p)) == spec_property_kind(p),
{
    reveal_strlit("sourceProjectId");
    reveal_strlit("isDirectDependency");
    reveal_strlit("id");
    reveal_strlit("artefact");
    reveal_strlit("group");
    reveal_strlit("version");
    reveal_strlit("childIds");
    assert forall|p: Property| spec_kind_of_name(#[trigger] spec_property_name(p)) == spec_property_kind(p) by {
        assert("sourceProjectId"@.len() == 15);
        assert("isDirectDependency"@.len() == 18);
        assert("childIds"@.len() == 8);
        assert("id"@.len() == 2);
        assert("group"@.len() == 5);
        assert("version"@.len() == 7);
        assert("artefact"@[0] == 'a');
        assert("childIds"@[0] == 'c');
    }
}

/// The type signature under which an accessor of the given kind is looked
/// up.
pub fn accessor_signature(kind: PropertyKind) -> (signature: String)
    ensures
        signature@ == spec_accessor_signature(kind),
{
    match kind {
        PropertyKind::Boolean => String::from_str("()Z"),
        PropertyKind::StringArray => String::from_str("()[Ljava/lang/String;"),
        PropertyKind::Object => String::from_str("()Ljava/lang/String;"),
    }
}

/// What a row holds for a property whose value could not be had.
pub fn fallback(property: Property) -> (text: String)
    ensures
        text@ == spec_fallback(property),
{
    match property {
        Property::IsDirectDependency => String::from_str("false"),
        _ => String::new(),
    }
}

/// The elements of an array answer that are there, in order.
pub fn present(elements: &Vec<Option<String>>) -> (kept: Vec<String>)
    ensures
        kept.deep_view() == spec_present(elements.deep_view()),
{
    let mut kept: Vec<String> = Vec::new();
    let mut i: usize = 0;
    while i < elements.len()
        invariant
            i <= elements.len(),
            kept.deep_view() == spec_present(elements.deep_view().take(i as int)),
        decreases elements.len() - i,
    {
        let ghost before = kept.deep_view();
        let ghost len_before = kept@.len();
        proof {
            let all = elements.deep_view();
            assert(all.take(i + 1).drop_last() =~= all.take(i as int));
            assert(all.take(i + 1).last() == elements[i as int].deep_view());
        }
        match &elements[i] {
            Some(text) => {
                kept.push(text.clone());
                proof {
                    assert(kept@.len() == len_before + 1);
                    assert(kept.deep_view() =~= before.push(text@));
                }
            },
            None => {},
        }
        i = i + 1;
    }
    proof {
        assert(elements.deep_view().take(i as int) =~= elements.deep_view());
    }
    kept
}

/// Renders what one accessor answered. A boolean becomes `true` or `false`,
/// an array its elements joined by commas, an object its string conversion;
/// an accessor that is missing or answered null gives no value.
pub fn get_annotation_value(reply: &AccessorReply) -> (value: Option<String>)
    ensures
        value.deep_view() == spec_annotation_value(*reply),
{
    match reply {
        AccessorReply::Missing => None,
        AccessorReply::Null => None,
        AccessorReply::Boolean(b) => {
            if *b == 1 {
                Some(String::from_str("true"))
            } else {
                Some(String::from_str("false"))
            }
        },
        AccessorReply::Array(elements) => {
            let kept = present(elements);
            Some(join(&kept, ","))
        },
        AccessorReply::Object(text) => match text {
            Some(t) => Some(t.clone()),
            None => None,
        },
    }
}

/// The field that a row holds for `property` when its accessor answered
/// `reply`: the rendered value, or the property's fallback.
pub fn field(property: Property, reply: &AccessorReply) -> (text: String)
    ensures
        text@ == spec_field(property, *reply),
{
    match get_annotation_value(reply) {
        Some(text) => text,
        None => fallback(property),
    }
}

/// Builds the rows for one annotation: a single row of nine fields.
pub fn get_annotation_values(method: &str, class_name: &str, replies: &AnnotationReplies) -> (rows: Vec<
    Vec<String>,
>)
    ensures
        rows.deep_view() == seq![spec_row(method@, class_name@, *replies)],
{
    let mut row: Vec<String> = Vec::new();
    row.push(String::from_str(method));
    row.push(String::from_str(class_name));
    row.push(field(Property::SourceProjectId, &replies.source_project_id));
    row.push(field(Property::IsDirectDependency, &replies.is_direct_dependency));
    row.push(field(Property::Id, &replies.id));
    row.push(field(Property::Artefact, &replies.artefact));
    row.push(field(Property::Group, &replies.group));
    row.push(field(Property::Version, &replies.version));
    row.push(field(Property::ChildIds, &replies.child_ids));
    proof {
        assert(row.deep_view() =~= spec_row(method@, class_name@, *replies));
    }
    let mut rows: Vec<Vec<String>> = Vec::new();
    rows.push(row);
    proof {
        assert(rows.deep_view() =~= seq![spec_row(method@, class_name@, *replies)]);
    }
    rows
}

} // verus!
