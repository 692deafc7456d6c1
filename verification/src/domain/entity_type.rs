use indexmap::IndexMap;
use vstd::prelude::*;

use crate::id::{CanonicalId, ExternalId};
use crate::provenance::Provenance;

verus! {

/// Semantic value type of a logical field, independent of any wire format.
#[derive(Debug, PartialEq)]
pub enum FieldType {
    /// Free-form text.
    Text,
    /// Integer numeric value.
    Integer,
    /// Decimal numeric value.
    Decimal,
    /// Boolean flag.
    Boolean,
    /// A value chosen from a closed enumeration of named variants.
    Enum(Vec<String>),
    /// A reference to another entity, identified by its type key.
    Reference(String),
    /// An ordered list of values of the given inner type.
    List(Box<FieldType>),
    /// An inline structured sub-record with its own named fields.
    Record(Vec<FieldDef>),
}

/// How many values a field may hold.
#[derive(Debug, Clone, Copy, PartialEq, Eq)]
pub enum FieldCardinality {
    /// Exactly one value (or zero if not required).
    One,
    /// Zero or more values.
    Many,
}

/// A single logical field on an entity type.
#[derive(Debug, PartialEq)]
pub struct FieldDef {
    /// Canonical field key, the bridge between format adapters.
    pub key: String,
    /// Human-readable display name.
    pub name: String,
    /// Semantic value type.
    pub field_type: FieldType,
    /// How many values this field may hold.
    pub cardinality: FieldCardinality,
    /// Whether this field must be present for the entity to be valid.
    pub required: bool,
    /// Optional prose description of the field's meaning.
    pub description: Option<String>,
}

/// A field type with every text by its characters.
pub enum FieldTypeView {
    Text,
    Integer,
    Decimal,
    Boolean,
    Enum(Seq<Seq<char>>),
    Reference(Seq<char>),
    List(Box<FieldTypeView>),
    Record(Seq<FieldDefView>),
}

/// A field definition with every text by its characters.
pub struct FieldDefView {
    pub key: Seq<char>,
    pub name: Seq<char>,
    pub field_type: FieldTypeView,
    pub cardinality: FieldCardinality,
    pub required: bool,
    pub description: Option<Seq<char>>,
}

/// The characters of each text of a list.
pub open spec fn texts_view(v: Seq<String>) -> Seq<Seq<char>> {
    v.map_values(|t: String| t@)
}

/// The view of a field type.
pub open spec fn field_type_view(t: FieldType) -> FieldTypeView
    decreases t,
{
    match t {
        FieldType::Text => FieldTypeView::Text,
        FieldType::Integer => FieldTypeView::Integer,
        FieldType::Decimal => FieldTypeView::Decimal,
        FieldType::Boolean => FieldTypeView::Boolean,
        FieldType::Enum(variants) => FieldTypeView::Enum(texts_view(variants@)),
        FieldType::Reference(key) => FieldTypeView::Reference(key@),
        FieldType::List(inner) => FieldTypeView::List(Box::new(field_type_view(*inner))),
        FieldType::Record(defs) => {
            proof {
                assert(decreases_to!(defs => defs@));
            }
            FieldTypeView::Record(field_defs_view(defs@))
        },
    }
}

/// The views of a list of field definitions, in order.
pub open spec fn field_defs_view(defs: Seq<FieldDef>) -> Seq<FieldDefView>
    decreases defs,
{
    if defs.len() == 0 {
        Seq::empty()
    } else {
        proof {
            assert(decreases_to!(defs => defs[defs.len() - 1]));
        }
        field_defs_view(defs.drop_last()).push(field_def_view(defs.last()))
    }
}

/// The view of a field definition.
pub open spec fn field_def_view(d: FieldDef) -> FieldDefView
    decreases d,
{
    FieldDefView {
        key: d.key@,
        name: d.name@,
        field_type: field_type_view(d.field_type),
        cardinality: d.cardinality,
        required: d.required,
        description: match d.description {
            Some(text) => Some(text@),
            None => None,
        },
    }
}

/// A copy of a field type, made by structural recursion: equal to `t` in
/// every variant, text and nested definition.
fn copy_field_type(t: &FieldType) -> (copied: FieldType)
    ensures
        field_type_view(copied) == field_type_view(*t),
    decreases t,
{
    match t {
        FieldType::Text => FieldType::Text,
        FieldType::Integer => FieldType::Integer,
        FieldType::Decimal => FieldType::Decimal,
        FieldType::Boolean => FieldType::Boolean,
        FieldType::Enum(variants) => {
            let mut copied: Vec<String> = Vec::new();
            for i in 0..variants.len()
                invariant
                    texts_view(copied@) == texts_view(variants@.subrange(0, i as int)),
            {
                let ghost before = copied@;
                copied.push(variants[i].clone());
                assert(texts_view(copied@) =~= texts_view(before).push(variants@[i as int]@));
                assert(texts_view(variants@.subrange(0, i + 1)) =~= texts_view(
                    variants@.subrange(0, i as int),
                ).push(variants@[i as int]@));
            }
            assert(variants@.subrange(0, variants@.len() as int) =~= variants@);
            FieldType::Enum(copied)
        },
        FieldType::Reference(key) => FieldType::Reference(key.clone()),
        FieldType::List(inner) => FieldType::List(Box::new(copy_field_type(&**inner))),
        FieldType::Record(defs) => FieldType::Record(copy_field_defs(defs)),
    }
}

/// A copy of a list of field definitions, in order.
fn copy_field_defs(defs: &Vec<FieldDef>) -> (copied: Vec<FieldDef>)
    ensures
        field_defs_view(copied@) == field_defs_view(defs@),
    decreases defs,
{
    let mut copied: Vec<FieldDef> = Vec::new();
    for i in 0..defs.len()
        invariant
            field_defs_view(copied@) == field_defs_view(defs@.subrange(0, i as int)),
    {
        proof {
            assert(decreases_to!(defs => defs@[i as int]));
        }
        let ghost before = copied@;
        let d = copy_field_def(&defs[i]);
        copied.push(d);
        assert(copied@.drop_last() =~= before);
        assert(defs@.subrange(0, i + 1).drop_last() =~= defs@.subrange(0, i as int));
    }
    assert(defs@.subrange(0, defs@.len() as int) =~= defs@);
    copied
}

/// A copy of one field definition: equal to `def` in every field.
fn copy_field_def(def: &FieldDef) -> (copied: FieldDef)
    ensures
        field_def_view(copied) == field_def_view(*def),
    decreases def,
{
    let description = match &def.description {
        Some(text) => Some(text.clone()),
        None => None,
    };
    FieldDef {
        key: def.key.clone(),
        name: def.name.clone(),
        field_type: copy_field_type(&def.field_type),
        cardinality: def.cardinality,
        required: def.required,
        description,
    }
}

impl Clone for FieldType {
    fn clone(&self) -> (copied: Self)
        ensures
            field_type_view(copied) == field_type_view(*self),
    {
        copy_field_type(self)
    }
}

impl Clone for FieldDef {
    fn clone(&self) -> (copied: Self)
        ensures
            field_def_view(copied) == field_def_view(*self),
    {
        copy_field_def(self)
    }
}

/// Cardinality of a relationship between entity types.
#[derive(Debug, Clone, Copy, PartialEq, Eq)]
pub enum RelationshipCardinality {
    /// At most one related entity.
    One,
    /// Any number of related entities.
    Many,
}

/// A named, directional relationship from this entity type to another.
#[derive(Debug, Clone)]
pub struct RelationshipDef {
    /// Canonical relationship key, e.g. `"class_levels"`.
    pub key: String,
    /// Human-readable display name.
    pub name: String,
    /// The `EntityType.key` of the entity type this relationship points to.
    pub target_type_key: String,
    /// How many target entities this relationship may hold.
    pub cardinality: RelationshipCardinality,
    /// Whether at least one related entity must be present.
    pub required: bool,
    /// Optional prose description.
    pub description: Option<String>,
}

/// The logical type definition for a class of entities.
#[derive(Debug, Clone)]
pub struct EntityType {
    pub id: CanonicalId,
    /// Canonical type key, e.g. `"pcgen:entity:class"`.
    pub key: String,
    /// Human-readable name.
    pub name: String,
    /// The game system this type belongs to; `None` when generic or unknown.
    pub game_system: Option<String>,
    /// Parent type, if this is a specialization of a more general type.
    pub parent: Option<CanonicalId>,
    /// Logical field definitions.
    pub fields: Vec<FieldDef>,
    /// Logical relationship definitions.
    pub relationships: Vec<RelationshipDef>,
    /// Descriptive (flavour) field values of the type itself.
    pub descriptive_fields: IndexMap<String, serde_json::Value>,
    /// Mechanical field values of the type itself.
    pub mechanical_fields: IndexMap<String, serde_json::Value>,
    pub external_ids: Vec<ExternalId>,
    pub provenance: Option<Provenance>,
}

} // verus!
