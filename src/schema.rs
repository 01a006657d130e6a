//! The schema tree as the library holds it, and its mathematical model.
//!
//! The executable types mirror a JSON Schema document: a node is either a
//! boolean leaf or an object of keywords. Keywords that the structural pass
//! never reads are carried through untouched. Each executable type has a view
//! in `model`, where every vector of nodes becomes a `Seq` and every string
//! key a `Seq<char>`.
use vstd::prelude::*;

use crate::model::{ArrayNode, Entries, ExtensionMap, ItemsNode, Node, ObjectNode, PropsNode, RootNode, SubsNode};

verus! {

/// Carries the numeric keywords (`multipleOf`, `maximum`, ...), which the
/// structural pass never reads.
#[verifier::external_type_specification]
#[verifier::external_body]
pub struct ExNumberValidation(schemars::schema::NumberValidation);

/// Carries the string keywords (`maxLength`, `minLength`, `pattern`), which the
/// structural pass never reads.
#[verifier::external_type_specification]
#[verifier::external_body]
pub struct ExStringValidation(schemars::schema::StringValidation);

/// Carries an arbitrary JSON value (a `default`, an `enum` member, an extension).
#[verifier::external_type_specification]
#[verifier::external_body]
pub struct ExValue(serde_json::Value);

/// The primitive JSON types a node may be restricted to.
#[derive(Clone, Copy, Debug, PartialEq, Eq, Structural)]
pub enum InstanceType {
    Null,
    Boolean,
    Object,
    Array,
    Number,
    String,
    Integer,
}

/// The `type` keyword: one type, or a list of types.
#[derive(Clone, Debug, PartialEq)]
pub enum InstanceTypes {
    Single(InstanceType),
    Vec(Vec<InstanceType>),
}

/// The value of an extension keyword. Booleans are held as such, since the
/// `nullable` marker is one; every other JSON value is carried as it is.
#[derive(Debug, PartialEq)]
pub enum ExtensionValue {
    Bool(bool),
    Other(serde_json::Value),
}

/// A schema node: a boolean leaf (`true` accepts anything, `false` nothing) or
/// an object of keywords.
#[derive(Debug, PartialEq)]
pub enum Schema {
    Bool(bool),
    Object(SchemaObject),
}

/// The informational keywords of a node.
#[derive(Debug, PartialEq)]
pub struct Metadata {
    pub id: Option<String>,
    pub title: Option<String>,
    pub description: Option<String>,
    pub default: Option<serde_json::Value>,
    pub deprecated: bool,
    pub read_only: bool,
    pub write_only: bool,
    pub examples: Vec<serde_json::Value>,
}

/// The `items` keyword: one schema for every element, or one per position.
#[derive(Debug, PartialEq)]
pub enum Items {
    Single(Box<Schema>),
    Vec(Vec<Schema>),
}

/// The composition keywords of a node.
#[derive(Debug, PartialEq)]
pub struct SubschemaValidation {
    pub all_of: Option<Vec<Schema>>,
    pub any_of: Option<Vec<Schema>>,
    pub one_of: Option<Vec<Schema>>,
    pub not: Option<Box<Schema>>,
    pub if_schema: Option<Box<Schema>>,
    pub then_schema: Option<Box<Schema>>,
    pub else_schema: Option<Box<Schema>>,
}

/// The array keywords of a node.
#[derive(Debug, PartialEq)]
pub struct ArrayValidation {
    pub items: Option<Items>,
    pub additional_items: Option<Box<Schema>>,
    pub max_items: Option<u32>,
    pub min_items: Option<u32>,
    pub unique_items: Option<bool>,
    pub contains: Option<Box<Schema>>,
}

/// The object keywords of a node. `properties` and `pattern_properties` are
/// ordered lists of named schemas; a name is looked up at its first entry.
#[derive(Debug, PartialEq)]
pub struct ObjectValidation {
    pub max_properties: Option<u32>,
    pub min_properties: Option<u32>,
    pub required: Vec<String>,
    pub properties: Vec<(String, Schema)>,
    pub pattern_properties: Vec<(String, Schema)>,
    pub additional_properties: Option<Box<Schema>>,
    pub property_names: Option<Box<Schema>>,
}

/// A node made of keywords.
#[derive(Debug, PartialEq)]
pub struct SchemaObject {
    pub metadata: Option<Box<Metadata>>,
    pub instance_type: Option<InstanceTypes>,
    pub format: Option<String>,
    pub enum_values: Option<Vec<serde_json::Value>>,
    pub const_value: Option<serde_json::Value>,
    pub subschemas: Option<Box<SubschemaValidation>>,
    pub number: Option<Box<schemars::schema::NumberValidation>>,
    pub string: Option<Box<schemars::schema::StringValidation>>,
    pub array: Option<Box<ArrayValidation>>,
    pub object: Option<Box<ObjectValidation>>,
    pub reference: Option<String>,
    pub extensions: Vec<(String, ExtensionValue)>,
}

/// A whole document: its primary node and its named definitions.
#[derive(Debug, PartialEq)]
pub struct RootSchema {
    pub meta_schema: Option<String>,
    pub schema: SchemaObject,
    pub definitions: Vec<(String, Schema)>,
}

pub open spec fn view_extensions(e: Vec<(String, ExtensionValue)>) -> ExtensionMap {
    Seq::new(e@.len(), |k: int| (e@[k].0@, e@[k].1))
}

pub open spec fn view_schema(s: Schema) -> Node
    decreases s,
{
    match s {
        Schema::Bool(b) => Node::Leaf(b),
        Schema::Object(o) => Node::Obj(view_object(o)),
    }
}

pub open spec fn view_boxed(s: Option<Box<Schema>>) -> Option<Box<Node>>
    decreases s,
{
    match s {
        Some(b) => Some(Box::new(view_schema(*b))),
        None => None,
    }
}

pub open spec fn view_list(v: Vec<Schema>) -> Seq<Node>
    decreases v,
{
    proof {
        broadcast use vstd::std_specs::vec::axiom_vec_index_decreases;
    }
    Seq::new(v@.len(), |k: int| if 0 <= k < v@.len() { view_schema(v[k]) } else { Node::Leaf(false) })
}

pub open spec fn view_opt_list(v: Option<Vec<Schema>>) -> Option<Seq<Node>>
    decreases v,
{
    match v {
        Some(l) => Some(view_list(l)),
        None => None,
    }
}

pub open spec fn view_entries(v: Vec<(String, Schema)>) -> Entries
    decreases v,
{
    proof {
        broadcast use vstd::std_specs::vec::axiom_vec_index_decreases;
    }
    Seq::new(
        v@.len(),
        |k: int|
            if 0 <= k < v@.len() {
                (v[k].0@, view_schema(v[k].1))
            } else {
                (Seq::empty(), Node::Leaf(false))
            },
    )
}

pub open spec fn view_subschemas(s: SubschemaValidation) -> SubsNode
    decreases s,
{
    SubsNode {
        all_of: view_opt_list(s.all_of),
        any_of: view_opt_list(s.any_of),
        one_of: view_opt_list(s.one_of),
        not: view_boxed(s.not),
        if_schema: view_boxed(s.if_schema),
        then_schema: view_boxed(s.then_schema),
        else_schema: view_boxed(s.else_schema),
    }
}

pub open spec fn view_items(i: Items) -> ItemsNode
    decreases i,
{
    match i {
        Items::Single(b) => ItemsNode::Single(Box::new(view_schema(*b))),
        Items::Vec(v) => ItemsNode::Vec(view_list(v)),
    }
}

pub open spec fn view_array(a: ArrayValidation) -> ArrayNode
    decreases a,
{
    ArrayNode {
        items: match a.items {
            Some(i) => Some(view_items(i)),
            None => None,
        },
        additional_items: view_boxed(a.additional_items),
        max_items: a.max_items,
        min_items: a.min_items,
        unique_items: a.unique_items,
        contains: view_boxed(a.contains),
    }
}

pub open spec fn view_props(o: ObjectValidation) -> PropsNode
    decreases o,
{
    PropsNode {
        max_properties: o.max_properties,
        min_properties: o.min_properties,
        required: o.required@,
        properties: view_entries(o.properties),
        pattern_properties: view_entries(o.pattern_properties),
        additional_properties: view_boxed(o.additional_properties),
        property_names: view_boxed(o.property_names),
    }
}

pub open spec fn view_object(o: SchemaObject) -> ObjectNode
    decreases o,
{
    ObjectNode {
        metadata: match o.metadata {
            Some(m) => Some(*m),
            None => None,
        },
        instance_type: o.instance_type,
        format: o.format,
        enum_values: o.enum_values,
        const_value: o.const_value,
        subschemas: match o.subschemas {
            Some(s) => Some(view_subschemas(*s)),
            None => None,
        },
        number: o.number,
        string: o.string,
        array: match o.array {
            Some(a) => Some(view_array(*a)),
            None => None,
        },
        object: match o.object {
            Some(p) => Some(view_props(*p)),
            None => None,
        },
        reference: o.reference,
        extensions: view_extensions(o.extensions),
    }
}

impl View for Schema {
    type V = Node;

    open spec fn view(&self) -> Node {
        view_schema(*self)
    }
}

impl View for SchemaObject {
    type V = ObjectNode;

    open spec fn view(&self) -> ObjectNode {
        view_object(*self)
    }
}

impl View for RootSchema {
    type V = RootNode;

    open spec fn view(&self) -> RootNode {
        RootNode {
            meta_schema: self.meta_schema,
            schema: view_object(self.schema),
            definitions: view_entries(self.definitions),
        }
    }
}

} // verus!
