//! The mathematical model of a schema tree: the view of the types in `schema`.
use vstd::prelude::*;

use crate::schema::{ExtensionValue, InstanceTypes, Metadata};

verus! {

/// Extension keywords, in order, each with its name.
pub type ExtensionMap = Seq<(Seq<char>, ExtensionValue)>;

/// Named schemas, in order.
pub type Entries = Seq<(Seq<char>, Node)>;

/// A node: a boolean leaf, or a node made of keywords.
pub enum Node {
    Leaf(bool),
    Obj(ObjectNode),
}

/// The `items` keyword: one node, or one per position.
pub enum ItemsNode {
    Single(Box<Node>),
    Vec(Seq<Node>),
}

/// The composition keywords of a node.
pub struct SubsNode {
    pub all_of: Option<Seq<Node>>,
    pub any_of: Option<Seq<Node>>,
    pub one_of: Option<Seq<Node>>,
    pub not: Option<Box<Node>>,
    pub if_schema: Option<Box<Node>>,
    pub then_schema: Option<Box<Node>>,
    pub else_schema: Option<Box<Node>>,
}

/// The array keywords of a node.
pub struct ArrayNode {
    pub items: Option<ItemsNode>,
    pub additional_items: Option<Box<Node>>,
    pub max_items: Option<u32>,
    pub min_items: Option<u32>,
    pub unique_items: Option<bool>,
    pub contains: Option<Box<Node>>,
}

/// The object keywords of a node.
pub struct PropsNode {
    pub max_properties: Option<u32>,
    pub min_properties: Option<u32>,
    pub required: Seq<String>,
    pub properties: Entries,
    pub pattern_properties: Entries,
    pub additional_properties: Option<Box<Node>>,
    pub property_names: Option<Box<Node>>,
}

/// A node made of keywords. Keywords that the structural pass never reads are
/// held as the executable values they are.
pub struct ObjectNode {
    pub metadata: Option<Metadata>,
    pub instance_type: Option<InstanceTypes>,
    pub format: Option<String>,
    pub enum_values: Option<Vec<serde_json::Value>>,
    pub const_value: Option<serde_json::Value>,
    pub subschemas: Option<SubsNode>,
    pub number: Option<Box<schemars::schema::NumberValidation>>,
    pub string: Option<Box<schemars::schema::StringValidation>>,
    pub array: Option<ArrayNode>,
    pub object: Option<PropsNode>,
    pub reference: Option<String>,
    pub extensions: ExtensionMap,
}

/// A document: its primary node and its named definitions.
pub struct RootNode {
    pub meta_schema: Option<String>,
    pub schema: ObjectNode,
    pub definitions: Entries,
}

} // verus!

verus! {

/// A node with no keywords at all.
pub open spec fn empty_object() -> ObjectNode {
    ObjectNode {
        metadata: None,
        instance_type: None,
        format: None,
        enum_values: None,
        const_value: None,
        subschemas: None,
        number: None,
        string: None,
        array: None,
        object: None,
        reference: None,
        extensions: Seq::empty(),
    }
}

/// Array keywords with nothing set.
pub open spec fn empty_array() -> ArrayNode {
    ArrayNode {
        items: None,
        additional_items: None,
        max_items: None,
        min_items: None,
        unique_items: None,
        contains: None,
    }
}

/// Object keywords with nothing set.
pub open spec fn empty_props() -> PropsNode {
    PropsNode {
        max_properties: None,
        min_properties: None,
        required: Seq::empty(),
        properties: Seq::empty(),
        pattern_properties: Seq::empty(),
        additional_properties: None,
        property_names: None,
    }
}

/// The names of a list of named entries, in order.
pub open spec fn keys_of<V>(s: Seq<(Seq<char>, V)>) -> Seq<Seq<char>> {
    s.map_values(|p: (Seq<char>, V)| p.0)
}

/// The position of the first occurrence of `k` in `keys`, or -1.
pub open spec fn key_index(keys: Seq<Seq<char>>, k: Seq<char>) -> int
    decreases keys.len(),
{
    if keys.len() == 0 {
        -1
    } else {
        let r = key_index(keys.drop_last(), k);
        if r >= 0 {
            r
        } else if keys.last() == k {
            keys.len() - 1
        } else {
            -1
        }
    }
}

pub proof fn lemma_key_index_bounds(keys: Seq<Seq<char>>, k: Seq<char>)
    ensures
        -1 <= key_index(keys, k) < keys.len(),
        key_index(keys, k) >= 0 ==> keys[key_index(keys, k)] == k,
        key_index(keys, k) < 0 ==> forall|i: int| 0 <= i < keys.len() ==> keys[i] != k,
    decreases keys.len(),
{
    if keys.len() > 0 {
        lemma_key_index_bounds(keys.drop_last(), k);
        if key_index(keys, k) < 0 {
            assert forall|i: int| 0 <= i < keys.len() implies keys[i] != k by {
                if i < keys.len() - 1 {
                    assert(keys.drop_last()[i] == keys[i]);
                }
            }
        }
    }
}

/// Once `k` is found in a prefix, the longer list finds it at the same place.
pub proof fn lemma_key_index_prefix(keys: Seq<Seq<char>>, k: Seq<char>, n: int)
    requires
        0 <= n <= keys.len(),
        key_index(keys.take(n), k) >= 0,
    ensures
        key_index(keys, k) == key_index(keys.take(n), k),
    decreases keys.len() - n,
{
    if n < keys.len() {
        let t = keys.take(n + 1);
        assert(t.drop_last() =~= keys.take(n));
        lemma_key_index_prefix(keys, k, n + 1);
    } else {
        assert(keys.take(n) =~= keys);
    }
}

/// The value of extension `k`, where it is set.
pub open spec fn extension_value(e: ExtensionMap, k: Seq<char>) -> Option<ExtensionValue> {
    let i = key_index(keys_of(e), k);
    if i >= 0 {
        Some(e[i].1)
    } else {
        None
    }
}

/// Sets extension `k` to `v`: in place where `k` is present, else at the end.
pub open spec fn set_extension(e: ExtensionMap, k: Seq<char>, v: ExtensionValue) -> ExtensionMap {
    let i = key_index(keys_of(e), k);
    if i >= 0 {
        e.update(i, (k, v))
    } else {
        e.push((k, v))
    }
}

/// Removes the first entry of extension `k`, where it is present.
pub open spec fn remove_extension(e: ExtensionMap, k: Seq<char>) -> ExtensionMap {
    let i = key_index(keys_of(e), k);
    if i >= 0 {
        e.remove(i)
    } else {
        e
    }
}

} // verus!

verus! {

/// A node with every child node replaced by the same leaf: what is left is
/// the node's own keywords and the shape of its child positions (which are
/// present, how many nodes a list holds, under which names).
pub open spec fn hollow_object(o: ObjectNode) -> ObjectNode {
    ObjectNode {
        subschemas: match o.subschemas {
            Some(s) => Some(hollow_subs(s)),
            None => None,
        },
        array: match o.array {
            Some(a) => Some(hollow_array(a)),
            None => None,
        },
        object: match o.object {
            Some(p) => Some(hollow_props(p)),
            None => None,
        },
        ..o
    }
}

pub open spec fn hollow_list(s: Seq<Node>) -> Seq<Node> {
    Seq::new(s.len(), |i: int| Node::Leaf(false))
}

pub open spec fn hollow_opt_list(s: Option<Seq<Node>>) -> Option<Seq<Node>> {
    match s {
        Some(l) => Some(hollow_list(l)),
        None => None,
    }
}

pub open spec fn hollow_entries(s: Entries) -> Entries {
    Seq::new(s.len(), |i: int| (s[i].0, Node::Leaf(false)))
}

pub open spec fn hollow_box(b: Option<Box<Node>>) -> Option<Box<Node>> {
    match b {
        Some(_) => Some(Box::new(Node::Leaf(false))),
        None => None,
    }
}

pub open spec fn hollow_subs(s: SubsNode) -> SubsNode {
    SubsNode {
        all_of: hollow_opt_list(s.all_of),
        any_of: hollow_opt_list(s.any_of),
        one_of: hollow_opt_list(s.one_of),
        not: hollow_box(s.not),
        if_schema: hollow_box(s.if_schema),
        then_schema: hollow_box(s.then_schema),
        else_schema: hollow_box(s.else_schema),
    }
}

pub open spec fn hollow_array(a: ArrayNode) -> ArrayNode {
    ArrayNode {
        items: match a.items {
            Some(ItemsNode::Single(_)) => Some(ItemsNode::Single(Box::new(Node::Leaf(false)))),
            Some(ItemsNode::Vec(l)) => Some(ItemsNode::Vec(hollow_list(l))),
            None => None,
        },
        additional_items: hollow_box(a.additional_items),
        contains: hollow_box(a.contains),
        ..a
    }
}

pub open spec fn hollow_props(p: PropsNode) -> PropsNode {
    PropsNode {
        properties: hollow_entries(p.properties),
        pattern_properties: hollow_entries(p.pattern_properties),
        additional_properties: hollow_box(p.additional_properties),
        property_names: hollow_box(p.property_names),
        ..p
    }
}

} // verus!
