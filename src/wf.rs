//! Well-formed documents: every named list names each entry once.
use vstd::prelude::*;

use crate::model::{keys_of, ArrayNode, Entries, ItemsNode, Node, ObjectNode, PropsNode, RootNode, SubsNode};

verus! {

/// Whether no name occurs twice.
pub open spec fn keys_unique(k: Seq<Seq<char>>) -> bool {
    forall|i: int, j: int|
        #![trigger k[i], k[j]]
        0 <= i < k.len() && 0 <= j < k.len() && k[i] == k[j] ==> i == j
}

/// Whether every node of the tree of `n` names its extensions, properties
/// and pattern properties each once.
pub open spec fn node_wf(n: Node) -> bool
    decreases n,
{
    match n {
        Node::Leaf(_) => true,
        Node::Obj(o) => object_wf(o),
    }
}

pub open spec fn list_wf(s: Seq<Node>) -> bool
    decreases s,
{
    forall|i: int| 0 <= i < s.len() ==> node_wf(#[trigger] s[i])
}

pub open spec fn entries_wf(s: Entries) -> bool
    decreases s,
{
    keys_unique(keys_of(s)) && forall|i: int| 0 <= i < s.len() ==> node_wf((#[trigger] s[i]).1)
}

pub open spec fn box_wf(b: Option<Box<Node>>) -> bool
    decreases b,
{
    match b {
        Some(x) => node_wf(*x),
        None => true,
    }
}

pub open spec fn opt_list_wf(s: Option<Seq<Node>>) -> bool
    decreases s,
{
    match s {
        Some(l) => list_wf(l),
        None => true,
    }
}

pub open spec fn subs_wf(s: SubsNode) -> bool
    decreases s,
{
    opt_list_wf(s.all_of) && opt_list_wf(s.any_of) && opt_list_wf(s.one_of) && box_wf(s.not)
        && box_wf(s.if_schema) && box_wf(s.then_schema) && box_wf(s.else_schema)
}

pub open spec fn array_wf(a: ArrayNode) -> bool
    decreases a,
{
    &&& match a.items {
        Some(ItemsNode::Single(b)) => node_wf(*b),
        Some(ItemsNode::Vec(l)) => list_wf(l),
        None => true,
    }
    &&& box_wf(a.additional_items)
    &&& box_wf(a.contains)
}

pub open spec fn props_wf(p: PropsNode) -> bool
    decreases p,
{
    entries_wf(p.properties) && entries_wf(p.pattern_properties) && box_wf(p.additional_properties)
        && box_wf(p.property_names)
}

pub open spec fn object_wf(o: ObjectNode) -> bool
    decreases o,
{
    &&& keys_unique(keys_of(o.extensions))
    &&& match o.subschemas {
        Some(s) => subs_wf(s),
        None => true,
    }
    &&& match o.array {
        Some(a) => array_wf(a),
        None => true,
    }
    &&& match o.object {
        Some(p) => props_wf(p),
        None => true,
    }
}

/// Whether a document is well formed: its primary node, and its definitions,
/// each named once.
pub open spec fn root_wf(r: RootNode) -> bool {
    object_wf(r.schema) && entries_wf(r.definitions)
}

} // verus!
