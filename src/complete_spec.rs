//! What the structural completion pass does, on the model.
use vstd::prelude::*;

use crate::error::Violation;
use crate::merge_spec::{anchor_of, merge_subs, with_anchor};
use crate::model::{
    empty_object, empty_props, key_index, keys_of, ArrayNode, Entries, ItemsNode, Node, ObjectNode,
    PropsNode, RootNode, SubsNode,
};
use crate::schema::{InstanceType, InstanceTypes, Metadata};

verus! {

/// Completes a node; a boolean leaf is complete as it is.
pub open spec fn complete_node(n: Node) -> Result<Node, Violation>
    decreases n, 1int,
{
    match n {
        Node::Leaf(_) => Ok(n),
        Node::Obj(o) => match complete_object(o) {
            Ok(o2) => Ok(Node::Obj(o2)),
            Err(e) => Err(e),
        },
    }
}

/// Completes a list of nodes, first to last; the first error ends it.
pub open spec fn complete_list(s: Seq<Node>) -> Result<Seq<Node>, Violation>
    decreases s, 1int,
{
    if s.len() == 0 {
        Ok(s)
    } else {
        proof {
            assert(decreases_to!(s => s.subrange(0, s.len() - 1)));
        }
        match complete_list(s.drop_last()) {
            Err(e) => Err(e),
            Ok(t) => match complete_node(s.last()) {
                Err(e) => Err(e),
                Ok(x) => Ok(t.push(x)),
            },
        }
    }
}

/// Completes the schema of each named entry, first to last.
pub open spec fn complete_entries(s: Entries) -> Result<Entries, Violation>
    decreases s, 1int,
{
    if s.len() == 0 {
        Ok(s)
    } else {
        proof {
            assert(decreases_to!(s => s.subrange(0, s.len() - 1)));
        }
        match complete_entries(s.drop_last()) {
            Err(e) => Err(e),
            Ok(t) => match complete_node(s.last().1) {
                Err(e) => Err(e),
                Ok(x) => Ok(t.push((s.last().0, x))),
            },
        }
    }
}

pub open spec fn complete_opt_list(s: Option<Seq<Node>>) -> Result<Option<Seq<Node>>, Violation>
    decreases s, 1int,
{
    match s {
        None => Ok(None),
        Some(l) => match complete_list(l) {
            Ok(l2) => Ok(Some(l2)),
            Err(e) => Err(e),
        },
    }
}

pub open spec fn complete_box(s: Option<Box<Node>>) -> Result<Option<Box<Node>>, Violation>
    decreases s, 1int,
{
    match s {
        None => Ok(None),
        Some(b) => match complete_node(*b) {
            Ok(b2) => Ok(Some(Box::new(b2))),
            Err(e) => Err(e),
        },
    }
}

/// Completes `allOf`, `anyOf`, `oneOf`, `not`, `if`, `then` and `else`, in this order.
pub open spec fn complete_subs(s: SubsNode) -> Result<SubsNode, Violation>
    decreases s, 1int,
{
    match complete_opt_list(s.all_of) {
        Err(e) => Err(e),
        Ok(all_of) => match complete_opt_list(s.any_of) {
            Err(e) => Err(e),
            Ok(any_of) => match complete_opt_list(s.one_of) {
                Err(e) => Err(e),
                Ok(one_of) => match complete_box(s.not) {
                    Err(e) => Err(e),
                    Ok(not) => match complete_box(s.if_schema) {
                        Err(e) => Err(e),
                        Ok(if_schema) => match complete_box(s.then_schema) {
                            Err(e) => Err(e),
                            Ok(then_schema) => match complete_box(s.else_schema) {
                                Err(e) => Err(e),
                                Ok(else_schema) => Ok(
                                    SubsNode {
                                        all_of,
                                        any_of,
                                        one_of,
                                        not,
                                        if_schema,
                                        then_schema,
                                        else_schema,
                                    },
                                ),
                            },
                        },
                    },
                },
            },
        },
    }
}

pub open spec fn complete_items(i: Option<ItemsNode>) -> Result<Option<ItemsNode>, Violation>
    decreases i, 1int,
{
    match i {
        None => Ok(None),
        Some(ItemsNode::Single(b)) => match complete_node(*b) {
            Ok(b2) => Ok(Some(ItemsNode::Single(Box::new(b2)))),
            Err(e) => Err(e),
        },
        Some(ItemsNode::Vec(l)) => match complete_list(l) {
            Ok(l2) => Ok(Some(ItemsNode::Vec(l2))),
            Err(e) => Err(e),
        },
    }
}

/// Completes `items`, `additionalItems` and `contains`, in this order.
pub open spec fn complete_array(a: ArrayNode) -> Result<ArrayNode, Violation>
    decreases a, 1int,
{
    match complete_items(a.items) {
        Err(e) => Err(e),
        Ok(items) => match complete_box(a.additional_items) {
            Err(e) => Err(e),
            Ok(additional_items) => match complete_box(a.contains) {
                Err(e) => Err(e),
                Ok(contains) => Ok(ArrayNode { items, additional_items, contains, ..a }),
            },
        },
    }
}

/// Completes `properties`, `patternProperties`, `additionalProperties` and
/// `propertyNames`, in this order.
pub open spec fn complete_props(p: PropsNode) -> Result<PropsNode, Violation>
    decreases p, 1int,
{
    match complete_entries(p.properties) {
        Err(e) => Err(e),
        Ok(properties) => match complete_entries(p.pattern_properties) {
            Err(e) => Err(e),
            Ok(pattern_properties) => match complete_box(p.additional_properties) {
                Err(e) => Err(e),
                Ok(additional_properties) => match complete_box(p.property_names) {
                    Err(e) => Err(e),
                    Ok(property_names) => Ok(
                        PropsNode {
                            properties,
                            pattern_properties,
                            additional_properties,
                            property_names,
                            ..p
                        },
                    ),
                },
            },
        },
    }
}

/// Completes every node below `o`: its branches, then its array keywords,
/// then its object keywords.
pub open spec fn complete_children(o: ObjectNode) -> Result<ObjectNode, Violation>
    decreases o, 0int,
{
    let r1 = match o.subschemas {
        None => Ok(None),
        Some(s) => match complete_subs(s) {
            Ok(s2) => Ok(Some(s2)),
            Err(e) => Err(e),
        },
    };
    match r1 {
        Err(e) => Err(e),
        Ok(subschemas) => {
            let r2 = match o.array {
                None => Ok(None),
                Some(a) => match complete_array(a) {
                    Ok(a2) => Ok(Some(a2)),
                    Err(e) => Err(e),
                },
            };
            match r2 {
                Err(e) => Err(e),
                Ok(array) => {
                    let r3 = match o.object {
                        None => Ok(None),
                        Some(p) => match complete_props(p) {
                            Ok(p2) => Ok(Some(p2)),
                            Err(e) => Err(e),
                        },
                    };
                    match r3 {
                        Err(e) => Err(e),
                        Ok(object) => Ok(ObjectNode { subschemas, array, object, ..o }),
                    }
                },
            }
        },
    }
}

/// Folds the branches of a node whose children are complete into the node itself.
pub open spec fn fold_branches(o: ObjectNode) -> Result<ObjectNode, Violation> {
    match o.subschemas {
        None => Ok(o),
        Some(s) => match merge_subs(anchor_of(o), s) {
            Ok((a, s2)) => Ok(with_anchor(ObjectNode { subschemas: Some(s2), ..o }, a)),
            Err(e) => Err(e),
        },
    }
}

/// Completes a node made of keywords: its children first, then its branches
/// are folded into it. A node left with a list of types is not structural.
pub open spec fn complete_object(o: ObjectNode) -> Result<ObjectNode, Violation>
    decreases o, 1int,
{
    match complete_children(o) {
        Err(e) => Err(e),
        Ok(o1) => match fold_branches(o1) {
            Err(e) => Err(e),
            Ok(o2) => if o2.instance_type matches Some(InstanceTypes::Vec(_)) {
                Err(Violation::TypeNotSingle)
            } else {
                Ok(o2)
            },
        },
    }
}

pub open spec fn metadata_key() -> Seq<char> {
    seq!['m', 'e', 't', 'a', 'd', 'a', 't', 'a']
}

pub open spec fn name_key() -> Seq<char> {
    seq!['n', 'a', 'm', 'e']
}

pub open spec fn generate_name_key() -> Seq<char> {
    seq!['g', 'e', 'n', 'e', 'r', 'a', 't', 'e', 'N', 'a', 'm', 'e']
}

/// A kept property of `metadata`: a node made of keywords loses its default.
pub open spec fn without_default(n: Node) -> Node {
    match n {
        Node::Obj(o) => match o.metadata {
            Some(m) => Node::Obj(ObjectNode { metadata: Some(Metadata { default: None, ..m }), ..o }),
            None => n,
        },
        Node::Leaf(_) => n,
    }
}

/// The entries named `name` or `generateName`, in order, without defaults.
pub open spec fn name_entries(s: Entries) -> Entries
    decreases s.len(),
{
    if s.len() == 0 {
        s
    } else {
        let rest = name_entries(s.drop_last());
        let e = s.last();
        if e.0 == name_key() || e.0 == generate_name_key() {
            rest.push((e.0, without_default(e.1)))
        } else {
            rest
        }
    }
}

/// The `metadata` property rebuilt: an object whose only properties are the
/// former `name` and `generateName`, and nothing else.
pub open spec fn restricted_metadata(m: ObjectNode) -> ObjectNode {
    let props = match m.object {
        Some(p) => p.properties,
        None => Seq::empty(),
    };
    ObjectNode {
        instance_type: Some(InstanceTypes::Single(InstanceType::Object)),
        object: Some(PropsNode { properties: name_entries(props), ..empty_props() }),
        ..empty_object()
    }
}

/// The primary node with its `metadata` property restricted, where that
/// property is a node made of keywords.
pub open spec fn restrict_metadata(o: ObjectNode) -> ObjectNode {
    match o.object {
        None => o,
        Some(p) => {
            let i = key_index(keys_of(p.properties), metadata_key());
            if i >= 0 {
                match p.properties[i].1 {
                    Node::Obj(m) => ObjectNode {
                        object: Some(
                            PropsNode {
                                properties: p.properties.update(
                                    i,
                                    (metadata_key(), Node::Obj(restricted_metadata(m))),
                                ),
                                ..p
                            },
                        ),
                        ..o
                    },
                    Node::Leaf(_) => o,
                }
            } else {
                o
            }
        },
    }
}

/// Completes a whole document: the metadata restriction on the primary node,
/// then the primary node, then each definition.
pub open spec fn complete_root(r: RootNode) -> Result<RootNode, Violation> {
    match complete_object(restrict_metadata(r.schema)) {
        Err(e) => Err(e),
        Ok(schema) => match complete_entries(r.definitions) {
            Err(e) => Err(e),
            Ok(definitions) => Ok(RootNode { schema, definitions, ..r }),
        },
    }
}

} // verus!
