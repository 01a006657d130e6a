//! What merging a composition branch into an anchor node does, on the model.
use vstd::prelude::*;

use crate::error::Violation;
use crate::model::{
    empty_array, empty_object, empty_props, extension_value, key_index, keys_of, remove_extension,
    set_extension, ArrayNode, Entries, ExtensionMap, ItemsNode, Node, ObjectNode, PropsNode,
    SubsNode,
};
use crate::schema::{ExtensionValue, InstanceTypes, Metadata};

verus! {

/// The name of the nullable marker among the extensions.
pub open spec fn nullable_key() -> Seq<char> {
    seq!['n', 'u', 'l', 'l', 'a', 'b', 'l', 'e']
}

/// The four keywords of a node that branches are merged into.
pub struct AnchorNode {
    pub instance_type: Option<InstanceTypes>,
    pub array: Option<ArrayNode>,
    pub object: Option<PropsNode>,
    pub extensions: ExtensionMap,
}

pub open spec fn anchor_of(o: ObjectNode) -> AnchorNode {
    AnchorNode {
        instance_type: o.instance_type,
        array: o.array,
        object: o.object,
        extensions: o.extensions,
    }
}

pub open spec fn with_anchor(o: ObjectNode, a: AnchorNode) -> ObjectNode {
    ObjectNode {
        instance_type: a.instance_type,
        array: a.array,
        object: a.object,
        extensions: a.extensions,
        ..o
    }
}

/// Whether the extensions hold the nullable marker set to true.
pub open spec fn has_nullable(e: ExtensionMap) -> bool {
    extension_value(e, nullable_key()) == Some(ExtensionValue::Bool(true))
}

/// The type of the anchor once a branch of type `branch` is merged into it.
pub open spec fn unify_type(branch: Option<InstanceTypes>, parent: Option<InstanceTypes>) -> Result<
    Option<InstanceTypes>,
    Violation,
> {
    match (branch, parent) {
        (Some(InstanceTypes::Vec(_)), _) => Err(Violation::TypeNotSingle),
        (_, Some(InstanceTypes::Vec(_))) => Err(Violation::TypeNotSingle),
        (Some(InstanceTypes::Single(x)), Some(InstanceTypes::Single(y))) => if x != y {
            Err(Violation::TypeMismatch)
        } else {
            Ok(parent)
        },
        (Some(x), None) => Ok(Some(x)),
        (None, _) => Ok(parent),
    }
}

/// The metadata of a branch once merged: no default, title or description.
pub open spec fn strip_metadata(m: Option<Metadata>) -> Option<Metadata> {
    match m {
        Some(m) => Some(Metadata { default: None, title: None, description: None, ..m }),
        None => None,
    }
}

/// Merges a branch node into the anchor; a boolean leaf leaves both as they are.
pub open spec fn merge_node(a: AnchorNode, b: Node) -> Result<(AnchorNode, Node), Violation>
    decreases b,
{
    match b {
        Node::Leaf(_) => Ok((a, b)),
        Node::Obj(o) => match merge_object(a, o) {
            Ok((a2, o2)) => Ok((a2, Node::Obj(o2))),
            Err(e) => Err(e),
        },
    }
}

/// Merges a list of branches into the anchor, first to last.
pub open spec fn merge_list(a: AnchorNode, s: Seq<Node>) -> Result<(AnchorNode, Seq<Node>), Violation>
    decreases s,
{
    if s.len() == 0 {
        Ok((a, s))
    } else {
        proof {
            assert(decreases_to!(s => s.subrange(0, s.len() - 1)));
        }
        match merge_list(a, s.drop_last()) {
            Err(e) => Err(e),
            Ok((a1, t)) => match merge_node(a1, s.last()) {
                Err(e) => Err(e),
                Ok((a2, x)) => Ok((a2, t.push(x))),
            },
        }
    }
}

pub open spec fn merge_opt_list(a: AnchorNode, s: Option<Seq<Node>>) -> Result<
    (AnchorNode, Option<Seq<Node>>),
    Violation,
>
    decreases s,
{
    match s {
        None => Ok((a, None)),
        Some(l) => match merge_list(a, l) {
            Ok((a2, l2)) => Ok((a2, Some(l2))),
            Err(e) => Err(e),
        },
    }
}

pub open spec fn merge_opt_box(a: AnchorNode, s: Option<Box<Node>>) -> Result<
    (AnchorNode, Option<Box<Node>>),
    Violation,
>
    decreases s,
{
    match s {
        None => Ok((a, None)),
        Some(b) => match merge_node(a, *b) {
            Ok((a2, b2)) => Ok((a2, Some(Box::new(b2)))),
            Err(e) => Err(e),
        },
    }
}

/// Merges the branches of a branch (`allOf`, `anyOf`, `oneOf`, then `not`)
/// into the same anchor.
pub open spec fn merge_subs(a: AnchorNode, s: SubsNode) -> Result<(AnchorNode, SubsNode), Violation>
    decreases s,
{
    match merge_opt_list(a, s.all_of) {
        Err(e) => Err(e),
        Ok((a1, all_of)) => match merge_opt_list(a1, s.any_of) {
            Err(e) => Err(e),
            Ok((a2, any_of)) => match merge_opt_list(a2, s.one_of) {
                Err(e) => Err(e),
                Ok((a3, one_of)) => match merge_opt_box(a3, s.not) {
                    Err(e) => Err(e),
                    Ok((a4, not)) => Ok((a4, SubsNode { all_of, any_of, one_of, not, ..s })),
                },
            },
        },
    }
}

/// The anchor's array keywords, created empty where absent.
pub open spec fn anchor_array(a: AnchorNode) -> ArrayNode {
    match a.array {
        Some(x) => x,
        None => empty_array(),
    }
}

/// The anchor's `items`, created as an empty node where absent.
pub open spec fn anchor_items(a: AnchorNode) -> ItemsNode {
    match anchor_array(a).items {
        Some(x) => x,
        None => ItemsNode::Single(Box::new(Node::Obj(empty_object()))),
    }
}

/// Merges the single `items` schema of a branch into the anchor's `items`,
/// which is a new anchor of its own.
pub open spec fn merge_items(a: AnchorNode, arr: ArrayNode) -> Result<(AnchorNode, ArrayNode), Violation>
    decreases arr,
{
    match arr.items {
        None => Ok((a, arr)),
        Some(ItemsNode::Vec(_)) => Err(Violation::ItemsNotSchema),
        Some(ItemsNode::Single(item)) => {
            let pa = anchor_array(a);
            match anchor_items(a) {
                ItemsNode::Vec(_) => Err(Violation::ItemsNotSchema),
                ItemsNode::Single(ps) => match *ps {
                    Node::Leaf(_) => Ok(
                        (
                            AnchorNode {
                                array: Some(ArrayNode { items: Some(anchor_items(a)), ..pa }),
                                ..a
                            },
                            arr,
                        ),
                    ),
                    Node::Obj(p) => match merge_node(anchor_of(p), *item) {
                        Err(e) => Err(e),
                        Ok((pa2, item2)) => Ok(
                            (
                                AnchorNode {
                                    array: Some(
                                        ArrayNode {
                                            items: Some(
                                                ItemsNode::Single(
                                                    Box::new(Node::Obj(with_anchor(p, pa2))),
                                                ),
                                            ),
                                            ..pa
                                        },
                                    ),
                                    ..a
                                },
                                ArrayNode { items: Some(ItemsNode::Single(Box::new(item2))), ..arr },
                            ),
                        ),
                    },
                },
            }
        },
    }
}

/// The anchor's properties with `name` present: appended as an empty node
/// where absent.
pub open spec fn props_with(ps: Entries, name: Seq<char>) -> Entries {
    if key_index(keys_of(ps), name) >= 0 {
        ps
    } else {
        ps.push((name, Node::Obj(empty_object())))
    }
}

/// Where `name` stands in `props_with(ps, name)`.
pub open spec fn prop_index(ps: Entries, name: Seq<char>) -> int {
    if key_index(keys_of(ps), name) >= 0 {
        key_index(keys_of(ps), name)
    } else {
        ps.len() as int
    }
}

/// Merges one named property of a branch into the same-named property of the
/// anchor's object keywords, which is a new anchor of its own.
pub open spec fn merge_prop(p: PropsNode, entry: (Seq<char>, Node)) -> Result<
    (PropsNode, (Seq<char>, Node)),
    Violation,
>
    decreases entry,
{
    let ps = props_with(p.properties, entry.0);
    let i = prop_index(p.properties, entry.0);
    match ps[i].1 {
        Node::Leaf(_) => Err(Violation::PropertyNotSchema),
        Node::Obj(target) => match merge_node(anchor_of(target), entry.1) {
            Err(e) => Err(e),
            Ok((ta, b2)) => Ok(
                (
                    PropsNode {
                        properties: ps.update(i, (ps[i].0, Node::Obj(with_anchor(target, ta)))),
                        ..p
                    },
                    (entry.0, b2),
                ),
            ),
        },
    }
}

/// Merges the properties of a branch, first to last.
pub open spec fn merge_props(p: PropsNode, s: Entries) -> Result<(PropsNode, Entries), Violation>
    decreases s,
{
    if s.len() == 0 {
        Ok((p, s))
    } else {
        proof {
            assert(decreases_to!(s => s.subrange(0, s.len() - 1)));
        }
        match merge_props(p, s.drop_last()) {
            Err(e) => Err(e),
            Ok((p1, t)) => match merge_prop(p1, s.last()) {
                Err(e) => Err(e),
                Ok((p2, x)) => Ok((p2, t.push(x))),
            },
        }
    }
}

/// Merges a branch made of keywords into the anchor: first its own branches,
/// then its `items`, its properties, its type and its nullable marker (moved
/// to the anchor where it is set to true); its
/// informational keywords are cleared.
pub open spec fn merge_object(a: AnchorNode, o: ObjectNode) -> Result<(AnchorNode, ObjectNode), Violation>
    decreases o,
{
    let r1 = match o.subschemas {
        None => Ok((a, o.subschemas)),
        Some(s) => match merge_subs(a, s) {
            Ok((a1, s1)) => Ok((a1, Some(s1))),
            Err(e) => Err(e),
        },
    };
    match r1 {
        Err(e) => Err(e),
        Ok((a1, subschemas)) => {
            let r2 = match o.array {
                None => Ok((a1, o.array)),
                Some(arr) => match merge_items(a1, arr) {
                    Ok((a2, arr2)) => Ok((a2, Some(arr2))),
                    Err(e) => Err(e),
                },
            };
            match r2 {
                Err(e) => Err(e),
                Ok((a2, array)) => {
                    let r3 = match o.object {
                        None => Ok((a2, o.object)),
                        Some(ob) => {
                            let po = match a2.object {
                                Some(x) => x,
                                None => empty_props(),
                            };
                            match merge_props(po, ob.properties) {
                                Ok((po2, props2)) => Ok(
                                    (
                                        AnchorNode { object: Some(po2), ..a2 },
                                        Some(PropsNode { properties: props2, ..ob }),
                                    ),
                                ),
                                Err(e) => Err(e),
                            }
                        },
                    };
                    match r3 {
                        Err(e) => Err(e),
                        Ok((a3, object)) => match unify_type(o.instance_type, a3.instance_type) {
                            Err(e) => Err(e),
                            Ok(t) => {
                                let nullable = has_nullable(o.extensions);
                                Ok(
                                    (
                                        AnchorNode {
                                            instance_type: t,
                                            extensions: if nullable {
                                                set_extension(
                                                    a3.extensions,
                                                    nullable_key(),
                                                    ExtensionValue::Bool(true),
                                                )
                                            } else {
                                                a3.extensions
                                            },
                                            ..a3
                                        },
                                        ObjectNode {
                                            metadata: strip_metadata(o.metadata),
                                            instance_type: None,
                                            subschemas,
                                            array,
                                            object,
                                            extensions: if nullable {
                                                remove_extension(o.extensions, nullable_key())
                                            } else {
                                                o.extensions
                                            },
                                            ..o
                                        },
                                    ),
                                )
                            },
                        },
                    }
                },
            }
        },
    }
}

} // verus!
