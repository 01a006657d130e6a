//! The structural pass introduces no list of types.
use vstd::prelude::*;

use crate::complete_spec::{
    complete_array, complete_box, complete_children, complete_entries, complete_items,
    complete_list, complete_node, complete_object, complete_opt_list, complete_props, complete_root,
    complete_subs, restrict_metadata, };
use crate::merge_spec::{
    anchor_array, anchor_items, anchor_of, merge_items, merge_list, merge_node, merge_object,
    merge_opt_list, merge_prop, merge_props, merge_subs, prop_index, props_with,
    with_anchor, AnchorNode,
};
use crate::model::{
    empty_object, keys_of, ArrayNode, Entries, ItemsNode, Node, ObjectNode, PropsNode,
    RootNode, SubsNode,
};
use crate::schema::InstanceTypes;

verus! {

/// Whether a `type` keyword is absent or a single type.
pub open spec fn no_type_list(t: Option<InstanceTypes>) -> bool {
    !(t matches Some(InstanceTypes::Vec(_)))
}

/// Whether no node in the tree of `n` has a list of types.
pub open spec fn node_single(n: Node) -> bool
    decreases n,
{
    match n {
        Node::Leaf(_) => true,
        Node::Obj(o) => object_single(o),
    }
}

pub open spec fn list_single(s: Seq<Node>) -> bool
    decreases s,
{
    forall|i: int| 0 <= i < s.len() ==> node_single(#[trigger] s[i])
}

pub open spec fn entries_single(s: Entries) -> bool
    decreases s,
{
    forall|i: int| 0 <= i < s.len() ==> node_single((#[trigger] s[i]).1)
}

pub open spec fn box_single(b: Option<Box<Node>>) -> bool
    decreases b,
{
    match b {
        Some(x) => node_single(*x),
        None => true,
    }
}

pub open spec fn opt_list_single(s: Option<Seq<Node>>) -> bool
    decreases s,
{
    match s {
        Some(l) => list_single(l),
        None => true,
    }
}

pub open spec fn subs_single(s: SubsNode) -> bool
    decreases s,
{
    opt_list_single(s.all_of) && opt_list_single(s.any_of) && opt_list_single(s.one_of) && box_single(s.not)
        && box_single(s.if_schema) && box_single(s.then_schema) && box_single(s.else_schema)
}

pub open spec fn items_single(i: Option<ItemsNode>) -> bool
    decreases i,
{
    match i {
        Some(ItemsNode::Single(b)) => node_single(*b),
        Some(ItemsNode::Vec(l)) => list_single(l),
        None => true,
    }
}

pub open spec fn array_single(a: ArrayNode) -> bool
    decreases a,
{
    items_single(a.items) && box_single(a.additional_items) && box_single(a.contains)
}

pub open spec fn props_single(p: PropsNode) -> bool
    decreases p,
{
    entries_single(p.properties) && entries_single(p.pattern_properties) && box_single(p.additional_properties)
        && box_single(p.property_names)
}

pub open spec fn object_single(o: ObjectNode) -> bool
    decreases o,
{
    &&& no_type_list(o.instance_type)
    &&& match o.subschemas {
        Some(s) => subs_single(s),
        None => true,
    }
    &&& match o.array {
        Some(a) => array_single(a),
        None => true,
    }
    &&& match o.object {
        Some(p) => props_single(p),
        None => true,
    }
}

pub open spec fn anchor_single(a: AnchorNode) -> bool {
    &&& no_type_list(a.instance_type)
    &&& match a.array {
        Some(x) => array_single(x),
        None => true,
    }
    &&& match a.object {
        Some(p) => props_single(p),
        None => true,
    }
}

pub open spec fn root_single(r: RootNode) -> bool {
    object_single(r.schema) && entries_single(r.definitions)
}

proof fn lemma_with_anchor_single(o: ObjectNode, a: AnchorNode)
    requires
        object_single(o),
        anchor_single(a),
    ensures
        object_single(with_anchor(o, a)),
{
}

proof fn lemma_empty_single()
    ensures
        object_single(empty_object()),
        node_single(Node::Obj(empty_object())),
{
}

pub proof fn lemma_merge_node_single(a: AnchorNode, b: Node)
    requires
        merge_node(a, b) is Ok,
        anchor_single(a),
        node_single(b),
    ensures
        anchor_single(merge_node(a, b)->Ok_0.0),
        node_single(merge_node(a, b)->Ok_0.1),
    decreases b, 1int,
{
    match b {
        Node::Obj(o) => lemma_merge_object_single(a, o),
        Node::Leaf(_) => {},
    }
}

pub proof fn lemma_merge_object_single(a: AnchorNode, o: ObjectNode)
    requires
        merge_object(a, o) is Ok,
        anchor_single(a),
        object_single(o),
    ensures
        anchor_single(merge_object(a, o)->Ok_0.0),
        object_single(merge_object(a, o)->Ok_0.1),
    decreases o, 0int,
{
    let a1 = match o.subschemas {
        None => a,
        Some(s) => {
            lemma_merge_subs_single(a, s);
            merge_subs(a, s)->Ok_0.0
        },
    };
    let a2 = match o.array {
        None => a1,
        Some(arr) => {
            lemma_merge_items_single(a1, arr);
            merge_items(a1, arr)->Ok_0.0
        },
    };
    match o.object {
        None => {},
        Some(ob) => {
            let po = match a2.object {
                Some(x) => x,
                None => crate::model::empty_props(),
            };
            assert(entries_single(Seq::<(Seq<char>, Node)>::empty()));
            lemma_merge_props_single(po, ob.properties);
        },
    }
}

pub proof fn lemma_merge_subs_single(a: AnchorNode, s: SubsNode)
    requires
        merge_subs(a, s) is Ok,
        anchor_single(a),
        subs_single(s),
    ensures
        anchor_single(merge_subs(a, s)->Ok_0.0),
        subs_single(merge_subs(a, s)->Ok_0.1),
    decreases s, 1int,
{
    let a1 = merge_opt_list(a, s.all_of)->Ok_0.0;
    let a2 = merge_opt_list(a1, s.any_of)->Ok_0.0;
    let a3 = merge_opt_list(a2, s.one_of)->Ok_0.0;
    lemma_merge_opt_list_single(a, s.all_of);
    lemma_merge_opt_list_single(a1, s.any_of);
    lemma_merge_opt_list_single(a2, s.one_of);
    match s.not {
        Some(b) => lemma_merge_node_single(a3, *b),
        None => {},
    }
}

pub proof fn lemma_merge_opt_list_single(a: AnchorNode, s: Option<Seq<Node>>)
    requires
        merge_opt_list(a, s) is Ok,
        anchor_single(a),
        opt_list_single(s),
    ensures
        anchor_single(merge_opt_list(a, s)->Ok_0.0),
        opt_list_single(merge_opt_list(a, s)->Ok_0.1),
    decreases s, 1int,
{
    match s {
        Some(l) => lemma_merge_list_single(a, l),
        None => {},
    }
}

pub proof fn lemma_merge_list_single(a: AnchorNode, s: Seq<Node>)
    requires
        merge_list(a, s) is Ok,
        anchor_single(a),
        list_single(s),
    ensures
        anchor_single(merge_list(a, s)->Ok_0.0),
        list_single(merge_list(a, s)->Ok_0.1),
    decreases s, 1int,
{
    if s.len() > 0 {
        assert(decreases_to!(s => s.subrange(0, s.len() - 1)));
        let d = s.drop_last();
        assert forall|i: int| 0 <= i < d.len() implies node_single(#[trigger] d[i]) by {
            assert(d[i] == s[i]);
        }
        lemma_merge_list_single(a, d);
        let r1 = merge_list(a, d)->Ok_0;
        assert(node_single(s[s.len() - 1]));
        lemma_merge_node_single(r1.0, s.last());
        let out = merge_list(a, s)->Ok_0.1;
        assert forall|i: int| 0 <= i < out.len() implies node_single(#[trigger] out[i]) by {
            if i < out.len() - 1 {
                assert(out[i] == r1.1[i]);
            }
        }
    }
}

pub proof fn lemma_merge_items_single(a: AnchorNode, arr: ArrayNode)
    requires
        merge_items(a, arr) is Ok,
        anchor_single(a),
        array_single(arr),
    ensures
        anchor_single(merge_items(a, arr)->Ok_0.0),
        array_single(merge_items(a, arr)->Ok_0.1),
    decreases arr, 1int,
{
    match arr.items {
        Some(ItemsNode::Single(item)) => {
            lemma_empty_single();
            assert(array_single(anchor_array(a)));
            assert(items_single(Some(anchor_items(a))));
            match anchor_items(a) {
                ItemsNode::Single(ps) => match *ps {
                    Node::Obj(p) => {
                        lemma_merge_node_single(anchor_of(p), *item);
                        lemma_with_anchor_single(p, merge_node(anchor_of(p), *item)->Ok_0.0);
                    },
                    Node::Leaf(_) => {},
                },
                ItemsNode::Vec(_) => {},
            }
        },
        _ => {},
    }
}

pub proof fn lemma_merge_prop_single(p: PropsNode, entry: (Seq<char>, Node))
    requires
        merge_prop(p, entry) is Ok,
        props_single(p),
        node_single(entry.1),
    ensures
        props_single(merge_prop(p, entry)->Ok_0.0),
        node_single(merge_prop(p, entry)->Ok_0.1.1),
    decreases entry, 1int,
{
    let ps = props_with(p.properties, entry.0);
    let i = prop_index(p.properties, entry.0);
    crate::model::lemma_key_index_bounds(keys_of(p.properties), entry.0);
    lemma_empty_single();
    assert(entries_single(ps)) by {
        assert forall|j: int| 0 <= j < ps.len() implies node_single((#[trigger] ps[j]).1) by {
            if j < p.properties.len() {
                assert(ps[j] == p.properties[j]);
            }
        }
    }
    assert(node_single(ps[i].1));
    match ps[i].1 {
        Node::Obj(target) => {
            lemma_merge_node_single(anchor_of(target), entry.1);
            let ta = merge_node(anchor_of(target), entry.1)->Ok_0.0;
            lemma_with_anchor_single(target, ta);
            let ps2 = ps.update(i, (ps[i].0, Node::Obj(with_anchor(target, ta))));
            assert forall|j: int| 0 <= j < ps2.len() implies node_single((#[trigger] ps2[j]).1) by {
                if j != i {
                    assert(ps2[j] == ps[j]);
                }
            }
        },
        Node::Leaf(_) => {},
    }
}

pub proof fn lemma_merge_props_single(p: PropsNode, s: Entries)
    requires
        merge_props(p, s) is Ok,
        props_single(p),
        entries_single(s),
    ensures
        props_single(merge_props(p, s)->Ok_0.0),
        entries_single(merge_props(p, s)->Ok_0.1),
    decreases s, 1int,
{
    if s.len() > 0 {
        assert(decreases_to!(s => s.subrange(0, s.len() - 1)));
        let d = s.drop_last();
        assert forall|i: int| 0 <= i < d.len() implies node_single((#[trigger] d[i]).1) by {
            assert(d[i] == s[i]);
        }
        lemma_merge_props_single(p, d);
        let r1 = merge_props(p, d)->Ok_0;
        assert(node_single(s[s.len() - 1].1));
        lemma_merge_prop_single(r1.0, s.last());
        let out = merge_props(p, s)->Ok_0.1;
        assert forall|i: int| 0 <= i < out.len() implies node_single((#[trigger] out[i]).1) by {
            if i < out.len() - 1 {
                assert(out[i] == r1.1[i]);
            }
        }
    }
}


pub proof fn lemma_complete_node_single(n: Node)
    requires
        complete_node(n) is Ok,
    ensures
        node_single(complete_node(n)->Ok_0),
    decreases n, 1int,
{
    match n {
        Node::Obj(o) => lemma_complete_object_single(o),
        Node::Leaf(_) => {},
    }
}

pub proof fn lemma_complete_object_single(o: ObjectNode)
    requires
        complete_object(o) is Ok,
    ensures
        object_single(complete_object(o)->Ok_0),
    decreases o, 1int,
{
    lemma_complete_children_single(o);
    let o1 = complete_children(o)->Ok_0;
    match o1.subschemas {
        None => {},
        Some(s1) => {
            crate::laws_type::lemma_merge_subs_type(anchor_of(o1), s1);
            assert(no_type_list(o1.instance_type));
            lemma_merge_subs_single(anchor_of(o1), s1);
            let r = merge_subs(anchor_of(o1), s1)->Ok_0;
            lemma_with_anchor_single(ObjectNode { subschemas: Some(r.1), ..o1 }, r.0);
        },
    }
}

pub proof fn lemma_complete_children_single(o: ObjectNode)
    requires
        complete_children(o) is Ok,
    ensures
        object_single(ObjectNode { instance_type: None, ..complete_children(o)->Ok_0 }),
    decreases o, 0int,
{
    match o.subschemas {
        Some(s) => lemma_complete_subs_single(s),
        None => {},
    }
    match o.array {
        Some(a) => lemma_complete_array_single(a),
        None => {},
    }
    match o.object {
        Some(p) => lemma_complete_props_single(p),
        None => {},
    }
}

pub proof fn lemma_complete_list_single(s: Seq<Node>)
    requires
        complete_list(s) is Ok,
    ensures
        list_single(complete_list(s)->Ok_0),
    decreases s, 1int,
{
    if s.len() > 0 {
        assert(decreases_to!(s => s.subrange(0, s.len() - 1)));
        let d = s.drop_last();
        lemma_complete_list_single(d);
        lemma_complete_node_single(s.last());
        let t = complete_list(d)->Ok_0;
        let out = complete_list(s)->Ok_0;
        assert forall|i: int| 0 <= i < out.len() implies node_single(#[trigger] out[i]) by {
            if i < out.len() - 1 {
                assert(out[i] == t[i]);
            }
        }
    }
}

pub proof fn lemma_complete_entries_single(s: Entries)
    requires
        complete_entries(s) is Ok,
    ensures
        entries_single(complete_entries(s)->Ok_0),
    decreases s, 1int,
{
    if s.len() > 0 {
        assert(decreases_to!(s => s.subrange(0, s.len() - 1)));
        let d = s.drop_last();
        lemma_complete_entries_single(d);
        lemma_complete_node_single(s.last().1);
        let t = complete_entries(d)->Ok_0;
        let out = complete_entries(s)->Ok_0;
        assert forall|i: int| 0 <= i < out.len() implies node_single((#[trigger] out[i]).1) by {
            if i < out.len() - 1 {
                assert(out[i] == t[i]);
            }
        }
    }
}

pub proof fn lemma_complete_box_single(b: Option<Box<Node>>)
    requires
        complete_box(b) is Ok,
    ensures
        box_single(complete_box(b)->Ok_0),
    decreases b, 1int,
{
    match b {
        Some(x) => lemma_complete_node_single(*x),
        None => {},
    }
}

pub proof fn lemma_complete_opt_list_single(s: Option<Seq<Node>>)
    requires
        complete_opt_list(s) is Ok,
    ensures
        opt_list_single(complete_opt_list(s)->Ok_0),
    decreases s, 1int,
{
    match s {
        Some(l) => lemma_complete_list_single(l),
        None => {},
    }
}

pub proof fn lemma_complete_subs_single(s: SubsNode)
    requires
        complete_subs(s) is Ok,
    ensures
        subs_single(complete_subs(s)->Ok_0),
    decreases s, 1int,
{
    lemma_complete_opt_list_single(s.all_of);
    lemma_complete_opt_list_single(s.any_of);
    lemma_complete_opt_list_single(s.one_of);
    lemma_complete_box_single(s.not);
    lemma_complete_box_single(s.if_schema);
    lemma_complete_box_single(s.then_schema);
    lemma_complete_box_single(s.else_schema);
}

pub proof fn lemma_complete_array_single(a: ArrayNode)
    requires
        complete_array(a) is Ok,
    ensures
        array_single(complete_array(a)->Ok_0),
    decreases a, 1int,
{
    match a.items {
        Some(ItemsNode::Single(b)) => lemma_complete_node_single(*b),
        Some(ItemsNode::Vec(l)) => lemma_complete_list_single(l),
        None => {},
    }
    assert(items_single(complete_items(a.items)->Ok_0));
    lemma_complete_box_single(a.additional_items);
    lemma_complete_box_single(a.contains);
}

pub proof fn lemma_complete_props_single(p: PropsNode)
    requires
        complete_props(p) is Ok,
    ensures
        props_single(complete_props(p)->Ok_0),
    decreases p, 1int,
{
    lemma_complete_entries_single(p.properties);
    lemma_complete_entries_single(p.pattern_properties);
    lemma_complete_box_single(p.additional_properties);
    lemma_complete_box_single(p.property_names);
}

/// After a successful pass no node of the document has a list of types.
pub proof fn law_no_type_lists(r: RootNode)
    requires
        complete_root(r) is Ok,
    ensures
        root_single(complete_root(r)->Ok_0),
{
    lemma_complete_object_single(restrict_metadata(r.schema));
    lemma_complete_entries_single(r.definitions);
}

} // verus!
