//! The type of a node under the structural pass.
use vstd::prelude::*;

use crate::complete_spec::{
    complete_children, complete_list, complete_node, complete_object,
    complete_subs, };
use crate::laws::lemma_complete_list_pointwise;
use crate::merge_spec::{
    anchor_of, merge_list, merge_node, merge_object, merge_opt_list, merge_subs,
    unify_type, AnchorNode,
};
use crate::model::{Node, ObjectNode, SubsNode};
use crate::schema::{InstanceType, InstanceTypes};

verus! {

/// Whether `n` is a node made of keywords that declares the single type `t`,
/// or one of its composition branches does, at any depth.
pub open spec fn node_declares(n: Node, t: InstanceType) -> bool
    decreases n,
{
    match n {
        Node::Obj(o) => o.instance_type == Some(InstanceTypes::Single(t)) || subs_declare(o.subschemas, t),
        Node::Leaf(_) => false,
    }
}

pub open spec fn list_declares(s: Seq<Node>, t: InstanceType) -> bool
    decreases s,
{
    exists|i: int| 0 <= i < s.len() && node_declares(#[trigger] s[i], t)
}

pub open spec fn opt_list_declares(s: Option<Seq<Node>>, t: InstanceType) -> bool
    decreases s,
{
    match s {
        Some(l) => list_declares(l, t),
        None => false,
    }
}

/// Whether one of the `allOf`, `anyOf`, `oneOf` or `not` branches declares `t`.
pub open spec fn subs_declare(s: Option<SubsNode>, t: InstanceType) -> bool
    decreases s,
{
    match s {
        Some(x) => opt_list_declares(x.all_of, t) || opt_list_declares(x.any_of, t)
            || opt_list_declares(x.one_of, t) || match x.not {
            Some(b) => node_declares(*b, t),
            None => false,
        },
        None => false,
    }
}


pub proof fn lemma_merge_node_type(a: AnchorNode, b: Node)
    requires
        merge_node(a, b) is Ok,
    ensures
        a.instance_type is Some ==> merge_node(a, b)->Ok_0.0.instance_type == a.instance_type,
        a.instance_type is None ==> (merge_node(a, b)->Ok_0.0.instance_type is None || exists|t: InstanceType| merge_node(a, b)->Ok_0.0.instance_type == Some(InstanceTypes::Single(t)) && node_declares(b, t)),
    decreases b, 1int,
{
    match b {
        Node::Obj(o) => {
            lemma_merge_object_type(a, o);
        },
        Node::Leaf(_) => {},
    }
}

pub proof fn lemma_merge_object_type(a: AnchorNode, o: ObjectNode)
    requires
        merge_object(a, o) is Ok,
    ensures
        a.instance_type is Some ==> merge_object(a, o)->Ok_0.0.instance_type == a.instance_type,
        a.instance_type is None ==> (merge_object(a, o)->Ok_0.0.instance_type is None || exists|t: InstanceType| merge_object(a, o)->Ok_0.0.instance_type == Some(InstanceTypes::Single(t)) && node_declares(Node::Obj(o), t)),
    decreases o, 0int,
{
    let a1 = match o.subschemas {
        None => a,
        Some(s) => {
            lemma_merge_subs_type(a, s);
            merge_subs(a, s)->Ok_0.0
        },
    };
    let a2 = merge_object(a, o)->Ok_0.0;
    assert(a2.instance_type == unify_type(o.instance_type, a1.instance_type)->Ok_0);
    if a.instance_type is None {
        if a2.instance_type is Some {
            if a1.instance_type is Some {
                let t = choose|t: InstanceType| a1.instance_type == Some(InstanceTypes::Single(t)) && subs_declare(o.subschemas, t);
                assert(node_declares(Node::Obj(o), t));
            } else {
                let t = o.instance_type->Some_0->Single_0;
                assert(node_declares(Node::Obj(o), t));
            }
        }
    }
}

pub proof fn lemma_merge_subs_type(a: AnchorNode, s: SubsNode)
    requires
        merge_subs(a, s) is Ok,
    ensures
        a.instance_type is Some ==> merge_subs(a, s)->Ok_0.0.instance_type == a.instance_type,
        a.instance_type is None ==> (merge_subs(a, s)->Ok_0.0.instance_type is None || exists|t: InstanceType| merge_subs(a, s)->Ok_0.0.instance_type == Some(InstanceTypes::Single(t)) && subs_declare(Some(s), t)),
    decreases s, 1int,
{
    let a1 = merge_opt_list(a, s.all_of)->Ok_0.0;
    let a2 = merge_opt_list(a1, s.any_of)->Ok_0.0;
    let a3 = merge_opt_list(a2, s.one_of)->Ok_0.0;
    lemma_merge_opt_list_type(a, s.all_of);
    lemma_merge_opt_list_type(a1, s.any_of);
    lemma_merge_opt_list_type(a2, s.one_of);
    match s.not {
        Some(b) => {
            lemma_merge_node_type(a3, *b);
        },
        None => {},
    }
    let a4 = merge_subs(a, s)->Ok_0.0;
    if a.instance_type is None && a4.instance_type is Some {
        if a1.instance_type is Some {
            let t = choose|t: InstanceType| a1.instance_type == Some(InstanceTypes::Single(t)) && opt_list_declares(s.all_of, t);
            assert(subs_declare(Some(s), t));
        } else if a2.instance_type is Some {
            let t = choose|t: InstanceType| a2.instance_type == Some(InstanceTypes::Single(t)) && opt_list_declares(s.any_of, t);
            assert(subs_declare(Some(s), t));
        } else if a3.instance_type is Some {
            let t = choose|t: InstanceType| a3.instance_type == Some(InstanceTypes::Single(t)) && opt_list_declares(s.one_of, t);
            assert(subs_declare(Some(s), t));
        } else {
            let b = s.not->Some_0;
            let t = choose|t: InstanceType| a4.instance_type == Some(InstanceTypes::Single(t)) && node_declares(*b, t);
            assert(subs_declare(Some(s), t));
        }
    }
}

pub proof fn lemma_merge_opt_list_type(a: AnchorNode, s: Option<Seq<Node>>)
    requires
        merge_opt_list(a, s) is Ok,
    ensures
        a.instance_type is Some ==> merge_opt_list(a, s)->Ok_0.0.instance_type == a.instance_type,
        a.instance_type is None ==> (merge_opt_list(a, s)->Ok_0.0.instance_type is None || exists|t: InstanceType| merge_opt_list(a, s)->Ok_0.0.instance_type == Some(InstanceTypes::Single(t)) && opt_list_declares(s, t)),
    decreases s, 1int,
{
    match s {
        Some(l) => {
            lemma_merge_list_type(a, l);
            let a2 = merge_opt_list(a, s)->Ok_0.0;
            if a.instance_type is None && a2.instance_type is Some {
                let t = choose|t: InstanceType| a2.instance_type == Some(InstanceTypes::Single(t)) && list_declares(l, t);
                assert(opt_list_declares(s, t));
            }
        },
        None => {},
    }
}

pub proof fn lemma_merge_list_type(a: AnchorNode, s: Seq<Node>)
    requires
        merge_list(a, s) is Ok,
    ensures
        a.instance_type is Some ==> merge_list(a, s)->Ok_0.0.instance_type == a.instance_type,
        a.instance_type is None ==> (merge_list(a, s)->Ok_0.0.instance_type is None || exists|t: InstanceType| merge_list(a, s)->Ok_0.0.instance_type == Some(InstanceTypes::Single(t)) && list_declares(s, t)),
    decreases s, 1int,
{
    if s.len() > 0 {
        assert(decreases_to!(s => s.subrange(0, s.len() - 1)));
        let d = s.drop_last();
        lemma_merge_list_type(a, d);
        let a1 = merge_list(a, d)->Ok_0.0;
        lemma_merge_node_type(a1, s.last());
        let a2 = merge_list(a, s)->Ok_0.0;
        if a.instance_type is None && a2.instance_type is Some {
            if a1.instance_type is Some {
                let t = choose|t: InstanceType| a1.instance_type == Some(InstanceTypes::Single(t)) && list_declares(d, t);
                let i = choose|i: int| 0 <= i < d.len() && node_declares(#[trigger] d[i], t);
                assert(s[i] == d[i]);
                assert(list_declares(s, t));
            } else {
                let t = choose|t: InstanceType| a2.instance_type == Some(InstanceTypes::Single(t)) && node_declares(s.last(), t);
                assert(s[s.len() - 1] == s.last());
                assert(list_declares(s, t));
            }
        }
    }
}


/// A merged branch declares no type any more, at any depth.
pub proof fn lemma_merged_node_silent(a: AnchorNode, b: Node, t: InstanceType)
    requires
        merge_node(a, b) is Ok,
    ensures
        !node_declares(merge_node(a, b)->Ok_0.1, t),
    decreases b, 1int,
{
    match b {
        Node::Obj(o) => {
            lemma_merged_object_silent(a, o, t);
        },
        Node::Leaf(_) => {},
    }
}

pub proof fn lemma_merged_object_silent(a: AnchorNode, o: ObjectNode, t: InstanceType)
    requires
        merge_object(a, o) is Ok,
    ensures
        !node_declares(Node::Obj(merge_object(a, o)->Ok_0.1), t),
    decreases o, 0int,
{
    match o.subschemas {
        None => {},
        Some(s) => {
            lemma_merged_subs_silent(a, s, t);
        },
    }
}

pub proof fn lemma_merged_subs_silent(a: AnchorNode, s: SubsNode, t: InstanceType)
    requires
        merge_subs(a, s) is Ok,
    ensures
        !subs_declare(Some(merge_subs(a, s)->Ok_0.1), t),
    decreases s, 1int,
{
    let a1 = merge_opt_list(a, s.all_of)->Ok_0.0;
    let a2 = merge_opt_list(a1, s.any_of)->Ok_0.0;
    let a3 = merge_opt_list(a2, s.one_of)->Ok_0.0;
    lemma_merged_opt_list_silent(a, s.all_of, t);
    lemma_merged_opt_list_silent(a1, s.any_of, t);
    lemma_merged_opt_list_silent(a2, s.one_of, t);
    match s.not {
        Some(b) => {
            lemma_merged_node_silent(a3, *b, t);
        },
        None => {},
    }
}

pub proof fn lemma_merged_opt_list_silent(a: AnchorNode, s: Option<Seq<Node>>, t: InstanceType)
    requires
        merge_opt_list(a, s) is Ok,
    ensures
        !opt_list_declares(merge_opt_list(a, s)->Ok_0.1, t),
    decreases s, 1int,
{
    match s {
        Some(l) => {
            lemma_merged_list_silent(a, l, t);
        },
        None => {},
    }
}

pub proof fn lemma_merged_list_silent(a: AnchorNode, s: Seq<Node>, t: InstanceType)
    requires
        merge_list(a, s) is Ok,
    ensures
        merge_list(a, s)->Ok_0.1.len() == s.len(),
        !list_declares(merge_list(a, s)->Ok_0.1, t),
    decreases s, 1int,
{
    if s.len() > 0 {
        assert(decreases_to!(s => s.subrange(0, s.len() - 1)));
        let d = s.drop_last();
        lemma_merged_list_silent(a, d, t);
        let r1 = merge_list(a, d)->Ok_0;
        lemma_merged_node_silent(r1.0, s.last(), t);
        let out = merge_list(a, s)->Ok_0.1;
        assert forall|i: int| 0 <= i < out.len() implies !node_declares(#[trigger] out[i], t) by {
            if i < out.len() - 1 {
                assert(out[i] == r1.1[i]);
            }
        }
    }
}

/// A completed node declares a type only where the node or one of its
/// branches, at some depth, declared it before.
pub proof fn lemma_completed_node_declares(n: Node, t: InstanceType)
    requires
        complete_node(n) is Ok,
        node_declares(complete_node(n)->Ok_0, t),
    ensures
        node_declares(n, t),
    decreases n, 1int,
{
    match n {
        Node::Obj(o) => {
            let o1 = complete_children(o)->Ok_0;
            let o2 = complete_object(o)->Ok_0;
            law_type_monotone(o);
            match o1.subschemas {
                None => {},
                Some(s1) => {
                    lemma_merged_subs_silent(anchor_of(o1), s1, t);
                },
            }
            if o2.instance_type == Some(InstanceTypes::Single(t)) && o.instance_type is None {
                let u = choose|u: InstanceType| o2.instance_type == Some(InstanceTypes::Single(u)) && subs_declare(o.subschemas, u);
                assert(u == t);
            }
        },
        Node::Leaf(_) => {},
    }
}

proof fn lemma_completed_list_declares(s: Seq<Node>, t: InstanceType)
    requires
        complete_list(s) is Ok,
        list_declares(complete_list(s)->Ok_0, t),
    ensures
        list_declares(s, t),
    decreases s, 1int,
{
    lemma_complete_list_pointwise(s);
    let c = complete_list(s)->Ok_0;
    let i = choose|i: int| 0 <= i < c.len() && node_declares(#[trigger] c[i], t);
    lemma_completed_node_declares(s[i], t);
}

proof fn lemma_completed_subs_declare(s: SubsNode, t: InstanceType)
    requires
        complete_subs(s) is Ok,
        subs_declare(Some(complete_subs(s)->Ok_0), t),
    ensures
        subs_declare(Some(s), t),
    decreases s, 1int,
{
    let c = complete_subs(s)->Ok_0;
    if opt_list_declares(c.all_of, t) {
        lemma_completed_list_declares(s.all_of->Some_0, t);
    } else if opt_list_declares(c.any_of, t) {
        lemma_completed_list_declares(s.any_of->Some_0, t);
    } else if opt_list_declares(c.one_of, t) {
        lemma_completed_list_declares(s.one_of->Some_0, t);
    } else {
        lemma_completed_node_declares(*s.not->Some_0, t);
    }
}

/// Completion keeps a type that a node declares. A node that declares none
/// ends with none, or with a single type that one of its `allOf`, `anyOf`,
/// `oneOf` or `not` branches declares, at some depth.
pub proof fn law_type_monotone(o: ObjectNode)
    requires
        complete_object(o) is Ok,
    ensures
        o.instance_type is Some ==> complete_object(o)->Ok_0.instance_type == o.instance_type,
        o.instance_type is None ==> (complete_object(o)->Ok_0.instance_type is None || exists|t: InstanceType|
            complete_object(o)->Ok_0.instance_type == Some(InstanceTypes::Single(t)) && subs_declare(o.subschemas, t)),
    decreases o, 0int,
{
    let o1 = complete_children(o)->Ok_0;
    let o2 = complete_object(o)->Ok_0;
    assert(o1.instance_type == o.instance_type);
    match o1.subschemas {
        None => {},
        Some(s1) => {
            let s = o.subschemas->Some_0;
            assert(s1 == complete_subs(s)->Ok_0);
            lemma_merge_subs_type(anchor_of(o1), s1);
            if o.instance_type is None && o2.instance_type is Some {
                let t = choose|t: InstanceType| o2.instance_type == Some(InstanceTypes::Single(t)) && subs_declare(Some(s1), t);
                lemma_completed_subs_declare(s, t);
            }
        },
    }
}


/// Whether `n` is a node made of keywords of the single type `t`.
pub open spec fn typed_as(n: Node, t: InstanceType) -> bool {
    n matches Node::Obj(o) && o.instance_type == Some(InstanceTypes::Single(t))
}

/// Whether some node of the list is of the single type `t`.
pub open spec fn list_has_type(s: Option<Seq<Node>>, t: InstanceType) -> bool {
    s matches Some(l) && exists|i: int| 0 <= i < l.len() && typed_as(#[trigger] l[i], t)
}

/// Whether some `allOf`, `anyOf`, `oneOf` or `not` branch is of the single type `t`.
pub open spec fn branch_has_type(s: SubsNode, t: InstanceType) -> bool {
    list_has_type(s.all_of, t) || list_has_type(s.any_of, t) || list_has_type(s.one_of, t)
        || (s.not matches Some(b) && typed_as(*b, t))
}

proof fn lemma_merge_typed(a: AnchorNode, b: Node, t: InstanceType)
    requires
        merge_node(a, b) is Ok,
        typed_as(b, t),
    ensures
        merge_node(a, b)->Ok_0.0.instance_type == Some(InstanceTypes::Single(t)),
{
}

proof fn lemma_merge_list_typed(a: AnchorNode, s: Seq<Node>, t: InstanceType)
    requires
        merge_list(a, s) is Ok,
        exists|i: int| 0 <= i < s.len() && typed_as(#[trigger] s[i], t),
    ensures
        merge_list(a, s)->Ok_0.0.instance_type == Some(InstanceTypes::Single(t)),
    decreases s.len(),
{
    let d = s.drop_last();
    let a1 = merge_list(a, d)->Ok_0.0;
    lemma_merge_node_type(a1, s.last());
    if typed_as(s.last(), t) {
        lemma_merge_typed(a1, s.last(), t);
    } else {
        let i = choose|i: int| 0 <= i < s.len() && typed_as(#[trigger] s[i], t);
        assert(i != s.len() - 1);
        assert(d[i] == s[i]);
        lemma_merge_list_typed(a, d, t);
    }
}

proof fn lemma_merge_opt_list_typed(a: AnchorNode, s: Option<Seq<Node>>, t: InstanceType)
    requires
        merge_opt_list(a, s) is Ok,
        list_has_type(s, t),
    ensures
        merge_opt_list(a, s)->Ok_0.0.instance_type == Some(InstanceTypes::Single(t)),
{
    lemma_merge_list_typed(a, s->Some_0, t);
}

proof fn lemma_merge_subs_typed(a: AnchorNode, s: SubsNode, t: InstanceType)
    requires
        merge_subs(a, s) is Ok,
        branch_has_type(s, t),
    ensures
        merge_subs(a, s)->Ok_0.0.instance_type == Some(InstanceTypes::Single(t)),
{
    let a1 = merge_opt_list(a, s.all_of)->Ok_0.0;
    let a2 = merge_opt_list(a1, s.any_of)->Ok_0.0;
    let a3 = merge_opt_list(a2, s.one_of)->Ok_0.0;
    lemma_merge_opt_list_type(a, s.all_of);
    lemma_merge_opt_list_type(a1, s.any_of);
    lemma_merge_opt_list_type(a2, s.one_of);
    if list_has_type(s.all_of, t) {
        lemma_merge_opt_list_typed(a, s.all_of, t);
    } else if list_has_type(s.any_of, t) {
        lemma_merge_opt_list_typed(a1, s.any_of, t);
    } else if list_has_type(s.one_of, t) {
        lemma_merge_opt_list_typed(a2, s.one_of, t);
    }
    match s.not {
        Some(b) => {
            lemma_merge_node_type(a3, *b);
            if typed_as(*b, t) {
                lemma_merge_typed(a3, *b, t);
            }
        },
        None => {},
    }
}

/// Where a completed node's branches, each completed first, include one of
/// the single type `t` (an `allOf`, `anyOf`, `oneOf` or `not` member), the
/// node ends with type `t`: every branch type agrees with the node's.
pub proof fn law_branch_types_agree(o: ObjectNode, t: InstanceType)
    requires
        complete_object(o) is Ok,
        complete_children(o)->Ok_0.subschemas matches Some(s) && branch_has_type(s, t),
    ensures
        complete_object(o)->Ok_0.instance_type == Some(InstanceTypes::Single(t)),
{
    let o1 = complete_children(o)->Ok_0;
    lemma_merge_subs_typed(anchor_of(o1), o1.subschemas->Some_0, t);
}

} // verus!
