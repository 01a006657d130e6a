//! The nullable marker under the structural pass.
use vstd::prelude::*;

use crate::complete_spec::{complete_children, complete_list, complete_node, complete_object, complete_subs};
use crate::laws::lemma_complete_list_pointwise;
use crate::merge_spec::{
    has_nullable, merge_items, merge_list, merge_node, merge_object, merge_opt_list, merge_subs,
    nullable_key, AnchorNode,
};
use crate::model::{key_index, keys_of, set_extension, ExtensionMap, Node, ObjectNode, SubsNode};
use crate::schema::ExtensionValue;
use crate::wf::{node_wf, object_wf, opt_list_wf};

verus! {

/// Whether `n` is a node made of keywords that carries the nullable marker,
/// or one of its composition branches does, at any depth.
pub open spec fn node_nullable(n: Node) -> bool
    decreases n,
{
    match n {
        Node::Obj(o) => has_nullable(o.extensions) || subs_nullable(o.subschemas),
        Node::Leaf(_) => false,
    }
}

pub open spec fn list_nullable(s: Seq<Node>) -> bool
    decreases s,
{
    exists|i: int| 0 <= i < s.len() && node_nullable(#[trigger] s[i])
}

pub open spec fn opt_list_nullable(s: Option<Seq<Node>>) -> bool
    decreases s,
{
    match s {
        Some(l) => list_nullable(l),
        None => false,
    }
}

/// Whether one of the `allOf`, `anyOf`, `oneOf` or `not` branches carries the
/// nullable marker, at any depth.
pub open spec fn subs_nullable(s: Option<SubsNode>) -> bool
    decreases s,
{
    match s {
        Some(x) => opt_list_nullable(x.all_of) || opt_list_nullable(x.any_of) || opt_list_nullable(x.one_of)
            || match x.not {
            Some(b) => node_nullable(*b),
            None => false,
        },
        None => false,
    }
}

pub proof fn lemma_set_nullable(e: ExtensionMap)
    ensures
        has_nullable(set_extension(e, nullable_key(), ExtensionValue::Bool(true))),
{
    let k = nullable_key();
    let i = key_index(keys_of(e), k);
    crate::model::lemma_key_index_bounds(keys_of(e), k);
    let e2 = set_extension(e, k, ExtensionValue::Bool(true));
    if i >= 0 {
        assert(keys_of(e2) =~= keys_of(e));
    } else {
        assert(keys_of(e2).drop_last() =~= keys_of(e));
    }
}

pub proof fn lemma_merge_node_nullable(a: AnchorNode, b: Node)
    requires
        merge_node(a, b) is Ok,
    ensures
        has_nullable(a.extensions) || node_nullable(b) ==> has_nullable(merge_node(a, b)->Ok_0.0.extensions),
    decreases b, 1int,
{
    match b {
        Node::Obj(o) => lemma_merge_object_nullable(a, o),
        Node::Leaf(_) => {},
    }
}

pub proof fn lemma_merge_object_nullable(a: AnchorNode, o: ObjectNode)
    requires
        merge_object(a, o) is Ok,
    ensures
        has_nullable(a.extensions) || node_nullable(Node::Obj(o)) ==> has_nullable(
            merge_object(a, o)->Ok_0.0.extensions,
        ),
    decreases o, 0int,
{
    let a1 = match o.subschemas {
        None => a,
        Some(s) => {
            lemma_merge_subs_nullable(a, s);
            merge_subs(a, s)->Ok_0.0
        },
    };
    let a2 = match o.array {
        None => a1,
        Some(arr) => merge_items(a1, arr)->Ok_0.0,
    };
    assert(a2.extensions == a1.extensions);
    lemma_set_nullable(a2.extensions);
}

pub proof fn lemma_merge_subs_nullable(a: AnchorNode, s: SubsNode)
    requires
        merge_subs(a, s) is Ok,
    ensures
        has_nullable(a.extensions) || subs_nullable(Some(s)) ==> has_nullable(merge_subs(a, s)->Ok_0.0.extensions),
    decreases s, 1int,
{
    let a1 = merge_opt_list(a, s.all_of)->Ok_0.0;
    let a2 = merge_opt_list(a1, s.any_of)->Ok_0.0;
    let a3 = merge_opt_list(a2, s.one_of)->Ok_0.0;
    lemma_merge_opt_list_nullable(a, s.all_of);
    lemma_merge_opt_list_nullable(a1, s.any_of);
    lemma_merge_opt_list_nullable(a2, s.one_of);
    match s.not {
        Some(b) => lemma_merge_node_nullable(a3, *b),
        None => {},
    }
}

pub proof fn lemma_merge_opt_list_nullable(a: AnchorNode, s: Option<Seq<Node>>)
    requires
        merge_opt_list(a, s) is Ok,
    ensures
        has_nullable(a.extensions) || opt_list_nullable(s) ==> has_nullable(merge_opt_list(a, s)->Ok_0.0.extensions),
    decreases s, 1int,
{
    match s {
        Some(l) => lemma_merge_list_nullable(a, l),
        None => {},
    }
}

pub proof fn lemma_merge_list_nullable(a: AnchorNode, s: Seq<Node>)
    requires
        merge_list(a, s) is Ok,
    ensures
        has_nullable(a.extensions) || list_nullable(s) ==> has_nullable(merge_list(a, s)->Ok_0.0.extensions),
    decreases s, 1int,
{
    if s.len() > 0 {
        assert(decreases_to!(s => s.subrange(0, s.len() - 1)));
        let d = s.drop_last();
        lemma_merge_list_nullable(a, d);
        let a1 = merge_list(a, d)->Ok_0.0;
        lemma_merge_node_nullable(a1, s.last());
        if list_nullable(s) && !has_nullable(a.extensions) {
            let i = choose|i: int| 0 <= i < s.len() && node_nullable(#[trigger] s[i]);
            if i < s.len() - 1 {
                assert(d[i] == s[i]);
                assert(list_nullable(d));
            }
        }
    }
}

/// The nullable marker reaches a completed node from any of its composition
/// branches, at any depth, and a marker it carried stays.
pub proof fn law_nullable_hoisted(o: ObjectNode)
    requires
        complete_object(o) is Ok,
    ensures
        has_nullable(o.extensions) || subs_nullable(o.subschemas) ==> has_nullable(
            complete_object(o)->Ok_0.extensions,
        ),
    decreases o, 0int,
{
    let o1 = complete_children(o)->Ok_0;
    assert(o1.extensions == o.extensions);
    match o1.subschemas {
        None => {},
        Some(s1) => {
            let s = o.subschemas->Some_0;
            assert(s1 == complete_subs(s)->Ok_0);
            lemma_merge_subs_nullable(crate::merge_spec::anchor_of(o1), s1);
            if subs_nullable(o.subschemas) {
                lemma_completed_subs_nullable(s);
            }
        },
    }
}

proof fn lemma_completed_node_nullable(n: Node)
    requires
        complete_node(n) is Ok,
        node_nullable(n),
    ensures
        node_nullable(complete_node(n)->Ok_0),
    decreases n, 1int,
{
    match n {
        Node::Obj(o) => law_nullable_hoisted(o),
        Node::Leaf(_) => {},
    }
}

proof fn lemma_completed_list_nullable(s: Seq<Node>)
    requires
        complete_list(s) is Ok,
        list_nullable(s),
    ensures
        list_nullable(complete_list(s)->Ok_0),
    decreases s, 1int,
{
    lemma_complete_list_pointwise(s);
    let i = choose|i: int| 0 <= i < s.len() && node_nullable(#[trigger] s[i]);
    let c = complete_list(s)->Ok_0;
    assert(complete_node(s[i]) == Ok::<_, crate::error::Violation>(c[i]));
    lemma_completed_node_nullable(s[i]);
    assert(node_nullable(c[i]));
}

proof fn lemma_completed_subs_nullable(s: SubsNode)
    requires
        complete_subs(s) is Ok,
        subs_nullable(Some(s)),
    ensures
        subs_nullable(Some(complete_subs(s)->Ok_0)),
    decreases s, 1int,
{
    if opt_list_nullable(s.all_of) {
        lemma_completed_list_nullable(s.all_of->Some_0);
    } else if opt_list_nullable(s.any_of) {
        lemma_completed_list_nullable(s.any_of->Some_0);
    } else if opt_list_nullable(s.one_of) {
        lemma_completed_list_nullable(s.one_of->Some_0);
    } else {
        lemma_completed_node_nullable(*s.not->Some_0);
    }
}


/// Whether at most one extension is named `nullable`.
pub open spec fn marker_unique(e: ExtensionMap) -> bool {
    forall|i: int, j: int|
        #![trigger e[i], e[j]]
        0 <= i < e.len() && 0 <= j < e.len() && e[i].0 == nullable_key() && e[j].0 == nullable_key() ==> i == j
}

/// Whether `n` is made of keywords and carries the nullable marker itself.
pub open spec fn carries_marker(n: Node) -> bool {
    match n {
        Node::Obj(o) => has_nullable(o.extensions),
        Node::Leaf(_) => false,
    }
}

/// Whether a node made of keywords names `nullable` at most once.
pub open spec fn node_unique(n: Node) -> bool {
    match n {
        Node::Obj(o) => marker_unique(o.extensions),
        Node::Leaf(_) => true,
    }
}

pub open spec fn list_unique(s: Seq<Node>) -> bool {
    forall|i: int| 0 <= i < s.len() ==> node_unique(#[trigger] s[i])
}

pub open spec fn list_clear(s: Seq<Node>) -> bool {
    forall|i: int| 0 <= i < s.len() ==> !carries_marker(#[trigger] s[i])
}

pub open spec fn opt_list_unique(s: Option<Seq<Node>>) -> bool {
    match s {
        Some(l) => list_unique(l),
        None => true,
    }
}

pub open spec fn opt_list_clear(s: Option<Seq<Node>>) -> bool {
    match s {
        Some(l) => list_clear(l),
        None => true,
    }
}

/// Whether each `allOf`, `anyOf`, `oneOf` and `not` branch names `nullable`
/// at most once.
pub open spec fn branches_unique(s: Option<SubsNode>) -> bool {
    match s {
        Some(x) => opt_list_unique(x.all_of) && opt_list_unique(x.any_of) && opt_list_unique(x.one_of)
            && match x.not {
            Some(b) => node_unique(*b),
            None => true,
        },
        None => true,
    }
}

/// Whether no `allOf`, `anyOf`, `oneOf` or `not` branch carries the nullable
/// marker itself.
pub open spec fn branches_clear(s: Option<SubsNode>) -> bool {
    match s {
        Some(x) => opt_list_clear(x.all_of) && opt_list_clear(x.any_of) && opt_list_clear(x.one_of)
            && match x.not {
            Some(b) => !carries_marker(*b),
            None => true,
        },
        None => true,
    }
}

proof fn lemma_absent_key(e: ExtensionMap)
    requires
        forall|j: int| 0 <= j < e.len() ==> (#[trigger] e[j]).0 != nullable_key(),
    ensures
        key_index(keys_of(e), nullable_key()) == -1,
        !has_nullable(e),
{
    crate::model::lemma_key_index_bounds(keys_of(e), nullable_key());
    let i = key_index(keys_of(e), nullable_key());
    if i >= 0 {
        assert(keys_of(e)[i] == e[i].0);
    }
}

proof fn lemma_set_keeps_unique(e: ExtensionMap)
    requires
        marker_unique(e),
    ensures
        marker_unique(set_extension(e, nullable_key(), ExtensionValue::Bool(true))),
{
    let k = nullable_key();
    let i = key_index(keys_of(e), k);
    crate::model::lemma_key_index_bounds(keys_of(e), k);
    let e2 = set_extension(e, k, ExtensionValue::Bool(true));
    if i < 0 {
        assert forall|j: int| 0 <= j < e.len() implies (#[trigger] e[j]).0 != k by {
            assert(keys_of(e)[j] == e[j].0);
        }
        assert forall|x: int, y: int|
            #![trigger e2[x], e2[y]]
            0 <= x < e2.len() && 0 <= y < e2.len() && e2[x].0 == k && e2[y].0 == k implies x == y by {
            if x < e.len() {
                assert(e2[x] == e[x]);
            }
            if y < e.len() {
                assert(e2[y] == e[y]);
            }
        }
    } else {
        assert forall|x: int, y: int|
            #![trigger e2[x], e2[y]]
            0 <= x < e2.len() && 0 <= y < e2.len() && e2[x].0 == k && e2[y].0 == k implies x == y by {
            assert(keys_of(e)[i] == e[i].0);
            assert(e2[x].0 == e[x].0);
            assert(e2[y].0 == e[y].0);
        }
    }
}

proof fn lemma_remove_clears(e: ExtensionMap)
    requires
        marker_unique(e),
    ensures
        !has_nullable(crate::model::remove_extension(e, nullable_key())),
{
    let k = nullable_key();
    let i = key_index(keys_of(e), k);
    crate::model::lemma_key_index_bounds(keys_of(e), k);
    if i >= 0 {
        assert(keys_of(e)[i] == e[i].0);
        let e2 = e.remove(i);
        assert forall|j: int| 0 <= j < e2.len() implies (#[trigger] e2[j]).0 != k by {
            if j < i {
                assert(e2[j] == e[j]);
            } else {
                assert(e2[j] == e[j + 1]);
            }
        }
        lemma_absent_key(e2);
    }
}

pub proof fn lemma_merge_node_unique(a: AnchorNode, b: Node)
    requires
        merge_node(a, b) is Ok,
        marker_unique(a.extensions),
    ensures
        marker_unique(merge_node(a, b)->Ok_0.0.extensions),
    decreases b, 1int,
{
    match b {
        Node::Obj(o) => lemma_merge_object_unique(a, o),
        Node::Leaf(_) => {},
    }
}

pub proof fn lemma_merge_object_unique(a: AnchorNode, o: ObjectNode)
    requires
        merge_object(a, o) is Ok,
        marker_unique(a.extensions),
    ensures
        marker_unique(merge_object(a, o)->Ok_0.0.extensions),
    decreases o, 0int,
{
    let a1 = match o.subschemas {
        None => a,
        Some(s) => {
            lemma_merge_subs_unique(a, s);
            merge_subs(a, s)->Ok_0.0
        },
    };
    let a2 = match o.array {
        None => a1,
        Some(arr) => merge_items(a1, arr)->Ok_0.0,
    };
    assert(a2.extensions == a1.extensions);
    lemma_set_keeps_unique(a2.extensions);
}

pub proof fn lemma_merge_subs_unique(a: AnchorNode, s: SubsNode)
    requires
        merge_subs(a, s) is Ok,
        marker_unique(a.extensions),
    ensures
        marker_unique(merge_subs(a, s)->Ok_0.0.extensions),
    decreases s, 1int,
{
    let a1 = merge_opt_list(a, s.all_of)->Ok_0.0;
    let a2 = merge_opt_list(a1, s.any_of)->Ok_0.0;
    let a3 = merge_opt_list(a2, s.one_of)->Ok_0.0;
    lemma_merge_opt_list_unique(a, s.all_of);
    lemma_merge_opt_list_unique(a1, s.any_of);
    lemma_merge_opt_list_unique(a2, s.one_of);
    match s.not {
        Some(b) => lemma_merge_node_unique(a3, *b),
        None => {},
    }
}

pub proof fn lemma_merge_opt_list_unique(a: AnchorNode, s: Option<Seq<Node>>)
    requires
        merge_opt_list(a, s) is Ok,
        marker_unique(a.extensions),
    ensures
        marker_unique(merge_opt_list(a, s)->Ok_0.0.extensions),
    decreases s, 1int,
{
    match s {
        Some(l) => lemma_merge_list_unique(a, l),
        None => {},
    }
}

pub proof fn lemma_merge_list_unique(a: AnchorNode, s: Seq<Node>)
    requires
        merge_list(a, s) is Ok,
        marker_unique(a.extensions),
    ensures
        marker_unique(merge_list(a, s)->Ok_0.0.extensions),
    decreases s, 1int,
{
    if s.len() > 0 {
        assert(decreases_to!(s => s.subrange(0, s.len() - 1)));
        let d = s.drop_last();
        lemma_merge_list_unique(a, d);
        let r1 = merge_list(a, d)->Ok_0;
        lemma_merge_node_unique(r1.0, s.last());
    }
}

/// A merged branch that named `nullable` at most once carries no marker: the
/// marker is moved to the anchor, not copied.
pub proof fn lemma_merged_node_clear(a: AnchorNode, b: Node)
    requires
        merge_node(a, b) is Ok,
        node_unique(b),
    ensures
        !carries_marker(merge_node(a, b)->Ok_0.1),
{
    match b {
        Node::Obj(o) => {
            if has_nullable(o.extensions) {
                lemma_remove_clears(o.extensions);
            }
        },
        Node::Leaf(_) => {},
    }
}

proof fn lemma_completed_unique(o: ObjectNode)
    requires
        complete_object(o) is Ok,
        marker_unique(o.extensions),
    ensures
        marker_unique(complete_object(o)->Ok_0.extensions),
{
    let o1 = complete_children(o)->Ok_0;
    assert(o1.extensions == o.extensions);
    match o1.subschemas {
        None => {},
        Some(s1) => {
            lemma_merge_subs_unique(crate::merge_spec::anchor_of(o1), s1);
        },
    }
}

proof fn lemma_completed_list_unique(s: Seq<Node>)
    requires
        complete_list(s) is Ok,
        list_unique(s),
    ensures
        list_unique(complete_list(s)->Ok_0),
{
    lemma_complete_list_pointwise(s);
    let c = complete_list(s)->Ok_0;
    assert forall|i: int| 0 <= i < c.len() implies node_unique(#[trigger] c[i]) by {
        assert(complete_node(s[i]) == Ok::<_, crate::error::Violation>(c[i]));
        assert(node_unique(s[i]));
        match s[i] {
            Node::Obj(x) => lemma_completed_unique(x),
            Node::Leaf(_) => {},
        }
    }
}

proof fn lemma_wf_unique(n: Node)
    requires
        node_wf(n),
    ensures
        node_unique(n),
{
    match n {
        Node::Obj(o) => {
            let e = o.extensions;
            assert forall|i: int, j: int|
                #![trigger e[i], e[j]]
                0 <= i < e.len() && 0 <= j < e.len() && e[i].0 == nullable_key() && e[j].0 == nullable_key()
                implies i == j by {
                assert(keys_of(e)[i] == e[i].0 && keys_of(e)[j] == e[j].0);
            }
        },
        Node::Leaf(_) => {},
    }
}

proof fn lemma_wf_list_unique(s: Option<Seq<Node>>)
    requires
        opt_list_wf(s),
    ensures
        opt_list_unique(s),
{
    match s {
        Some(l) => {
            assert forall|i: int| 0 <= i < l.len() implies node_unique(#[trigger] l[i]) by {
                lemma_wf_unique(l[i]);
            }
        },
        None => {},
    }
}

/// In a well-formed node, after completion no `allOf`, `anyOf`, `oneOf` or
/// `not` branch carries the nullable marker: the marker was moved to the
/// node, not copied.
pub proof fn law_nullable_moved(o: ObjectNode)
    requires
        complete_object(o) is Ok,
        object_wf(o),
    ensures
        branches_clear(complete_object(o)->Ok_0.subschemas),
{
    match o.subschemas {
        Some(s) => {
            lemma_wf_list_unique(s.all_of);
            lemma_wf_list_unique(s.any_of);
            lemma_wf_list_unique(s.one_of);
            match s.not {
                Some(b) => lemma_wf_unique(*b),
                None => {},
            }
        },
        None => {},
    }
    lemma_branches_moved(o);
}

proof fn lemma_branches_moved(o: ObjectNode)
    requires
        complete_object(o) is Ok,
        branches_unique(o.subschemas),
    ensures
        branches_clear(complete_object(o)->Ok_0.subschemas),
{
    let o1 = complete_children(o)->Ok_0;
    match o1.subschemas {
        None => {},
        Some(s1) => {
            let s = o.subschemas->Some_0;
            assert(s1 == complete_subs(s)->Ok_0);
            match s.all_of {
                Some(l) => lemma_completed_list_unique(l),
                None => {},
            }
            match s.any_of {
                Some(l) => lemma_completed_list_unique(l),
                None => {},
            }
            match s.one_of {
                Some(l) => lemma_completed_list_unique(l),
                None => {},
            }
            match s.not {
                Some(b) => match *b {
                    Node::Obj(x) => lemma_completed_unique(x),
                    Node::Leaf(_) => {},
                },
                None => {},
            }
            lemma_clear_lists(crate::merge_spec::anchor_of(o1), s1);
        },
    }
}

proof fn lemma_clear_lists(an: AnchorNode, s1: SubsNode)
    requires
        merge_subs(an, s1) is Ok,
        branches_unique(Some(s1)),
    ensures
        branches_clear(Some(merge_subs(an, s1)->Ok_0.1)),
{
    let r1 = merge_opt_list(an, s1.all_of)->Ok_0;
    let r2 = merge_opt_list(r1.0, s1.any_of)->Ok_0;
    let r3 = merge_opt_list(r2.0, s1.one_of)->Ok_0;
    lemma_list_clear(an, s1.all_of);
    lemma_list_clear(r1.0, s1.any_of);
    lemma_list_clear(r2.0, s1.one_of);
    match s1.not {
        Some(b) => lemma_merged_node_clear(r3.0, *b),
        None => {},
    }
}

proof fn lemma_list_clear(a: AnchorNode, s: Option<Seq<Node>>)
    requires
        merge_opt_list(a, s) is Ok,
        opt_list_unique(s),
    ensures
        opt_list_clear(merge_opt_list(a, s)->Ok_0.1),
{
    match s {
        Some(l) => lemma_merge_list_clear(a, l),
        None => {},
    }
}

proof fn lemma_merge_list_clear(a: AnchorNode, s: Seq<Node>)
    requires
        merge_list(a, s) is Ok,
        list_unique(s),
    ensures
        list_clear(merge_list(a, s)->Ok_0.1),
    decreases s.len(),
{
    if s.len() > 0 {
        let d = s.drop_last();
        assert(list_unique(d)) by {
            assert forall|i: int| 0 <= i < d.len() implies node_unique(#[trigger] d[i]) by {
                assert(d[i] == s[i]);
            }
        }
        lemma_merge_list_clear(a, d);
        let r1 = merge_list(a, d)->Ok_0;
        assert(node_unique(s[s.len() - 1]));
        lemma_merged_node_clear(r1.0, s.last());
        let out = merge_list(a, s)->Ok_0.1;
        assert forall|i: int| 0 <= i < out.len() implies !carries_marker(#[trigger] out[i]) by {
            if i < out.len() - 1 {
                assert(out[i] == r1.1[i]);
            }
        }
    }
}

} // verus!
