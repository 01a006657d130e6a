//! Laws of the structural pass, proved over its model.
use vstd::prelude::*;

use crate::complete_spec::{
    complete_children, complete_entries, complete_list, complete_node, complete_object,
    complete_props, complete_root, generate_name_key, metadata_key, name_entries,
    name_key, restrict_metadata, restricted_metadata, without_default,
};
use crate::model::{key_index, keys_of, Entries, Node, ObjectNode, RootNode};

verus! {

/// Completing named entries keeps their names and completes each schema.
pub proof fn lemma_complete_entries_pointwise(s: Entries)
    requires
        complete_entries(s) is Ok,
    ensures
        complete_entries(s)->Ok_0.len() == s.len(),
        forall|i: int|
            0 <= i < s.len() ==> (#[trigger] complete_entries(s)->Ok_0[i]).0 == s[i].0
                && complete_node(s[i].1) == Ok::<_, crate::error::Violation>(complete_entries(s)->Ok_0[i].1),
        keys_of(complete_entries(s)->Ok_0) == keys_of(s),
    decreases s.len(),
{
    if s.len() > 0 {
        lemma_complete_entries_pointwise(s.drop_last());
        let t = complete_entries(s)->Ok_0;
        assert forall|i: int| 0 <= i < s.len() implies (#[trigger] t[i]).0 == s[i].0
            && complete_node(s[i].1) == Ok::<_, crate::error::Violation>(t[i].1) by {
            if i < s.len() - 1 {
                assert(s.drop_last()[i] == s[i]);
            }
        }
    }
    assert(keys_of(complete_entries(s)->Ok_0) =~= keys_of(s));
}

/// Completing a list completes each of its nodes.
pub proof fn lemma_complete_list_pointwise(s: Seq<Node>)
    requires
        complete_list(s) is Ok,
    ensures
        complete_list(s)->Ok_0.len() == s.len(),
        forall|i: int|
            0 <= i < s.len() ==> complete_node(s[i]) == Ok::<_, crate::error::Violation>(
                #[trigger] complete_list(s)->Ok_0[i],
            ),
    decreases s.len(),
{
    if s.len() > 0 {
        lemma_complete_list_pointwise(s.drop_last());
        let t = complete_list(s)->Ok_0;
        assert forall|i: int| 0 <= i < s.len() implies complete_node(s[i]) == Ok::<_, crate::error::Violation>(
            #[trigger] t[i],
        ) by {
            if i < s.len() - 1 {
                assert(s.drop_last()[i] == s[i]);
            }
        }
    }
}

/// Completion keeps a node's own informational keywords.
pub proof fn lemma_complete_keeps_metadata(o: ObjectNode)
    requires
        complete_object(o) is Ok,
    ensures
        complete_object(o)->Ok_0.metadata == o.metadata,
{
}

/// Whether a node carries no default of its own.
pub open spec fn has_no_default(n: Node) -> bool {
    match n {
        Node::Obj(o) => match o.metadata {
            Some(m) => m.default is None,
            None => true,
        },
        Node::Leaf(_) => true,
    }
}

/// Whether the `metadata` property of `o`, where it is a node made of
/// keywords, has no properties but `name` and `generateName`, neither with a
/// default.
pub open spec fn metadata_is_restricted(o: ObjectNode) -> bool {
    match o.object {
        None => true,
        Some(p) => {
            let i = key_index(keys_of(p.properties), metadata_key());
            i < 0 || match p.properties[i].1 {
                Node::Leaf(_) => true,
                Node::Obj(m) => match m.object {
                    None => true,
                    Some(q) => forall|j: int|
                        0 <= j < q.properties.len() ==> ((#[trigger] q.properties[j]).0 == name_key()
                            || q.properties[j].0 == generate_name_key()) && has_no_default(
                            q.properties[j].1,
                        ),
                },
            }
        },
    }
}

proof fn lemma_name_entries(s: Entries)
    ensures
        forall|j: int|
            0 <= j < name_entries(s).len() ==> ((#[trigger] name_entries(s)[j]).0 == name_key()
                || name_entries(s)[j].0 == generate_name_key()) && has_no_default(name_entries(s)[j].1),
    decreases s.len(),
{
    if s.len() > 0 {
        lemma_name_entries(s.drop_last());
        let rest = name_entries(s.drop_last());
        let e = s.last();
        assert(has_no_default(without_default(e.1)));
        if e.0 == name_key() || e.0 == generate_name_key() {
            assert forall|j: int| 0 <= j < name_entries(s).len() implies ((#[trigger] name_entries(s)[j]).0 == name_key()
                || name_entries(s)[j].0 == generate_name_key()) && has_no_default(name_entries(s)[j].1) by {
                if j < rest.len() {
                    assert(name_entries(s)[j] == rest[j]);
                }
            }
        }
    }
}

/// After a successful pass over a document whose primary node owns no
/// composition keywords, the primary node's `metadata` property (where it is
/// a node made of keywords) has no properties but `name` and `generateName`,
/// and neither carries a default.
pub proof fn law_metadata_restricted(r: RootNode)
    requires
        r.schema.subschemas is None,
        complete_root(r) is Ok,
    ensures
        metadata_is_restricted(complete_root(r)->Ok_0.schema),
{
    let o0 = restrict_metadata(r.schema);
    let o1 = complete_children(o0);
    assert(o1 is Ok);
    assert(o1->Ok_0.subschemas is None);
    assert(complete_root(r)->Ok_0.schema == o1->Ok_0);
    match o0.object {
        None => {},
        Some(p0) => {
            let p1 = complete_props(p0)->Ok_0;
            assert(o1->Ok_0.object == Some(p1));
            lemma_complete_entries_pointwise(p0.properties);
            let i = key_index(keys_of(p0.properties), metadata_key());
            if i >= 0 {
                crate::model::lemma_key_index_bounds(keys_of(p0.properties), metadata_key());
                match p0.properties[i].1 {
                    Node::Leaf(_) => {},
                    Node::Obj(m0) => {
                        let m1 = complete_object(m0)->Ok_0;
                        assert(p1.properties[i].1 == Node::Obj(m1));
                        match r.schema.object {
                            Some(rp) => {
                                let ri = key_index(keys_of(rp.properties), metadata_key());
                                crate::model::lemma_key_index_bounds(keys_of(rp.properties), metadata_key());
                                assert(keys_of(p0.properties) =~= keys_of(rp.properties));
                                match rp.properties[ri].1 {
                                    Node::Obj(mm) => {
                                        assert(m0 == restricted_metadata(mm));
                                        let props = match mm.object {
                                            Some(q) => q.properties,
                                            None => Seq::empty(),
                                        };
                                        let ne = name_entries(props);
                                        lemma_name_entries(props);
                                        let c = complete_children(m0);
                                        assert(c is Ok);
                                        lemma_complete_entries_pointwise(ne);
                                        let q1 = complete_entries(ne)->Ok_0;
                                        assert(m1.object == Some(crate::model::PropsNode { properties: q1, ..m0.object->Some_0 }));
                                        assert forall|j: int| 0 <= j < q1.len() implies ((#[trigger] q1[j]).0 == name_key()
                                            || q1[j].0 == generate_name_key()) && has_no_default(q1[j].1) by {
                                            assert(ne[j].0 == q1[j].0);
                                            match ne[j].1 {
                                                Node::Obj(x) => {
                                                    lemma_complete_keeps_metadata(x);
                                                },
                                                Node::Leaf(_) => {},
                                            }
                                        }
                                    },
                                    Node::Leaf(_) => {},
                                }
                            },
                            None => {},
                        }
                    },
                }
            }
        },
    }
}

} // verus!
