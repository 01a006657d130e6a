//! The structural completion pass.
use vstd::prelude::*;

use crate::complete_spec::{
    complete_array, complete_box, complete_children, complete_entries, complete_list, complete_node, complete_object, complete_opt_list, complete_props, complete_subs,
};
use crate::error::Violation;
use crate::merge::merge_subschemas;
use crate::model::{Entries, Node};
use crate::schema::{
    view_array, view_boxed, view_entries, view_list, view_object, view_opt_list,
    view_props, view_schema, view_subschemas, ArrayValidation, InstanceTypes, Items, ObjectValidation, Schema,
    SchemaObject, SubschemaValidation,
};

verus! {

broadcast use vstd::std_specs::vec::axiom_vec_index_decreases;

/// The first error met in a list is the error of the whole list.
pub proof fn lemma_complete_list_err(s: Seq<Node>, k: int)
    requires
        0 <= k <= s.len(),
        complete_list(s.take(k)) is Err,
    ensures
        complete_list(s) == complete_list(s.take(k)),
    decreases s.len() - k,
{
    if k < s.len() {
        assert(s.take(k + 1).drop_last() =~= s.take(k));
        lemma_complete_list_err(s, k + 1);
    } else {
        assert(s.take(k) =~= s);
    }
}

/// The first error met in named entries is the error of all of them.
pub proof fn lemma_complete_entries_err(s: Entries, k: int)
    requires
        0 <= k <= s.len(),
        complete_entries(s.take(k)) is Err,
    ensures
        complete_entries(s) == complete_entries(s.take(k)),
    decreases s.len() - k,
{
    if k < s.len() {
        assert(s.take(k + 1).drop_last() =~= s.take(k));
        lemma_complete_entries_err(s, k + 1);
    } else {
        assert(s.take(k) =~= s);
    }
}

/// Completes a node and everything below it.
pub fn complete_schema(s: &mut Schema) -> (r: Result<(), Violation>)
    ensures
        match complete_node(view_schema(*old(s))) {
            Ok(n) => r is Ok && view_schema(*final(s)) == n,
            Err(e) => r is Err && r->Err_0 == e,
        },
    decreases view_schema(*old(s)),
{
    match s {
        Schema::Bool(_) => Ok(()),
        Schema::Object(o) => complete_schema_object(o),
    }
}

/// Completes each node of a list, first to last.
fn complete_vec(v: &mut Vec<Schema>) -> (r: Result<(), Violation>)
    ensures
        match complete_list(view_list(*old(v))) {
            Ok(s) => r is Ok && view_list(*final(v)) == s,
            Err(e) => r is Err && r->Err_0 == e,
        },
    decreases view_list(*old(v)),
{
    let ghost s0 = view_list(*v);
    let n = v.len();
    let mut i: usize = 0;
    assert(s0.take(0) =~= Seq::<Node>::empty());
    assert(view_list(*v).take(0) =~= Seq::<Node>::empty());
    while i < n
        invariant
            n == v@.len(),
            n == s0.len(),
            i <= n,
            s0 == view_list(*old(v)),
            forall|j: int| i <= j < n ==> v@[j] == old(v)@[j],
            complete_list(s0.take(i as int)) == Ok::<_, Violation>(view_list(*v).take(i as int)),
        decreases n - i,
    {
        let ghost before = *v;
        assert(s0[i as int] == view_schema(v@[i as int]));
        assert(decreases_to!(s0 => s0[i as int]));
        let res = complete_schema(&mut v[i]);
        assert(s0.take(i + 1 as int).drop_last() =~= s0.take(i as int));
        assert(s0.take(i + 1 as int).last() == s0[i as int]);
        match res {
            Err(e) => {
                proof {
                    lemma_complete_list_err(s0, i + 1 as int);
                }
                return Err(e);
            },
            Ok(()) => {},
        }
        assert(view_list(*v).take(i + 1 as int) =~= view_list(before).take(i as int).push(view_schema(v@[i as int])));
        i += 1;
    }
    assert(s0.take(n as int) =~= s0);
    assert(view_list(*v).take(n as int) =~= view_list(*v));
    Ok(())
}

/// Completes the node of each named entry, first to last.
pub(crate) fn complete_named(v: &mut Vec<(String, Schema)>) -> (r: Result<(), Violation>)
    ensures
        match complete_entries(view_entries(*old(v))) {
            Ok(s) => r is Ok && view_entries(*final(v)) == s,
            Err(e) => r is Err && r->Err_0 == e,
        },
    decreases view_entries(*old(v)),
{
    let ghost s0 = view_entries(*v);
    let n = v.len();
    let mut i: usize = 0;
    assert(s0.take(0) =~= Seq::<(Seq<char>, Node)>::empty());
    assert(view_entries(*v).take(0) =~= Seq::<(Seq<char>, Node)>::empty());
    while i < n
        invariant
            n == v@.len(),
            n == s0.len(),
            i <= n,
            s0 == view_entries(*old(v)),
            forall|j: int| i <= j < n ==> v@[j] == old(v)@[j],
            complete_entries(s0.take(i as int)) == Ok::<_, Violation>(view_entries(*v).take(i as int)),
        decreases n - i,
    {
        let ghost before = *v;
        assert(s0[i as int] == (v@[i as int].0@, view_schema(v@[i as int].1)));
        assert(decreases_to!(s0 => s0[i as int].1));
        let res = complete_schema(&mut v[i].1);
        assert(s0.take(i + 1 as int).drop_last() =~= s0.take(i as int));
        assert(s0.take(i + 1 as int).last() == s0[i as int]);
        match res {
            Err(e) => {
                proof {
                    lemma_complete_entries_err(s0, i + 1 as int);
                }
                return Err(e);
            },
            Ok(()) => {},
        }
        assert(view_entries(*v).take(i + 1 as int) =~= view_entries(before).take(i as int).push(
            (v@[i as int].0@, view_schema(v@[i as int].1)),
        ));
        i += 1;
    }
    assert(s0.take(n as int) =~= s0);
    assert(view_entries(*v).take(n as int) =~= view_entries(*v));
    Ok(())
}

fn complete_opt_vec(v: &mut Option<Vec<Schema>>) -> (r: Result<(), Violation>)
    ensures
        match complete_opt_list(view_opt_list(*old(v))) {
            Ok(s) => r is Ok && view_opt_list(*final(v)) == s,
            Err(e) => r is Err && r->Err_0 == e,
        },
    decreases view_opt_list(*old(v)),
{
    match v {
        Some(l) => complete_vec(l),
        None => Ok(()),
    }
}

fn complete_boxed(v: &mut Option<Box<Schema>>) -> (r: Result<(), Violation>)
    ensures
        match complete_box(view_boxed(*old(v))) {
            Ok(s) => r is Ok && view_boxed(*final(v)) == s,
            Err(e) => r is Err && r->Err_0 == e,
        },
    decreases view_boxed(*old(v)),
{
    match v {
        Some(b) => complete_schema(b),
        None => Ok(()),
    }
}

fn complete_subschemas(s: &mut SubschemaValidation) -> (r: Result<(), Violation>)
    ensures
        match complete_subs(view_subschemas(*old(s))) {
            Ok(n) => r is Ok && view_subschemas(*final(s)) == n,
            Err(e) => r is Err && r->Err_0 == e,
        },
    decreases view_subschemas(*old(s)),
{
    complete_opt_vec(&mut s.all_of)?;
    complete_opt_vec(&mut s.any_of)?;
    complete_opt_vec(&mut s.one_of)?;
    complete_boxed(&mut s.not)?;
    complete_boxed(&mut s.if_schema)?;
    complete_boxed(&mut s.then_schema)?;
    complete_boxed(&mut s.else_schema)?;
    Ok(())
}

fn complete_array_validation(a: &mut ArrayValidation) -> (r: Result<(), Violation>)
    ensures
        match complete_array(view_array(*old(a))) {
            Ok(n) => r is Ok && view_array(*final(a)) == n,
            Err(e) => r is Err && r->Err_0 == e,
        },
    decreases view_array(*old(a)),
{
    match &mut a.items {
        None => {},
        Some(Items::Single(b)) => {
            complete_schema(b)?;
        },
        Some(Items::Vec(l)) => {
            complete_vec(l)?;
        },
    }
    complete_boxed(&mut a.additional_items)?;
    complete_boxed(&mut a.contains)?;
    Ok(())
}

fn complete_object_validation(p: &mut ObjectValidation) -> (r: Result<(), Violation>)
    ensures
        match complete_props(view_props(*old(p))) {
            Ok(n) => r is Ok && view_props(*final(p)) == n,
            Err(e) => r is Err && r->Err_0 == e,
        },
    decreases view_props(*old(p)),
{
    complete_named(&mut p.properties)?;
    complete_named(&mut p.pattern_properties)?;
    complete_boxed(&mut p.additional_properties)?;
    complete_boxed(&mut p.property_names)?;
    Ok(())
}

/// Completes a node made of keywords: everything below it first, then its
/// `allOf`, `anyOf`, `oneOf` and `not` branches are folded into it; a node
/// left with a list of types is refused.
pub fn complete_schema_object(o: &mut SchemaObject) -> (r: Result<(), Violation>)
    ensures
        match complete_object(view_object(*old(o))) {
            Ok(n) => r is Ok && view_object(*final(o)) == n,
            Err(e) => r is Err && r->Err_0 == e,
        },
    decreases view_object(*old(o)),
{
    match &mut o.subschemas {
        Some(s) => {
            complete_subschemas(s)?;
        },
        None => {},
    }
    match &mut o.array {
        Some(a) => {
            complete_array_validation(a)?;
        },
        None => {},
    }
    match &mut o.object {
        Some(p) => {
            complete_object_validation(p)?;
        },
        None => {},
    }
    let ghost o1 = view_object(*o);
    assert(complete_children(view_object(*old(o))) == Ok::<_, Violation>(o1));
    let mut subs = o.subschemas.take();
    let res = match &mut subs {
        Some(s) => merge_subschemas(o, s),
        None => Ok(()),
    };
    o.subschemas = subs;
    res?;
    match &o.instance_type {
        Some(InstanceTypes::Vec(_)) => Err(Violation::TypeNotSingle),
        _ => Ok(()),
    }
}

} // verus!
