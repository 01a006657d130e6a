//! The merge pass: folds composition branches into an anchor node.
use vstd::prelude::*;

use crate::entries::{find_key, names_of, set_nullable, take_nullable};
use crate::error::Violation;
use crate::merge_spec::{
    anchor_array, anchor_items, anchor_of, merge_items, merge_list, merge_node, merge_object,
    merge_opt_list, merge_prop, merge_props, merge_subs, prop_index, props_with, unify_type,
    with_anchor, AnchorNode,
};
use crate::model::{keys_of, lemma_key_index_bounds, Entries, Node};
use crate::schema::{
    view_array, view_boxed, view_entries, view_items, view_list, view_object, view_opt_list,
    view_props, view_schema, view_subschemas, ArrayValidation, InstanceTypes, Items,
    ObjectValidation, Schema, SchemaObject, SubschemaValidation,
};

verus! {

broadcast use vstd::std_specs::vec::axiom_vec_index_decreases;

/// The first error met in a list of branches is the error of the whole list.
pub proof fn lemma_merge_list_err(a: AnchorNode, s: Seq<Node>, k: int)
    requires
        0 <= k <= s.len(),
        merge_list(a, s.take(k)) is Err,
    ensures
        merge_list(a, s) == merge_list(a, s.take(k)),
    decreases s.len() - k,
{
    if k < s.len() {
        assert(s.take(k + 1).drop_last() =~= s.take(k));
        lemma_merge_list_err(a, s, k + 1);
    } else {
        assert(s.take(k) =~= s);
    }
}

/// The first error met in a list of properties is the error of the whole list.
pub proof fn lemma_merge_props_err(p: crate::model::PropsNode, s: Entries, k: int)
    requires
        0 <= k <= s.len(),
        merge_props(p, s.take(k)) is Err,
    ensures
        merge_props(p, s) == merge_props(p, s.take(k)),
    decreases s.len() - k,
{
    if k < s.len() {
        assert(s.take(k + 1).drop_last() =~= s.take(k));
        lemma_merge_props_err(p, s, k + 1);
    } else {
        assert(s.take(k) =~= s);
    }
}

/// Merges `b` into the anchor made of `t`'s type, array, object and extension keywords.
fn merge_schema(t: &mut SchemaObject, b: &mut Schema) -> (r: Result<(), Violation>)
    ensures
        match merge_node(anchor_of(view_object(*old(t))), view_schema(*old(b))) {
            Ok((a, n)) => r is Ok && view_object(*final(t)) == with_anchor(view_object(*old(t)), a)
                && view_schema(*final(b)) == n,
            Err(e) => r is Err && r->Err_0 == e,
        },
    decreases view_schema(*old(b)),
{
    match b {
        Schema::Bool(_) => {
            assert(with_anchor(view_object(*t), anchor_of(view_object(*t))) =~= view_object(*t));
            Ok(())
        },
        Schema::Object(o) => merge_schema_object(t, o),
    }
}

/// Merges each branch of a list into the anchor, first to last.
fn merge_vec(t: &mut SchemaObject, v: &mut Vec<Schema>) -> (r: Result<(), Violation>)
    ensures
        match merge_list(anchor_of(view_object(*old(t))), view_list(*old(v))) {
            Ok((a, s)) => r is Ok && view_object(*final(t)) == with_anchor(view_object(*old(t)), a)
                && view_list(*final(v)) == s,
            Err(e) => r is Err && r->Err_0 == e,
        },
    decreases view_list(*old(v)),
{
    let ghost t0 = view_object(*t);
    let ghost s0 = view_list(*v);
    let ghost a0 = anchor_of(t0);
    let n = v.len();
    let mut i: usize = 0;
    assert(s0.take(0) =~= Seq::<Node>::empty());
    assert(view_list(*v).take(0) =~= Seq::<Node>::empty());
    assert(with_anchor(t0, a0) =~= t0);
    while i < n
        invariant
            n == v@.len(),
            n == s0.len(),
            i <= n,
            s0 == view_list(*old(v)),
            t0 == view_object(*old(t)),
            a0 == anchor_of(t0),
            forall|j: int| i <= j < n ==> v@[j] == old(v)@[j],
            merge_list(a0, s0.take(i as int)) == Ok::<_, Violation>((anchor_of(view_object(*t)), view_list(*v).take(i as int))),
            view_object(*t) == with_anchor(t0, anchor_of(view_object(*t))),
        decreases n - i,
    {
        let ghost before = *v;
        assert(s0[i as int] == view_schema(v@[i as int]));
        assert(decreases_to!(s0 => s0[i as int]));
        let res = merge_schema(t, &mut v[i]);
        assert(s0.take(i + 1 as int).drop_last() =~= s0.take(i as int));
        assert(s0.take(i + 1 as int).last() == s0[i as int]);
        match res {
            Err(e) => {
                proof {
                    lemma_merge_list_err(a0, s0, i + 1 as int);
                }
                return Err(e);
            },
            Ok(()) => {},
        }
        assert(view_list(*v).take(i + 1 as int) =~= view_list(before).take(i as int).push(view_schema(v@[i as int])));
        assert(with_anchor(t0, anchor_of(view_object(*t))) =~= view_object(*t));
        i += 1;
    }
    assert(s0.take(n as int) =~= s0);
    assert(view_list(*v).take(n as int) =~= view_list(*v));
    Ok(())
}

fn merge_opt_vec(t: &mut SchemaObject, v: &mut Option<Vec<Schema>>) -> (r: Result<(), Violation>)
    ensures
        match merge_opt_list(anchor_of(view_object(*old(t))), view_opt_list(*old(v))) {
            Ok((a, s)) => r is Ok && view_object(*final(t)) == with_anchor(view_object(*old(t)), a)
                && view_opt_list(*final(v)) == s,
            Err(e) => r is Err && r->Err_0 == e,
        },
    decreases view_opt_list(*old(v)),
{
    match v {
        Some(l) => merge_vec(t, l),
        None => {
            assert(with_anchor(view_object(*t), anchor_of(view_object(*t))) =~= view_object(*t));
            Ok(())
        },
    }
}

fn merge_boxed(t: &mut SchemaObject, v: &mut Option<Box<Schema>>) -> (r: Result<(), Violation>)
    ensures
        match crate::merge_spec::merge_opt_box(anchor_of(view_object(*old(t))), view_boxed(*old(v))) {
            Ok((a, s)) => r is Ok && view_object(*final(t)) == with_anchor(view_object(*old(t)), a)
                && view_boxed(*final(v)) == s,
            Err(e) => r is Err && r->Err_0 == e,
        },
    decreases view_boxed(*old(v)),
{
    match v {
        Some(b) => merge_schema(t, b),
        None => {
            assert(with_anchor(view_object(*t), anchor_of(view_object(*t))) =~= view_object(*t));
            Ok(())
        },
    }
}

/// Merges the `allOf`, `anyOf`, `oneOf` and `not` branches of `s` into the anchor.
pub(crate) fn merge_subschemas(t: &mut SchemaObject, s: &mut SubschemaValidation) -> (r: Result<(), Violation>)
    ensures
        match merge_subs(anchor_of(view_object(*old(t))), view_subschemas(*old(s))) {
            Ok((a, n)) => r is Ok && view_object(*final(t)) == with_anchor(view_object(*old(t)), a)
                && view_subschemas(*final(s)) == n,
            Err(e) => r is Err && r->Err_0 == e,
        },
    decreases view_subschemas(*old(s)),
{
    merge_opt_vec(t, &mut s.all_of)?;
    merge_opt_vec(t, &mut s.any_of)?;
    merge_opt_vec(t, &mut s.one_of)?;
    merge_boxed(t, &mut s.not)?;
    Ok(())
}

/// Unifies the type of a branch with the anchor's.
fn unify(branch: Option<InstanceTypes>, parent: &mut Option<InstanceTypes>) -> (r: Result<(), Violation>)
    ensures
        match unify_type(branch, *old(parent)) {
            Ok(x) => r is Ok && *final(parent) == x,
            Err(e) => r is Err && r->Err_0 == e,
        },
{
    match branch {
        Some(InstanceTypes::Vec(_)) => Err(Violation::TypeNotSingle),
        Some(InstanceTypes::Single(x)) => match parent {
            Some(InstanceTypes::Vec(_)) => Err(Violation::TypeNotSingle),
            Some(InstanceTypes::Single(y)) => {
                if x != *y {
                    Err(Violation::TypeMismatch)
                } else {
                    Ok(())
                }
            },
            None => {
                *parent = Some(InstanceTypes::Single(x));
                Ok(())
            },
        },
        None => match parent {
            Some(InstanceTypes::Vec(_)) => Err(Violation::TypeNotSingle),
            _ => Ok(()),
        },
    }
}

/// Merges `b` into `target` where `target` is made of keywords; a boolean
/// leaf target is left as it is, and so is `b`.
fn merge_into_schema(target: &mut Schema, b: &mut Schema) -> (r: Result<(), Violation>)
    ensures
        match view_schema(*old(target)) {
            Node::Leaf(_) => r is Ok && *final(target) == *old(target) && *final(b) == *old(b),
            Node::Obj(p) => match merge_node(anchor_of(p), view_schema(*old(b))) {
                Ok((a, n)) => r is Ok && view_schema(*final(target)) == Node::Obj(with_anchor(p, a))
                    && view_schema(*final(b)) == n,
                Err(e) => r is Err && r->Err_0 == e,
            },
        },
    decreases view_schema(*old(b)),
{
    match target {
        Schema::Bool(_) => Ok(()),
        Schema::Object(p) => match b {
            Schema::Bool(_) => {
                assert(with_anchor(view_object(*p), anchor_of(view_object(*p))) =~= view_object(*p));
                Ok(())
            },
            Schema::Object(o) => merge_schema_object(p, o),
        },
    }
}

/// Merges the single `items` schema of a branch into the anchor's `items`.
fn merge_array(t: &mut SchemaObject, arr: &mut ArrayValidation) -> (r: Result<(), Violation>)
    ensures
        match merge_items(anchor_of(view_object(*old(t))), view_array(*old(arr))) {
            Ok((a, n)) => r is Ok && view_object(*final(t)) == with_anchor(view_object(*old(t)), a)
                && view_array(*final(arr)) == n,
            Err(e) => r is Err && r->Err_0 == e,
        },
    decreases view_array(*old(arr)),
{
    let ghost t0 = view_object(*t);
    let ghost a0 = anchor_of(t0);
    let ghost arr0 = view_array(*arr);
    match &mut arr.items {
        None => {
            assert(with_anchor(t0, a0) =~= t0);
            Ok(())
        },
        Some(Items::Vec(_)) => Err(Violation::ItemsNotSchema),
        Some(Items::Single(item)) => {
            let mut pa: Box<ArrayValidation> = match t.array.take() {
                Some(x) => x,
                None => Box::new(ArrayValidation::default()),
            };
            assert(view_array(*pa) == anchor_array(a0));
            let mut pitems: Items = match pa.items.take() {
                Some(x) => x,
                None => Items::Single(Box::new(Schema::Object(SchemaObject::default()))),
            };
            assert(view_items(pitems) == anchor_items(a0));
            assert(decreases_to!(arr0 => view_schema(**item)));
            let res = match &mut pitems {
                Items::Vec(_) => Err(Violation::ItemsNotSchema),
                Items::Single(ps) => merge_into_schema(ps, item),
            };
            pa.items = Some(pitems);
            t.array = Some(pa);
            res
        },
    }
}

/// The names of named entries are kept by their view.
pub proof fn lemma_entry_names(v: Vec<(String, Schema)>)
    ensures
        keys_of(view_entries(v)) == names_of(v@),
{
    assert(keys_of(view_entries(v)) =~= names_of(v@));
}

/// Merges the properties of a branch into the anchor's object keywords.
fn merge_properties(po: &mut ObjectValidation, props: &mut Vec<(String, Schema)>) -> (r: Result<(), Violation>)
    ensures
        match merge_props(view_props(*old(po)), view_entries(*old(props))) {
            Ok((p, s)) => r is Ok && view_props(*final(po)) == p && view_entries(*final(props)) == s,
            Err(e) => r is Err && r->Err_0 == e,
        },
    decreases view_entries(*old(props)),
{
    let ghost p0 = view_props(*po);
    let ghost s0 = view_entries(*props);
    let n = props.len();
    let mut i: usize = 0;
    assert(s0.take(0) =~= Seq::<(Seq<char>, Node)>::empty());
    assert(view_entries(*props).take(0) =~= Seq::<(Seq<char>, Node)>::empty());
    while i < n
        invariant
            n == props@.len(),
            n == s0.len(),
            i <= n,
            s0 == view_entries(*old(props)),
            p0 == view_props(*old(po)),
            forall|j: int| i <= j < n ==> props@[j] == old(props)@[j],
            merge_props(p0, s0.take(i as int)) == Ok::<_, Violation>((view_props(*po), view_entries(*props).take(i as int))),
        decreases n - i,
    {
        let ghost before = *props;
        let ghost pb = view_props(*po);
        let name = props[i].0.clone();
        proof {
            lemma_entry_names(po.properties);
            lemma_key_index_bounds(names_of(po.properties@), name@);
        }
        let idx = match find_key(&po.properties, &name) {
            Some(j) => j,
            None => {
                po.properties.push((name.clone(), Schema::Object(SchemaObject::default())));
                po.properties.len() - 1
            },
        };
        assert(view_entries(po.properties) =~= props_with(pb.properties, name@));
        assert(idx == prop_index(pb.properties, name@));
        assert(s0[i as int] == (name@, view_schema(props@[i as int].1)));
        assert(decreases_to!(s0 => s0[i as int].1));
        let ghost tgt = po.properties@[idx as int].1;
        assert(props_with(pb.properties, name@)[idx as int].1 == view_schema(tgt));
        let res = match &mut po.properties[idx].1 {
            Schema::Bool(_) => Err(Violation::PropertyNotSchema),
            Schema::Object(target) => merge_schema(target, &mut props[i].1),
        };
        assert(s0.take(i + 1 as int).drop_last() =~= s0.take(i as int));
        assert(s0.take(i + 1 as int).last() == s0[i as int]);
        match res {
            Err(e) => {
                proof {
                    assert(merge_prop(pb, s0[i as int]) is Err);
                    assert(merge_props(p0, s0.take(i + 1 as int)) is Err);
                    lemma_merge_props_err(p0, s0, i + 1 as int);
                }
                return Err(e);
            },
            Ok(()) => {},
        }
        proof {
            let mp = merge_prop(pb, s0[i as int]);
            assert(mp is Ok);
            assert(view_entries(po.properties) =~= mp->Ok_0.0.properties);
            assert(view_props(*po) == mp->Ok_0.0);
        }
        assert(view_entries(*props).take(i + 1 as int) =~= view_entries(before).take(i as int).push(
            (name@, view_schema(props@[i as int].1)),
        ));
        i += 1;
    }
    assert(s0.take(n as int) =~= s0);
    assert(view_entries(*props).take(n as int) =~= view_entries(*props));
    Ok(())
}

/// Merges a branch made of keywords into the anchor: its own branches, its
/// `items`, its properties, its type and nullable marker; its informational
/// keywords are cleared.
fn merge_schema_object(t: &mut SchemaObject, o: &mut SchemaObject) -> (r: Result<(), Violation>)
    ensures
        match merge_object(anchor_of(view_object(*old(t))), view_object(*old(o))) {
            Ok((a, n)) => r is Ok && view_object(*final(t)) == with_anchor(view_object(*old(t)), a)
                && view_object(*final(o)) == n,
            Err(e) => r is Err && r->Err_0 == e,
        },
    decreases view_object(*old(o)),
{
    match &mut o.subschemas {
        Some(s) => {
            merge_subschemas(t, s)?;
        },
        None => {},
    }
    match &mut o.array {
        Some(arr) => {
            merge_array(t, arr)?;
        },
        None => {},
    }
    match &mut o.object {
        Some(ob) => {
            if t.object.is_none() {
                t.object = Some(Box::new(ObjectValidation::default()));
            }
            match &mut t.object {
                Some(po) => {
                    merge_properties(po, &mut ob.properties)?;
                },
                None => {},
            }
        },
        None => {},
    }
    let ty = o.instance_type.take();
    unify(ty, &mut t.instance_type)?;
    let was_nullable = take_nullable(&mut o.extensions);
    if was_nullable {
        set_nullable(&mut t.extensions);
    }
    match &mut o.metadata {
        Some(m) => {
            m.default = None;
            m.title = None;
            m.description = None;
        },
        None => {},
    }
    Ok(())
}

} // verus!
