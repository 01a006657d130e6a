//! A visitor over every structural position of a schema tree.
//!
//! An implementation says, through three spec functions, what visiting a
//! document, a node, and a node made of keywords may do. The functions of this
//! module give the default descent into the positions below, depth first and
//! in keyword order, stopping at the first error; their contracts say which
//! nodes are handed to the visitor, in which order, and that the shape of what
//! holds them is kept.
use vstd::prelude::*;

use crate::model::{
    hollow_array, hollow_box, hollow_entries, hollow_object, hollow_opt_list, hollow_props, hollow_subs,
};
use crate::schema::{
    view_array, view_boxed, view_entries, view_object, view_opt_list, view_props, view_subschemas, ArrayValidation, Items, ObjectValidation,
    RootSchema, Schema, SchemaObject, SubschemaValidation,
};

verus! {

/// Something that visits a schema tree, possibly changing it.
pub trait Visitor: Sized {
    type Error;

    /// Whether visiting the document `before` may leave it as `after`, leave
    /// the visitor as `next` and return `r`.
    spec fn root_visited(&self, before: RootSchema, after: RootSchema, next: Self, r: Result<(), Self::Error>) -> bool;

    /// Whether visiting the node `before` may leave it as `after`, leave the
    /// visitor as `next` and return `r`.
    spec fn schema_visited(&self, before: Schema, after: Schema, next: Self, r: Result<(), Self::Error>) -> bool;

    /// Whether visiting the node made of keywords `before` may leave it as
    /// `after`, leave the visitor as `next` and return `r`.
    spec fn object_visited(&self, before: SchemaObject, after: SchemaObject, next: Self, r: Result<(), Self::Error>) -> bool;

    /// Visits a whole document; the default descent is `visit_root_schema`.
    fn visit_root_schema(&mut self, root: &mut RootSchema) -> (r: Result<(), Self::Error>)
        ensures
            old(self).root_visited(*old(root), *final(root), *final(self), r),
    ;

    /// Visits a node; the default descent is `visit_schema`.
    fn visit_schema(&mut self, schema: &mut Schema) -> (r: Result<(), Self::Error>)
        ensures
            old(self).schema_visited(*old(schema), *final(schema), *final(self), r),
    ;

    /// Visits a node made of keywords; the default descent is
    /// `visit_schema_object`.
    fn visit_schema_object(&mut self, schema: &mut SchemaObject) -> (r: Result<(), Self::Error>)
        ensures
            old(self).object_visited(*old(schema), *final(schema), *final(self), r),
    ;
}

/// Whether visiting the nodes `before` one after the other goes through the
/// visitor states `states`, the first `k` visits succeeding: `states[0]` is
/// the visitor at the start and `states[i + 1]` the visitor after visit `i`.
/// Where `k` is the whole length, `r` is `Ok`; else visit `k` failed with
/// `r`, leaving the visitor as `v1`, and the nodes after it are left as they
/// were.
pub open spec fn visits<V: Visitor>(
    before: Seq<Schema>,
    after: Seq<Schema>,
    states: Seq<V>,
    k: int,
    v1: V,
    r: Result<(), V::Error>,
) -> bool {
    &&& before.len() == after.len()
    &&& 0 <= k <= before.len()
    &&& states.len() == k + 1
    &&& forall|i: int|
        0 <= i < k ==> #[trigger] states[i].schema_visited(before[i], after[i], states[i + 1], Ok::<(), V::Error>(()))
    &&& if k == before.len() {
        r is Ok && v1 == states[k]
    } else {
        &&& r is Err
        &&& states[k].schema_visited(before[k], after[k], v1, r)
        &&& forall|j: int| k < j < before.len() ==> after[j] == before[j]
    }
}

/// Whether visiting the nodes `before` one after the other, from visitor
/// `v0`, may leave them as `after`, the visitor as `v1` and return `r`: each
/// node is visited in order until a visit fails; that error is returned, and
/// the nodes after it are left as they were.
pub open spec fn list_visited<V: Visitor>(
    v0: V,
    before: Seq<Schema>,
    after: Seq<Schema>,
    v1: V,
    r: Result<(), V::Error>,
) -> bool {
    &&& before.len() == after.len()
    &&& exists|states: Seq<V>, k: int| states.len() > 0 && states[0] == v0 && #[trigger] visits(before, after, states, k, v1, r)
}

/// The node held in a position that may be empty, as a list.
pub open spec fn box_nodes(b: Option<Box<Schema>>) -> Seq<Schema> {
    match b {
        Some(x) => seq![*x],
        None => Seq::empty(),
    }
}

/// The nodes of a list that may be absent.
pub open spec fn list_nodes(l: Option<Vec<Schema>>) -> Seq<Schema> {
    match l {
        Some(x) => x@,
        None => Seq::empty(),
    }
}

/// The nodes of named entries, in order.
pub open spec fn entry_nodes(v: Vec<(String, Schema)>) -> Seq<Schema> {
    v@.map_values(|p: (String, Schema)| p.1)
}

/// The node, or the nodes, of an `items` keyword that may be absent.
pub open spec fn items_nodes(i: Option<Items>) -> Seq<Schema> {
    match i {
        Some(Items::Single(b)) => seq![*b],
        Some(Items::Vec(l)) => l@,
        None => Seq::empty(),
    }
}

/// The branch nodes, in visiting order: `allOf`, `anyOf`, `oneOf`, `not`,
/// `if`, `then`, `else`.
pub open spec fn subschema_nodes(s: SubschemaValidation) -> Seq<Schema> {
    branch_list_nodes(s) + branch_box_nodes(s)
}

/// The nodes of `allOf`, `anyOf` and `oneOf`, in this order.
pub open spec fn branch_list_nodes(s: SubschemaValidation) -> Seq<Schema> {
    list_nodes(s.all_of) + list_nodes(s.any_of) + list_nodes(s.one_of)
}

/// The nodes of `not`, `if`, `then` and `else`, in this order.
pub open spec fn branch_box_nodes(s: SubschemaValidation) -> Seq<Schema> {
    box_nodes(s.not) + box_nodes(s.if_schema) + box_nodes(s.then_schema) + box_nodes(s.else_schema)
}

/// The array nodes, in visiting order: `items`, `additionalItems`, `contains`.
pub open spec fn array_nodes(a: ArrayValidation) -> Seq<Schema> {
    items_nodes(a.items) + box_nodes(a.additional_items) + box_nodes(a.contains)
}

/// The object nodes, in visiting order: `properties`, `patternProperties`,
/// `additionalProperties`, `propertyNames`.
pub open spec fn object_nodes(p: ObjectValidation) -> Seq<Schema> {
    entry_nodes(p.properties) + entry_nodes(p.pattern_properties) + box_nodes(p.additional_properties)
        + box_nodes(p.property_names)
}

/// The nodes directly below a node made of keywords, in visiting order: its
/// branch nodes, then its array nodes, then its object nodes.
pub open spec fn child_nodes(o: SchemaObject) -> Seq<Schema> {
    subschema_part(o) + array_part(o) + object_part(o)
}

pub open spec fn subschema_part(o: SchemaObject) -> Seq<Schema> {
    match o.subschemas {
        Some(s) => subschema_nodes(*s),
        None => Seq::empty(),
    }
}

pub open spec fn array_part(o: SchemaObject) -> Seq<Schema> {
    match o.array {
        Some(a) => array_nodes(*a),
        None => Seq::empty(),
    }
}

pub open spec fn object_part(o: SchemaObject) -> Seq<Schema> {
    match o.object {
        Some(p) => object_nodes(*p),
        None => Seq::empty(),
    }
}

/// One more part visited after parts that went through; where it failed,
/// the parts that follow are left as they were.
pub proof fn lemma_visited_step<V: Visitor>(
    v0: V,
    ao: Seq<Schema>,
    an: Seq<Schema>,
    vm: V,
    so: Seq<Schema>,
    sn: Seq<Schema>,
    v1: V,
    r: Result<(), V::Error>,
    rest: Seq<Schema>,
)
    requires
        list_visited(v0, ao, an, vm, Ok::<(), V::Error>(())),
        list_visited(vm, so, sn, v1, r),
    ensures
        list_visited(v0, ao + so, an + sn, v1, r),
        r is Err ==> list_visited(v0, ao + so + rest, an + sn + rest, v1, r),
{
    lemma_visited_concat(v0, ao, an, vm, so, sn, v1, r);
    if r is Err {
        lemma_visited_rest(v0, ao + so, an + sn, v1, r, rest);
    }
}

/// A successful visit returns the one `Ok` value.
pub proof fn lemma_unit_ok<E>(r: Result<(), E>)
    requires
        r is Ok,
    ensures
        r == Ok::<(), E>(()),
{
    let u: () = r->Ok_0;
    assert(u == ());
    assert(r == Ok::<(), E>(u));
}

/// Nothing to visit.
pub proof fn lemma_visited_empty<V: Visitor>(v0: V)
    ensures
        list_visited(v0, Seq::<Schema>::empty(), Seq::<Schema>::empty(), v0, Ok::<(), V::Error>(())),
{
    assert(visits(Seq::<Schema>::empty(), Seq::<Schema>::empty(), seq![v0], 0, v0, Ok::<(), V::Error>(())));
}

/// Visiting one more node after a list that went through.
pub proof fn lemma_visited_push<V: Visitor>(
    v0: V,
    b: Seq<Schema>,
    a: Seq<Schema>,
    vm: V,
    x: Schema,
    y: Schema,
    v1: V,
    r: Result<(), V::Error>,
)
    requires
        list_visited(v0, b, a, vm, Ok::<(), V::Error>(())),
        vm.schema_visited(x, y, v1, r),
    ensures
        list_visited(v0, b.push(x), a.push(y), v1, r),
{
    let (st, k) = choose|st: Seq<V>, k: int| st.len() > 0 && st[0] == v0 && #[trigger] visits(b, a, st, k, vm, Ok::<(), V::Error>(()));
    assert(k == b.len());
    let b2 = b.push(x);
    let a2 = a.push(y);
    if r is Ok {
        let st2 = st.push(v1);
        assert(st2[k] == vm && st2[k + 1] == v1 && b2[k] == x && a2[k] == y);
        lemma_unit_ok(r);
        assert forall|i: int| 0 <= i < k + 1 implies #[trigger] st2[i].schema_visited(b2[i], a2[i], st2[i + 1], Ok::<(), V::Error>(())) by {
            if i < k {
                assert(st2[i] == st[i] && st2[i + 1] == st[i + 1] && b2[i] == b[i] && a2[i] == a[i]);
                assert(st[i].schema_visited(b[i], a[i], st[i + 1], Ok::<(), V::Error>(())));
            }
        }
        assert(visits(b2, a2, st2, k + 1, v1, r));
    } else {
        assert(st[k] == vm && b2[k] == x && a2[k] == y);
        assert forall|i: int| 0 <= i < k implies #[trigger] st[i].schema_visited(b2[i], a2[i], st[i + 1], Ok::<(), V::Error>(())) by {
            assert(b2[i] == b[i] && a2[i] == a[i]);
            assert(st[i].schema_visited(b[i], a[i], st[i + 1], Ok::<(), V::Error>(())));
        }
        assert(visits(b2, a2, st, k, v1, r));
    }
}

/// After a failed visit, the nodes that follow are left as they were.
pub proof fn lemma_visited_rest<V: Visitor>(
    v0: V,
    b: Seq<Schema>,
    a: Seq<Schema>,
    v1: V,
    r: Result<(), V::Error>,
    rest: Seq<Schema>,
)
    requires
        list_visited(v0, b, a, v1, r),
        r is Err,
    ensures
        list_visited(v0, b + rest, a + rest, v1, r),
{
    let (st, k) = choose|st: Seq<V>, k: int| st.len() > 0 && st[0] == v0 && #[trigger] visits(b, a, st, k, v1, r);
    let b2 = b + rest;
    let a2 = a + rest;
    assert forall|i: int| 0 <= i < k implies #[trigger] st[i].schema_visited(b2[i], a2[i], st[i + 1], Ok::<(), V::Error>(())) by {
        assert(b2[i] == b[i] && a2[i] == a[i]);
        assert(st[i].schema_visited(b[i], a[i], st[i + 1], Ok::<(), V::Error>(())));
    }
    assert(b2[k] == b[k] && a2[k] == a[k]);
    assert forall|j: int| k < j < b2.len() implies a2[j] == b2[j] by {
        if j < b.len() {
            assert(a2[j] == a[j] && b2[j] == b[j]);
        }
    }
    assert(visits(b2, a2, st, k, v1, r));
}

/// Two lists visited one after the other are one list visited.
pub proof fn lemma_visited_concat<V: Visitor>(
    v0: V,
    b1: Seq<Schema>,
    a1: Seq<Schema>,
    vm: V,
    b2: Seq<Schema>,
    a2: Seq<Schema>,
    v1: V,
    r: Result<(), V::Error>,
)
    requires
        list_visited(v0, b1, a1, vm, Ok::<(), V::Error>(())),
        list_visited(vm, b2, a2, v1, r),
    ensures
        list_visited(v0, b1 + b2, a1 + a2, v1, r),
{
    let (st1, k1) = choose|st: Seq<V>, k: int| st.len() > 0 && st[0] == v0 && #[trigger] visits(b1, a1, st, k, vm, Ok::<(), V::Error>(()));
    let (st2, k2) = choose|st: Seq<V>, k: int| st.len() > 0 && st[0] == vm && #[trigger] visits(b2, a2, st, k, v1, r);
    assert(k1 == b1.len());
    let n = b1.len() as int;
    let st = st1 + st2.skip(1);
    let k = n + k2;
    let bb = b1 + b2;
    let aa = a1 + a2;
    assert(st.len() == k + 1);
    assert forall|i: int| 0 <= i < k implies #[trigger] st[i].schema_visited(bb[i], aa[i], st[i + 1], Ok::<(), V::Error>(())) by {
        if i < n {
            assert(st[i] == st1[i] && bb[i] == b1[i] && aa[i] == a1[i]);
            assert(st[i + 1] == st1[i + 1]) by {
                if i + 1 == n {
                    assert(st1[n] == vm && st2[0] == vm);
                }
            }
            assert(st1[i].schema_visited(b1[i], a1[i], st1[i + 1], Ok::<(), V::Error>(())));
        } else {
            let j = i - n;
            assert(st[i] == st2[j]) by {
                if j == 0 {
                    assert(st1[n] == vm);
                }
            }
            assert(st[i + 1] == st2[j + 1]);
            assert(bb[i] == b2[j] && aa[i] == a2[j]);
            assert(st2[j].schema_visited(b2[j], a2[j], st2[j + 1], Ok::<(), V::Error>(())));
        }
    }
    if k2 == b2.len() {
        assert(st[k] == st2[k2]) by {
            if k2 == 0 {
                assert(st1[n] == vm);
            }
        }
    } else {
        assert(st[k] == st2[k2]) by {
            if k2 == 0 {
                assert(st1[n] == vm);
            }
        }
        assert(bb[k] == b2[k2] && aa[k] == a2[k2]);
        assert forall|j: int| k < j < bb.len() implies aa[j] == bb[j] by {
            assert(aa[j] == a2[j - n] && bb[j] == b2[j - n]);
        }
    }
    assert(visits(bb, aa, st, k, v1, r));
}

/// Visiting a single node.
pub proof fn lemma_visited_one<V: Visitor>(v0: V, x: Schema, y: Schema, v1: V, r: Result<(), V::Error>)
    requires
        v0.schema_visited(x, y, v1, r),
    ensures
        list_visited(v0, seq![x], seq![y], v1, r),
{
    lemma_visited_empty(v0);
    lemma_visited_push(v0, Seq::<Schema>::empty(), Seq::<Schema>::empty(), v0, x, y, v1, r);
    assert(Seq::<Schema>::empty().push(x) =~= seq![x]);
    assert(Seq::<Schema>::empty().push(y) =~= seq![y]);
}

/// Visits a node made of keywords; a boolean leaf has nothing to visit.
pub fn visit_schema<V: Visitor>(v: &mut V, schema: &mut Schema) -> (r: Result<(), V::Error>)
    ensures
        match *old(schema) {
            Schema::Bool(_) => r is Ok && *final(schema) == *old(schema) && *final(v) == *old(v),
            Schema::Object(o) => (*final(schema)) is Object && old(v).object_visited(
                o,
                (*final(schema))->Object_0,
                *final(v),
                r,
            ),
        },
{
    match schema {
        Schema::Object(o) => v.visit_schema_object(o),
        Schema::Bool(_) => Ok(()),
    }
}

/// Visits the node in a position that may be empty.
pub fn visit_box<V: Visitor>(v: &mut V, target: &mut Option<Box<Schema>>) -> (r: Result<(), V::Error>)
    ensures
        match *old(target) {
            None => r is Ok && *final(target) == *old(target) && *final(v) == *old(v),
            Some(b) => (*final(target)) is Some && old(v).schema_visited(
                *b,
                *(*final(target))->Some_0,
                *final(v),
                r,
            ),
        },
        list_visited(*old(v), box_nodes(*old(target)), box_nodes(*final(target)), *final(v), r),
        hollow_box(view_boxed(*final(target))) == hollow_box(view_boxed(*old(target))),
{
    match target {
        Some(s) => {
            let ghost v0 = *v;
            let ghost b = **s;
            let r = v.visit_schema(s);
            proof {
                lemma_visited_one(v0, b, **s, *v, r);
            }
            r
        },
        None => {
            proof {
                lemma_visited_empty(*v);
            }
            Ok(())
        },
    }
}

/// Visits each node of a list, first to last, until a visit fails.
fn visit_list<V: Visitor>(v: &mut V, list: &mut Vec<Schema>) -> (r: Result<(), V::Error>)
    ensures
        list_visited(*old(v), old(list)@, final(list)@, *final(v), r),
{
    let ghost v0 = *v;
    let ghost b = list@;
    let n = list.len();
    let mut i: usize = 0;
    assert(b.take(0) =~= Seq::<Schema>::empty());
    assert(list@.take(0) =~= Seq::<Schema>::empty());
    proof {
        lemma_visited_empty(v0);
    }
    while i < n
        invariant
            n == list@.len(),
            n == b.len(),
            b == old(list)@,
            v0 == *old(v),
            i <= n,
            forall|j: int| i <= j < n ==> list@[j] == b[j],
            list_visited(v0, b.take(i as int), list@.take(i as int), *v, Ok::<(), V::Error>(())),
        decreases n - i,
    {
        let ghost vb = *v;
        let ghost before = list@;
        let res = v.visit_schema(&mut list[i]);
        proof {
            lemma_visited_push(v0, b.take(i as int), before.take(i as int), vb, b[i as int], list@[i as int], *v, res);
            assert(b.take(i + 1 as int) =~= b.take(i as int).push(b[i as int]));
            assert(list@.take(i + 1 as int) =~= before.take(i as int).push(list@[i as int]));
        }
        match res {
            Err(e) => {
                proof {
                    let rest = b.skip(i + 1 as int);
                    lemma_visited_rest(v0, b.take(i + 1 as int), list@.take(i + 1 as int), *v, res, rest);
                    assert(b.take(i + 1 as int) + rest =~= b);
                    assert(list@.take(i + 1 as int) + rest =~= list@);
                }
                return Err(e);
            },
            Ok(()) => {
                proof {
                    lemma_unit_ok(res);
                }
            },
        }
        i += 1;
    }
    assert(b.take(n as int) =~= b);
    assert(list@.take(n as int) =~= list@);
    Ok(())
}

/// Visits each node of a list that may be absent, first to last, until a
/// visit fails.
pub fn visit_vec<V: Visitor>(v: &mut V, target: &mut Option<Vec<Schema>>) -> (r: Result<(), V::Error>)
    ensures
        (*final(target)) is Some == (*old(target)) is Some,
        list_visited(*old(v), list_nodes(*old(target)), list_nodes(*final(target)), *final(v), r),
        hollow_opt_list(view_opt_list(*final(target))) == hollow_opt_list(view_opt_list(*old(target))),
{
    match target {
        Some(list) => visit_list(v, list),
        None => {
            proof {
                lemma_visited_empty(*v);
            }
            Ok(())
        },
    }
}

/// Visits the node of each named entry, first to last, until a visit fails;
/// the names stay as they are.
pub fn visit_map_values<V: Visitor>(v: &mut V, target: &mut Vec<(String, Schema)>) -> (r: Result<(), V::Error>)
    ensures
        final(target)@.len() == old(target)@.len(),
        forall|i: int| 0 <= i < old(target)@.len() ==> (#[trigger] final(target)@[i]).0 == old(target)@[i].0,
        list_visited(*old(v), entry_nodes(*old(target)), entry_nodes(*final(target)), *final(v), r),
        hollow_entries(view_entries(*final(target))) == hollow_entries(view_entries(*old(target))),
{
    let ghost v0 = *v;
    let ghost e0 = target@;
    let ghost b = entry_nodes(*target);
    let n = target.len();
    let mut i: usize = 0;
    assert(b.take(0) =~= Seq::<Schema>::empty());
    assert(entry_nodes(*target).take(0) =~= Seq::<Schema>::empty());
    proof {
        lemma_visited_empty(v0);
    }
    while i < n
        invariant
            n == target@.len(),
            n == b.len(),
            e0 == old(target)@,
            b == entry_nodes(*old(target)),
            v0 == *old(v),
            i <= n,
            forall|j: int| i <= j < n ==> target@[j] == e0[j],
            forall|j: int| 0 <= j < n ==> (#[trigger] target@[j]).0 == e0[j].0,
            list_visited(v0, b.take(i as int), entry_nodes(*target).take(i as int), *v, Ok::<(), V::Error>(())),
        decreases n - i,
    {
        let ghost vb = *v;
        let ghost before = entry_nodes(*target);
        let res = v.visit_schema(&mut target[i].1);
        proof {
            let now = entry_nodes(*target);
            assert(now =~= before.update(i as int, target@[i as int].1));
            lemma_visited_push(v0, b.take(i as int), before.take(i as int), vb, b[i as int], now[i as int], *v, res);
            assert(b.take(i + 1 as int) =~= b.take(i as int).push(b[i as int]));
            assert(now.take(i + 1 as int) =~= before.take(i as int).push(now[i as int]));
        }
        match res {
            Err(e) => {
                proof {
                    let now = entry_nodes(*target);
                    let rest = b.skip(i + 1 as int);
                    lemma_visited_rest(v0, b.take(i + 1 as int), now.take(i + 1 as int), *v, res, rest);
                    assert(b.take(i + 1 as int) + rest =~= b);
                    assert(now.take(i + 1 as int) + rest =~= now);
                    assert(hollow_entries(view_entries(*target)) =~= hollow_entries(view_entries(*old(target))));
                }
                return Err(e);
            },
            Ok(()) => {
                proof {
                    lemma_unit_ok(res);
                }
            },
        }
        i += 1;
    }
    assert(b.take(n as int) =~= b);
    assert(entry_nodes(*target).take(n as int) =~= entry_nodes(*target));
    assert(hollow_entries(view_entries(*target)) =~= hollow_entries(view_entries(*old(target))));
    Ok(())
}

/// Visits the node, or each node, of an `items` keyword that may be absent;
/// the keyword keeps its form.
pub fn visit_single_or_vec<V: Visitor>(v: &mut V, target: &mut Option<Items>) -> (r: Result<(), V::Error>)
    ensures
        match (*old(target), *final(target)) {
            (None, None) => true,
            (Some(Items::Single(_)), Some(Items::Single(_))) => true,
            (Some(Items::Vec(_)), Some(Items::Vec(_))) => true,
            _ => false,
        },
        list_visited(*old(v), items_nodes(*old(target)), items_nodes(*final(target)), *final(v), r),
        (*final(target)) matches Some(Items::Vec(l)) ==> l@.len() == items_nodes(*old(target)).len(),
{
    match target {
        None => {
            proof {
                lemma_visited_empty(*v);
            }
            Ok(())
        },
        Some(Items::Single(s)) => {
            let ghost v0 = *v;
            let ghost b = **s;
            let r = v.visit_schema(s);
            proof {
                lemma_visited_one(v0, b, **s, *v, r);
            }
            r
        },
        Some(Items::Vec(list)) => visit_list(v, list),
    }
}

/// Visits the branch nodes, in order, until a visit fails.
/// Visits the nodes of `allOf`, `anyOf` and `oneOf`, in order, until a visit fails.
fn visit_branch_lists<V: Visitor>(v: &mut V, sub: &mut SubschemaValidation) -> (r: Result<(), V::Error>)
    ensures
        hollow_opt_list(view_opt_list(final(sub).all_of)) == hollow_opt_list(view_opt_list(old(sub).all_of)),
        hollow_opt_list(view_opt_list(final(sub).any_of)) == hollow_opt_list(view_opt_list(old(sub).any_of)),
        hollow_opt_list(view_opt_list(final(sub).one_of)) == hollow_opt_list(view_opt_list(old(sub).one_of)),
        final(sub).not == old(sub).not,
        final(sub).if_schema == old(sub).if_schema,
        final(sub).then_schema == old(sub).then_schema,
        final(sub).else_schema == old(sub).else_schema,
        list_visited(*old(v), branch_list_nodes(*old(sub)), branch_list_nodes(*final(sub)), *final(v), r),
{
    let ghost v0 = *v;
    let ghost w = branch_list_nodes(*sub);
    let ghost mut ao = Seq::<Schema>::empty();
    let ghost mut an = Seq::<Schema>::empty();
    proof {
        lemma_visited_empty(v0);
    }
    let ghost vm = *v;
    let ghost so = list_nodes(sub.all_of);
    let ghost rest = list_nodes(sub.any_of) + list_nodes(sub.one_of);
    let r0 = visit_vec(v, &mut sub.all_of);
    proof {
        lemma_visited_step(v0, ao, an, vm, so, list_nodes(sub.all_of), *v, r0, rest);
    }
    if r0.is_err() {
        proof {
            assert(ao + so + rest =~= branch_list_nodes(*old(sub)));
            assert(an + list_nodes(sub.all_of) + rest =~= branch_list_nodes(*sub));
        }
        return r0;
    }
    proof {
        lemma_unit_ok(r0);
        ao = ao + so;
        an = an + list_nodes(sub.all_of);
    }
    let ghost vm = *v;
    let ghost so = list_nodes(sub.any_of);
    let ghost rest = list_nodes(sub.one_of);
    let r1 = visit_vec(v, &mut sub.any_of);
    proof {
        lemma_visited_step(v0, ao, an, vm, so, list_nodes(sub.any_of), *v, r1, rest);
    }
    if r1.is_err() {
        proof {
            assert(ao + so + rest =~= branch_list_nodes(*old(sub)));
            assert(an + list_nodes(sub.any_of) + rest =~= branch_list_nodes(*sub));
        }
        return r1;
    }
    proof {
        lemma_unit_ok(r1);
        ao = ao + so;
        an = an + list_nodes(sub.any_of);
    }
    let ghost vm = *v;
    let ghost so = list_nodes(sub.one_of);
    let ghost rest = Seq::<Schema>::empty();
    let r2 = visit_vec(v, &mut sub.one_of);
    proof {
        lemma_visited_step(v0, ao, an, vm, so, list_nodes(sub.one_of), *v, r2, rest);
    }
    if r2.is_err() {
        proof {
            assert(ao + so + rest =~= branch_list_nodes(*old(sub)));
            assert(an + list_nodes(sub.one_of) + rest =~= branch_list_nodes(*sub));
        }
        return r2;
    }
    proof {
        lemma_unit_ok(r2);
        ao = ao + so;
        an = an + list_nodes(sub.one_of);
    }
    proof {
        assert(ao =~= branch_list_nodes(*old(sub)));
        assert(an =~= branch_list_nodes(*sub));
    }
    Ok(())
}

/// Visits the nodes of `not`, `if`, `then` and `else`, in order, until a visit fails.
fn visit_branch_boxes<V: Visitor>(v: &mut V, sub: &mut SubschemaValidation) -> (r: Result<(), V::Error>)
    ensures
        hollow_box(view_boxed(final(sub).not)) == hollow_box(view_boxed(old(sub).not)),
        hollow_box(view_boxed(final(sub).if_schema)) == hollow_box(view_boxed(old(sub).if_schema)),
        hollow_box(view_boxed(final(sub).then_schema)) == hollow_box(view_boxed(old(sub).then_schema)),
        hollow_box(view_boxed(final(sub).else_schema)) == hollow_box(view_boxed(old(sub).else_schema)),
        final(sub).all_of == old(sub).all_of,
        final(sub).any_of == old(sub).any_of,
        final(sub).one_of == old(sub).one_of,
        list_visited(*old(v), branch_box_nodes(*old(sub)), branch_box_nodes(*final(sub)), *final(v), r),
{
    let ghost v0 = *v;
    let ghost w = branch_box_nodes(*sub);
    let ghost mut ao = Seq::<Schema>::empty();
    let ghost mut an = Seq::<Schema>::empty();
    proof {
        lemma_visited_empty(v0);
    }
    let ghost vm = *v;
    let ghost so = box_nodes(sub.not);
    let ghost rest = box_nodes(sub.if_schema) + box_nodes(sub.then_schema) + box_nodes(sub.else_schema);
    let r0 = visit_box(v, &mut sub.not);
    proof {
        lemma_visited_step(v0, ao, an, vm, so, box_nodes(sub.not), *v, r0, rest);
    }
    if r0.is_err() {
        proof {
            assert(ao + so + rest =~= branch_box_nodes(*old(sub)));
            assert(an + box_nodes(sub.not) + rest =~= branch_box_nodes(*sub));
        }
        return r0;
    }
    proof {
        lemma_unit_ok(r0);
        ao = ao + so;
        an = an + box_nodes(sub.not);
    }
    let ghost vm = *v;
    let ghost so = box_nodes(sub.if_schema);
    let ghost rest = box_nodes(sub.then_schema) + box_nodes(sub.else_schema);
    let r1 = visit_box(v, &mut sub.if_schema);
    proof {
        lemma_visited_step(v0, ao, an, vm, so, box_nodes(sub.if_schema), *v, r1, rest);
    }
    if r1.is_err() {
        proof {
            assert(ao + so + rest =~= branch_box_nodes(*old(sub)));
            assert(an + box_nodes(sub.if_schema) + rest =~= branch_box_nodes(*sub));
        }
        return r1;
    }
    proof {
        lemma_unit_ok(r1);
        ao = ao + so;
        an = an + box_nodes(sub.if_schema);
    }
    let ghost vm = *v;
    let ghost so = box_nodes(sub.then_schema);
    let ghost rest = box_nodes(sub.else_schema);
    let r2 = visit_box(v, &mut sub.then_schema);
    proof {
        lemma_visited_step(v0, ao, an, vm, so, box_nodes(sub.then_schema), *v, r2, rest);
    }
    if r2.is_err() {
        proof {
            assert(ao + so + rest =~= branch_box_nodes(*old(sub)));
            assert(an + box_nodes(sub.then_schema) + rest =~= branch_box_nodes(*sub));
        }
        return r2;
    }
    proof {
        lemma_unit_ok(r2);
        ao = ao + so;
        an = an + box_nodes(sub.then_schema);
    }
    let ghost vm = *v;
    let ghost so = box_nodes(sub.else_schema);
    let ghost rest = Seq::<Schema>::empty();
    let r3 = visit_box(v, &mut sub.else_schema);
    proof {
        lemma_visited_step(v0, ao, an, vm, so, box_nodes(sub.else_schema), *v, r3, rest);
    }
    if r3.is_err() {
        proof {
            assert(ao + so + rest =~= branch_box_nodes(*old(sub)));
            assert(an + box_nodes(sub.else_schema) + rest =~= branch_box_nodes(*sub));
        }
        return r3;
    }
    proof {
        lemma_unit_ok(r3);
        ao = ao + so;
        an = an + box_nodes(sub.else_schema);
    }
    proof {
        assert(ao =~= branch_box_nodes(*old(sub)));
        assert(an =~= branch_box_nodes(*sub));
    }
    Ok(())
}

/// Visits the branch nodes, in order, until a visit fails.
fn visit_subschemas<V: Visitor>(v: &mut V, sub: &mut SubschemaValidation) -> (r: Result<(), V::Error>)
    ensures
        hollow_subs(view_subschemas(*final(sub))) == hollow_subs(view_subschemas(*old(sub))),
        list_visited(*old(v), subschema_nodes(*old(sub)), subschema_nodes(*final(sub)), *final(v), r),
{
    let ghost v0 = *v;
    let ghost s0 = *sub;
    let r1 = visit_branch_lists(v, sub);
    let ghost vm = *v;
    let ghost s1 = *sub;
    proof {
        lemma_visited_empty(v0);
        lemma_visited_step(v0, Seq::<Schema>::empty(), Seq::<Schema>::empty(), v0, branch_list_nodes(s0), branch_list_nodes(s1), vm, r1, branch_box_nodes(s0));
        assert(Seq::<Schema>::empty() + branch_list_nodes(s0) =~= branch_list_nodes(s0));
        assert(Seq::<Schema>::empty() + branch_list_nodes(s1) =~= branch_list_nodes(s1));
        assert(branch_box_nodes(s1) == branch_box_nodes(s0));
    }
    if r1.is_err() {
        proof {
            assert(hollow_subs(view_subschemas(*sub)) =~= hollow_subs(view_subschemas(s0)));
        }
        return r1;
    }
    proof {
        lemma_unit_ok(r1);
    }
    let r2 = visit_branch_boxes(v, sub);
    proof {
        lemma_visited_concat(v0, branch_list_nodes(s0), branch_list_nodes(s1), vm, branch_box_nodes(s1), branch_box_nodes(*sub), *v, r2);
        assert(branch_list_nodes(*sub) == branch_list_nodes(s1));
        assert(hollow_subs(view_subschemas(*sub)) =~= hollow_subs(view_subschemas(s0)));
    }
    r2
}

/// Visits the array nodes, in order, until a visit fails.
fn visit_array<V: Visitor>(v: &mut V, arr: &mut ArrayValidation) -> (r: Result<(), V::Error>)
    ensures
        hollow_array(view_array(*final(arr))) == hollow_array(view_array(*old(arr))),
        list_visited(*old(v), array_nodes(*old(arr)), array_nodes(*final(arr)), *final(v), r),
{
    let ghost v0 = *v;
    let ghost w = array_nodes(*arr);
    let ghost mut ao = Seq::<Schema>::empty();
    let ghost mut an = Seq::<Schema>::empty();
    proof {
        lemma_visited_empty(v0);
    }
    let ghost vm = *v;
    let ghost so = items_nodes(arr.items);
    let ghost rest = box_nodes(arr.additional_items) + box_nodes(arr.contains);
    let r0 = visit_single_or_vec(v, &mut arr.items);
    proof {
        lemma_visited_step(v0, ao, an, vm, so, items_nodes(arr.items), *v, r0, rest);
    }
    if r0.is_err() {
        proof {
            assert(ao + so + rest =~= w);
            assert(ao + so + rest =~= array_nodes(*old(arr)));
            assert(an + items_nodes(arr.items) + rest =~= array_nodes(*arr));
            assert(hollow_array(view_array(*arr)) =~= hollow_array(view_array(*old(arr))));
        }
        return r0;
    }
    proof {
        lemma_unit_ok(r0);
        ao = ao + so;
        an = an + items_nodes(arr.items);
    }
    let ghost vm = *v;
    let ghost so = box_nodes(arr.additional_items);
    let ghost rest = box_nodes(arr.contains);
    let r1 = visit_box(v, &mut arr.additional_items);
    proof {
        lemma_visited_step(v0, ao, an, vm, so, box_nodes(arr.additional_items), *v, r1, rest);
    }
    if r1.is_err() {
        proof {
            assert(ao + so + rest =~= w);
            assert(ao + so + rest =~= array_nodes(*old(arr)));
            assert(an + box_nodes(arr.additional_items) + rest =~= array_nodes(*arr));
            assert(hollow_array(view_array(*arr)) =~= hollow_array(view_array(*old(arr))));
        }
        return r1;
    }
    proof {
        lemma_unit_ok(r1);
        ao = ao + so;
        an = an + box_nodes(arr.additional_items);
    }
    let ghost vm = *v;
    let ghost so = box_nodes(arr.contains);
    let ghost rest = Seq::<Schema>::empty();
    let r2 = visit_box(v, &mut arr.contains);
    proof {
        lemma_visited_step(v0, ao, an, vm, so, box_nodes(arr.contains), *v, r2, rest);
    }
    if r2.is_err() {
        proof {
            assert(ao + so + rest =~= w);
            assert(ao + so + rest =~= array_nodes(*old(arr)));
            assert(an + box_nodes(arr.contains) + rest =~= array_nodes(*arr));
            assert(hollow_array(view_array(*arr)) =~= hollow_array(view_array(*old(arr))));
        }
        return r2;
    }
    proof {
        lemma_unit_ok(r2);
        ao = ao + so;
        an = an + box_nodes(arr.contains);
    }
    proof {
        assert(ao =~= array_nodes(*old(arr)));
        assert(an =~= array_nodes(*arr));
        assert(hollow_array(view_array(*arr)) =~= hollow_array(view_array(*old(arr))));
    }
    Ok(())
}

/// Visits the object nodes, in order, until a visit fails.
fn visit_object<V: Visitor>(v: &mut V, obj: &mut ObjectValidation) -> (r: Result<(), V::Error>)
    ensures
        hollow_props(view_props(*final(obj))) == hollow_props(view_props(*old(obj))),
        list_visited(*old(v), object_nodes(*old(obj)), object_nodes(*final(obj)), *final(v), r),
{
    let ghost v0 = *v;
    let ghost w = object_nodes(*obj);
    let ghost mut ao = Seq::<Schema>::empty();
    let ghost mut an = Seq::<Schema>::empty();
    proof {
        lemma_visited_empty(v0);
    }
    let ghost vm = *v;
    let ghost so = entry_nodes(obj.properties);
    let ghost rest = entry_nodes(obj.pattern_properties) + box_nodes(obj.additional_properties) + box_nodes(obj.property_names);
    let r0 = visit_map_values(v, &mut obj.properties);
    proof {
        lemma_visited_step(v0, ao, an, vm, so, entry_nodes(obj.properties), *v, r0, rest);
    }
    if r0.is_err() {
        proof {
            assert(ao + so + rest =~= w);
            assert(ao + so + rest =~= object_nodes(*old(obj)));
            assert(an + entry_nodes(obj.properties) + rest =~= object_nodes(*obj));
            assert(hollow_props(view_props(*obj)) =~= hollow_props(view_props(*old(obj))));
        }
        return r0;
    }
    proof {
        lemma_unit_ok(r0);
        ao = ao + so;
        an = an + entry_nodes(obj.properties);
    }
    let ghost vm = *v;
    let ghost so = entry_nodes(obj.pattern_properties);
    let ghost rest = box_nodes(obj.additional_properties) + box_nodes(obj.property_names);
    let r1 = visit_map_values(v, &mut obj.pattern_properties);
    proof {
        lemma_visited_step(v0, ao, an, vm, so, entry_nodes(obj.pattern_properties), *v, r1, rest);
    }
    if r1.is_err() {
        proof {
            assert(ao + so + rest =~= w);
            assert(ao + so + rest =~= object_nodes(*old(obj)));
            assert(an + entry_nodes(obj.pattern_properties) + rest =~= object_nodes(*obj));
            assert(hollow_props(view_props(*obj)) =~= hollow_props(view_props(*old(obj))));
        }
        return r1;
    }
    proof {
        lemma_unit_ok(r1);
        ao = ao + so;
        an = an + entry_nodes(obj.pattern_properties);
    }
    let ghost vm = *v;
    let ghost so = box_nodes(obj.additional_properties);
    let ghost rest = box_nodes(obj.property_names);
    let r2 = visit_box(v, &mut obj.additional_properties);
    proof {
        lemma_visited_step(v0, ao, an, vm, so, box_nodes(obj.additional_properties), *v, r2, rest);
    }
    if r2.is_err() {
        proof {
            assert(ao + so + rest =~= w);
            assert(ao + so + rest =~= object_nodes(*old(obj)));
            assert(an + box_nodes(obj.additional_properties) + rest =~= object_nodes(*obj));
            assert(hollow_props(view_props(*obj)) =~= hollow_props(view_props(*old(obj))));
        }
        return r2;
    }
    proof {
        lemma_unit_ok(r2);
        ao = ao + so;
        an = an + box_nodes(obj.additional_properties);
    }
    let ghost vm = *v;
    let ghost so = box_nodes(obj.property_names);
    let ghost rest = Seq::<Schema>::empty();
    let r3 = visit_box(v, &mut obj.property_names);
    proof {
        lemma_visited_step(v0, ao, an, vm, so, box_nodes(obj.property_names), *v, r3, rest);
    }
    if r3.is_err() {
        proof {
            assert(ao + so + rest =~= w);
            assert(ao + so + rest =~= object_nodes(*old(obj)));
            assert(an + box_nodes(obj.property_names) + rest =~= object_nodes(*obj));
            assert(hollow_props(view_props(*obj)) =~= hollow_props(view_props(*old(obj))));
        }
        return r3;
    }
    proof {
        lemma_unit_ok(r3);
        ao = ao + so;
        an = an + box_nodes(obj.property_names);
    }
    proof {
        assert(ao =~= object_nodes(*old(obj)));
        assert(an =~= object_nodes(*obj));
        assert(hollow_props(view_props(*obj)) =~= hollow_props(view_props(*old(obj))));
    }
    Ok(())
}

/// Visits each node directly below a node made of keywords, in the order of
/// `child_nodes`, until a visit fails; the node's own keywords and the shape
/// of its child positions stay as they are.
pub fn visit_schema_object<V: Visitor>(v: &mut V, schema: &mut SchemaObject) -> (r: Result<(), V::Error>)
    ensures
        hollow_object(view_object(*final(schema))) == hollow_object(view_object(*old(schema))),
        list_visited(*old(v), child_nodes(*old(schema)), child_nodes(*final(schema)), *final(v), r),
{
    let ghost v0 = *v;
    let ghost o0 = *schema;
    proof {
        lemma_visited_empty(v0);
    }
    let r1 = match &mut schema.subschemas {
        Some(sub) => visit_subschemas(v, sub),
        None => {
            proof {
                lemma_visited_empty(*v);
            }
            Ok(())
        },
    };
    let ghost v1 = *v;
    let ghost o1 = *schema;
    proof {
        lemma_visited_step(v0, Seq::<Schema>::empty(), Seq::<Schema>::empty(), v0, subschema_part(o0), subschema_part(o1), v1, r1, array_part(o0) + object_part(o0));
        assert(Seq::<Schema>::empty() + subschema_part(o0) =~= subschema_part(o0));
        assert(Seq::<Schema>::empty() + subschema_part(o1) =~= subschema_part(o1));
    }
    if r1.is_err() {
        proof {
            assert(subschema_part(o0) + (array_part(o0) + object_part(o0)) =~= child_nodes(o0));
            assert(subschema_part(o1) + (array_part(o0) + object_part(o0)) =~= child_nodes(o1));
            assert(hollow_object(view_object(o1)) =~= hollow_object(view_object(o0)));
        }
        return r1;
    }
    proof {
        lemma_unit_ok(r1);
    }
    let r2 = match &mut schema.array {
        Some(arr) => visit_array(v, arr),
        None => {
            proof {
                lemma_visited_empty(*v);
            }
            Ok(())
        },
    };
    let ghost v2 = *v;
    let ghost o2 = *schema;
    proof {
        lemma_visited_step(v0, subschema_part(o0), subschema_part(o1), v1, array_part(o0), array_part(o2), v2, r2, object_part(o0));
        assert(subschema_part(o2) == subschema_part(o1));
    }
    if r2.is_err() {
        proof {
            assert(subschema_part(o0) + array_part(o0) + object_part(o0) =~= child_nodes(o0));
            assert(subschema_part(o1) + array_part(o2) + object_part(o0) =~= child_nodes(o2));
            assert(hollow_object(view_object(o2)) =~= hollow_object(view_object(o0)));
        }
        return r2;
    }
    proof {
        lemma_unit_ok(r2);
    }
    let r3 = match &mut schema.object {
        Some(obj) => visit_object(v, obj),
        None => {
            proof {
                lemma_visited_empty(*v);
            }
            Ok(())
        },
    };
    proof {
        lemma_visited_step(v0, subschema_part(o0) + array_part(o0), subschema_part(o1) + array_part(o2), v2, object_part(o0), object_part(*schema), *v, r3, Seq::<Schema>::empty());
        assert(subschema_part(*schema) == subschema_part(o1));
        assert(array_part(*schema) == array_part(o2));
        assert(hollow_object(view_object(*schema)) =~= hollow_object(view_object(o0)));
    }
    r3
}

/// Visits the primary node of a document, then, where that went through,
/// the node of each definition in order until a visit fails; the names of
/// the definitions stay as they are.
pub fn visit_root_schema<V: Visitor>(v: &mut V, root: &mut RootSchema) -> (r: Result<(), V::Error>)
    ensures
        final(root).meta_schema == old(root).meta_schema,
        final(root).definitions@.len() == old(root).definitions@.len(),
        forall|i: int|
            0 <= i < old(root).definitions@.len() ==> (#[trigger] final(root).definitions@[i]).0
                == old(root).definitions@[i].0,
        exists|vm: V, rm: Result<(), V::Error>|
            #[trigger] old(v).object_visited(old(root).schema, final(root).schema, vm, rm) && (rm is Err ==> r == rm
                && final(root).definitions == old(root).definitions && *final(v) == vm) && (rm is Ok
                ==> list_visited(vm, entry_nodes(old(root).definitions), entry_nodes(final(root).definitions), *final(v), r)),
{
    let ghost v0 = *v;
    let ghost s0 = root.schema;
    let r1 = v.visit_schema_object(&mut root.schema);
    let ghost vm = *v;
    let ghost s1 = root.schema;
    if r1.is_err() {
        proof {
            assert(v0.object_visited(s0, root.schema, vm, r1));
        }
        return r1;
    }
    let r2 = visit_map_values(v, &mut root.definitions);
    proof {
        assert(v0.object_visited(s0, root.schema, vm, r1));
    }
    r2
}

} // verus!
