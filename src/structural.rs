//! The entry point: making a whole document structural.
use vstd::prelude::*;

use crate::complete::{complete_schema, complete_schema_object};
use crate::complete_spec::{
    complete_entries, complete_object, complete_root, generate_name_key, metadata_key, name_entries,
    name_key, restrict_metadata, restricted_metadata, without_default,
};
use crate::entries::{find_key, names_of};
use crate::error::{Error, Violation};
use crate::merge::lemma_entry_names;
use crate::visit::Visitor;
use crate::model::{empty_props, lemma_key_index_bounds, Node};
use crate::schema::{
    view_entries, view_object, view_props, view_schema, InstanceType, InstanceTypes,
    ObjectValidation, RootSchema, Schema, SchemaObject,
};

verus! {

broadcast use vstd::std_specs::vec::axiom_vec_index_decreases;

/// Clears the default of a node made of keywords.
fn clear_default(s: &mut Schema)
    ensures
        view_schema(*final(s)) == without_default(view_schema(*old(s))),
{
    match s {
        Schema::Object(o) => match &mut o.metadata {
            Some(m) => {
                m.default = None;
            },
            None => {},
        },
        Schema::Bool(_) => {},
    }
}

proof fn lemma_name_literals()
    ensures
        "name"@ == name_key(),
        "generateName"@ == generate_name_key(),
        "metadata"@ == metadata_key(),
{
    reveal_strlit("name");
    reveal_strlit("generateName");
    reveal_strlit("metadata");
    assert("name"@ =~= name_key());
    assert("generateName"@ =~= generate_name_key());
    assert("metadata"@ =~= metadata_key());
}

/// The entries named `name` or `generateName`, moved out of `props` in order,
/// without their defaults.
fn take_name_entries(props: &mut Vec<(String, Schema)>) -> (r: Vec<(String, Schema)>)
    ensures
        view_entries(r) == name_entries(view_entries(*old(props))),
{
    proof {
        lemma_name_literals();
    }
    let ghost s0 = view_entries(*props);
    let name = "name".to_owned();
    let generate_name = "generateName".to_owned();
    let mut out: Vec<(String, Schema)> = Vec::new();
    let n = props.len();
    let mut i: usize = 0;
    assert(s0.take(0) =~= Seq::<(Seq<char>, Node)>::empty());
    assert(view_entries(out) =~= Seq::<(Seq<char>, Node)>::empty());
    while i < n
        invariant
            n == props@.len(),
            n == s0.len(),
            i <= n,
            s0 == view_entries(*old(props)),
            name@ == name_key(),
            generate_name@ == generate_name_key(),
            forall|j: int| i <= j < n ==> props@[j] == old(props)@[j],
            view_entries(out) == name_entries(s0.take(i as int)),
        decreases n - i,
    {
        assert(s0.take(i + 1 as int).drop_last() =~= s0.take(i as int));
        assert(s0.take(i + 1 as int).last() == s0[i as int]);
        assert(s0[i as int] == (props@[i as int].0@, view_schema(props@[i as int].1)));
        if props[i].0 == name || props[i].0 == generate_name {
            let mut e: (String, Schema) = (String::new(), Schema::Bool(false));
            std::mem::swap(&mut e, &mut props[i]);
            clear_default(&mut e.1);
            let ghost prev = view_entries(out);
            out.push(e);
            assert(view_entries(out) =~= prev.push((e.0@, view_schema(e.1))));
        }
        i += 1;
    }
    assert(s0.take(n as int) =~= s0);
    out
}

/// The `metadata` property rebuilt from `m`: an object node whose only
/// properties are `m`'s `name` and `generateName`, without defaults.
fn rebuild_metadata(m: &mut SchemaObject) -> (r: SchemaObject)
    ensures
        view_object(r) == restricted_metadata(view_object(*old(m))),
{
    let mut props: Vec<(String, Schema)> = match &mut m.object {
        Some(p) => {
            let mut v: Vec<(String, Schema)> = Vec::new();
            std::mem::swap(&mut v, &mut p.properties);
            v
        },
        None => Vec::new(),
    };
    assert(view_entries(props) =~= match view_object(*old(m)).object {
        Some(p) => p.properties,
        None => Seq::empty(),
    });
    let ghost orig = view_entries(props);
    let kept = take_name_entries(&mut props);
    let mut object = ObjectValidation::default();
    object.properties = kept;
    assert(view_props(object) =~= crate::model::PropsNode { properties: name_entries(orig), ..empty_props() });
    let mut r = SchemaObject::default();
    r.instance_type = Some(InstanceTypes::Single(InstanceType::Object));
    r.object = Some(Box::new(object));
    r
}

/// Restricts the `metadata` property of the primary node to `name` and
/// `generateName`, where it is a node made of keywords.
fn restrict_metadata_property(o: &mut SchemaObject)
    ensures
        view_object(*final(o)) == restrict_metadata(view_object(*old(o))),
{
    proof {
        lemma_name_literals();
    }
    match &mut o.object {
        None => {},
        Some(p) => {
            let key = "metadata".to_owned();
            proof {
                lemma_entry_names(p.properties);
                lemma_key_index_bounds(names_of(p.properties@), key@);
            }
            match find_key(&p.properties, &key) {
                None => {},
                Some(i) => {
                    let ghost orig = view_entries(p.properties);
                    let rebuilt = match &mut p.properties[i].1 {
                        Schema::Bool(_) => None,
                        Schema::Object(m) => Some(rebuild_metadata(m)),
                    };
                    match rebuilt {
                        Some(r) => {
                            p.properties.set(i, (key, Schema::Object(r)));
                            assert(view_entries(p.properties) =~= orig.update(
                                i as int,
                                (metadata_key(), Node::Obj(view_object(r))),
                            ));
                        },
                        None => {
                            assert(view_entries(p.properties) =~= orig);
                        },
                    }
                },
            }
        },
    }
}

/// The structural-schema pass over a whole document.
#[derive(Clone, Copy, Debug)]
pub struct StructuralSchemaVisitor;

impl StructuralSchemaVisitor {
    /// Makes `root` structural in place: restricts the primary node's
    /// `metadata` property, then completes the primary node and each
    /// definition, folding composition branches into the nodes that own them.
    /// The first violation found ends the pass.
    pub fn visit_root_schema(&mut self, root: &mut RootSchema) -> (r: Result<(), Error>)
        ensures
            match complete_root(old(root)@) {
                Ok(n) => r is Ok && final(root)@ == n,
                Err(v) => r == Err::<(), Error>(Error::InvalidCustomResourceDefinition { reason: v }),
            },
    {
        restrict_metadata_property(&mut root.schema);
        match complete_schema_object(&mut root.schema) {
            Err(v) => return Err(Error::InvalidCustomResourceDefinition { reason: v }),
            Ok(()) => {},
        }
        match self.visit_definitions(&mut root.definitions) {
            Err(v) => Err(Error::InvalidCustomResourceDefinition { reason: v }),
            Ok(()) => Ok(()),
        }
    }

    /// Completes a node and everything below it.
    pub fn visit_schema(&mut self, schema: &mut Schema) -> (r: Result<(), Error>)
        ensures
            match crate::complete_spec::complete_node(old(schema)@) {
                Ok(n) => r is Ok && final(schema)@ == n,
                Err(v) => r == Err::<(), Error>(Error::InvalidCustomResourceDefinition { reason: v }),
            },
    {
        match complete_schema(schema) {
            Err(v) => Err(Error::InvalidCustomResourceDefinition { reason: v }),
            Ok(()) => Ok(()),
        }
    }

    /// Completes a node made of keywords and everything below it.
    pub fn visit_schema_object(&mut self, schema: &mut SchemaObject) -> (r: Result<(), Error>)
        ensures
            match complete_object(old(schema)@) {
                Ok(n) => r is Ok && final(schema)@ == n,
                Err(v) => r == Err::<(), Error>(Error::InvalidCustomResourceDefinition { reason: v }),
            },
    {
        match complete_schema_object(schema) {
            Err(v) => Err(Error::InvalidCustomResourceDefinition { reason: v }),
            Ok(()) => Ok(()),
        }
    }

    fn visit_definitions(&mut self, defs: &mut Vec<(String, Schema)>) -> (r: Result<(), Violation>)
        ensures
            match complete_entries(view_entries(*old(defs))) {
                Ok(s) => r is Ok && view_entries(*final(defs)) == s,
                Err(e) => r is Err && r->Err_0 == e,
            },
    {
        crate::complete::complete_named(defs)
    }
}

/// The structural pass as a visitor: each method does what the method of the
/// same name of `StructuralSchemaVisitor` itself does.
impl Visitor for StructuralSchemaVisitor {
    type Error = Error;

    open spec fn root_visited(&self, before: RootSchema, after: RootSchema, next: Self, r: Result<(), Error>) -> bool {
        match complete_root(before@) {
            Ok(n) => r is Ok && after@ == n,
            Err(v) => r == Err::<(), Error>(Error::InvalidCustomResourceDefinition { reason: v }),
        }
    }

    open spec fn schema_visited(&self, before: Schema, after: Schema, next: Self, r: Result<(), Error>) -> bool {
        match crate::complete_spec::complete_node(before@) {
            Ok(n) => r is Ok && after@ == n,
            Err(v) => r == Err::<(), Error>(Error::InvalidCustomResourceDefinition { reason: v }),
        }
    }

    open spec fn object_visited(&self, before: SchemaObject, after: SchemaObject, next: Self, r: Result<(), Error>) -> bool {
        match complete_object(before@) {
            Ok(n) => r is Ok && after@ == n,
            Err(v) => r == Err::<(), Error>(Error::InvalidCustomResourceDefinition { reason: v }),
        }
    }

    fn visit_root_schema(&mut self, root: &mut RootSchema) -> Result<(), Error> {
        StructuralSchemaVisitor::visit_root_schema(self, root)
    }

    fn visit_schema(&mut self, schema: &mut Schema) -> Result<(), Error> {
        StructuralSchemaVisitor::visit_schema(self, schema)
    }

    fn visit_schema_object(&mut self, schema: &mut SchemaObject) -> Result<(), Error> {
        StructuralSchemaVisitor::visit_schema_object(self, schema)
    }
}

} // verus!
