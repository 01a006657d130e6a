//! Wrappers that mark a generated schema as nullable, or as not nullable.
use vstd::prelude::*;

use crate::entries::{find_key, lemma_extension_names, lemma_nullable_literal, names_of, set_nullable};
use crate::merge_spec::nullable_key;
use crate::model::{lemma_key_index_bounds, remove_extension, set_extension, Node};
use crate::schema::{view_extensions, view_schema, ExtensionValue, Schema};

verus! {

pub use crate::entries::NULLABLE;

/// The extension that marks an embedded Kubernetes resource.
pub const X_EMBEDDED_RESOURCE: &'static str = "x-kubernetes-embedded-resource";

/// The extension that marks a value that may be an integer or a string.
pub const X_INT_OR_STRING: &'static str = "x-kubernetes-int-or-string";

/// The extension that keeps fields that the schema does not name.
pub const X_PRESERVE_UNKNOWN_FIELDS: &'static str = "x-kubernetes-preserve-unknown-fields";

/// A value whose schema is the inner type's, marked nullable.
#[derive(Debug)]
pub struct Nullable<T>(pub T);

impl<T> Nullable<T> {
    #[must_use]
    pub fn new(inner: T) -> (r: Self)
        ensures
            r.0 == inner,
    {
        Nullable(inner)
    }

    pub fn into_inner(self) -> (r: T)
        ensures
            r == self.0,
    {
        self.0
    }

    /// Turns the inner type's schema into this type's: a node made of keywords
    /// gets the nullable marker set to true; a boolean leaf is left as it is.
    pub fn adjust_schema(schema: &mut Schema)
        ensures
            match view_schema(*old(schema)) {
                Node::Obj(o) => view_schema(*final(schema)) == Node::Obj(
                    crate::model::ObjectNode {
                        extensions: set_extension(o.extensions, nullable_key(), ExtensionValue::Bool(true)),
                        ..o
                    },
                ),
                Node::Leaf(_) => *final(schema) == *old(schema),
            },
    {
        match schema {
            Schema::Object(o) => set_nullable(&mut o.extensions),
            Schema::Bool(_) => {},
        }
    }
}

/// A value whose schema is the inner type's, without the nullable marker.
#[derive(Debug)]
pub struct NonNullable<T>(pub T);

impl<T> NonNullable<T> {
    #[must_use]
    pub fn new(inner: T) -> (r: Self)
        ensures
            r.0 == inner,
    {
        NonNullable(inner)
    }

    pub fn into_inner(self) -> (r: T)
        ensures
            r == self.0,
    {
        self.0
    }

    /// Turns the inner type's schema into this type's: a node made of keywords
    /// loses its nullable marker, whatever its value; a boolean leaf is left as
    /// it is.
    pub fn adjust_schema(schema: &mut Schema)
        ensures
            match view_schema(*old(schema)) {
                Node::Obj(o) => view_schema(*final(schema)) == Node::Obj(
                    crate::model::ObjectNode {
                        extensions: remove_extension(o.extensions, nullable_key()),
                        ..o
                    },
                ),
                Node::Leaf(_) => *final(schema) == *old(schema),
            },
    {
        match schema {
            Schema::Object(o) => remove_marker(&mut o.extensions),
            Schema::Bool(_) => {},
        }
    }
}

/// Removes the nullable marker, whatever its value.
fn remove_marker(e: &mut Vec<(String, ExtensionValue)>)
    ensures
        view_extensions(*final(e)) == remove_extension(view_extensions(*old(e)), nullable_key()),
{
    proof {
        lemma_nullable_literal();
        lemma_extension_names(*e);
    }
    let key = NULLABLE.to_owned();
    match find_key(e, &key) {
        Some(i) => {
            proof {
                lemma_key_index_bounds(names_of(e@), key@);
            }
            e.remove(i);
            assert(view_extensions(*e) =~= remove_extension(view_extensions(*old(e)), nullable_key()));
        },
        None => {},
    }
}

} // verus!
