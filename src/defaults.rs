//! Empty keyword sets.
use vstd::prelude::*;

use crate::model::{empty_array, empty_object, empty_props};
use crate::schema::{view_array, view_object, view_props, ArrayValidation, ObjectValidation, SchemaObject, SubschemaValidation};

verus! {

impl Default for SchemaObject {
    fn default() -> (r: Self)
        ensures
            view_object(r) == empty_object(),
    {
        let r = SchemaObject {
            metadata: None,
            instance_type: None,
            format: None,
            enum_values: None,
            const_value: None,
            subschemas: None,
            number: None,
            string: None,
            array: None,
            object: None,
            reference: None,
            extensions: Vec::new(),
        };
        assert(view_object(r).extensions =~= Seq::empty());
        r
    }
}

impl Default for ArrayValidation {
    fn default() -> (r: Self)
        ensures
            view_array(r) == empty_array(),
    {
        ArrayValidation {
            items: None,
            additional_items: None,
            max_items: None,
            min_items: None,
            unique_items: None,
            contains: None,
        }
    }
}

impl Default for ObjectValidation {
    fn default() -> (r: Self)
        ensures
            view_props(r) == empty_props(),
    {
        let r = ObjectValidation {
            max_properties: None,
            min_properties: None,
            required: Vec::new(),
            properties: Vec::new(),
            pattern_properties: Vec::new(),
            additional_properties: None,
            property_names: None,
        };
        assert(view_props(r).properties =~= Seq::empty());
        assert(view_props(r).pattern_properties =~= Seq::empty());
        r
    }
}

impl Default for SubschemaValidation {
    fn default() -> (r: Self)
        ensures
            r.all_of is None && r.any_of is None && r.one_of is None && r.not is None
                && r.if_schema is None && r.then_schema is None && r.else_schema is None,
    {
        SubschemaValidation {
            all_of: None,
            any_of: None,
            one_of: None,
            not: None,
            if_schema: None,
            then_schema: None,
            else_schema: None,
        }
    }
}

} // verus!
