use k8s_structural_schema::error::{Error, Violation};
use k8s_structural_schema::schema::{
    ArrayValidation, InstanceType, InstanceTypes, Items, ObjectValidation, RootSchema, Schema,
    SchemaObject, SubschemaValidation,
};
use k8s_structural_schema::structural::StructuralSchemaVisitor;
use k8s_structural_schema::visit::{self, Visitor};

fn typed(t: InstanceType) -> SchemaObject {
    let mut o = SchemaObject::default();
    o.instance_type = Some(InstanceTypes::Single(t));
    o
}

/// A node that fails completion with a type mismatch.
fn mismatch() -> Schema {
    let mut o = typed(InstanceType::Integer);
    let mut subs = SubschemaValidation::default();
    subs.all_of = Some(vec![Schema::Object(typed(InstanceType::String))]);
    o.subschemas = Some(Box::new(subs));
    Schema::Object(o)
}

/// A node that fails completion on tuple items.
fn tuple_items() -> Schema {
    let mut branch = SchemaObject::default();
    let mut arr = ArrayValidation::default();
    arr.items = Some(Items::Vec(vec![Schema::Bool(true)]));
    branch.array = Some(Box::new(arr));
    let mut o = SchemaObject::default();
    let mut subs = SubschemaValidation::default();
    subs.any_of = Some(vec![Schema::Object(branch)]);
    o.subschemas = Some(Box::new(subs));
    Schema::Object(o)
}

/// A node that completes to a string type.
fn to_string_node() -> Schema {
    let mut o = SchemaObject::default();
    let mut subs = SubschemaValidation::default();
    subs.one_of = Some(vec![Schema::Object(typed(InstanceType::String))]);
    o.subschemas = Some(Box::new(subs));
    Schema::Object(o)
}

fn reason(r: Result<(), Error>) -> Violation {
    match r {
        Err(Error::InvalidCustomResourceDefinition { reason }) => reason,
        Ok(()) => panic!("the visit succeeded"),
    }
}

#[test]
fn default_descent_visits_branches_before_array_before_object() {
    let mut o = SchemaObject::default();
    let mut arr = ArrayValidation::default();
    arr.contains = Some(Box::new(tuple_items()));
    o.array = Some(Box::new(arr));
    let mut obj = ObjectValidation::default();
    obj.properties = vec![("p".to_string(), mismatch())];
    o.object = Some(Box::new(obj));
    let mut v = StructuralSchemaVisitor;
    assert_eq!(reason(visit::visit_schema_object(&mut v, &mut o)), Violation::ItemsNotSchema);

    let mut o2 = SchemaObject::default();
    let mut subs = SubschemaValidation::default();
    subs.else_schema = Some(Box::new(mismatch()));
    o2.subschemas = Some(Box::new(subs));
    let mut arr2 = ArrayValidation::default();
    arr2.items = Some(Items::Single(Box::new(tuple_items())));
    o2.array = Some(Box::new(arr2));
    assert_eq!(reason(visit::visit_schema_object(&mut v, &mut o2)), Violation::TypeMismatch);
}

#[test]
fn default_descent_completes_children_not_the_node() {
    let mut o = SchemaObject::default();
    let mut obj = ObjectValidation::default();
    obj.properties = vec![("a".to_string(), to_string_node()), ("b".to_string(), Schema::Bool(false))];
    o.object = Some(Box::new(obj));
    let mut subs = SubschemaValidation::default();
    subs.all_of = Some(vec![Schema::Object(typed(InstanceType::Object))]);
    o.subschemas = Some(Box::new(subs));
    let mut v = StructuralSchemaVisitor;
    assert_eq!(visit::visit_schema_object(&mut v, &mut o), Ok(()));
    // The node's own branch is not folded into it by the descent.
    assert_eq!(o.instance_type, None);
    let props = &o.object.as_ref().unwrap().properties;
    assert_eq!(props.len(), 2);
    assert_eq!(props[0].0, "a");
    match &props[0].1 {
        Schema::Object(a) => assert_eq!(a.instance_type, Some(InstanceTypes::Single(InstanceType::String))),
        Schema::Bool(_) => panic!("a boolean leaf"),
    }
    assert_eq!(props[1], ("b".to_string(), Schema::Bool(false)));
}

#[test]
fn descent_stops_at_the_first_error() {
    let mut list = Some(vec![to_string_node(), mismatch(), to_string_node()]);
    let mut v = StructuralSchemaVisitor;
    assert_eq!(reason(visit::visit_vec(&mut v, &mut list)), Violation::TypeMismatch);
    let l = list.unwrap();
    assert_eq!(l.len(), 3);
    match (&l[0], &l[2]) {
        (Schema::Object(first), Schema::Object(last)) => {
            assert_eq!(first.instance_type, Some(InstanceTypes::Single(InstanceType::String)));
            assert_eq!(last.instance_type, None);
        }
        _ => panic!("a boolean leaf"),
    }
}

#[test]
fn empty_positions_and_leaves_give_ok() {
    let mut v = StructuralSchemaVisitor;
    let mut none: Option<Box<Schema>> = None;
    assert_eq!(visit::visit_box(&mut v, &mut none), Ok(()));
    let mut no_list: Option<Vec<Schema>> = None;
    assert_eq!(visit::visit_vec(&mut v, &mut no_list), Ok(()));
    let mut no_items: Option<Items> = None;
    assert_eq!(visit::visit_single_or_vec(&mut v, &mut no_items), Ok(()));
    let mut leaf = Schema::Bool(true);
    assert_eq!(visit::visit_schema(&mut v, &mut leaf), Ok(()));
    assert_eq!(leaf, Schema::Bool(true));
    let mut names: Vec<(String, Schema)> = Vec::new();
    assert_eq!(visit::visit_map_values(&mut v, &mut names), Ok(()));
}

#[test]
fn root_descent_visits_definitions_after_primary_node() {
    let mut root = RootSchema {
        meta_schema: None,
        schema: match mismatch() {
            Schema::Object(o) => o,
            Schema::Bool(_) => unreachable!(),
        },
        definitions: vec![("D".to_string(), tuple_items())],
    };
    let mut v = StructuralSchemaVisitor;
    assert_eq!(reason(visit::visit_root_schema(&mut v, &mut root)), Violation::TypeMismatch);
    let mut ok_root = RootSchema {
        meta_schema: None,
        schema: SchemaObject::default(),
        definitions: vec![("D".to_string(), tuple_items())],
    };
    assert_eq!(reason(visit::visit_root_schema(&mut v, &mut ok_root)), Violation::ItemsNotSchema);
}

#[test]
fn structural_pass_through_the_visitor_trait() {
    let mut top = SchemaObject::default();
    let mut subs = SubschemaValidation::default();
    subs.one_of = Some(vec![Schema::Object(typed(InstanceType::Boolean))]);
    top.subschemas = Some(Box::new(subs));
    let mut root = RootSchema { meta_schema: None, schema: top, definitions: Vec::new() };
    let mut v = StructuralSchemaVisitor;
    assert_eq!(Visitor::visit_root_schema(&mut v, &mut root), Ok(()));
    assert_eq!(root.schema.instance_type, Some(InstanceTypes::Single(InstanceType::Boolean)));
}
