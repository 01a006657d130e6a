use k8s_structural_schema::error::{Error, Violation};
use k8s_structural_schema::ext::{NonNullable, Nullable, NULLABLE};
use k8s_structural_schema::schema::{
    ArrayValidation, ExtensionValue, InstanceType, InstanceTypes, Items, Metadata,
    ObjectValidation, RootSchema, Schema, SchemaObject, SubschemaValidation,
};
use k8s_structural_schema::structural::StructuralSchemaVisitor;

fn node() -> SchemaObject {
    SchemaObject::default()
}

fn typed(t: InstanceType) -> SchemaObject {
    let mut o = SchemaObject::default();
    o.instance_type = Some(InstanceTypes::Single(t));
    o
}

fn obj(o: SchemaObject) -> Schema {
    Schema::Object(o)
}

fn with_props(mut o: SchemaObject, props: Vec<(&str, Schema)>) -> SchemaObject {
    let mut v = ObjectValidation::default();
    v.properties = props.into_iter().map(|(k, s)| (k.to_string(), s)).collect();
    o.object = Some(Box::new(v));
    o
}

fn subs() -> SubschemaValidation {
    SubschemaValidation::default()
}

fn with_all_of(mut o: SchemaObject, branches: Vec<Schema>) -> SchemaObject {
    let mut s = o.subschemas.take().map(|b| *b).unwrap_or_else(subs);
    s.all_of = Some(branches);
    o.subschemas = Some(Box::new(s));
    o
}

fn with_any_of(mut o: SchemaObject, branches: Vec<Schema>) -> SchemaObject {
    let mut s = o.subschemas.take().map(|b| *b).unwrap_or_else(subs);
    s.any_of = Some(branches);
    o.subschemas = Some(Box::new(s));
    o
}

fn with_one_of(mut o: SchemaObject, branches: Vec<Schema>) -> SchemaObject {
    let mut s = o.subschemas.take().map(|b| *b).unwrap_or_else(subs);
    s.one_of = Some(branches);
    o.subschemas = Some(Box::new(s));
    o
}

fn with_items(mut o: SchemaObject, items: Items) -> SchemaObject {
    let mut a = ArrayValidation::default();
    a.items = Some(items);
    o.array = Some(Box::new(a));
    o
}

fn nullable(mut o: SchemaObject) -> SchemaObject {
    o.extensions.push((NULLABLE.to_string(), ExtensionValue::Bool(true)));
    o
}

fn metadata(default: Option<&str>, title: Option<&str>, description: Option<&str>) -> Option<Box<Metadata>> {
    Some(Box::new(Metadata {
        id: None,
        title: title.map(|s| s.to_string()),
        description: description.map(|s| s.to_string()),
        default: default.map(|s| serde_json::Value::String(s.to_string())),
        deprecated: false,
        read_only: false,
        write_only: false,
        examples: Vec::new(),
    }))
}

fn root(o: SchemaObject) -> RootSchema {
    RootSchema { meta_schema: None, schema: o, definitions: Vec::new() }
}

fn run(r: &mut RootSchema) -> Result<(), Error> {
    StructuralSchemaVisitor.visit_root_schema(r)
}

fn violation(r: Result<(), Error>) -> Violation {
    match r {
        Err(Error::InvalidCustomResourceDefinition { reason }) => reason,
        Ok(()) => panic!("the pass succeeded"),
    }
}

fn prop<'a>(o: &'a SchemaObject, name: &str) -> &'a Schema {
    &o.object.as_ref().unwrap().properties.iter().find(|(k, _)| k == name).unwrap().1
}

fn as_obj(s: &Schema) -> &SchemaObject {
    match s {
        Schema::Object(o) => o,
        Schema::Bool(_) => panic!("a boolean leaf"),
    }
}

fn is_nullable(o: &SchemaObject) -> bool {
    o.extensions.iter().any(|(k, v)| k == NULLABLE && *v == ExtensionValue::Bool(true))
}

fn single(t: InstanceType) -> Option<InstanceTypes> {
    Some(InstanceTypes::Single(t))
}

// A custom resource in the shape of the Kubernetes documentation's example of
// a schema that is not structural: the `spec` property's type is given only
// through `allOf`, the `replicas` property only through `oneOf`, and the
// `metadata` property restricts more than `name`.
fn example_document() -> RootSchema {
    let spec = with_all_of(
        with_props(node(), vec![
            ("cronSpec", obj(typed(InstanceType::String))),
            ("image", obj(typed(InstanceType::String))),
            ("replicas", obj(with_one_of(node(), vec![obj(typed(InstanceType::Integer))]))),
        ]),
        vec![obj(typed(InstanceType::Object))],
    );
    let mut name = typed(InstanceType::String);
    name.metadata = metadata(Some("n"), None, None);
    let meta = with_props(typed(InstanceType::Object), vec![
        ("name", obj(name)),
        ("uid", obj(typed(InstanceType::String))),
    ]);
    root(with_props(typed(InstanceType::Object), vec![("metadata", obj(meta)), ("spec", obj(spec))]))
}

#[test]
fn test_examples() {
    let mut r = example_document();
    assert_eq!(run(&mut r), Ok(()));
    let spec = as_obj(prop(&r.schema, "spec"));
    assert_eq!(spec.instance_type, single(InstanceType::Object));
    let replicas = as_obj(prop(spec, "replicas"));
    assert_eq!(replicas.instance_type, single(InstanceType::Integer));
    let meta = as_obj(prop(&r.schema, "metadata"));
    assert_eq!(meta.instance_type, single(InstanceType::Object));
    let keys: Vec<&str> = meta.object.as_ref().unwrap().properties.iter().map(|(k, _)| k.as_str()).collect();
    assert_eq!(keys, vec!["name"]);
    let name = as_obj(prop(meta, "name"));
    assert_eq!(name.metadata.as_ref().unwrap().default, None);
    assert_eq!(name.instance_type, single(InstanceType::String));

    // A branch that constrains properties: its property types move to the
    // node that owns the branch, under a property of the same name.
    let mut r2 = root(with_all_of(typed(InstanceType::Object), vec![obj(with_props(node(), vec![
        ("foo", obj(typed(InstanceType::String))),
    ]))]));
    assert_eq!(run(&mut r2), Ok(()));
    assert_eq!(as_obj(prop(&r2.schema, "foo")).instance_type, single(InstanceType::String));
    let branch = &r2.schema.subschemas.as_ref().unwrap().all_of.as_ref().unwrap()[0];
    assert_eq!(as_obj(prop(as_obj(branch), "foo")).instance_type, None);

    // A branch that constrains the items of an array.
    let mut r3 = root(with_any_of(typed(InstanceType::Array), vec![obj(with_items(
        node(),
        Items::Single(Box::new(obj(typed(InstanceType::Integer)))),
    ))]));
    assert_eq!(run(&mut r3), Ok(()));
    match &r3.schema.array.as_ref().unwrap().items {
        Some(Items::Single(item)) => assert_eq!(as_obj(item).instance_type, single(InstanceType::Integer)),
        _ => panic!("no single items schema"),
    }
}

#[test]
fn test_nullable() {
    // An optional field, generated as `anyOf` of the inner schema and a branch
    // that only says it may be null.
    let field = with_any_of(node(), vec![
        obj(with_props(typed(InstanceType::Object), vec![("a", obj(typed(InstanceType::String)))])),
        obj(nullable(node())),
    ]);
    let mut r = root(with_props(typed(InstanceType::Object), vec![("field", obj(field))]));
    assert_eq!(run(&mut r), Ok(()));
    let f = as_obj(prop(&r.schema, "field"));
    assert!(is_nullable(f));
    assert_eq!(f.instance_type, single(InstanceType::Object));
    assert_eq!(as_obj(prop(f, "a")).instance_type, single(InstanceType::String));
    for b in f.subschemas.as_ref().unwrap().any_of.as_ref().unwrap() {
        assert!(!is_nullable(as_obj(b)));
        assert_eq!(as_obj(b).instance_type, None);
    }

    // The marker is hoisted through nested composition.
    let deep = with_all_of(node(), vec![obj(with_one_of(node(), vec![obj(nullable(typed(InstanceType::String)))]))]);
    let mut r2 = root(deep);
    assert_eq!(run(&mut r2), Ok(()));
    assert!(is_nullable(&r2.schema));
    assert_eq!(r2.schema.instance_type, single(InstanceType::String));
}

#[test]
fn metadata_keeps_only_names() {
    let mut gen = typed(InstanceType::String);
    gen.metadata = metadata(Some("x-"), None, None);
    let meta = with_props(node(), vec![
        ("name", obj(typed(InstanceType::String))),
        ("generateName", obj(gen)),
        ("uid", obj(typed(InstanceType::String))),
    ]);
    let mut r = root(with_props(typed(InstanceType::Object), vec![("metadata", obj(meta))]));
    assert_eq!(run(&mut r), Ok(()));
    let m = as_obj(prop(&r.schema, "metadata"));
    assert_eq!(m.instance_type, single(InstanceType::Object));
    let keys: Vec<&str> = m.object.as_ref().unwrap().properties.iter().map(|(k, _)| k.as_str()).collect();
    assert_eq!(keys, vec!["name", "generateName"]);
    let g = as_obj(prop(m, "generateName"));
    assert_eq!(g.metadata.as_ref().unwrap().default, None);
}

#[test]
fn metadata_without_object_keywords_is_rebuilt() {
    let mut meta = typed(InstanceType::Object);
    meta.format = Some("x".to_string());
    let mut r = root(with_props(node(), vec![("metadata", obj(meta))]));
    assert_eq!(run(&mut r), Ok(()));
    let m = as_obj(prop(&r.schema, "metadata"));
    assert_eq!(m.format, None);
    assert!(m.object.as_ref().unwrap().properties.is_empty());
}

#[test]
fn metadata_leaf_is_kept() {
    let mut r = root(with_props(node(), vec![("metadata", Schema::Bool(true))]));
    assert_eq!(run(&mut r), Ok(()));
    assert_eq!(prop(&r.schema, "metadata"), &Schema::Bool(true));
}

#[test]
fn type_comes_from_branch() {
    let mut r = root(with_all_of(node(), vec![obj(typed(InstanceType::String))]));
    assert_eq!(run(&mut r), Ok(()));
    assert_eq!(r.schema.instance_type, single(InstanceType::String));
    let b = &r.schema.subschemas.as_ref().unwrap().all_of.as_ref().unwrap()[0];
    assert_eq!(as_obj(b).instance_type, None);
}

#[test]
fn type_mismatch_is_refused() {
    let mut r = root(with_all_of(typed(InstanceType::Integer), vec![obj(typed(InstanceType::String))]));
    let res = run(&mut r);
    assert_eq!(violation(res), Violation::TypeMismatch);
    assert_eq!(res.unwrap_err().reason(), "`type` must be same as parent");
}

#[test]
fn nullable_marker_is_hoisted() {
    let mut r = root(with_any_of(node(), vec![obj(nullable(node()))]));
    assert_eq!(run(&mut r), Ok(()));
    assert!(is_nullable(&r.schema));
    let b = &r.schema.subschemas.as_ref().unwrap().any_of.as_ref().unwrap()[0];
    assert!(as_obj(b).extensions.is_empty());
}

#[test]
fn tuple_items_are_refused() {
    let branch = with_items(node(), Items::Vec(vec![obj(typed(InstanceType::String)), obj(typed(InstanceType::Integer))]));
    let mut r = root(with_all_of(typed(InstanceType::Array), vec![obj(branch)]));
    let res = run(&mut r);
    assert_eq!(violation(res), Violation::ItemsNotSchema);
    assert_eq!(res.unwrap_err().reason(), "`items` must be a schema object and not an array");
}

#[test]
fn tuple_items_on_the_anchor() {
    let anchor = with_items(typed(InstanceType::Array), Items::Vec(vec![obj(node())]));
    let branch = with_items(node(), Items::Single(Box::new(obj(typed(InstanceType::String)))));
    let mut r = root(with_all_of(anchor, vec![obj(branch)]));
    assert_eq!(violation(run(&mut r)), Violation::ItemsNotSchema);
}

#[test]
fn leaf_property_is_refused() {
    let anchor = with_props(typed(InstanceType::Object), vec![("foo", Schema::Bool(false))]);
    let branch = with_props(node(), vec![("foo", obj(typed(InstanceType::String)))]);
    let mut r = root(with_all_of(anchor, vec![obj(branch)]));
    let res = run(&mut r);
    assert_eq!(violation(res), Violation::PropertyNotSchema);
    assert_eq!(res.unwrap_err().reason(), "value in `properties` must be a schema object and not an bool");
}

#[test]
fn type_list_is_refused() {
    let mut branch = node();
    branch.instance_type = Some(InstanceTypes::Vec(vec![InstanceType::String, InstanceType::Null]));
    let mut r = root(with_all_of(node(), vec![obj(branch)]));
    let res = run(&mut r);
    assert_eq!(violation(res), Violation::TypeNotSingle);
    assert_eq!(res.unwrap_err().reason(), "`type` must be a type and not an array");
}

#[test]
fn type_list_on_the_anchor_is_refused() {
    let mut anchor = node();
    anchor.instance_type = Some(InstanceTypes::Vec(vec![InstanceType::String]));
    let mut r = root(with_all_of(anchor, vec![obj(node())]));
    assert_eq!(violation(run(&mut r)), Violation::TypeNotSingle);
}

#[test]
fn first_violation_is_reported() {
    let tuple = with_items(node(), Items::Vec(vec![]));
    let mut r = root(with_all_of(typed(InstanceType::Integer), vec![
        obj(typed(InstanceType::String)),
        obj(tuple),
    ]));
    assert_eq!(violation(run(&mut r)), Violation::TypeMismatch);
}

#[test]
fn branch_metadata_is_cleared() {
    let mut b = typed(InstanceType::String);
    b.metadata = metadata(Some("d"), Some("t"), Some("desc"));
    let mut anchor = node();
    anchor.metadata = metadata(None, Some("kept"), None);
    let mut r = root(with_all_of(anchor, vec![obj(b)]));
    assert_eq!(run(&mut r), Ok(()));
    let branch = as_obj(&r.schema.subschemas.as_ref().unwrap().all_of.as_ref().unwrap()[0]);
    let m = branch.metadata.as_ref().unwrap();
    assert_eq!((m.default.clone(), m.title.clone(), m.description.clone()), (None, None, None));
    assert_eq!(r.schema.metadata.as_ref().unwrap().title, Some("kept".to_string()));
}

#[test]
fn definitions_are_completed() {
    let mut r = root(node());
    r.definitions.push(("Thing".to_string(), obj(with_all_of(node(), vec![obj(typed(InstanceType::Boolean))]))));
    assert_eq!(run(&mut r), Ok(()));
    assert_eq!(as_obj(&r.definitions[0].1).instance_type, single(InstanceType::Boolean));
}

#[test]
fn definition_errors_end_the_pass() {
    let mut r = root(node());
    r.definitions.push((
        "Bad".to_string(),
        obj(with_all_of(typed(InstanceType::Integer), vec![obj(typed(InstanceType::String))])),
    ));
    assert_eq!(violation(run(&mut r)), Violation::TypeMismatch);
}

#[test]
fn empty_document_is_unchanged() {
    let mut r = root(node());
    assert_eq!(run(&mut r), Ok(()));
    assert_eq!(r, root(node()));
}

#[test]
fn running_twice_changes_nothing_more() {
    let mut once = example_document();
    assert_eq!(run(&mut once), Ok(()));
    let mut twice = example_document();
    assert_eq!(run(&mut twice), Ok(()));
    assert_eq!(run(&mut twice), Ok(()));
    assert_eq!(once, twice);
}

#[test]
fn explicit_type_is_kept() {
    let mut r = root(with_any_of(typed(InstanceType::Number), vec![obj(node()), obj(typed(InstanceType::Number))]));
    assert_eq!(run(&mut r), Ok(()));
    assert_eq!(r.schema.instance_type, single(InstanceType::Number));
}

#[test]
fn no_branch_type_leaves_none() {
    let mut r = root(with_any_of(node(), vec![obj(node()), Schema::Bool(true)]));
    assert_eq!(run(&mut r), Ok(()));
    assert_eq!(r.schema.instance_type, None);
}

#[test]
fn nullable_wrapper_sets_marker() {
    let mut s = obj(typed(InstanceType::String));
    Nullable::<u8>::adjust_schema(&mut s);
    assert!(is_nullable(as_obj(&s)));
    let mut leaf = Schema::Bool(true);
    Nullable::<u8>::adjust_schema(&mut leaf);
    assert_eq!(leaf, Schema::Bool(true));
    assert_eq!(Nullable::new(5).into_inner(), 5);
}

#[test]
fn non_nullable_wrapper_removes_marker() {
    let mut o = typed(InstanceType::String);
    o.extensions.push((NULLABLE.to_string(), ExtensionValue::Bool(false)));
    o.extensions.push(("x-other".to_string(), ExtensionValue::Bool(true)));
    let mut s = obj(o);
    NonNullable::<u8>::adjust_schema(&mut s);
    let exts: Vec<&str> = as_obj(&s).extensions.iter().map(|(k, _)| k.as_str()).collect();
    assert_eq!(exts, vec!["x-other"]);
    assert_eq!(NonNullable::new("v").into_inner(), "v");
}

fn has_type_list(s: &Schema) -> bool {
    match s {
        Schema::Bool(_) => false,
        Schema::Object(o) => {
            matches!(o.instance_type, Some(InstanceTypes::Vec(_)))
                || o.object.as_ref().map_or(false, |p| p.properties.iter().any(|(_, c)| has_type_list(c)))
                || o.subschemas.as_ref().map_or(false, |sub| {
                    [&sub.all_of, &sub.any_of, &sub.one_of]
                        .iter()
                        .any(|l| l.as_ref().map_or(false, |v| v.iter().any(has_type_list)))
                })
                || match o.array.as_ref().and_then(|a| a.items.as_ref()) {
                    Some(Items::Single(b)) => has_type_list(b),
                    Some(Items::Vec(v)) => v.iter().any(has_type_list),
                    None => false,
                }
        }
    }
}

#[test]
fn no_type_list_appears() {
    let before = example_document();
    assert!(!has_type_list(&Schema::Object(before.schema)));
    let mut r = example_document();
    assert_eq!(run(&mut r), Ok(()));
    let done = std::mem::replace(&mut r.schema, node());
    assert!(!has_type_list(&Schema::Object(done)));
}

#[test]
fn nullable_false_stays_on_the_branch() {
    let mut b = node();
    b.extensions.push((NULLABLE.to_string(), ExtensionValue::Bool(false)));
    b.extensions.push(("x-keep".to_string(), ExtensionValue::Bool(true)));
    let mut r = root(with_all_of(node(), vec![obj(b)]));
    assert_eq!(run(&mut r), Ok(()));
    assert!(r.schema.extensions.is_empty());
    let branch = as_obj(&r.schema.subschemas.as_ref().unwrap().all_of.as_ref().unwrap()[0]);
    let exts: Vec<&str> = branch.extensions.iter().map(|(k, _)| k.as_str()).collect();
    assert_eq!(exts, vec![NULLABLE, "x-keep"]);
}

#[test]
fn type_list_outside_any_merge_is_refused() {
    let mut top = node();
    top.instance_type = Some(InstanceTypes::Vec(vec![InstanceType::String, InstanceType::Null]));
    let mut r = root(top);
    let res = run(&mut r);
    assert_eq!(violation(res), Violation::TypeNotSingle);
    assert_eq!(res.unwrap_err().reason(), "`type` must be a type and not an array");
}

#[test]
fn type_list_on_a_property_is_refused() {
    let mut p = node();
    p.instance_type = Some(InstanceTypes::Vec(vec![InstanceType::Integer]));
    let mut r = root(with_props(typed(InstanceType::Object), vec![("p", obj(p))]));
    assert_eq!(violation(run(&mut r)), Violation::TypeNotSingle);
}
