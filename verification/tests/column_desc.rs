//! Column descriptors: names, nullability, declared metadata, and the arrow
//! field they declare.

use quiver_types::metadata::metadata_eq;
use quiver_types::{Binary, ColumnDesc, DataType, DynColumnDesc, List, Utf8};

const CHUNK_KEY: ColumnDesc<Binary> = ColumnDesc {
    record_type: "Manifest",
    name: "chunk_key",
    metadata: &[],
    logical_type: std::marker::PhantomData,
};

#[test]
fn a_descriptor_names_its_column() {
    let desc = ColumnDesc::<Utf8>::new("Measurements", "sensor");
    assert_eq!(desc.name(), "sensor");
    assert_eq!(desc.name_owned(), "sensor".to_owned());
    assert_eq!(desc.record_type, "Measurements");
    assert!(desc.metadata.is_empty());
}

#[test]
fn optional_and_required_keep_the_name_and_metadata() {
    let desc = ColumnDesc::<Utf8>::new_with_metadata("Person", "name", &[("sorted", "true")]);
    let optional: ColumnDesc<Option<Utf8>> = desc.optional();
    assert_eq!(optional.name, "name");
    assert_eq!(optional.record_type, "Person");
    assert_eq!(optional.metadata, &[("sorted", "true")]);
    // Nullability is idempotent: `ColumnDesc<Option<L>>` is its own `optional()`.
    let twice: ColumnDesc<Option<Utf8>> = optional.optional();
    assert_eq!(twice.name, "name");
    // Every `Option` layer comes off.
    let nested = ColumnDesc::<Option<Option<Utf8>>>::new("Person", "name");
    let required: ColumnDesc<Utf8> = nested.required();
    assert_eq!(required.name, "name");
    let back: ColumnDesc<Utf8> = optional.required();
    assert!(back == desc);
}

#[test]
fn the_declared_field_is_nullable_for_optional_columns() {
    let field = CHUNK_KEY.arrow_field();
    assert_eq!(field.name, "chunk_key");
    assert!(!field.nullable);
    assert!(matches!(field.data_type, DataType::Binary));
    assert!(CHUNK_KEY.optional().arrow_field().nullable);
}

#[test]
fn nested_data_types_declare_their_item_fields() {
    let desc = ColumnDesc::<List<Option<Utf8>>>::new("Thing", "tags");
    match desc.data_type() {
        DataType::List(item) => {
            assert_eq!(item.name, "item");
            assert!(item.nullable);
            assert!(matches!(item.data_type, DataType::Utf8));
        }
        other => panic!("expected a list, got {other:?}"),
    }
}

#[test]
fn arrow_metadata_holds_the_declared_pairs() {
    let desc = ColumnDesc::<Utf8>::new_with_metadata("R", "c", &[("a", "1"), ("b", "2")]);
    assert_eq!(
        desc.arrow_metadata(),
        vec![("a".to_owned(), "1".to_owned()), ("b".to_owned(), "2".to_owned())]
    );
    let field = desc.arrow_field();
    assert_eq!(field.metadata, desc.arrow_metadata());
}

#[test]
fn descriptors_compare_their_metadata_as_maps() {
    let a = ColumnDesc::<Utf8>::new_with_metadata("R", "c", &[("a", "1"), ("b", "2")]);
    let reordered = ColumnDesc::<Utf8>::new_with_metadata("R", "c", &[("b", "2"), ("a", "1")]);
    let overridden = ColumnDesc::<Utf8>::new_with_metadata("R", "c", &[("a", "0"), ("b", "2"), ("a", "1")]);
    let different = ColumnDesc::<Utf8>::new_with_metadata("R", "c", &[("a", "1")]);
    assert!(a == reordered);
    assert!(a == overridden);
    assert!(a != different);
    assert!(a != ColumnDesc::<Utf8>::new_with_metadata("Other", "c", &[("a", "1"), ("b", "2")]));
    assert!(a != ColumnDesc::<Utf8>::new_with_metadata("R", "d", &[("a", "1"), ("b", "2")]));
    let copy = a;
    assert!(copy == a.clone());
}

#[test]
fn metadata_eq_takes_the_last_value_of_a_repeated_key() {
    assert!(metadata_eq(&[("k", "1"), ("k", "2")], &[("k", "2")]));
    assert!(!metadata_eq(&[("k", "2"), ("k", "1")], &[("k", "2")]));
    assert!(metadata_eq(&[], &[]));
    assert!(!metadata_eq(&[("k", "1")], &[]));
    assert!(!metadata_eq(&[], &[("k", "1")]));
}

#[test]
fn to_dyn_forgets_the_type_and_the_metadata() {
    let desc = ColumnDesc::<Utf8>::new_with_metadata("Reading", "sensor", &[("a", "1")]);
    let dyn_desc: DynColumnDesc = desc.to_dyn();
    assert_eq!(dyn_desc, DynColumnDesc::new("Reading", "sensor"));
    assert_eq!(dyn_desc.name(), "sensor");
    assert_eq!(dyn_desc.name_owned(), "sensor".to_owned());
}

#[test]
fn arrow_metadata_keeps_the_last_value_of_a_repeated_key() {
    let desc = ColumnDesc::<Utf8>::new_with_metadata("R", "c", &[("a", "1"), ("b", "2"), ("a", "3")]);
    assert_eq!(
        desc.arrow_metadata(),
        vec![("b".to_owned(), "2".to_owned()), ("a".to_owned(), "3".to_owned())]
    );
}
