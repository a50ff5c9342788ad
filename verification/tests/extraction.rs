//! Extracting single columns from a record batch by name.

use quiver_types::{
    ArrayLayout, BatchColumn, BatchLayout, Column, ColumnDesc, DataType, DynColumn, DynColumnDesc, Error,
    ErrorKind, Field, Utf8,
};

fn leaf(data_type: DataType, validity: Option<Vec<bool>>, len: usize) -> ArrayLayout {
    ArrayLayout {
        data_type,
        len,
        validity,
        offsets: Vec::new(),
        sizes: Vec::new(),
        offset: 0,
        children: Vec::new(),
    }
}

fn column(name: &str, data_type: DataType, nullable: bool, validity: Option<Vec<bool>>, len: usize) -> BatchColumn {
    let mut field = Field::new(name.to_owned(), data_type.duplicate(), nullable);
    field.metadata = vec![("unit".to_owned(), name.to_owned())];
    BatchColumn { field, array: leaf(data_type, validity, len) }
}

fn batch() -> BatchLayout {
    BatchLayout {
        columns: vec![
            column("sensor", DataType::Utf8, false, None, 2),
            column("reading", DataType::Int64, true, Some(vec![true, false]), 2),
            column("sensor", DataType::Int64, false, None, 2),
        ],
    }
}

fn kind(error: Error) -> ErrorKind {
    *error.kind
}

#[test]
fn a_column_is_found_by_name_with_its_metadata() {
    let sensors = Column::<Utf8>::from_record_batch_and_name(&batch(), "sensor").expect("present and valid");
    assert_eq!(sensors.len(), 2);
    assert!(!sensors.is_empty());
    assert_eq!(sensors.metadata, vec![("unit".to_owned(), "sensor".to_owned())]);
}

#[test]
fn the_first_column_of_a_name_is_taken() {
    // The second "sensor" column holds integers; the first one is taken.
    assert!(Column::<Utf8>::extract_named(&batch(), "sensor", "Reading").is_ok());
    assert!(Column::<i64>::extract_named(&batch(), "sensor", "Reading").is_err());
}

#[test]
fn a_missing_column_is_reported() {
    let error = Column::<Utf8>::extract_named(&batch(), "missing", "Reading").unwrap_err();
    assert_eq!(error.record_type, "Reading");
    match kind(error) {
        ErrorKind::MissingColumn { column } => assert_eq!(column, "missing"),
        other => panic!("expected a missing column, got {other:?}"),
    }
}

#[test]
fn validation_errors_carry_the_column_and_record_type() {
    let error = Column::<i64>::extract_named(&batch(), "reading", "Reading").unwrap_err();
    assert_eq!(error.record_type, "Reading");
    match kind(error) {
        ErrorKind::UnexpectedNulls { column, null_count } => {
            assert_eq!(column, "reading");
            assert_eq!(null_count, 1);
        }
        other => panic!("expected unexpected nulls, got {other:?}"),
    }
    let error = Column::<Utf8>::from_record_batch_and_name(&batch(), "reading").unwrap_err();
    assert_eq!(error.record_type, "Column");
    match kind(error) {
        ErrorKind::WrongDataType { column, supported, actual } => {
            assert_eq!(column, "reading");
            assert_eq!(supported.len(), 1);
            assert!(matches!(actual, DataType::Int64));
        }
        other => panic!("expected a wrong data type, got {other:?}"),
    }
    assert!(Column::<Option<i64>>::extract_named(&batch(), "reading", "Reading").is_ok());
}

#[test]
fn descriptors_extract_their_column() {
    let desc = ColumnDesc::<Option<i64>>::new("Reading", "reading");
    let column = desc.extract(&batch()).expect("present and valid");
    assert_eq!(column.len(), 2);
    let strict = ColumnDesc::<i64>::new("Reading", "reading");
    let error = strict.extract(&batch()).unwrap_err();
    assert_eq!(error.record_type, "Reading");
    assert!(matches!(kind(error), ErrorKind::UnexpectedNulls { null_count: 1, .. }));
    // `optional` reads what the strict descriptor rejects.
    assert!(strict.optional().extract(&batch()).is_ok());
}

#[test]
fn a_loose_array_is_validated_by_its_descriptor() {
    let desc = ColumnDesc::<Utf8>::new("Reading", "sensor");
    assert!(desc.typed_array(leaf(DataType::Utf8, None, 3)).is_ok());
    let error = desc.typed_array(leaf(DataType::Binary, None, 3)).unwrap_err();
    assert_eq!(error.record_type, "Reading");
    match kind(error) {
        ErrorKind::WrongDataType { column, .. } => assert_eq!(column, "sensor"),
        other => panic!("expected a wrong data type, got {other:?}"),
    }
}

#[test]
fn dynamic_descriptors_extract_field_and_array() {
    let desc = DynColumnDesc::new("Reading", "reading");
    let column = desc.extract(&batch()).expect("present");
    assert_eq!(column.name(), "reading");
    assert!(column.field().nullable);
    assert_eq!(column.array().len, 2);
    let error = DynColumnDesc::new("Reading", "absent").extract(&batch()).unwrap_err();
    assert!(matches!(kind(error), ErrorKind::MissingColumn { .. }));
}

#[test]
fn a_dynamic_column_requires_matching_halves() {
    let field = Field::new("frame".to_owned(), DataType::Int64, false);
    let column = DynColumn::try_new(field, leaf(DataType::Int64, None, 2)).expect("the halves agree");
    let (field, array) = column.into_parts();
    assert_eq!(field.name, "frame");
    assert_eq!(array.len, 2);

    let field = Field::new("frame".to_owned(), DataType::Int64, false);
    let error = DynColumn::try_new(field, leaf(DataType::Int32, None, 2)).unwrap_err();
    assert_eq!(error.record_type, "DynColumn");
    match kind(error) {
        ErrorKind::WrongDataType { column, supported, actual } => {
            assert_eq!(column, "frame");
            assert!(matches!(supported.as_slice(), [DataType::Int64]));
            assert!(matches!(actual, DataType::Int32));
        }
        other => panic!("expected a wrong data type, got {other:?}"),
    }

    let field = Field::new("frame".to_owned(), DataType::Int64, false);
    let error = DynColumn::try_new(field, leaf(DataType::Int64, Some(vec![false, false]), 2)).unwrap_err();
    assert!(matches!(kind(error), ErrorKind::UnexpectedNulls { null_count: 2, .. }));

    let field = Field::new("frame".to_owned(), DataType::Int64, true);
    assert!(DynColumn::try_new(field, leaf(DataType::Int64, Some(vec![false, false]), 2)).is_ok());
}

#[test]
fn a_dynamic_column_converts_to_a_typed_one() {
    let column = DynColumnDesc::new("Reading", "reading").extract(&batch()).expect("present");
    let typed = column.try_into_column::<Option<i64>>().expect("valid");
    assert_eq!(typed.metadata, vec![("unit".to_owned(), "reading".to_owned())]);

    let column = DynColumnDesc::new("Reading", "reading").extract(&batch()).expect("present");
    let error = column.try_into_column::<i64>().unwrap_err();
    assert_eq!(error.record_type, "DynColumn");
    assert!(matches!(kind(error), ErrorKind::UnexpectedNulls { null_count: 1, .. }));
}

#[test]
fn error_kinds_name_the_column() {
    let kind = quiver_types::ColumnError::UnexpectedNulls { null_count: 3 }.for_column("c".to_owned());
    assert!(matches!(&kind, ErrorKind::UnexpectedNulls { column, null_count: 3 } if column == "c"));
    let error = Error::new("R", kind);
    assert_eq!(error.record_type, "R");
    let kind = quiver_types::ColumnError::Conversion { message: "bad".to_owned() }.for_column("c".to_owned());
    assert!(matches!(kind, ErrorKind::Conversion { column, message } if column == "c" && message == "bad"));
    let kind = quiver_types::ColumnError::Build(quiver_types::BuildError::PartialElement { bytes: 5, width: 2 })
        .for_column("c".to_owned());
    assert!(matches!(kind, ErrorKind::BuildRecordBatch(quiver_types::BuildError::PartialElement { bytes: 5, width: 2 })));
}
