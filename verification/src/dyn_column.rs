//! [`DynColumn`]: one column of a record batch, kept dynamically typed.

use vstd::prelude::*;

use crate::column::{
    batch_ok, column_names, column_ok, find_column, kind_verdict, position_of, BatchLayout, Column,
};
use crate::column_desc::DynColumnDesc;
use crate::data_type::{data_type_eq, DataType, Field};
use crate::error::{data_types_view, Error, ErrorKind};
use crate::layout::{array_ok, spec_verdict, top_nulls, ArrayLayout};
use crate::logical::{spec_nullable, spec_rejects_nulls};
use crate::markers::LogicalType;
use crate::metadata::{pairs_map, string_pairs_view};
use crate::nulls::nulls_in_exec;

verus! {

/// A single dynamically-typed column of a record batch: the field and the
/// array holding its data. The two always agree, as a record batch demands
/// of its columns: the array has exactly the field's data type, and holds
/// nulls only if the field is nullable.
#[derive(Debug)]
pub struct DynColumn {
    field: Field,
    array: ArrayLayout,
}

impl DynColumn {
    #[verifier::type_invariant]
    spec fn agrees(self) -> bool {
        column_ok(self.field@, self.array@)
    }

    /// The field.
    pub closed spec fn spec_field(self) -> Field {
        self.field
    }

    /// The array.
    pub closed spec fn spec_array(self) -> ArrayLayout {
        self.array
    }

    /// Pairs a field with the array holding that column's data.
    ///
    /// Errors (labelled `"DynColumn"`) if the array's data type is not
    /// exactly the field's, or if the field is not nullable but the array
    /// holds nulls.
    pub fn try_new(field: Field, array: ArrayLayout) -> (r: Result<Self, Error>)
        requires
            array_ok(array@),
        ensures
            match r {
                Ok(c) => c.spec_field() == field && c.spec_array() == array && column_ok(field@, array@),
                Err(e) => e.record_type == "DynColumn" && match *e.kind {
                    ErrorKind::WrongDataType { column, supported, actual } => column@ == field@.name
                        && array@.data_type != field@.data_type && data_types_view(supported@) == seq![
                        field@.data_type,
                    ] && actual@ == array@.data_type,
                    ErrorKind::UnexpectedNulls { column, null_count } => column@ == field@.name
                        && array@.data_type == field@.data_type && !field@.nullable && null_count
                        == top_nulls(array@) && null_count > 0,
                    _ => false,
                },
            },
    {
        if !data_type_eq(&array.data_type, &field.data_type) {
            let mut supported: Vec<DataType> = Vec::new();
            supported.push(field.data_type.duplicate());
            assert(data_types_view(supported@) =~= seq![field@.data_type]);
            return Err(
                Error::new(
                    "DynColumn",
                    ErrorKind::WrongDataType {
                        column: field.name.clone(),
                        supported,
                        actual: array.data_type.duplicate(),
                    },
                ),
            );
        }
        let null_count = nulls_in_exec(&array.validity, 0, array.len);
        if null_count > 0 && !field.nullable {
            return Err(
                Error::new(
                    "DynColumn",
                    ErrorKind::UnexpectedNulls { column: field.name.clone(), null_count },
                ),
            );
        }
        Ok(DynColumn { field, array })
    }

    /// The name of the column.
    pub fn name(&self) -> (r: &String)
        ensures
            r@ == self.spec_field()@.name,
    {
        &self.field.name
    }

    /// The field: name, data type, nullability, and metadata.
    pub fn field(&self) -> (r: &Field)
        ensures
            r == self.spec_field(),
    {
        &self.field
    }

    /// The column's data, of the field's data type.
    pub fn array(&self) -> (r: &ArrayLayout)
        ensures
            r == self.spec_array(),
            column_ok(self.spec_field()@, r@),
    {
        proof {
            use_type_invariant(self);
        }
        &self.array
    }

    /// The two halves, moved out.
    pub fn into_parts(self) -> (r: (Field, ArrayLayout))
        ensures
            r.0 == self.spec_field(),
            r.1 == self.spec_array(),
            column_ok(r.0@, r.1@),
    {
        proof {
            use_type_invariant(&self);
        }
        (self.field, self.array)
    }

    /// Validates this column against the logical type `L` and carries the
    /// field metadata over; errors are labelled `"DynColumn"`.
    pub fn try_into_column<L: LogicalType>(self) -> (r: Result<Column<L>, Error>)
        ensures
            match r {
                Ok(c) => c.array@ == self.spec_array()@ && spec_verdict(L::spec_logical(), self.spec_array()@)
                    is Valid && c.metadata_ok() && pairs_map(string_pairs_view(c.metadata@)) == pairs_map(
                    string_pairs_view(self.spec_field().metadata@),
                ),
                Err(e) => e.record_type == "DynColumn" && kind_verdict(
                    *e.kind,
                    self.spec_field()@.name,
                    L::spec_logical(),
                    self.spec_array()@,
                ),
            },
    {
        proof {
            use_type_invariant(&self);
        }
        let DynColumn { field, array } = self;
        match Column::<L>::try_new(array) {
            Ok(column) => Ok(column.with_metadata(field.metadata)),
            Err(e) => Err(Error::new("DynColumn", e.for_column(field.name))),
        }
    }
}

impl DynColumnDesc {
    /// Extracts this column of a record batch: the first column of that name
    /// (`MissingColumn` if there is none), field and array, checking nothing
    /// more — a record batch already guarantees that they agree.
    pub fn extract(&self, batch: &BatchLayout) -> (r: Result<DynColumn, Error>)
        requires
            batch_ok(batch),
        ensures
            match position_of(column_names(batch), self.name@) {
                None => match r {
                    Err(e) => e.record_type == self.record_type && match *e.kind {
                        ErrorKind::MissingColumn { column } => column@ == self.name@,
                        _ => false,
                    },
                    Ok(_) => false,
                },
                Some(i) => match r {
                    Ok(c) => c.spec_field()@ == batch.columns@[i].field@ && c.spec_array()@
                        == batch.columns@[i].array@,
                    Err(_) => false,
                },
            },
    {
        match find_column(batch, self.name) {
            None => Err(
                Error::new(self.record_type, ErrorKind::MissingColumn { column: self.name.to_owned() }),
            ),
            Some(index) => {
                let column = &batch.columns[index];
                assert(column_ok(batch.columns@[index as int].field@, batch.columns@[index as int].array@));
                Ok(DynColumn { field: column.field.duplicate(), array: column.array.duplicate() })
            },
        }
    }
}

impl<L: LogicalType> Column<L> {
    /// This column under the name `name`, dynamically typed: its field has
    /// that name, the array's data type, and the column's metadata, and is
    /// nullable when `L` is, or when `L` lets the rows hold nulls
    /// (`IgnoreValidity`).
    pub fn into_dyn(self, name: String) -> (r: DynColumn)
        ensures
            r.spec_field()@.name == name@,
            r.spec_field()@.data_type == self.array@.data_type,
            r.spec_field()@.nullable == (spec_nullable(L::spec_logical()) || !spec_rejects_nulls(L::spec_logical())),
            r.spec_field()@.metadata == pairs_map(string_pairs_view(self.metadata@)),
            r.spec_array()@ == self.array@,
    {
        let l = L::logical();
        let nullable = l.nullable() || !l.rejects_nulls();
        let Column { array, metadata } = self;
        let layout = array.into_layout();
        let field = Field { name, data_type: layout.data_type.duplicate(), nullable, metadata };
        DynColumn { field, array: layout }
    }
}

} // verus!
