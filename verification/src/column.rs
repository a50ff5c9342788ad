//! [`Column<L>`]: one column of a record batch, validated against `L`, with
//! its field metadata; and extraction of a column from a record batch by name.

use vstd::prelude::*;

use crate::column_desc::ColumnDesc;
use crate::data_type::{data_type_eq, DataType, Field, FieldSpec};
use crate::error::{data_types_view, ColumnError, Error, ErrorKind};
use crate::layout::{
    array_ok, spec_verdict, top_nulls, verdict_of, ArrayLayout, LayoutSpec, Verdict,
};
use crate::logical::{spec_supported, Logical};
use crate::markers::{ConcreteType, LogicalType};
use crate::logical::{is_concrete, spec_data_type};
use crate::metadata::{distinct_pairs, keys_distinct, pairs_map, string_pairs_view};
use crate::slicing::is_slice_of;
use crate::nulls::nulls_in_exec;
use crate::typed_array::TypedArray;
use crate::wellformed::array_is_ok;

verus! {

/// One column of a record batch: its field and its array.
#[derive(Debug)]
pub struct BatchColumn {
    pub field: Field,
    pub array: ArrayLayout,
}

/// A record batch: its columns, in schema order.
#[derive(Debug)]
pub struct BatchLayout {
    pub columns: Vec<BatchColumn>,
}

/// The names of the columns of a batch, in order.
pub open spec fn column_names(batch: &BatchLayout) -> Seq<Seq<char>> {
    batch.columns@.map_values(|c: BatchColumn| c.field.name@)
}

/// A column whose array agrees with its field, as a record batch demands:
/// a well-formed array of exactly the field's data type, holding nulls only
/// if the field is nullable.
pub open spec fn column_ok(field: FieldSpec, array: LayoutSpec) -> bool {
    &&& array_ok(array)
    &&& array.data_type == field.data_type
    &&& !field.nullable ==> top_nulls(array) == 0
}

/// Every column of the batch agrees with its field (as arrow guarantees of
/// every record batch).
pub open spec fn batch_ok(batch: &BatchLayout) -> bool {
    forall|i: int| 0 <= i < batch.columns@.len() ==> column_ok(
        #[trigger] batch.columns@[i].field@,
        batch.columns@[i].array@,
    )
}

/// Every array of the batch is well-formed.
pub open spec fn arrays_ok(batch: &BatchLayout) -> bool {
    forall|i: int| 0 <= i < batch.columns@.len() ==> array_ok(#[trigger] batch.columns@[i].array@)
}

/// Does every column of the batch agree with its field ([`batch_ok`])?
pub fn batch_is_ok(batch: &BatchLayout) -> (r: bool)
    ensures
        r == batch_ok(batch),
{
    let mut i: usize = 0;
    while i < batch.columns.len()
        invariant
            0 <= i <= batch.columns@.len(),
            forall|j: int| 0 <= j < i ==> column_ok(#[trigger] batch.columns@[j].field@, batch.columns@[j].array@),
        decreases batch.columns.len() - i,
    {
        let column = &batch.columns[i];
        if !array_is_ok(&column.array) || !data_type_eq(&column.array.data_type, &column.field.data_type) {
            assert(!column_ok(batch.columns@[i as int].field@, batch.columns@[i as int].array@));
            return false;
        }
        if !column.field.nullable && nulls_in_exec(&column.array.validity, 0, column.array.len) > 0 {
            assert(!column_ok(batch.columns@[i as int].field@, batch.columns@[i as int].array@));
            return false;
        }
        i += 1;
    }
    true
}

/// The position of the first column named `name`, if any.
pub open spec fn position_of(names: Seq<Seq<char>>, name: Seq<char>) -> Option<int>
    decreases names.len(),
{
    if names.len() == 0 {
        None
    } else if names[0] == name {
        Some(0)
    } else {
        match position_of(names.drop_first(), name) {
            Some(i) => Some(i + 1),
            None => None,
        }
    }
}

/// `position_of` finds the first match.
pub proof fn lemma_position_of(names: Seq<Seq<char>>, name: Seq<char>, k: int)
    requires
        0 <= k <= names.len(),
        forall|j: int| 0 <= j < k ==> names[j] != name,
        k < names.len() ==> names[k] == name,
    ensures
        position_of(names, name) == if k < names.len() {
            Some(k)
        } else {
            None::<int>
        },
    decreases names.len(),
{
    if names.len() > 0 && k > 0 {
        assert forall|j: int| 0 <= j < k - 1 implies names.drop_first()[j] != name by {
            assert(names.drop_first()[j] == names[j + 1]);
        }
        lemma_position_of(names.drop_first(), name, k - 1);
    }
}

/// Matching is by name, so column order never matters: when the names are
/// distinct, the column found for a name is the one that bears it, wherever
/// it stands.
pub proof fn lemma_position_of_distinct(names: Seq<Seq<char>>, i: int)
    requires
        0 <= i < names.len(),
        forall|j: int, k: int| 0 <= j < k < names.len() ==> names[j] != names[k],
    ensures
        position_of(names, names[i]) == Some(i),
{
    lemma_position_of(names, names[i], i);
}

/// Finds the first column named `name`.
pub fn find_column(batch: &BatchLayout, name: &str) -> (r: Option<usize>)
    ensures
        match r {
            Some(i) => i < batch.columns@.len() && position_of(column_names(batch), name@) == Some(
                i as int,
            ),
            None => position_of(column_names(batch), name@) is None,
        },
{
    let ghost names = column_names(batch);
    let target = name.to_owned();
    let mut i: usize = 0;
    while i < batch.columns.len()
        invariant
            0 <= i <= batch.columns@.len(),
            names == column_names(batch),
            names.len() == batch.columns@.len(),
            target@ == name@,
            forall|j: int| 0 <= j < i ==> names[j] != name@,
        decreases batch.columns.len() - i,
    {
        if batch.columns[i].field.name == target {
            proof {
                lemma_position_of(names, name@, i as int);
            }
            return Some(i);
        }
        i += 1;
    }
    proof {
        lemma_position_of(names, name@, names.len() as int);
    }
    None
}

/// The error kind a failed validation is reported as, for column `column`.
pub open spec fn kind_verdict(k: ErrorKind, column: Seq<char>, l: Logical, a: LayoutSpec) -> bool {
    match k {
        ErrorKind::WrongDataType { column: c, supported, actual } => c@ == column && spec_verdict(l, a)
            is WrongDataType && actual@ == a.data_type && data_types_view(supported@) == spec_supported(
            l,
        ),
        ErrorKind::UnexpectedNulls { column: c, null_count } => c@ == column && spec_verdict(l, a)
            == Verdict::UnexpectedNulls(null_count as nat),
        _ => false,
    }
}

/// The outcome of extracting the column `name` of `batch` as a `Column<L>`.
pub open spec fn extracted<L: LogicalType>(
    r: Result<Column<L>, Error>,
    batch: &BatchLayout,
    name: Seq<char>,
    record_type: &'static str,
) -> bool {
    match position_of(column_names(batch), name) {
        None => match r {
            Err(e) => e.record_type == record_type && match *e.kind {
                ErrorKind::MissingColumn { column } => column@ == name,
                _ => false,
            },
            Ok(_) => false,
        },
        Some(i) => match r {
            Ok(c) => c.array@ == batch.columns@[i].array@ && spec_verdict(
                L::spec_logical(),
                batch.columns@[i].array@,
            ) is Valid && c.metadata_ok() && pairs_map(string_pairs_view(c.metadata@)) == pairs_map(
                string_pairs_view(batch.columns@[i].field.metadata@),
            ),
            Err(e) => e.record_type == record_type && kind_verdict(
                *e.kind,
                name,
                L::spec_logical(),
                batch.columns@[i].array@,
            ),
        },
    }
}

/// One column of a record batch: an array validated against the logical
/// type `L`, plus that column's field metadata: key-value pairs, each key
/// once (see [`Column::metadata_ok`]).
#[derive(Debug)]
pub struct Column<L: LogicalType> {
    pub array: TypedArray<L>,
    pub metadata: Vec<(String, String)>,
}

fn copy_pairs(pairs: &Vec<(String, String)>) -> (r: Vec<(String, String)>)
    ensures
        string_pairs_view(r@) == string_pairs_view(pairs@),
{
    let mut out: Vec<(String, String)> = Vec::new();
    let mut i: usize = 0;
    while i < pairs.len()
        invariant
            0 <= i <= pairs@.len(),
            out@.len() == i,
            forall|j: int| 0 <= j < i ==> (#[trigger] out@[j]).0@ == pairs@[j].0@ && out@[j].1@ == pairs@[j].1@,
        decreases pairs.len() - i,
    {
        let key = pairs[i].0.clone();
        let value = pairs[i].1.clone();
        out.push((key, value));
        i += 1;
    }
    assert(string_pairs_view(out@) =~= string_pairs_view(pairs@));
    out
}

impl<L: LogicalType> Column<L> {
    /// The metadata holds each key once.
    pub open spec fn metadata_ok(self) -> bool {
        keys_distinct(string_pairs_view(self.metadata@))
    }

    /// Validates the array against `L` (data type and nullability,
    /// recursively); the column has no metadata.
    pub fn try_new(array: ArrayLayout) -> (r: Result<Self, ColumnError>)
        requires
            array_ok(array@),
        ensures
            match r {
                Ok(c) => c.array@ == array@ && c.metadata@.len() == 0 && c.metadata_ok() && spec_verdict(
                    L::spec_logical(),
                    array@,
                ) is Valid,
                Err(e) => verdict_of(Err(e), L::spec_logical(), array@),
            },
    {
        match TypedArray::try_new(array) {
            Ok(array) => Ok(Column { array, metadata: Vec::new() }),
            Err(e) => Err(e),
        }
    }

    /// Extracts and validates the column `name` of a record batch: the first
    /// column of that name (`MissingColumn` if there is none), validated
    /// against `L`, with the field metadata carried over. `record_type`
    /// labels the errors.
    pub fn extract_named(batch: &BatchLayout, name: &str, record_type: &'static str) -> (r: Result<
        Self,
        Error,
    >)
        requires
            arrays_ok(batch),
        ensures
            extracted(r, batch, name@, record_type),
    {
        let index = match find_column(batch, name) {
            Some(index) => index,
            None => {
                return Err(
                    Error::new(record_type, ErrorKind::MissingColumn { column: name.to_owned() }),
                );
            },
        };
        let column = &batch.columns[index];
        assert(array_ok(batch.columns@[index as int].array@));
        match TypedArray::try_new(column.array.duplicate()) {
            Ok(array) => Ok(Column { array, metadata: distinct_pairs(&column.field.metadata) }),
            Err(e) => Err(Error::new(record_type, e.for_column(name.to_owned()))),
        }
    }

    /// Extracts and validates the column `name` of a record batch; errors
    /// are labelled `"Column"`.
    pub fn from_record_batch_and_name(batch: &BatchLayout, name: &str) -> (r: Result<Self, Error>)
        requires
            arrays_ok(batch),
        ensures
            extracted(r, batch, name@, "Column"),
    {
        Self::extract_named(batch, name, "Column")
    }

    /// The column's field metadata.
    pub fn metadata(&self) -> (r: &Vec<(String, String)>)
        ensures
            r == &self.metadata,
    {
        &self.metadata
    }

    /// The same data with other metadata: each key once, with the value it
    /// takes in `metadata` (that of its last occurrence).
    pub fn with_metadata(self, metadata: Vec<(String, String)>) -> (r: Self)
        ensures
            r.array@ == self.array@,
            r.metadata_ok(),
            pairs_map(string_pairs_view(r.metadata@)) == pairs_map(string_pairs_view(metadata@)),
    {
        Column { array: self.array, metadata: distinct_pairs(&metadata) }
    }

    /// The number of rows.
    pub fn len(&self) -> (r: usize)
        ensures
            r == self.array@.len,
    {
        self.array.len()
    }

    /// Are there no rows?
    pub fn is_empty(&self) -> (r: bool)
        ensures
            r == (self.array@.len == 0),
    {
        self.array.is_empty()
    }

    /// The rows `offset..offset + length`, metadata preserved; a slice of a
    /// valid column is valid, so nothing is re-checked.
    pub fn slice(&self, offset: usize, length: usize) -> (r: Self)
        requires
            offset + length <= self.array@.len,
        ensures
            is_slice_of(r.array@, self.array@, offset as int, length as int),
            string_pairs_view(r.metadata@) == string_pairs_view(self.metadata@),
            self.metadata_ok() ==> r.metadata_ok(),
    {
        Column { array: self.array.slice(offset, length), metadata: copy_pairs(&self.metadata) }
    }
}

impl<L: LogicalType> ColumnDesc<L> {
    /// Extracts and validates this column of a record batch.
    pub fn extract(&self, batch: &BatchLayout) -> (r: Result<Column<L>, Error>)
        requires
            arrays_ok(batch),
        ensures
            extracted(r, batch, self.name@, self.record_type),
    {
        Column::extract_named(batch, self.name, self.record_type)
    }

    /// Validates a loose array against this column's logical type, labelling
    /// an error with the column and record type.
    pub fn typed_array(&self, array: ArrayLayout) -> (r: Result<TypedArray<L>, Error>)
        requires
            array_ok(array@),
        ensures
            match r {
                Ok(t) => t@ == array@ && spec_verdict(L::spec_logical(), array@) is Valid,
                Err(e) => e.record_type == self.record_type && kind_verdict(
                    *e.kind,
                    self.name@,
                    L::spec_logical(),
                    array@,
                ),
            },
    {
        match TypedArray::try_new(array) {
            Ok(t) => Ok(t),
            Err(e) => Err(Error::new(self.record_type, e.for_column(self.name.to_owned()))),
        }
    }
}

impl<L: ConcreteType> Column<L> {
    /// The exact arrow data type of arrays of this logical type.
    pub fn datatype() -> (d: DataType)
        requires
            is_concrete(L::spec_logical()),
        ensures
            d@ == spec_data_type(L::spec_logical()),
    {
        L::data_type()
    }
}

} // verus!
