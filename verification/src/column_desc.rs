//! Column descriptors: a named handle on one column of a record batch,
//! holding no data.

use std::marker::PhantomData;

use vstd::prelude::*;

use crate::data_type::{DataType, Field, FieldSpec};
use crate::logical::{is_concrete, spec_data_type, spec_nullable};
use crate::markers::{ConcreteType, LogicalType};
use vstd::std_specs::cmp::PartialEqSpec;
use crate::metadata::{
    distinct_pairs, keys_distinct, metadata_eq, owned_pairs, pairs_map, str_eq, str_pairs_view,
    string_pairs_view,
};

verus! {

/// Identifies a strongly-typed column by name: the name of the record type
/// it belongs to (for error messages), the column name, the declared
/// metadata, and the logical type `L`.
#[derive(Debug)]
pub struct ColumnDesc<L> {
    /// What owns the column, or whatever error messages should name.
    pub record_type: &'static str,
    /// The name of the column in the record batch.
    pub name: &'static str,
    /// The declared column metadata, as key-value pairs (a repeated key
    /// takes its last value).
    pub metadata: &'static [(&'static str, &'static str)],
    /// The logical type; a descriptor holds no value of it.
    pub logical_type: PhantomData<L>,
}

impl<L> Clone for ColumnDesc<L> {
    fn clone(&self) -> (r: Self)
        ensures
            r == *self,
    {
        *self
    }
}

impl<L> Copy for ColumnDesc<L> {
}

/// The declared metadata is compared as the map it becomes on the arrow
/// field: the order of the keys does not matter, and a repeated key takes its
/// last value.
impl<L> PartialEq for ColumnDesc<L> {
    fn eq(&self, other: &Self) -> (r: bool) {
        str_eq(self.record_type, other.record_type) && str_eq(self.name, other.name) && metadata_eq(
            self.metadata,
            other.metadata,
        )
    }
}

impl<L> vstd::std_specs::cmp::PartialEqSpecImpl for ColumnDesc<L> {
    open spec fn obeys_eq_spec() -> bool {
        true
    }

    open spec fn eq_spec(&self, other: &Self) -> bool {
        &&& self.record_type@ == other.record_type@
        &&& self.name@ == other.name@
        &&& pairs_map(str_pairs_view(self.metadata@)) == pairs_map(str_pairs_view(other.metadata@))
    }
}

impl<L> Eq for ColumnDesc<L> {
}

impl<L: LogicalType> ColumnDesc<L> {
    /// Describes the column `name` of `record_type`, with no metadata.
    pub fn new(record_type: &'static str, name: &'static str) -> (d: Self)
        ensures
            d.record_type == record_type,
            d.name == name,
            d.metadata@.len() == 0,
    {
        ColumnDesc { record_type, name, metadata: &[], logical_type: PhantomData }
    }

    /// Like [`ColumnDesc::new`], plus the column metadata.
    pub fn new_with_metadata(
        record_type: &'static str,
        name: &'static str,
        metadata: &'static [(&'static str, &'static str)],
    ) -> (d: Self)
        ensures
            d.record_type == record_type,
            d.name == name,
            d.metadata == metadata,
    {
        ColumnDesc { record_type, name, metadata, logical_type: PhantomData }
    }

    /// The same column, read and declared as nullable (`L::Optional`).
    pub fn optional(self) -> (d: ColumnDesc<L::Optional>)
        ensures
            d.record_type == self.record_type,
            d.name == self.name,
            d.metadata == self.metadata,
    {
        ColumnDesc { record_type: self.record_type, name: self.name, metadata: self.metadata, logical_type: PhantomData }
    }

    /// The same column, read and declared as non-nullable (`L::Required`).
    /// Nothing is checked here: extraction is what rejects nulls.
    pub fn required(self) -> (d: ColumnDesc<L::Required>)
        ensures
            d.record_type == self.record_type,
            d.name == self.name,
            d.metadata == self.metadata,
    {
        ColumnDesc { record_type: self.record_type, name: self.name, metadata: self.metadata, logical_type: PhantomData }
    }

    /// The name of the column in the record batch.
    pub fn name(&self) -> (r: &'static str)
        ensures
            r == self.name,
    {
        self.name
    }

    /// The name of the column, owned.
    pub fn name_owned(&self) -> (r: String)
        ensures
            r@ == self.name@,
    {
        self.name.to_owned()
    }

    /// The declared metadata, owned, as the map an arrow field holds: each
    /// key once, with the value of its last declaration.
    pub fn arrow_metadata(&self) -> (r: Vec<(String, String)>)
        ensures
            keys_distinct(string_pairs_view(r@)),
            pairs_map(string_pairs_view(r@)) == pairs_map(str_pairs_view(self.metadata@)),
    {
        distinct_pairs(&owned_pairs(self.metadata))
    }

    /// Forgets the static type; the declared metadata is dropped.
    pub fn to_dyn(self) -> (d: DynColumnDesc)
        ensures
            d.record_type == self.record_type,
            d.name == self.name,
    {
        DynColumnDesc::new(self.record_type, self.name)
    }
}

/// The arrow field a descriptor declares.
pub open spec fn declared_field<L: LogicalType>(d: ColumnDesc<L>) -> FieldSpec {
    FieldSpec {
        name: d.name@,
        data_type: spec_data_type(L::spec_logical()),
        nullable: spec_nullable(L::spec_logical()),
        metadata: pairs_map(str_pairs_view(d.metadata@)),
    }
}

/// Two descriptors of the same logical type compare equal exactly when they
/// name the same record type and declare the same arrow field: the order of
/// the declared metadata pairs, and the values a repeated key loses, do not
/// matter.
pub proof fn lemma_eq_declared_field<L: LogicalType>(a: ColumnDesc<L>, b: ColumnDesc<L>)
    ensures
        a.eq_spec(&b) <==> (a.record_type@ == b.record_type@ && declared_field(a) == declared_field(b)),
{
}

impl<L: ConcreteType> ColumnDesc<L> {
    /// The exact arrow data type of this column.
    pub fn data_type(&self) -> (d: DataType)
        requires
            is_concrete(L::spec_logical()),
        ensures
            d@ == spec_data_type(L::spec_logical()),
    {
        L::data_type()
    }

    /// The arrow field of this column: its name, data type, nullability, and
    /// the declared metadata.
    pub fn arrow_field(&self) -> (f: Field)
        requires
            is_concrete(L::spec_logical()),
        ensures
            f@ == declared_field(*self),
    {
        Field { name: self.name.to_owned(), data_type: L::data_type(), nullable: L::nullable(), metadata: self.arrow_metadata() }
    }
}

/// Identifies a dynamically-typed column by name.
#[derive(Clone, Copy, Debug, PartialEq, Eq)]
pub struct DynColumnDesc {
    /// The name of the record type, for error messages.
    pub record_type: &'static str,
    /// The name of the column in the record batch.
    pub name: &'static str,
}

impl DynColumnDesc {
    /// Describes the column `name` of `record_type`.
    pub fn new(record_type: &'static str, name: &'static str) -> (d: Self)
        ensures
            d.record_type == record_type,
            d.name == name,
    {
        DynColumnDesc { record_type, name }
    }

    /// The name of the column in the record batch.
    pub fn name(&self) -> (r: &'static str)
        ensures
            r == self.name,
    {
        self.name
    }

    /// The name of the column, owned.
    pub fn name_owned(&self) -> (r: String)
        ensures
            r@ == self.name@,
    {
        self.name.to_owned()
    }
}

} // verus!
