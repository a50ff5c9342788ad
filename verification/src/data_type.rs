//! A plain-value description of arrow data types and fields.
//!
//! [`DataType`] and [`Field`] hold, as ordinary Rust values, everything the
//! validation logic reads from an arrow data type. Their views
//! ([`DataTypeSpec`], [`FieldSpec`]) are the mathematical values the contracts
//! speak of: strings become `Seq<char>`, and field metadata becomes the map it
//! denotes (a repeated key takes its last value, as collecting the pairs into a
//! map does).

use vstd::prelude::*;

use crate::metadata::{pairs_map, string_pairs_eq, string_pairs_view};

verus! {

/// The unit of a timestamp, duration, or time-of-day value.
#[derive(Clone, Copy, Debug, PartialEq, Eq, Structural)]
pub enum TimeUnit {
    Second,
    Millisecond,
    Microsecond,
    Nanosecond,
}

/// An arrow data type.
///
/// Data types with no logical type here (decimals, intervals, unions) are
/// kept as [`DataType::Unsupported`], carrying their textual description, so
/// that two of them are equal exactly when their descriptions are.
#[derive(Debug)]
pub enum DataType {
    Null,
    Boolean,
    Int8,
    Int16,
    Int32,
    Int64,
    UInt8,
    UInt16,
    UInt32,
    UInt64,
    Float16,
    Float32,
    Float64,
    Timestamp(TimeUnit, Option<String>),
    Date32,
    Date64,
    Time32(TimeUnit),
    Time64(TimeUnit),
    Duration(TimeUnit),
    Binary,
    FixedSizeBinary(i32),
    LargeBinary,
    BinaryView,
    Utf8,
    LargeUtf8,
    Utf8View,
    List(Box<Field>),
    ListView(Box<Field>),
    FixedSizeList(Box<Field>, i32),
    LargeList(Box<Field>),
    LargeListView(Box<Field>),
    Struct(Vec<Field>),
    Dictionary(Box<DataType>, Box<DataType>),
    MapOf(Box<Field>, bool),
    RunEndEncoded(Box<Field>, Box<Field>),
    Unsupported(String),
}

/// An arrow field: a name, a data type, a nullability flag, and metadata
/// (key-value pairs; a repeated key takes its last value).
#[derive(Debug)]
pub struct Field {
    pub name: String,
    pub data_type: DataType,
    pub nullable: bool,
    pub metadata: Vec<(String, String)>,
}

/// A field with the given name, data type, and nullability, and no metadata.
pub open spec fn plain_field(name: Seq<char>, data_type: DataTypeSpec, nullable: bool) -> FieldSpec {
    FieldSpec { name, data_type, nullable, metadata: pairs_map(Seq::empty()) }
}

/// The mathematical value of a [`DataType`].
pub enum DataTypeSpec {
    Null,
    Boolean,
    Int8,
    Int16,
    Int32,
    Int64,
    UInt8,
    UInt16,
    UInt32,
    UInt64,
    Float16,
    Float32,
    Float64,
    Timestamp(TimeUnit, Option<Seq<char>>),
    Date32,
    Date64,
    Time32(TimeUnit),
    Time64(TimeUnit),
    Duration(TimeUnit),
    Binary,
    FixedSizeBinary(i32),
    LargeBinary,
    BinaryView,
    Utf8,
    LargeUtf8,
    Utf8View,
    List(Box<FieldSpec>),
    ListView(Box<FieldSpec>),
    FixedSizeList(Box<FieldSpec>, i32),
    LargeList(Box<FieldSpec>),
    LargeListView(Box<FieldSpec>),
    Struct(Seq<FieldSpec>),
    Dictionary(Box<DataTypeSpec>, Box<DataTypeSpec>),
    MapOf(Box<FieldSpec>, bool),
    RunEndEncoded(Box<FieldSpec>, Box<FieldSpec>),
    Unsupported(Seq<char>),
}

/// The mathematical value of a [`Field`].
pub struct FieldSpec {
    pub name: Seq<char>,
    pub data_type: DataTypeSpec,
    pub nullable: bool,
    pub metadata: Map<Seq<char>, Seq<char>>,
}

pub open spec fn opt_string_view(s: Option<String>) -> Option<Seq<char>> {
    match s {
        Some(s) => Some(s@),
        None => None,
    }
}

pub open spec fn data_type_view(d: DataType) -> DataTypeSpec
    decreases d, 1int,
{
    match d {
        DataType::Null => DataTypeSpec::Null,
        DataType::Boolean => DataTypeSpec::Boolean,
        DataType::Int8 => DataTypeSpec::Int8,
        DataType::Int16 => DataTypeSpec::Int16,
        DataType::Int32 => DataTypeSpec::Int32,
        DataType::Int64 => DataTypeSpec::Int64,
        DataType::UInt8 => DataTypeSpec::UInt8,
        DataType::UInt16 => DataTypeSpec::UInt16,
        DataType::UInt32 => DataTypeSpec::UInt32,
        DataType::UInt64 => DataTypeSpec::UInt64,
        DataType::Float16 => DataTypeSpec::Float16,
        DataType::Float32 => DataTypeSpec::Float32,
        DataType::Float64 => DataTypeSpec::Float64,
        DataType::Timestamp(u, tz) => DataTypeSpec::Timestamp(u, opt_string_view(tz)),
        DataType::Date32 => DataTypeSpec::Date32,
        DataType::Date64 => DataTypeSpec::Date64,
        DataType::Time32(u) => DataTypeSpec::Time32(u),
        DataType::Time64(u) => DataTypeSpec::Time64(u),
        DataType::Duration(u) => DataTypeSpec::Duration(u),
        DataType::Binary => DataTypeSpec::Binary,
        DataType::FixedSizeBinary(n) => DataTypeSpec::FixedSizeBinary(n),
        DataType::LargeBinary => DataTypeSpec::LargeBinary,
        DataType::BinaryView => DataTypeSpec::BinaryView,
        DataType::Utf8 => DataTypeSpec::Utf8,
        DataType::LargeUtf8 => DataTypeSpec::LargeUtf8,
        DataType::Utf8View => DataTypeSpec::Utf8View,
        DataType::List(f) => DataTypeSpec::List(Box::new(field_view(*f))),
        DataType::ListView(f) => DataTypeSpec::ListView(Box::new(field_view(*f))),
        DataType::FixedSizeList(f, n) => DataTypeSpec::FixedSizeList(Box::new(field_view(*f)), n),
        DataType::LargeList(f) => DataTypeSpec::LargeList(Box::new(field_view(*f))),
        DataType::LargeListView(f) => DataTypeSpec::LargeListView(Box::new(field_view(*f))),
        DataType::Struct(fs) => DataTypeSpec::Struct(fields_view(fs@)),
        DataType::Dictionary(k, v) => DataTypeSpec::Dictionary(
            Box::new(data_type_view(*k)),
            Box::new(data_type_view(*v)),
        ),
        DataType::MapOf(f, sorted) => DataTypeSpec::MapOf(Box::new(field_view(*f)), sorted),
        DataType::RunEndEncoded(r, v) => DataTypeSpec::RunEndEncoded(
            Box::new(field_view(*r)),
            Box::new(field_view(*v)),
        ),
        DataType::Unsupported(s) => DataTypeSpec::Unsupported(s@),
    }
}

pub open spec fn field_view(f: Field) -> FieldSpec
    decreases f, 0int,
{
    FieldSpec {
        name: f.name@,
        data_type: data_type_view(f.data_type),
        nullable: f.nullable,
        metadata: pairs_map(string_pairs_view(f.metadata@)),
    }
}

pub open spec fn fields_view(fs: Seq<Field>) -> Seq<FieldSpec>
    decreases fs, 2int,
{
    if fs.len() == 0 {
        Seq::empty()
    } else {
        seq![field_view(fs[0])] + fields_view(fs.drop_first())
    }
}

impl View for DataType {
    type V = DataTypeSpec;

    open spec fn view(&self) -> DataTypeSpec {
        data_type_view(*self)
    }
}

impl View for Field {
    type V = FieldSpec;

    open spec fn view(&self) -> FieldSpec {
        field_view(*self)
    }
}

/// `fields_view` maps the fields one by one.
pub proof fn lemma_fields_view(fs: Seq<Field>)
    ensures
        fields_view(fs).len() == fs.len(),
        forall|i: int| 0 <= i < fs.len() ==> #[trigger] fields_view(fs)[i] == field_view(fs[i]),
    decreases fs.len(),
{
    if fs.len() > 0 {
        lemma_fields_view(fs.drop_first());
        assert forall|i: int| 0 <= i < fs.len() implies #[trigger] fields_view(fs)[i] == field_view(
            fs[i],
        ) by {
            if i > 0 {
                assert(fs.drop_first()[i - 1] == fs[i]);
            }
        }
    }
}

/// The view of a data type has the same variant, with the views of its parts.
pub proof fn lemma_view_shape(d: DataType)
    ensures
        (d@ is List) == (d is List),
        (d@ is LargeList) == (d is LargeList),
        (d@ is ListView) == (d is ListView),
        (d@ is LargeListView) == (d is LargeListView),
        (d@ is FixedSizeList) == (d is FixedSizeList),
        (d@ is Struct) == (d is Struct),
        (d@ is Dictionary) == (d is Dictionary),
        (d@ is MapOf) == (d is MapOf),
        (d@ is RunEndEncoded) == (d is RunEndEncoded),
        (d@ is Timestamp) == (d is Timestamp),
        (d@ is FixedSizeBinary) == (d is FixedSizeBinary),
        (d@ is Utf8) == (d is Utf8),
        (d@ is LargeUtf8) == (d is LargeUtf8),
        (d@ is Utf8View) == (d is Utf8View),
        (d@ is Binary) == (d is Binary),
        (d@ is LargeBinary) == (d is LargeBinary),
        (d@ is BinaryView) == (d is BinaryView),
        (d@ is Null) == (d is Null),
        d is List ==> d@ == DataTypeSpec::List(Box::new(field_view(*(d->List_0)))),
        d is LargeList ==> d@ == DataTypeSpec::LargeList(Box::new(field_view(*(d->LargeList_0)))),
        d is ListView ==> d@ == DataTypeSpec::ListView(Box::new(field_view(*(d->ListView_0)))),
        d is LargeListView ==> d@ == DataTypeSpec::LargeListView(
            Box::new(field_view(*(d->LargeListView_0))),
        ),
        d is FixedSizeList ==> d@ == DataTypeSpec::FixedSizeList(
            Box::new(field_view(*(d->FixedSizeList_0))),
            d->FixedSizeList_1,
        ),
        d is Struct ==> d@ == DataTypeSpec::Struct(fields_view((d->Struct_0)@)),
        d is Dictionary ==> d@ == DataTypeSpec::Dictionary(
            Box::new(data_type_view(*(d->Dictionary_0))),
            Box::new(data_type_view(*(d->Dictionary_1))),
        ),
        d is MapOf ==> d@ == DataTypeSpec::MapOf(Box::new(field_view(*(d->MapOf_0))), d->MapOf_1),
        d is RunEndEncoded ==> d@ == DataTypeSpec::RunEndEncoded(
            Box::new(field_view(*(d->RunEndEncoded_0))),
            Box::new(field_view(*(d->RunEndEncoded_1))),
        ),
        d is FixedSizeBinary ==> d@ == DataTypeSpec::FixedSizeBinary(d->FixedSizeBinary_0),
{
}

/// Is `actual` acceptable where `declared` is expected?
///
/// Like equality, except that the inner fields of nested data types are
/// compared structurally: their names, nullability flags, and metadata are
/// ignored.
pub open spec fn spec_compatible(actual: DataTypeSpec, declared: DataTypeSpec) -> bool
    decreases actual,
{
    match (actual, declared) {
        (DataTypeSpec::List(a), DataTypeSpec::List(d)) => spec_compatible(a.data_type, d.data_type),
        (DataTypeSpec::LargeList(a), DataTypeSpec::LargeList(d)) => spec_compatible(
            a.data_type,
            d.data_type,
        ),
        (DataTypeSpec::ListView(a), DataTypeSpec::ListView(d)) => spec_compatible(
            a.data_type,
            d.data_type,
        ),
        (DataTypeSpec::LargeListView(a), DataTypeSpec::LargeListView(d)) => spec_compatible(
            a.data_type,
            d.data_type,
        ),
        (DataTypeSpec::FixedSizeList(a, n), DataTypeSpec::FixedSizeList(d, m)) => n == m
            && spec_compatible(a.data_type, d.data_type),
        (DataTypeSpec::Dictionary(ak, av), DataTypeSpec::Dictionary(dk, dv)) => spec_compatible(
            *ak,
            *dk,
        ) && spec_compatible(*av, *dv),
        _ => actual == declared,
    }
}

/// Compatibility is reflexive: every data type is acceptable where it is itself declared.
pub proof fn lemma_compatible_reflexive(d: DataTypeSpec)
    ensures
        spec_compatible(d, d),
    decreases d,
{
    match d {
        DataTypeSpec::List(f) => lemma_compatible_reflexive(f.data_type),
        DataTypeSpec::LargeList(f) => lemma_compatible_reflexive(f.data_type),
        DataTypeSpec::ListView(f) => lemma_compatible_reflexive(f.data_type),
        DataTypeSpec::LargeListView(f) => lemma_compatible_reflexive(f.data_type),
        DataTypeSpec::FixedSizeList(f, _) => lemma_compatible_reflexive(f.data_type),
        DataTypeSpec::Dictionary(k, v) => {
            lemma_compatible_reflexive(*k);
            lemma_compatible_reflexive(*v);
        },
        _ => {},
    }
}

/// Compatibility is symmetric.
pub proof fn lemma_compatible_symmetric(a: DataTypeSpec, b: DataTypeSpec)
    ensures
        spec_compatible(a, b) == spec_compatible(b, a),
    decreases a,
{
    match (a, b) {
        (DataTypeSpec::List(x), DataTypeSpec::List(y)) => lemma_compatible_symmetric(
            x.data_type,
            y.data_type,
        ),
        (DataTypeSpec::LargeList(x), DataTypeSpec::LargeList(y)) => lemma_compatible_symmetric(
            x.data_type,
            y.data_type,
        ),
        (DataTypeSpec::ListView(x), DataTypeSpec::ListView(y)) => lemma_compatible_symmetric(
            x.data_type,
            y.data_type,
        ),
        (DataTypeSpec::LargeListView(x), DataTypeSpec::LargeListView(y)) => {
            lemma_compatible_symmetric(x.data_type, y.data_type)
        },
        (DataTypeSpec::FixedSizeList(x, _), DataTypeSpec::FixedSizeList(y, _)) => {
            lemma_compatible_symmetric(x.data_type, y.data_type)
        },
        (DataTypeSpec::Dictionary(xk, xv), DataTypeSpec::Dictionary(yk, yv)) => {
            lemma_compatible_symmetric(*xk, *yk);
            lemma_compatible_symmetric(*xv, *yv);
        },
        _ => {},
    }
}

/// Compatibility is transitive.
pub proof fn lemma_compatible_transitive(a: DataTypeSpec, b: DataTypeSpec, c: DataTypeSpec)
    requires
        spec_compatible(a, b),
        spec_compatible(b, c),
    ensures
        spec_compatible(a, c),
    decreases a,
{
    match (a, b, c) {
        (DataTypeSpec::List(x), DataTypeSpec::List(y), DataTypeSpec::List(z)) => {
            lemma_compatible_transitive(x.data_type, y.data_type, z.data_type)
        },
        (DataTypeSpec::LargeList(x), DataTypeSpec::LargeList(y), DataTypeSpec::LargeList(z)) => {
            lemma_compatible_transitive(x.data_type, y.data_type, z.data_type)
        },
        (DataTypeSpec::ListView(x), DataTypeSpec::ListView(y), DataTypeSpec::ListView(z)) => {
            lemma_compatible_transitive(x.data_type, y.data_type, z.data_type)
        },
        (
            DataTypeSpec::LargeListView(x),
            DataTypeSpec::LargeListView(y),
            DataTypeSpec::LargeListView(z),
        ) => lemma_compatible_transitive(x.data_type, y.data_type, z.data_type),
        (
            DataTypeSpec::FixedSizeList(x, _),
            DataTypeSpec::FixedSizeList(y, _),
            DataTypeSpec::FixedSizeList(z, _),
        ) => lemma_compatible_transitive(x.data_type, y.data_type, z.data_type),
        (
            DataTypeSpec::Dictionary(xk, xv),
            DataTypeSpec::Dictionary(yk, yv),
            DataTypeSpec::Dictionary(zk, zv),
        ) => {
            lemma_compatible_transitive(*xk, *yk, *zk);
            lemma_compatible_transitive(*xv, *yv, *zv);
        },
        _ => {},
    }
}

impl TimeUnit {
    /// The same unit (a copy).
    pub fn duplicate(&self) -> (r: TimeUnit)
        ensures
            r == *self,
    {
        *self
    }
}

pub fn opt_string_duplicate(s: &Option<String>) -> (r: Option<String>)
    ensures
        opt_string_view(r) == opt_string_view(*s),
{
    match s {
        Some(s) => Some(s.clone()),
        None => None,
    }
}

pub fn opt_string_eq(a: &Option<String>, b: &Option<String>) -> (r: bool)
    ensures
        r == (opt_string_view(*a) == opt_string_view(*b)),
{
    match (a, b) {
        (None, None) => true,
        (Some(x), Some(y)) => x.eq(y),
        _ => false,
    }
}

impl DataType {
    /// A copy of this data type, with the same value.
    pub fn duplicate(&self) -> (r: DataType)
        ensures
            r@ == self@,
        decreases *self,
    {
        match self {
            DataType::Null => DataType::Null,
            DataType::Boolean => DataType::Boolean,
            DataType::Int8 => DataType::Int8,
            DataType::Int16 => DataType::Int16,
            DataType::Int32 => DataType::Int32,
            DataType::Int64 => DataType::Int64,
            DataType::UInt8 => DataType::UInt8,
            DataType::UInt16 => DataType::UInt16,
            DataType::UInt32 => DataType::UInt32,
            DataType::UInt64 => DataType::UInt64,
            DataType::Float16 => DataType::Float16,
            DataType::Float32 => DataType::Float32,
            DataType::Float64 => DataType::Float64,
            DataType::Timestamp(u, tz) => DataType::Timestamp(*u, opt_string_duplicate(tz)),
            DataType::Date32 => DataType::Date32,
            DataType::Date64 => DataType::Date64,
            DataType::Time32(u) => DataType::Time32(*u),
            DataType::Time64(u) => DataType::Time64(*u),
            DataType::Duration(u) => DataType::Duration(*u),
            DataType::Binary => DataType::Binary,
            DataType::FixedSizeBinary(n) => DataType::FixedSizeBinary(*n),
            DataType::LargeBinary => DataType::LargeBinary,
            DataType::BinaryView => DataType::BinaryView,
            DataType::Utf8 => DataType::Utf8,
            DataType::LargeUtf8 => DataType::LargeUtf8,
            DataType::Utf8View => DataType::Utf8View,
            DataType::List(f) => DataType::List(Box::new(f.duplicate())),
            DataType::ListView(f) => DataType::ListView(Box::new(f.duplicate())),
            DataType::FixedSizeList(f, n) => DataType::FixedSizeList(Box::new(f.duplicate()), *n),
            DataType::LargeList(f) => DataType::LargeList(Box::new(f.duplicate())),
            DataType::LargeListView(f) => DataType::LargeListView(Box::new(f.duplicate())),
            DataType::Struct(fs) => {
                let mut out: Vec<Field> = Vec::new();
                let mut i: usize = 0;
                while i < fs.len()
                    invariant
                        0 <= i <= fs.len(),
                        out@.len() == i,
                        *self == DataType::Struct(*fs),
                        decreases_to!(*self => fs@),
                        forall|j: int| 0 <= j < i ==> #[trigger] field_view(out@[j]) == field_view(
                            fs@[j],
                        ),
                    decreases fs.len() - i,
                {
                    proof {
                        assert(decreases_to!(fs@ => fs@[i as int]));
                    }
                    let f = fs[i].duplicate();
                    out.push(f);
                    i += 1;
                }
                proof {
                    lemma_fields_view(out@);
                    lemma_fields_view(fs@);
                    assert(fields_view(out@) =~= fields_view(fs@));
                }
                DataType::Struct(out)
            },
            DataType::Dictionary(k, v) => DataType::Dictionary(
                Box::new(k.duplicate()),
                Box::new(v.duplicate()),
            ),
            DataType::MapOf(f, sorted) => DataType::MapOf(Box::new(f.duplicate()), *sorted),
            DataType::RunEndEncoded(r, v) => DataType::RunEndEncoded(
                Box::new(r.duplicate()),
                Box::new(v.duplicate()),
            ),
            DataType::Unsupported(s) => DataType::Unsupported(s.clone()),
        }
    }
}

impl Field {
    /// A field with no metadata.
    pub fn new(name: String, data_type: DataType, nullable: bool) -> (f: Field)
        ensures
            f@ == plain_field(name@, data_type@, nullable),
            f.metadata@.len() == 0,
    {
        let f = Field { name, data_type, nullable, metadata: Vec::new() };
        proof {
            assert(string_pairs_view(f.metadata@) =~= Seq::empty());
        }
        f
    }

    /// A copy of this field, with the same value and the same metadata pairs.
    pub fn duplicate(&self) -> (r: Field)
        ensures
            r@ == self@,
            string_pairs_view(r.metadata@) == string_pairs_view(self.metadata@),
        decreases *self,
    {
        let mut metadata: Vec<(String, String)> = Vec::new();
        let mut i: usize = 0;
        while i < self.metadata.len()
            invariant
                0 <= i <= self.metadata.len(),
                metadata@.len() == i,
                forall|j: int|
                    0 <= j < i ==> #[trigger] metadata@[j].0@ == self.metadata@[j].0@
                        && metadata@[j].1@ == self.metadata@[j].1@,
            decreases self.metadata.len() - i,
        {
            let pair = &self.metadata[i];
            metadata.push((pair.0.clone(), pair.1.clone()));
            i += 1;
        }
        proof {
            assert(string_pairs_view(metadata@) =~= string_pairs_view(self.metadata@));
        }
        Field {
            name: self.name.clone(),
            data_type: self.data_type.duplicate(),
            nullable: self.nullable,
            metadata,
        }
    }
}

/// Are the two data types equal (as values)?
pub fn data_type_eq(a: &DataType, b: &DataType) -> (r: bool)
    ensures
        r == (a@ == b@),
    decreases *a,
{
    match (a, b) {
        (DataType::Null, DataType::Null) => true,
        (DataType::Boolean, DataType::Boolean) => true,
        (DataType::Int8, DataType::Int8) => true,
        (DataType::Int16, DataType::Int16) => true,
        (DataType::Int32, DataType::Int32) => true,
        (DataType::Int64, DataType::Int64) => true,
        (DataType::UInt8, DataType::UInt8) => true,
        (DataType::UInt16, DataType::UInt16) => true,
        (DataType::UInt32, DataType::UInt32) => true,
        (DataType::UInt64, DataType::UInt64) => true,
        (DataType::Float16, DataType::Float16) => true,
        (DataType::Float32, DataType::Float32) => true,
        (DataType::Float64, DataType::Float64) => true,
        (DataType::Timestamp(u, x), DataType::Timestamp(w, y)) => *u == *w && opt_string_eq(x, y),
        (DataType::Date32, DataType::Date32) => true,
        (DataType::Date64, DataType::Date64) => true,
        (DataType::Time32(u), DataType::Time32(w)) => *u == *w,
        (DataType::Time64(u), DataType::Time64(w)) => *u == *w,
        (DataType::Duration(u), DataType::Duration(w)) => *u == *w,
        (DataType::Binary, DataType::Binary) => true,
        (DataType::FixedSizeBinary(n), DataType::FixedSizeBinary(m)) => *n == *m,
        (DataType::LargeBinary, DataType::LargeBinary) => true,
        (DataType::BinaryView, DataType::BinaryView) => true,
        (DataType::Utf8, DataType::Utf8) => true,
        (DataType::LargeUtf8, DataType::LargeUtf8) => true,
        (DataType::Utf8View, DataType::Utf8View) => true,
        (DataType::List(x), DataType::List(y)) => field_eq(x, y),
        (DataType::ListView(x), DataType::ListView(y)) => field_eq(x, y),
        (DataType::FixedSizeList(x, n), DataType::FixedSizeList(y, m)) => *n == *m && field_eq(x, y),
        (DataType::LargeList(x), DataType::LargeList(y)) => field_eq(x, y),
        (DataType::LargeListView(x), DataType::LargeListView(y)) => field_eq(x, y),
        (DataType::Struct(x), DataType::Struct(y)) => {
            proof {
                lemma_fields_view(x@);
                lemma_fields_view(y@);
            }
            if x.len() != y.len() {
                return false;
            }
            let mut i: usize = 0;
            while i < x.len()
                invariant
                    0 <= i <= x.len(),
                    x.len() == y.len(),
                    *a == DataType::Struct(*x),
                    *b == DataType::Struct(*y),
                    decreases_to!(*a => x@),
                    fields_view(x@).len() == x@.len(),
                    fields_view(y@).len() == y@.len(),
                    forall|j: int| 0 <= j < x@.len() ==> #[trigger] fields_view(x@)[j] == field_view(x@[j]),
                    forall|j: int| 0 <= j < y@.len() ==> #[trigger] fields_view(y@)[j] == field_view(y@[j]),
                    forall|j: int| 0 <= j < i ==> #[trigger] field_view(x@[j]) == field_view(y@[j]),
                decreases x.len() - i,
            {
                proof {
                    assert(decreases_to!(x@ => x@[i as int]));
                }
                if !field_eq(&x[i], &y[i]) {
                    assert(fields_view(x@)[i as int] != fields_view(y@)[i as int]);
                    return false;
                }
                i += 1;
            }
            assert(fields_view(x@) =~= fields_view(y@));
            true
        },
        (DataType::Dictionary(k1, v1), DataType::Dictionary(k2, v2)) => data_type_eq(k1, k2)
            && data_type_eq(v1, v2),
        (DataType::MapOf(x, s1), DataType::MapOf(y, s2)) => *s1 == *s2 && field_eq(x, y),
        (DataType::RunEndEncoded(r1, v1), DataType::RunEndEncoded(r2, v2)) => field_eq(r1, r2)
            && field_eq(v1, v2),
        (DataType::Unsupported(s), DataType::Unsupported(t)) => s.eq(t),
        _ => false,
    }
}

/// Are the two fields equal (as values): name, data type, nullability, and
/// metadata (compared as maps)?
pub fn field_eq(a: &Field, b: &Field) -> (r: bool)
    ensures
        r == (a@ == b@),
    decreases *a,
{
    a.name == b.name && a.nullable == b.nullable && data_type_eq(&a.data_type, &b.data_type)
        && string_pairs_eq(&a.metadata, &b.metadata)
}

/// Are arrow arrays of data type `actual` acceptable where `declared` is expected?
///
/// Like equality, except that the inner fields of nested data types are
/// compared structurally: their names (`"item"` vs `"element"`), nullability
/// flags, and metadata are ignored.
pub fn datatypes_compatible(actual: &DataType, declared: &DataType) -> (r: bool)
    ensures
        r == spec_compatible(actual@, declared@),
    decreases *actual,
{
    match (actual, declared) {
        (DataType::List(a), DataType::List(d)) => {
            assert(actual@ == DataTypeSpec::List(Box::new(field_view(**a))));
            assert(declared@ == DataTypeSpec::List(Box::new(field_view(**d))));
            let r = datatypes_compatible(&a.data_type, &d.data_type);
            assert(r == spec_compatible(actual@, declared@));
            r
        },
        (DataType::LargeList(a), DataType::LargeList(d)) => {
            assert(actual@ == DataTypeSpec::LargeList(Box::new(field_view(**a))));
            assert(declared@ == DataTypeSpec::LargeList(Box::new(field_view(**d))));
            let r = datatypes_compatible(&a.data_type, &d.data_type);
            assert(r == spec_compatible(actual@, declared@));
            r
        },
        (DataType::ListView(a), DataType::ListView(d)) => {
            assert(actual@ == DataTypeSpec::ListView(Box::new(field_view(**a))));
            assert(declared@ == DataTypeSpec::ListView(Box::new(field_view(**d))));
            let r = datatypes_compatible(&a.data_type, &d.data_type);
            assert(r == spec_compatible(actual@, declared@));
            r
        },
        (DataType::LargeListView(a), DataType::LargeListView(d)) => {
            assert(actual@ == DataTypeSpec::LargeListView(Box::new(field_view(**a))));
            assert(declared@ == DataTypeSpec::LargeListView(Box::new(field_view(**d))));
            let r = datatypes_compatible(&a.data_type, &d.data_type);
            assert(r == spec_compatible(actual@, declared@));
            r
        },
        (DataType::FixedSizeList(a, n), DataType::FixedSizeList(d, m)) => {
            assert(actual@ == DataTypeSpec::FixedSizeList(Box::new(field_view(**a)), *n));
            assert(declared@ == DataTypeSpec::FixedSizeList(Box::new(field_view(**d)), *m));
            let r = *n == *m && datatypes_compatible(&a.data_type, &d.data_type);
            assert(r == spec_compatible(actual@, declared@));
            r
        },
        (DataType::Dictionary(ak, av), DataType::Dictionary(dk, dv)) => {
            assert(actual@ == DataTypeSpec::Dictionary(Box::new(data_type_view(**ak)), Box::new(data_type_view(**av))));
            assert(declared@ == DataTypeSpec::Dictionary(Box::new(data_type_view(**dk)), Box::new(data_type_view(**dv))));
            let k = datatypes_compatible(ak, dk);
            let v = datatypes_compatible(av, dv);
            assert((k && v) == spec_compatible(actual@, declared@));
            k && v
        },
        _ => {
            let r = data_type_eq(actual, declared);
            assert(r == spec_compatible(actual@, declared@));
            r
        },
    }
}

} // verus!
