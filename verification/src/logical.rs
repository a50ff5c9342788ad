//! Logical column types as values.
//!
//! A [`Logical`] describes what a column holds: `Utf8`, `Option<i64>`,
//! `List<Utf8>`, … . The marker types (`Utf8`, `List<L>`, …) each denote one
//! `Logical`; this module says which arrow data types each one accepts, which
//! single data type a concrete one declares, and how nullability composes.

use vstd::prelude::*;

use crate::data_type::{
    data_type_eq, fields_view, lemma_compatible_reflexive, lemma_fields_view, lemma_view_shape,
    plain_field, spec_compatible, DataType, DataTypeSpec, Field, FieldSpec, TimeUnit,
};

verus! {

/// A logical column type.
pub enum Logical {
    Boolean,
    Int8,
    Int16,
    Int32,
    Int64,
    UInt8,
    UInt16,
    UInt32,
    UInt64,
    Float16,
    Float32,
    Float64,
    Utf8,
    LargeUtf8,
    Utf8View,
    /// Any of the UTF-8 encodings (parse-only).
    AnyUtf8,
    Binary,
    LargeBinary,
    BinaryView,
    /// Any of the byte-string encodings, including fixed-size ones (parse-only).
    AnyBinary,
    FixedSizeBinary(usize),
    Date32,
    Date64,
    Time32(TimeUnit),
    Time64(TimeUnit),
    Timestamp(TimeUnit, Option<&'static str>),
    Duration(TimeUnit),
    List(Box<Logical>),
    LargeList(Box<Logical>),
    ListView(Box<Logical>),
    LargeListView(Box<Logical>),
    FixedSizeList(Box<Logical>, usize),
    /// Any of the list encodings (parse-only).
    AnyList(Box<Logical>),
    /// Maps from keys to values.
    MapOf(Box<Logical>, Box<Logical>),
    /// A dictionary-encoded column of values, with the given key type.
    Dictionary(Box<Logical>, Box<Logical>),
    /// A run-end-encoded column of values, with the given run-end type.
    Run(Box<Logical>, Box<Logical>),
    /// The values at this level may be null (`Option<L>`).
    Nullable(Box<Logical>),
    /// Read as the inner type, ignoring the validity mask at this level.
    IgnoreValidity(Box<Logical>),
    /// Any data type, read dynamically.
    Dyn,
}

/// May the values at this level be null?
pub open spec fn spec_nullable(l: Logical) -> bool
    decreases l,
{
    match l {
        Logical::Nullable(_) => true,
        Logical::IgnoreValidity(inner) => spec_nullable(*inner),
        _ => false,
    }
}

/// Are nulls at this level an error?
pub open spec fn spec_rejects_nulls(l: Logical) -> bool {
    match l {
        Logical::Nullable(_) => false,
        Logical::IgnoreValidity(_) => false,
        _ => true,
    }
}

/// The type made nullable: `Option<L>`, unless it is already an `Option`.
pub open spec fn optional_of(l: Logical) -> Logical {
    match l {
        Logical::Nullable(_) => l,
        _ => Logical::Nullable(Box::new(l)),
    }
}

/// The type made non-nullable: every `Option` layer comes off.
pub open spec fn required_of(l: Logical) -> Logical
    decreases l,
{
    match l {
        Logical::Nullable(inner) => required_of(*inner),
        _ => l,
    }
}

/// Integer types usable as dictionary keys.
pub open spec fn is_dictionary_key(l: Logical) -> bool {
    match l {
        Logical::Int8 | Logical::Int16 | Logical::Int32 | Logical::Int64 | Logical::UInt8
        | Logical::UInt16 | Logical::UInt32 | Logical::UInt64 => true,
        _ => false,
    }
}

/// Integer types usable as run ends.
pub open spec fn is_run_end_type(l: Logical) -> bool {
    match l {
        Logical::Int16 | Logical::Int32 | Logical::Int64 => true,
        _ => false,
    }
}

/// Does the logical type correspond to a single concrete arrow data type?
/// (Multi-encoding types are parse-only.)
pub open spec fn is_concrete(l: Logical) -> bool
    decreases l,
{
    match l {
        Logical::AnyUtf8 | Logical::AnyBinary | Logical::AnyList(_) => false,
        Logical::FixedSizeBinary(n) => n <= i32::MAX,
        Logical::List(inner) | Logical::LargeList(inner) | Logical::ListView(inner)
        | Logical::LargeListView(inner) | Logical::Nullable(inner) | Logical::IgnoreValidity(
            inner,
        ) => is_concrete(*inner),
        Logical::FixedSizeList(inner, n) => n <= i32::MAX && is_concrete(*inner),
        Logical::MapOf(k, v) => is_concrete(*k) && is_concrete(*v),
        Logical::Dictionary(k, v) => is_dictionary_key(*k) && is_concrete(*v),
        Logical::Run(r, v) => is_run_end_type(*r) && is_concrete(*v),
        _ => true,
    }
}

/// Can the type always be built from values (no key or run-end overflow, a
/// known data type, and a single encoding)?
pub open spec fn is_infallible(l: Logical) -> bool
    decreases l,
{
    match l {
        Logical::Dictionary(_, _) | Logical::Run(_, _) | Logical::Dyn => false,
        Logical::AnyUtf8 | Logical::AnyBinary | Logical::AnyList(_) => false,
        Logical::List(inner) | Logical::LargeList(inner) | Logical::ListView(inner)
        | Logical::LargeListView(inner) | Logical::Nullable(inner) | Logical::IgnoreValidity(
            inner,
        ) | Logical::FixedSizeList(inner, _) => is_infallible(*inner),
        Logical::MapOf(k, v) => is_infallible(*k) && is_infallible(*v),
        _ => true,
    }
}

pub open spec fn str_opt_view(s: Option<&'static str>) -> Option<Seq<char>> {
    match s {
        Some(s) => Some(s@),
        None => None,
    }
}

/// The list item field of a concrete item type.
pub open spec fn item_field(inner: Logical) -> FieldSpec
    decreases inner, 2int,
{
    plain_field("item"@, spec_data_type(inner), spec_nullable(inner))
}

/// The exact arrow data type a concrete logical type declares
/// (including the nullability of inner fields).
pub open spec fn spec_data_type(l: Logical) -> DataTypeSpec
    decreases l, 1int,
{
    match l {
        Logical::Boolean => DataTypeSpec::Boolean,
        Logical::Int8 => DataTypeSpec::Int8,
        Logical::Int16 => DataTypeSpec::Int16,
        Logical::Int32 => DataTypeSpec::Int32,
        Logical::Int64 => DataTypeSpec::Int64,
        Logical::UInt8 => DataTypeSpec::UInt8,
        Logical::UInt16 => DataTypeSpec::UInt16,
        Logical::UInt32 => DataTypeSpec::UInt32,
        Logical::UInt64 => DataTypeSpec::UInt64,
        Logical::Float16 => DataTypeSpec::Float16,
        Logical::Float32 => DataTypeSpec::Float32,
        Logical::Float64 => DataTypeSpec::Float64,
        Logical::Utf8 => DataTypeSpec::Utf8,
        Logical::LargeUtf8 => DataTypeSpec::LargeUtf8,
        Logical::Utf8View => DataTypeSpec::Utf8View,
        Logical::Binary => DataTypeSpec::Binary,
        Logical::LargeBinary => DataTypeSpec::LargeBinary,
        Logical::BinaryView => DataTypeSpec::BinaryView,
        Logical::FixedSizeBinary(n) => DataTypeSpec::FixedSizeBinary(n as i32),
        Logical::Date32 => DataTypeSpec::Date32,
        Logical::Date64 => DataTypeSpec::Date64,
        Logical::Time32(u) => DataTypeSpec::Time32(u),
        Logical::Time64(u) => DataTypeSpec::Time64(u),
        Logical::Timestamp(u, tz) => DataTypeSpec::Timestamp(u, str_opt_view(tz)),
        Logical::Duration(u) => DataTypeSpec::Duration(u),
        Logical::List(inner) => DataTypeSpec::List(Box::new(item_field(*inner))),
        Logical::LargeList(inner) => DataTypeSpec::LargeList(Box::new(item_field(*inner))),
        Logical::ListView(inner) => DataTypeSpec::ListView(Box::new(item_field(*inner))),
        Logical::LargeListView(inner) => DataTypeSpec::LargeListView(Box::new(item_field(*inner))),
        Logical::FixedSizeList(inner, n) => DataTypeSpec::FixedSizeList(
            Box::new(item_field(*inner)),
            n as i32,
        ),
        Logical::MapOf(k, v) => DataTypeSpec::MapOf(
            Box::new(
                plain_field(
                    "entries"@,
                    DataTypeSpec::Struct(
                        seq![
                            plain_field("keys"@, spec_data_type(*k), false),
                            plain_field("values"@, spec_data_type(*v), spec_nullable(*v)),
                        ],
                    ),
                    false,
                ),
            ),
            false,
        ),
        Logical::Dictionary(k, v) => DataTypeSpec::Dictionary(
            Box::new(spec_data_type(*k)),
            Box::new(spec_data_type(*v)),
        ),
        Logical::Run(r, v) => DataTypeSpec::RunEndEncoded(
            Box::new(plain_field("run_ends"@, spec_data_type(*r), false)),
            Box::new(plain_field("values"@, spec_data_type(*v), spec_nullable(*v))),
        ),
        Logical::Nullable(inner) => spec_data_type(*inner),
        Logical::IgnoreValidity(inner) => spec_data_type(*inner),
        // `Dyn` has no data type of its own; it declares the placeholder `Null`.
        Logical::Dyn => DataTypeSpec::Null,
        // Parse-only types declare no data type.
        Logical::AnyUtf8 | Logical::AnyBinary | Logical::AnyList(_) => DataTypeSpec::Null,
    }
}

/// Does the logical type accept arrow arrays of data type `d`?
///
/// Concrete types accept their declared data type, compared structurally
/// (inner field names, nullability flags, and metadata are ignored), with
/// timestamps and maps as the exceptions spelled out below; containers
/// forward to their inner types; multi-encoding types accept each of their
/// encodings; `Dyn` accepts everything.
pub open spec fn spec_accepts(l: Logical, d: DataTypeSpec) -> bool
    decreases l,
{
    match l {
        Logical::AnyUtf8 => d is Utf8 || d is LargeUtf8 || d is Utf8View,
        Logical::AnyBinary => d is Binary || d is LargeBinary || d is BinaryView || d is FixedSizeBinary,
        Logical::FixedSizeBinary(n) => d matches DataTypeSpec::FixedSizeBinary(m) && m as int == n as int,
        Logical::List(inner) => d matches DataTypeSpec::List(f) && spec_accepts(*inner, f.data_type),
        Logical::LargeList(inner) => d matches DataTypeSpec::LargeList(f) && spec_accepts(
            *inner,
            f.data_type,
        ),
        Logical::ListView(inner) => d matches DataTypeSpec::ListView(f) && spec_accepts(
            *inner,
            f.data_type,
        ),
        Logical::LargeListView(inner) => d matches DataTypeSpec::LargeListView(f) && spec_accepts(
            *inner,
            f.data_type,
        ),
        Logical::FixedSizeList(inner, n) => d matches DataTypeSpec::FixedSizeList(f, m) && m as int
            == n as int && spec_accepts(*inner, f.data_type),
        Logical::AnyList(inner) => match d {
            DataTypeSpec::List(f) => spec_accepts(*inner, f.data_type),
            DataTypeSpec::LargeList(f) => spec_accepts(*inner, f.data_type),
            DataTypeSpec::ListView(f) => spec_accepts(*inner, f.data_type),
            DataTypeSpec::LargeListView(f) => spec_accepts(*inner, f.data_type),
            DataTypeSpec::FixedSizeList(f, _) => spec_accepts(*inner, f.data_type),
            _ => false,
        },
        // The entries field name, the `{key, value}` field names, the
        // nullability flags, and the sortedness flag are all ignored.
        Logical::MapOf(k, v) => d matches DataTypeSpec::MapOf(entries, _) && entries.data_type matches DataTypeSpec::Struct(
            fs,
        ) && fs.len() == 2 && spec_accepts(*k, fs[0].data_type) && spec_accepts(*v, fs[1].data_type),
        Logical::Dictionary(k, v) => d matches DataTypeSpec::Dictionary(dk, dv) && spec_accepts(
            *k,
            *dk,
        ) && spec_accepts(*v, *dv),
        Logical::Run(r, v) => d matches DataTypeSpec::RunEndEncoded(rf, vf) && spec_accepts(
            *r,
            rf.data_type,
        ) && spec_accepts(*v, vf.data_type),
        Logical::Nullable(inner) => spec_accepts(*inner, d),
        Logical::IgnoreValidity(inner) => spec_accepts(*inner, d),
        Logical::Dyn => true,
        // Leaves, timestamps included (their timezone is matched exactly):
        _ => d == spec_data_type(l),
    }
}

/// The data types named as "expected" when a column is rejected.
pub open spec fn spec_supported(l: Logical) -> Seq<DataTypeSpec>
    decreases l,
{
    match l {
        Logical::AnyUtf8 => seq![DataTypeSpec::Utf8, DataTypeSpec::LargeUtf8, DataTypeSpec::Utf8View],
        Logical::AnyBinary => seq![
            DataTypeSpec::Binary,
            DataTypeSpec::LargeBinary,
            DataTypeSpec::BinaryView,
        ],
        Logical::AnyList(inner) => if is_concrete(*inner) {
            seq![
                DataTypeSpec::List(Box::new(item_field(*inner))),
                DataTypeSpec::LargeList(Box::new(item_field(*inner))),
                DataTypeSpec::ListView(Box::new(item_field(*inner))),
                DataTypeSpec::LargeListView(Box::new(item_field(*inner))),
            ]
        } else {
            Seq::empty()
        },
        Logical::Nullable(inner) => spec_supported(*inner),
        Logical::IgnoreValidity(inner) => spec_supported(*inner),
        _ => if is_concrete(l) {
            seq![spec_data_type(l)]
        } else {
            Seq::empty()
        },
    }
}

/// Making a type nullable is idempotent.
pub proof fn lemma_optional_idempotent(l: Logical)
    ensures
        optional_of(optional_of(l)) == optional_of(l),
        spec_nullable(optional_of(l)),
{
}

/// Making a type non-nullable is idempotent, undoes `optional_of`, and
/// declares the values non-nullable (unless an `IgnoreValidity` forwards an
/// inner `Option`).
pub proof fn lemma_required_idempotent(l: Logical)
    ensures
        required_of(required_of(l)) == required_of(l),
        required_of(optional_of(l)) == required_of(l),
        !(required_of(l) is Nullable),
        !(required_of(l) is IgnoreValidity) ==> !spec_nullable(required_of(l)),
    decreases l,
{
    match l {
        Logical::Nullable(inner) => lemma_required_idempotent(*inner),
        _ => {},
    }
}

/// Nullability changes neither the accepted nor the declared data types.
pub proof fn lemma_optional_same_data_types(l: Logical, d: DataTypeSpec)
    ensures
        spec_accepts(optional_of(l), d) == spec_accepts(l, d),
        spec_accepts(required_of(l), d) == spec_accepts(l, d),
        spec_data_type(optional_of(l)) == spec_data_type(l),
        spec_data_type(required_of(l)) == spec_data_type(l),
        is_concrete(optional_of(l)) == is_concrete(l),
        is_concrete(required_of(l)) == is_concrete(l),
    decreases l,
{
    match l {
        Logical::Nullable(inner) => lemma_optional_same_data_types(*inner, d),
        _ => {},
    }
}

/// A concrete type accepts every data type that is structurally compatible
/// with the one it declares.
pub proof fn lemma_accepts_compatible(l: Logical, d: DataTypeSpec)
    requires
        is_concrete(l),
        spec_compatible(d, spec_data_type(l)),
    ensures
        spec_accepts(l, d),
    decreases l,
{
    match l {
        Logical::List(inner) => match d {
            DataTypeSpec::List(f) => {
                assert(spec_data_type(l) == DataTypeSpec::List(Box::new(item_field(*inner))));
                assert(item_field(*inner).data_type == spec_data_type(*inner));
                lemma_accepts_compatible(*inner, f.data_type);
            },
            _ => {},
        },
        Logical::LargeList(inner) => match d {
            DataTypeSpec::LargeList(f) => {
                assert(spec_data_type(l) == DataTypeSpec::LargeList(Box::new(item_field(*inner))));
                assert(item_field(*inner).data_type == spec_data_type(*inner));
                lemma_accepts_compatible(*inner, f.data_type);
            },
            _ => {},
        },
        Logical::ListView(inner) => match d {
            DataTypeSpec::ListView(f) => {
                assert(spec_data_type(l) == DataTypeSpec::ListView(Box::new(item_field(*inner))));
                assert(item_field(*inner).data_type == spec_data_type(*inner));
                lemma_accepts_compatible(*inner, f.data_type);
            },
            _ => {},
        },
        Logical::LargeListView(inner) => match d {
            DataTypeSpec::LargeListView(f) => {
                assert(spec_data_type(l) == DataTypeSpec::LargeListView(Box::new(item_field(*inner))));
                assert(item_field(*inner).data_type == spec_data_type(*inner));
                lemma_accepts_compatible(*inner, f.data_type);
            },
            _ => {},
        },
        Logical::FixedSizeList(inner, n) => match d {
            DataTypeSpec::FixedSizeList(f, _) => {
                assert(item_field(*inner).data_type == spec_data_type(*inner));
                lemma_accepts_compatible(*inner, f.data_type);
            },
            _ => {},
        },
        Logical::MapOf(k, v) => {
            lemma_compatible_reflexive(spec_data_type(*k));
            lemma_compatible_reflexive(spec_data_type(*v));
            lemma_accepts_compatible(*k, spec_data_type(*k));
            lemma_accepts_compatible(*v, spec_data_type(*v));
        },
        Logical::Dictionary(k, v) => match d {
            DataTypeSpec::Dictionary(dk, dv) => {
                lemma_accepts_compatible(*k, *dk);
                lemma_accepts_compatible(*v, *dv);
            },
            _ => {},
        },
        Logical::Run(r, v) => {
            lemma_compatible_reflexive(spec_data_type(*r));
            lemma_compatible_reflexive(spec_data_type(*v));
            lemma_accepts_compatible(*r, spec_data_type(*r));
            lemma_accepts_compatible(*v, spec_data_type(*v));
        },
        Logical::Nullable(inner) => lemma_accepts_compatible(*inner, d),
        Logical::IgnoreValidity(inner) => lemma_accepts_compatible(*inner, d),
        _ => {},
    }
}

/// A concrete type accepts the data type it declares.
pub proof fn lemma_accepts_own_data_type(l: Logical)
    requires
        is_concrete(l),
    ensures
        spec_accepts(l, spec_data_type(l)),
{
    lemma_compatible_reflexive(spec_data_type(l));
    lemma_accepts_compatible(l, spec_data_type(l));
}


impl Logical {
    /// May the values at this level be null?
    pub fn nullable(&self) -> (r: bool)
        ensures
            r == spec_nullable(*self),
        decreases *self,
    {
        match self {
            Logical::Nullable(_) => true,
            Logical::IgnoreValidity(inner) => inner.nullable(),
            _ => false,
        }
    }

    /// Are nulls at this level an error?
    pub fn rejects_nulls(&self) -> (r: bool)
        ensures
            r == spec_rejects_nulls(*self),
    {
        match self {
            Logical::Nullable(_) => false,
            Logical::IgnoreValidity(_) => false,
            _ => true,
        }
    }

    /// Does this logical type correspond to a single concrete arrow data type?
    pub fn is_concrete(&self) -> (r: bool)
        ensures
            r == is_concrete(*self),
        decreases *self,
    {
        match self {
            Logical::AnyUtf8 | Logical::AnyBinary | Logical::AnyList(_) => false,
            Logical::FixedSizeBinary(n) => *n <= i32::MAX as usize,
            Logical::List(inner) => inner.is_concrete(),
            Logical::LargeList(inner) => inner.is_concrete(),
            Logical::ListView(inner) => inner.is_concrete(),
            Logical::LargeListView(inner) => inner.is_concrete(),
            Logical::Nullable(inner) => inner.is_concrete(),
            Logical::IgnoreValidity(inner) => inner.is_concrete(),
            Logical::FixedSizeList(inner, n) => *n <= i32::MAX as usize && inner.is_concrete(),
            Logical::MapOf(k, v) => k.is_concrete() && v.is_concrete(),
            Logical::Dictionary(k, v) => k.is_dictionary_key() && v.is_concrete(),
            Logical::Run(r, v) => r.is_run_end_type() && v.is_concrete(),
            _ => true,
        }
    }

    fn is_dictionary_key(&self) -> (r: bool)
        ensures
            r == is_dictionary_key(*self),
    {
        match self {
            Logical::Int8 | Logical::Int16 | Logical::Int32 | Logical::Int64 | Logical::UInt8
            | Logical::UInt16 | Logical::UInt32 | Logical::UInt64 => true,
            _ => false,
        }
    }

    fn is_run_end_type(&self) -> (r: bool)
        ensures
            r == is_run_end_type(*self),
    {
        match self {
            Logical::Int16 | Logical::Int32 | Logical::Int64 => true,
            _ => false,
        }
    }

    /// Can this logical type always be built from values?
    pub fn is_infallible(&self) -> (r: bool)
        ensures
            r == is_infallible(*self),
        decreases *self,
    {
        match self {
            Logical::Dictionary(_, _) | Logical::Run(_, _) | Logical::Dyn => false,
            Logical::AnyUtf8 | Logical::AnyBinary | Logical::AnyList(_) => false,
            Logical::List(inner) => inner.is_infallible(),
            Logical::LargeList(inner) => inner.is_infallible(),
            Logical::ListView(inner) => inner.is_infallible(),
            Logical::LargeListView(inner) => inner.is_infallible(),
            Logical::Nullable(inner) => inner.is_infallible(),
            Logical::IgnoreValidity(inner) => inner.is_infallible(),
            Logical::FixedSizeList(inner, _) => inner.is_infallible(),
            Logical::MapOf(k, v) => k.is_infallible() && v.is_infallible(),
            _ => true,
        }
    }
}

pub(crate) fn owned(s: &str) -> (r: String)
    ensures
        r@ == s@,
{
    s.to_owned()
}

fn item_field_exec(inner: &Logical) -> (f: Field)
    requires
        is_concrete(*inner),
    ensures
        f@ == item_field(*inner),
    decreases *inner, 1int,
{
    let dt = data_type_of(inner);
    Field::new(owned("item"), dt, inner.nullable())
}

/// The exact arrow data type of a concrete logical type.
pub fn data_type_of(l: &Logical) -> (d: DataType)
    requires
        is_concrete(*l),
    ensures
        d@ == spec_data_type(*l),
    decreases *l, 0int,
{
    match l {
        Logical::Boolean => DataType::Boolean,
        Logical::Int8 => DataType::Int8,
        Logical::Int16 => DataType::Int16,
        Logical::Int32 => DataType::Int32,
        Logical::Int64 => DataType::Int64,
        Logical::UInt8 => DataType::UInt8,
        Logical::UInt16 => DataType::UInt16,
        Logical::UInt32 => DataType::UInt32,
        Logical::UInt64 => DataType::UInt64,
        Logical::Float16 => DataType::Float16,
        Logical::Float32 => DataType::Float32,
        Logical::Float64 => DataType::Float64,
        Logical::Utf8 => DataType::Utf8,
        Logical::LargeUtf8 => DataType::LargeUtf8,
        Logical::Utf8View => DataType::Utf8View,
        Logical::Binary => DataType::Binary,
        Logical::LargeBinary => DataType::LargeBinary,
        Logical::BinaryView => DataType::BinaryView,
        Logical::FixedSizeBinary(n) => DataType::FixedSizeBinary(*n as i32),
        Logical::Date32 => DataType::Date32,
        Logical::Date64 => DataType::Date64,
        Logical::Time32(u) => DataType::Time32(*u),
        Logical::Time64(u) => DataType::Time64(*u),
        Logical::Timestamp(u, tz) => {
            let tz = match tz {
                Some(s) => Some(owned(s)),
                None => None,
            };
            DataType::Timestamp(*u, tz)
        },
        Logical::Duration(u) => DataType::Duration(*u),
        Logical::List(inner) => DataType::List(Box::new(item_field_exec(inner))),
        Logical::LargeList(inner) => DataType::LargeList(Box::new(item_field_exec(inner))),
        Logical::ListView(inner) => DataType::ListView(Box::new(item_field_exec(inner))),
        Logical::LargeListView(inner) => DataType::LargeListView(Box::new(item_field_exec(inner))),
        Logical::FixedSizeList(inner, n) => DataType::FixedSizeList(
            Box::new(item_field_exec(inner)),
            *n as i32,
        ),
        Logical::MapOf(k, v) => {
            let keys = Field::new(owned("keys"), data_type_of(k), false);
            let values = Field::new(owned("values"), data_type_of(v), v.nullable());
            let mut fields: Vec<Field> = Vec::new();
            fields.push(keys);
            fields.push(values);
            proof {
                lemma_fields_view(fields@);
                assert(fields_view(fields@) =~= seq![
                    plain_field("keys"@, spec_data_type(**k), false),
                    plain_field("values"@, spec_data_type(**v), spec_nullable(**v)),
                ]);
            }
            let entries = Field::new(owned("entries"), DataType::Struct(fields), false);
            DataType::MapOf(Box::new(entries), false)
        },
        Logical::Dictionary(k, v) => DataType::Dictionary(
            Box::new(data_type_of(k)),
            Box::new(data_type_of(v)),
        ),
        Logical::Run(r, v) => {
            let run_ends = Field::new(owned("run_ends"), data_type_of(r), false);
            let values = Field::new(owned("values"), data_type_of(v), v.nullable());
            DataType::RunEndEncoded(Box::new(run_ends), Box::new(values))
        },
        Logical::Nullable(inner) => data_type_of(inner),
        Logical::IgnoreValidity(inner) => data_type_of(inner),
        Logical::Dyn => DataType::Null,
        Logical::AnyUtf8 | Logical::AnyBinary | Logical::AnyList(_) => DataType::Null,
    }
}

/// Does the logical type `l` accept arrow arrays of data type `d`?
pub fn accepts(l: &Logical, d: &DataType) -> (r: bool)
    ensures
        r == spec_accepts(*l, d@),
    decreases *l, 1int,
{
    match l {
        Logical::AnyUtf8 => match d {
            DataType::Utf8 | DataType::LargeUtf8 | DataType::Utf8View => true,
            _ => false,
        },
        Logical::AnyBinary => match d {
            DataType::Binary | DataType::LargeBinary | DataType::BinaryView
            | DataType::FixedSizeBinary(_) => true,
            _ => false,
        },
        Logical::FixedSizeBinary(n) => match d {
            DataType::FixedSizeBinary(m) => *m >= 0 && *m as usize == *n,
            _ => false,
        },
        Logical::List(_) | Logical::LargeList(_) | Logical::ListView(_)
        | Logical::LargeListView(_) | Logical::FixedSizeList(_, _) => accepts_list(l, d),
        Logical::AnyList(_) => accepts_any_list(l, d),
        Logical::MapOf(_, _) | Logical::Dictionary(_, _) | Logical::Run(_, _) => accepts_pair(l, d),
        Logical::Nullable(inner) => accepts(inner, d),
        Logical::IgnoreValidity(inner) => accepts(inner, d),
        Logical::Dyn => true,
        _ => {
            // Leaves (timestamps included) accept exactly their declared data type.
            let declared = data_type_of(l);
            data_type_eq(d, &declared)
        },
    }
}

fn accepts_list(l: &Logical, d: &DataType) -> (r: bool)
    requires
        l is List || l is LargeList || l is ListView || l is LargeListView || l is FixedSizeList,
    ensures
        r == spec_accepts(*l, d@),
    decreases *l, 0int,
{
    proof {
        lemma_view_shape(*d);
    }
    match (l, d) {
        (Logical::List(inner), DataType::List(f)) => accepts(inner, &f.data_type),
        (Logical::LargeList(inner), DataType::LargeList(f)) => accepts(inner, &f.data_type),
        (Logical::ListView(inner), DataType::ListView(f)) => accepts(inner, &f.data_type),
        (Logical::LargeListView(inner), DataType::LargeListView(f)) => accepts(inner, &f.data_type),
        (Logical::FixedSizeList(inner, n), DataType::FixedSizeList(f, m)) => *m >= 0 && *m as usize
            == *n && accepts(inner, &f.data_type),
        _ => false,
    }
}

fn accepts_any_list(l: &Logical, d: &DataType) -> (r: bool)
    requires
        l is AnyList,
    ensures
        r == spec_accepts(*l, d@),
    decreases *l, 0int,
{
    proof {
        lemma_view_shape(*d);
    }
    match l {
        Logical::AnyList(inner) => match d {
            DataType::List(f) => accepts(inner, &f.data_type),
            DataType::LargeList(f) => accepts(inner, &f.data_type),
            DataType::ListView(f) => accepts(inner, &f.data_type),
            DataType::LargeListView(f) => accepts(inner, &f.data_type),
            DataType::FixedSizeList(f, _) => accepts(inner, &f.data_type),
            _ => false,
        },
        _ => false,
    }
}

fn accepts_pair(l: &Logical, d: &DataType) -> (r: bool)
    requires
        l is MapOf || l is Dictionary || l is Run,
    ensures
        r == spec_accepts(*l, d@),
    decreases *l, 0int,
{
    proof {
        lemma_view_shape(*d);
    }
    match (l, d) {
        (Logical::MapOf(k, v), DataType::MapOf(entries, _)) => match &entries.data_type {
            DataType::Struct(fs) => {
                proof {
                    lemma_fields_view(fs@);
                }
                fs.len() == 2 && accepts(k, &fs[0].data_type) && accepts(v, &fs[1].data_type)
            },
            _ => false,
        },
        (Logical::Dictionary(k, v), DataType::Dictionary(dk, dv)) => accepts(k, dk) && accepts(v, dv),
        (Logical::Run(r, v), DataType::RunEndEncoded(rf, vf)) => accepts(r, &rf.data_type) && accepts(
            v,
            &vf.data_type,
        ),
        _ => false,
    }
}

fn str_string_eq(a: &str, b: &String) -> (r: bool)
    ensures
        r == (a@ == b@),
{
    let x = a.to_owned();
    x == *b
}

/// The data types named as "expected" when a column is rejected.
pub fn supported_data_types(l: &Logical) -> (r: Vec<DataType>)
    ensures
        r@.len() == spec_supported(*l).len(),
        forall|i: int| 0 <= i < r@.len() ==> #[trigger] r@[i]@ == spec_supported(*l)[i],
    decreases *l,
{
    match l {
        Logical::AnyUtf8 => {
            let mut v: Vec<DataType> = Vec::new();
            v.push(DataType::Utf8);
            v.push(DataType::LargeUtf8);
            v.push(DataType::Utf8View);
            v
        },
        Logical::AnyBinary => {
            let mut v: Vec<DataType> = Vec::new();
            v.push(DataType::Binary);
            v.push(DataType::LargeBinary);
            v.push(DataType::BinaryView);
            v
        },
        Logical::AnyList(inner) => {
            let mut v: Vec<DataType> = Vec::new();
            if inner.is_concrete() {
                v.push(DataType::List(Box::new(item_field_exec(inner))));
                v.push(DataType::LargeList(Box::new(item_field_exec(inner))));
                v.push(DataType::ListView(Box::new(item_field_exec(inner))));
                v.push(DataType::LargeListView(Box::new(item_field_exec(inner))));
            }
            v
        },
        Logical::Nullable(inner) => supported_data_types(inner),
        Logical::IgnoreValidity(inner) => supported_data_types(inner),
        _ => {
            let mut v: Vec<DataType> = Vec::new();
            if l.is_concrete() {
                v.push(data_type_of(l));
            }
            v
        },
    }
}

} // verus!
