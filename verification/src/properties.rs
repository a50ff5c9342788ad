//! What validation, compatibility, the logical type markers and the null
//! reading of a validated array mean, stated against each other.

use vstd::prelude::*;

use crate::data_type::{spec_compatible, DataTypeSpec, FieldSpec, TimeUnit};
use crate::layout::LayoutSpec;
use crate::logical::{is_dictionary_key, item_field, spec_accepts, spec_data_type, Logical};
use crate::markers::{
    Binary, BinaryView, Date32, Date64, Duration, LargeBinary, LargeUtf8, LogicalType, Microsecond,
    Millisecond, Nanosecond, Second, Time32Millisecond, Time32Second, Time64Microsecond, Time64Nanosecond,
    TimeUnitSpec, Timestamp, TimezoneSpec, Utf8, Utf8View,
};
use crate::nulls::{is_valid, run_of};
use crate::typed_array::{item_range, spec_is_null, value_position};

verus! {

/// Logical types that declare, at every level, the arrow data type they
/// accept: no maps or run-end encodings (which accept any names and flags on
/// their struct and run fields, beyond what compatibility ignores), no
/// multi-encoding types, no `Dyn`, and fixed sizes that arrow can hold.
pub open spec fn declares_what_it_accepts(l: Logical) -> bool
    decreases l,
{
    match l {
        Logical::MapOf(_, _) | Logical::Run(_, _) | Logical::Dyn | Logical::AnyUtf8 | Logical::AnyBinary
        | Logical::AnyList(_) => false,
        Logical::List(inner) | Logical::LargeList(inner) | Logical::ListView(inner)
        | Logical::LargeListView(inner) | Logical::Nullable(inner) | Logical::IgnoreValidity(inner) =>
            declares_what_it_accepts(*inner),
        Logical::FixedSizeList(inner, n) => n <= i32::MAX && declares_what_it_accepts(*inner),
        Logical::Dictionary(k, v) => is_dictionary_key(*k) && declares_what_it_accepts(*v),
        Logical::FixedSizeBinary(n) => n <= i32::MAX,
        _ => true,
    }
}

/// Validation accepts exactly the data types compatible with the one the
/// logical type declares: at every level the same encoding — a dictionary
/// with the declared key and value types, a list of the declared items, a
/// fixed-size list of the declared size — whatever the names, nullability
/// flags and metadata of inner fields.
pub proof fn lemma_accepts_exactly_compatible(l: Logical, d: DataTypeSpec)
    requires
        declares_what_it_accepts(l),
    ensures
        spec_accepts(l, d) == spec_compatible(d, spec_data_type(l)),
    decreases l,
{
    match l {
        Logical::List(inner) => {
            assert(spec_data_type(l) == DataTypeSpec::List(Box::new(item_field(*inner))));
            assert(item_field(*inner).data_type == spec_data_type(*inner));
            if let DataTypeSpec::List(f) = d {
                lemma_accepts_exactly_compatible(*inner, f.data_type);
            }
        },
        Logical::LargeList(inner) => {
            assert(spec_data_type(l) == DataTypeSpec::LargeList(Box::new(item_field(*inner))));
            assert(item_field(*inner).data_type == spec_data_type(*inner));
            if let DataTypeSpec::LargeList(f) = d {
                lemma_accepts_exactly_compatible(*inner, f.data_type);
            }
        },
        Logical::ListView(inner) => {
            assert(spec_data_type(l) == DataTypeSpec::ListView(Box::new(item_field(*inner))));
            assert(item_field(*inner).data_type == spec_data_type(*inner));
            if let DataTypeSpec::ListView(f) = d {
                lemma_accepts_exactly_compatible(*inner, f.data_type);
            }
        },
        Logical::LargeListView(inner) => {
            assert(spec_data_type(l) == DataTypeSpec::LargeListView(Box::new(item_field(*inner))));
            assert(item_field(*inner).data_type == spec_data_type(*inner));
            if let DataTypeSpec::LargeListView(f) = d {
                lemma_accepts_exactly_compatible(*inner, f.data_type);
            }
        },
        Logical::FixedSizeList(inner, n) => {
            assert(item_field(*inner).data_type == spec_data_type(*inner));
            if let DataTypeSpec::FixedSizeList(f, m) = d {
                lemma_accepts_exactly_compatible(*inner, f.data_type);
                assert((n as i32) as int == n as int);
            }
        },
        Logical::Dictionary(k, v) => {
            if let DataTypeSpec::Dictionary(dk, dv) = d {
                lemma_accepts_exactly_compatible(*k, *dk);
                lemma_accepts_exactly_compatible(*v, *dv);
            }
        },
        Logical::Nullable(inner) | Logical::IgnoreValidity(inner) => {
            lemma_accepts_exactly_compatible(*inner, d);
        },
        Logical::FixedSizeBinary(n) => {
            assert((n as i32) as int == n as int);
        },
        _ => {},
    }
}

/// A dictionary type accepts a data type only if it is a dictionary whose
/// key type the key logical type accepts and whose value type the value
/// logical type accepts; e.g. `Dictionary<i32, Utf8>` rejects a dictionary
/// with `Int8` keys.
pub proof fn lemma_dictionary_accepts_components(k: Logical, v: Logical, d: DataTypeSpec)
    requires
        spec_accepts(Logical::Dictionary(Box::new(k), Box::new(v)), d),
    ensures
        d matches DataTypeSpec::Dictionary(dk, dv) && spec_accepts(k, *dk) && spec_accepts(v, *dv),
{
}

/// Changing only an inner field's name, nullability or metadata never
/// changes compatibility, on either side, for every list encoding.
pub proof fn lemma_compatible_ignores_inner_fields(a: FieldSpec, b: FieldSpec, d: FieldSpec, n: i32)
    requires
        a.data_type == b.data_type,
    ensures
        spec_compatible(DataTypeSpec::List(Box::new(a)), DataTypeSpec::List(Box::new(d))) == spec_compatible(
            DataTypeSpec::List(Box::new(b)),
            DataTypeSpec::List(Box::new(d)),
        ),
        spec_compatible(DataTypeSpec::LargeList(Box::new(a)), DataTypeSpec::LargeList(Box::new(d)))
            == spec_compatible(DataTypeSpec::LargeList(Box::new(b)), DataTypeSpec::LargeList(Box::new(d))),
        spec_compatible(DataTypeSpec::ListView(Box::new(a)), DataTypeSpec::ListView(Box::new(d)))
            == spec_compatible(DataTypeSpec::ListView(Box::new(b)), DataTypeSpec::ListView(Box::new(d))),
        spec_compatible(DataTypeSpec::LargeListView(Box::new(a)), DataTypeSpec::LargeListView(Box::new(d)))
            == spec_compatible(DataTypeSpec::LargeListView(Box::new(b)), DataTypeSpec::LargeListView(Box::new(d))),
        spec_compatible(DataTypeSpec::FixedSizeList(Box::new(a), n), DataTypeSpec::FixedSizeList(Box::new(d), n))
            == spec_compatible(
            DataTypeSpec::FixedSizeList(Box::new(b), n),
            DataTypeSpec::FixedSizeList(Box::new(d), n),
        ),
        spec_compatible(DataTypeSpec::List(Box::new(d)), DataTypeSpec::List(Box::new(a))) == spec_compatible(
            DataTypeSpec::List(Box::new(d)),
            DataTypeSpec::List(Box::new(b)),
        ),
        spec_compatible(DataTypeSpec::LargeList(Box::new(d)), DataTypeSpec::LargeList(Box::new(a)))
            == spec_compatible(DataTypeSpec::LargeList(Box::new(d)), DataTypeSpec::LargeList(Box::new(b))),
        spec_compatible(DataTypeSpec::ListView(Box::new(d)), DataTypeSpec::ListView(Box::new(a)))
            == spec_compatible(DataTypeSpec::ListView(Box::new(d)), DataTypeSpec::ListView(Box::new(b))),
        spec_compatible(DataTypeSpec::LargeListView(Box::new(d)), DataTypeSpec::LargeListView(Box::new(a)))
            == spec_compatible(DataTypeSpec::LargeListView(Box::new(d)), DataTypeSpec::LargeListView(Box::new(b))),
        spec_compatible(DataTypeSpec::FixedSizeList(Box::new(d), n), DataTypeSpec::FixedSizeList(Box::new(a), n))
            == spec_compatible(
            DataTypeSpec::FixedSizeList(Box::new(d), n),
            DataTypeSpec::FixedSizeList(Box::new(b), n),
        ),
{
}

/// The exact arrow data type each leaf marker declares; each time-of-day,
/// timestamp and duration marker in the unit its unit marker names.
pub proof fn lemma_marker_data_types()
    ensures
        Second::spec_unit() == TimeUnit::Second,
        Millisecond::spec_unit() == TimeUnit::Millisecond,
        Microsecond::spec_unit() == TimeUnit::Microsecond,
        Nanosecond::spec_unit() == TimeUnit::Nanosecond,
        spec_data_type(bool::spec_logical()) == DataTypeSpec::Boolean,
        spec_data_type(i8::spec_logical()) == DataTypeSpec::Int8,
        spec_data_type(i16::spec_logical()) == DataTypeSpec::Int16,
        spec_data_type(i32::spec_logical()) == DataTypeSpec::Int32,
        spec_data_type(i64::spec_logical()) == DataTypeSpec::Int64,
        spec_data_type(u8::spec_logical()) == DataTypeSpec::UInt8,
        spec_data_type(u16::spec_logical()) == DataTypeSpec::UInt16,
        spec_data_type(u32::spec_logical()) == DataTypeSpec::UInt32,
        spec_data_type(u64::spec_logical()) == DataTypeSpec::UInt64,
        spec_data_type(Utf8::spec_logical()) == DataTypeSpec::Utf8,
        spec_data_type(LargeUtf8::spec_logical()) == DataTypeSpec::LargeUtf8,
        spec_data_type(Utf8View::spec_logical()) == DataTypeSpec::Utf8View,
        spec_data_type(Binary::spec_logical()) == DataTypeSpec::Binary,
        spec_data_type(LargeBinary::spec_logical()) == DataTypeSpec::LargeBinary,
        spec_data_type(BinaryView::spec_logical()) == DataTypeSpec::BinaryView,
        spec_data_type(Date32::spec_logical()) == DataTypeSpec::Date32,
        spec_data_type(Date64::spec_logical()) == DataTypeSpec::Date64,
        spec_data_type(Time32Second::spec_logical()) == DataTypeSpec::Time32(Second::spec_unit()),
        spec_data_type(Time32Millisecond::spec_logical()) == DataTypeSpec::Time32(Millisecond::spec_unit()),
        spec_data_type(Time64Microsecond::spec_logical()) == DataTypeSpec::Time64(Microsecond::spec_unit()),
        spec_data_type(Time64Nanosecond::spec_logical()) == DataTypeSpec::Time64(Nanosecond::spec_unit()),
{
}

/// A timestamp or duration marker declares the unit of its unit marker (and
/// a timestamp the timezone of its timezone marker).
pub proof fn lemma_unit_markers<U: TimeUnitSpec, Z: TimezoneSpec>()
    ensures
        spec_data_type(Duration::<U>::spec_logical()) == DataTypeSpec::Duration(U::spec_unit()),
        spec_data_type(Timestamp::<U, Z>::spec_logical()) matches DataTypeSpec::Timestamp(u, tz) && u
            == U::spec_unit() && tz == match Z::spec_timezone() {
            Some(s) => Some(s@),
            None => None,
        },
{
}

/// Types whose rows read as null exactly where the validity marks them:
/// every type but run-end encodings (read through their run values) and
/// `IgnoreValidity` (never null), under any `Option` layers.
pub open spec fn reads_row_validity(l: Logical) -> bool
    decreases l,
{
    match l {
        Logical::Nullable(inner) => reads_row_validity(*inner),
        Logical::Run(_, _) | Logical::IgnoreValidity(_) => false,
        _ => true,
    }
}

/// A row reads as null exactly when the array's validity marks it null —
/// for a dictionary, exactly when its key slot is null.
pub proof fn lemma_null_rows_are_invalid_rows(l: Logical, a: LayoutSpec, i: int)
    requires
        reads_row_validity(l),
    ensures
        spec_is_null(l, a, i) == !is_valid(a.validity, i),
    decreases l,
{
    if let Logical::Nullable(inner) = l {
        lemma_null_rows_are_invalid_rows(*inner, a, i);
    }
}

/// A row of a dictionary array reads as null exactly when its key is null,
/// whether or not the value its key points at is null.
pub proof fn lemma_dictionary_null_rows(k: Logical, v: Logical, a: LayoutSpec, i: int)
    ensures
        spec_is_null(Logical::Dictionary(Box::new(k), Box::new(v)), a, i) == !is_valid(a.validity, i),
        spec_is_null(Logical::Nullable(Box::new(Logical::Dictionary(Box::new(k), Box::new(v)))), a, i)
            == !is_valid(a.validity, i),
{
    reveal_with_fuel(spec_is_null, 2);
}

/// `IgnoreValidity` rows never read as null, whatever the validity says.
pub proof fn lemma_ignore_validity_rows(inner: Logical, a: LayoutSpec, i: int)
    ensures
        !spec_is_null(Logical::IgnoreValidity(Box::new(inner)), a, i),
        !spec_is_null(Logical::Nullable(Box::new(Logical::IgnoreValidity(Box::new(inner)))), a, i),
{
    reveal_with_fuel(spec_is_null, 2);
}

/// A row of a run-end-encoded array reads as null exactly when the run
/// value it reads is null; so rows of one run read alike.
pub proof fn lemma_run_null_rows(r: Logical, v: Logical, a: LayoutSpec, i: int, j: int)
    ensures
        spec_is_null(Logical::Run(Box::new(r), Box::new(v)), a, i) == spec_is_null(
            v,
            a.children[0],
            value_position(Logical::Run(Box::new(r), Box::new(v)), a, i),
        ),
        run_of(a.offsets, a.offset + i, 0) == run_of(a.offsets, a.offset + j, 0) ==> spec_is_null(
            Logical::Run(Box::new(r), Box::new(v)),
            a,
            i,
        ) == spec_is_null(Logical::Run(Box::new(r), Box::new(v)), a, j),
{
}

/// Rows of a list or map array take consecutive ranges of the child: each
/// row's range ends where the next one's starts; rows of a fixed-size list
/// take `n` positions each, one row after the other.
pub proof fn lemma_item_ranges_consecutive(inner: Logical, k: Logical, v: Logical, n: usize, a: LayoutSpec, i: int)
    ensures
        item_range(Logical::List(Box::new(inner)), a, i).1 == item_range(Logical::List(Box::new(inner)), a, i + 1).0,
        item_range(Logical::LargeList(Box::new(inner)), a, i).1 == item_range(
            Logical::LargeList(Box::new(inner)),
            a,
            i + 1,
        ).0,
        item_range(Logical::MapOf(Box::new(k), Box::new(v)), a, i).1 == item_range(
            Logical::MapOf(Box::new(k), Box::new(v)),
            a,
            i + 1,
        ).0,
        item_range(Logical::FixedSizeList(Box::new(inner), n), a, i).1 == item_range(
            Logical::FixedSizeList(Box::new(inner), n),
            a,
            i + 1,
        ).0,
        item_range(Logical::FixedSizeList(Box::new(inner), n), a, i).1 - item_range(
            Logical::FixedSizeList(Box::new(inner), n),
            a,
            i,
        ).0 == n,
{
    assert((i + 1) * n == i * n + n) by (nonlinear_arith);
}

} // verus!
