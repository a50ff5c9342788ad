//! The logical column types, as Rust types.
//!
//! Each marker type (`Utf8`, `List<L>`, `Option<L>`, `i64`, …) denotes one
//! [`Logical`] value: [`LogicalType::spec_logical`]. Everything the library
//! knows about a marker (the data types it accepts, the one it declares, its
//! nullability) is what it knows about that value. The markers are never
//! instantiated; they only appear as type parameters.

use std::marker::PhantomData;

use vstd::prelude::*;

use crate::data_type::{DataType, TimeUnit};
use crate::error::data_types_view;
use crate::logical::{
    accepts, data_type_of, is_concrete, is_dictionary_key, is_infallible, is_run_end_type,
    spec_accepts, spec_data_type, spec_nullable, spec_supported, supported_data_types, Logical,
};

verus! {

/// A logical column type, e.g. `Utf8`, `Option<i64>`, or `List<Utf8>`.
///
/// `Option<L>` means the values at this nesting level may be null.
pub trait LogicalType {
    /// This type, made nullable: `Option<Self>` — except for `Option<L>`,
    /// which is already nullable and is its own `Optional`.
    type Optional;

    /// This type, made non-nullable: `Self` — except for `Option<L>`, whose
    /// `Required` is `L`'s (every `Option` layer comes off).
    type Required;

    /// The logical type this marker denotes.
    spec fn spec_logical() -> Logical;

    /// The logical type this marker denotes, as a value.
    fn logical() -> (l: Logical)
        ensures
            l == Self::spec_logical(),
    ;

    /// May the values at this level be null? (`true` only for `Option<…>`,
    /// and for the adapters that forward it.)
    fn nullable() -> (r: bool)
        ensures
            r == spec_nullable(Self::spec_logical()),
    {
        Self::logical().nullable()
    }

    /// Does this logical type accept arrow arrays of data type `actual`?
    fn matches(actual: &DataType) -> (r: bool)
        ensures
            r == spec_accepts(Self::spec_logical(), actual@),
    {
        accepts(&Self::logical(), actual)
    }

    /// The data types named as "expected" when a column is rejected.
    fn supported_data_types() -> (r: Vec<DataType>)
        ensures
            data_types_view(r@) == spec_supported(Self::spec_logical()),
    {
        let r = supported_data_types(&Self::logical());
        assert(data_types_view(r@) =~= spec_supported(Self::spec_logical()));
        r
    }
}

/// A [`LogicalType`] that corresponds to a single concrete arrow data type,
/// and can therefore be built and used to generate schemas.
///
/// The multi-encoding types (`AnyUtf8`, `AnyBinary`, `AnyList<L>`) are
/// parse-only and do not implement it.
pub trait ConcreteType: LogicalType {
    /// The exact arrow data type, built recursively (including the
    /// nullability of inner fields). Fixed sizes must fit an `i32`, as arrow
    /// stores them.
    fn data_type() -> (d: DataType)
        requires
            is_concrete(Self::spec_logical()),
        ensures
            d@ == spec_data_type(Self::spec_logical()),
    {
        data_type_of(&Self::logical())
    }
}

/// Logical types whose building from values can never fail: every concrete
/// type except dictionaries and run-end encodings (key and run-end overflow)
/// and `Dyn` (no data type to build).
pub trait InfallibleBuild: ConcreteType {
    /// The logical type this marker denotes can always be built.
    proof fn lemma_infallible()
        ensures
            is_infallible(Self::spec_logical()),
    ;
}

/// Logical types whose values are stored in one contiguous buffer of
/// primitive values: the integers, the primitive-backed markers, and
/// fixed-size binaries.
pub trait PrimitiveType: LogicalType {
    /// The in-memory element type.
    type Native;
}

/// Logical types whose element values can be borrowed as plain references.
pub trait RefType: LogicalType {
    /// The borrow target: `str` for `Utf8`, `i64` for `i64`, etc.
    type Ref: ?Sized;
}

/// Integer types usable as dictionary keys.
pub trait DictionaryKey: ConcreteType {
    /// The logical type this marker denotes is a dictionary key type.
    proof fn lemma_dictionary_key()
        ensures
            is_dictionary_key(Self::spec_logical()),
    ;
}

/// Integer types usable as run ends.
pub trait RunEndType: ConcreteType {
    /// The logical type this marker denotes is a run-end type.
    proof fn lemma_run_end_type()
        ensures
            is_run_end_type(Self::spec_logical()),
    ;
}

/// A time unit: [`Second`], [`Millisecond`], [`Microsecond`], or
/// [`Nanosecond`].
pub trait TimeUnitSpec {
    /// The unit this marker denotes.
    spec fn spec_unit() -> TimeUnit;

    /// The unit this marker denotes, as a value.
    fn unit() -> (u: TimeUnit)
        ensures
            u == Self::spec_unit(),
    ;
}

/// The timezone of a [`Timestamp`]: [`NoTimezone`], [`Utc`], or a marker of
/// your own.
pub trait TimezoneSpec {
    /// E.g. `Some("UTC")`, `Some("+02:00")`, or `None` for timezone-naive
    /// timestamps.
    spec fn spec_timezone() -> Option<&'static str>;

    /// The timezone this marker denotes, as a value.
    fn timezone() -> (z: Option<&'static str>)
        ensures
            z == Self::spec_timezone(),
    ;
}

#[derive(Debug)]
pub struct Second;

#[derive(Debug)]
pub struct Millisecond;

#[derive(Debug)]
pub struct Microsecond;

#[derive(Debug)]
pub struct Nanosecond;

impl TimeUnitSpec for Second {
    open spec fn spec_unit() -> TimeUnit {
        TimeUnit::Second
    }

    fn unit() -> (u: TimeUnit) {
        TimeUnit::Second
    }
}

impl TimeUnitSpec for Millisecond {
    open spec fn spec_unit() -> TimeUnit {
        TimeUnit::Millisecond
    }

    fn unit() -> (u: TimeUnit) {
        TimeUnit::Millisecond
    }
}

impl TimeUnitSpec for Microsecond {
    open spec fn spec_unit() -> TimeUnit {
        TimeUnit::Microsecond
    }

    fn unit() -> (u: TimeUnit) {
        TimeUnit::Microsecond
    }
}

impl TimeUnitSpec for Nanosecond {
    open spec fn spec_unit() -> TimeUnit {
        TimeUnit::Nanosecond
    }

    fn unit() -> (u: TimeUnit) {
        TimeUnit::Nanosecond
    }
}

/// Timezone-naive timestamps.
#[derive(Debug)]
pub struct NoTimezone;

impl TimezoneSpec for NoTimezone {
    open spec fn spec_timezone() -> Option<&'static str> {
        None
    }

    fn timezone() -> (z: Option<&'static str>) {
        None
    }
}

/// The "UTC" timezone.
#[derive(Debug)]
pub struct Utc;

impl TimezoneSpec for Utc {
    open spec fn spec_timezone() -> Option<&'static str> {
        Some("UTC")
    }

    fn timezone() -> (z: Option<&'static str>) {
        Some("UTC")
    }
}

/// UTF-8 strings with 32-bit offsets.
#[derive(Debug)]
pub struct Utf8;

impl LogicalType for Utf8 {
    type Optional = Option<Utf8>;
    type Required = Utf8;

    open spec fn spec_logical() -> Logical {
        Logical::Utf8
    }

    fn logical() -> (l: Logical) {
        Logical::Utf8
    }
}

impl ConcreteType for Utf8 {}

impl InfallibleBuild for Utf8 {
    proof fn lemma_infallible() {
    }
}

impl RefType for Utf8 {
    type Ref = str;
}

impl LogicalType for i64 {
    type Optional = Option<i64>;
    type Required = i64;

    open spec fn spec_logical() -> Logical {
        Logical::Int64
    }

    fn logical() -> (l: Logical) {
        Logical::Int64
    }
}

impl ConcreteType for i64 {}

impl InfallibleBuild for i64 {
    proof fn lemma_infallible() {
    }
}

impl PrimitiveType for i64 {
    type Native = i64;
}

impl RefType for i64 {
    type Ref = i64;
}

impl DictionaryKey for i64 {
    proof fn lemma_dictionary_key() {
    }
}

impl RunEndType for i64 {
    proof fn lemma_run_end_type() {
    }
}

/// Values that may be null at this level.
impl<L: LogicalType> LogicalType for Option<L> {
    type Optional = Option<L>;
    type Required = L::Required;

    open spec fn spec_logical() -> Logical {
        Logical::Nullable(Box::new(L::spec_logical()))
    }

    fn logical() -> (l: Logical) {
        Logical::Nullable(Box::new(L::logical()))
    }
}

impl<L: ConcreteType> ConcreteType for Option<L> {}

impl<L: InfallibleBuild> InfallibleBuild for Option<L> {
    proof fn lemma_infallible() {
        L::lemma_infallible();
    }
}

/// Lists of `L`, with 32-bit offsets.
#[derive(Debug)]
pub struct List<L> {
    marker: PhantomData<L>,
}

impl<L: LogicalType> LogicalType for List<L> {
    type Optional = Option<List<L>>;
    type Required = List<L>;

    open spec fn spec_logical() -> Logical {
        Logical::List(Box::new(L::spec_logical()))
    }

    fn logical() -> (l: Logical) {
        Logical::List(Box::new(L::logical()))
    }
}

impl<L: ConcreteType> ConcreteType for List<L> {}

impl<L: InfallibleBuild> InfallibleBuild for List<L> {
    proof fn lemma_infallible() {
        L::lemma_infallible();
    }
}

/// Byte strings of exactly `N` bytes.
#[derive(Debug)]
pub struct FixedSizeBinary<const N: usize>;

impl<const N: usize> LogicalType for FixedSizeBinary<N> {
    type Optional = Option<FixedSizeBinary<N>>;
    type Required = FixedSizeBinary<N>;

    open spec fn spec_logical() -> Logical {
        Logical::FixedSizeBinary(N)
    }

    fn logical() -> (l: Logical) {
        Logical::FixedSizeBinary(N)
    }
}

impl<const N: usize> ConcreteType for FixedSizeBinary<N> {}

impl<const N: usize> InfallibleBuild for FixedSizeBinary<N> {
    proof fn lemma_infallible() {
    }
}

impl<const N: usize> PrimitiveType for FixedSizeBinary<N> {
    type Native = [u8; N];
}

impl<const N: usize> RefType for FixedSizeBinary<N> {
    type Ref = [u8; N];
}

/// Points in time: `i64` ticks of unit `U` since the Unix epoch, in timezone `Z`.
#[derive(Debug)]
pub struct Timestamp<U, Z = NoTimezone> {
    marker: PhantomData<(U, Z)>,
}

impl<U: TimeUnitSpec, Z: TimezoneSpec> LogicalType for Timestamp<U, Z> {
    type Optional = Option<Timestamp<U, Z>>;
    type Required = Timestamp<U, Z>;

    open spec fn spec_logical() -> Logical {
        Logical::Timestamp(U::spec_unit(), Z::spec_timezone())
    }

    fn logical() -> (l: Logical) {
        Logical::Timestamp(U::unit(), Z::timezone())
    }
}

impl<U: TimeUnitSpec, Z: TimezoneSpec> ConcreteType for Timestamp<U, Z> {}

impl<U: TimeUnitSpec, Z: TimezoneSpec> InfallibleBuild for Timestamp<U, Z> {
    proof fn lemma_infallible() {
    }
}

impl<U: TimeUnitSpec, Z: TimezoneSpec> PrimitiveType for Timestamp<U, Z> {
    type Native = i64;
}

impl<U: TimeUnitSpec, Z: TimezoneSpec> RefType for Timestamp<U, Z> {
    type Ref = i64;
}

/// Booleans (bit-packed by arrow, so neither primitive nor borrowable).
impl LogicalType for bool {
    type Optional = Option<bool>;
    type Required = bool;

    open spec fn spec_logical() -> Logical {
        Logical::Boolean
    }

    fn logical() -> (l: Logical) {
        Logical::Boolean
    }
}

impl ConcreteType for bool {}

impl InfallibleBuild for bool {
    proof fn lemma_infallible() {
    }
}

/// `i8` values.
impl LogicalType for i8 {
    type Optional = Option<i8>;
    type Required = i8;

    open spec fn spec_logical() -> Logical {
        Logical::Int8
    }

    fn logical() -> (l: Logical) {
        Logical::Int8
    }
}

impl ConcreteType for i8 {}

impl InfallibleBuild for i8 {
    proof fn lemma_infallible() {
    }
}

impl PrimitiveType for i8 {
    type Native = i8;
}

impl RefType for i8 {
    type Ref = i8;
}

impl DictionaryKey for i8 {
    proof fn lemma_dictionary_key() {
    }
}

/// `i16` values.
impl LogicalType for i16 {
    type Optional = Option<i16>;
    type Required = i16;

    open spec fn spec_logical() -> Logical {
        Logical::Int16
    }

    fn logical() -> (l: Logical) {
        Logical::Int16
    }
}

impl ConcreteType for i16 {}

impl InfallibleBuild for i16 {
    proof fn lemma_infallible() {
    }
}

impl PrimitiveType for i16 {
    type Native = i16;
}

impl RefType for i16 {
    type Ref = i16;
}

impl DictionaryKey for i16 {
    proof fn lemma_dictionary_key() {
    }
}

impl RunEndType for i16 {
    proof fn lemma_run_end_type() {
    }
}

/// `i32` values.
impl LogicalType for i32 {
    type Optional = Option<i32>;
    type Required = i32;

    open spec fn spec_logical() -> Logical {
        Logical::Int32
    }

    fn logical() -> (l: Logical) {
        Logical::Int32
    }
}

impl ConcreteType for i32 {}

impl InfallibleBuild for i32 {
    proof fn lemma_infallible() {
    }
}

impl PrimitiveType for i32 {
    type Native = i32;
}

impl RefType for i32 {
    type Ref = i32;
}

impl DictionaryKey for i32 {
    proof fn lemma_dictionary_key() {
    }
}

impl RunEndType for i32 {
    proof fn lemma_run_end_type() {
    }
}

/// `u8` values.
impl LogicalType for u8 {
    type Optional = Option<u8>;
    type Required = u8;

    open spec fn spec_logical() -> Logical {
        Logical::UInt8
    }

    fn logical() -> (l: Logical) {
        Logical::UInt8
    }
}

impl ConcreteType for u8 {}

impl InfallibleBuild for u8 {
    proof fn lemma_infallible() {
    }
}

impl PrimitiveType for u8 {
    type Native = u8;
}

impl RefType for u8 {
    type Ref = u8;
}

impl DictionaryKey for u8 {
    proof fn lemma_dictionary_key() {
    }
}

/// `u16` values.
impl LogicalType for u16 {
    type Optional = Option<u16>;
    type Required = u16;

    open spec fn spec_logical() -> Logical {
        Logical::UInt16
    }

    fn logical() -> (l: Logical) {
        Logical::UInt16
    }
}

impl ConcreteType for u16 {}

impl InfallibleBuild for u16 {
    proof fn lemma_infallible() {
    }
}

impl PrimitiveType for u16 {
    type Native = u16;
}

impl RefType for u16 {
    type Ref = u16;
}

impl DictionaryKey for u16 {
    proof fn lemma_dictionary_key() {
    }
}

/// `u32` values.
impl LogicalType for u32 {
    type Optional = Option<u32>;
    type Required = u32;

    open spec fn spec_logical() -> Logical {
        Logical::UInt32
    }

    fn logical() -> (l: Logical) {
        Logical::UInt32
    }
}

impl ConcreteType for u32 {}

impl InfallibleBuild for u32 {
    proof fn lemma_infallible() {
    }
}

impl PrimitiveType for u32 {
    type Native = u32;
}

impl RefType for u32 {
    type Ref = u32;
}

impl DictionaryKey for u32 {
    proof fn lemma_dictionary_key() {
    }
}

/// `u64` values.
impl LogicalType for u64 {
    type Optional = Option<u64>;
    type Required = u64;

    open spec fn spec_logical() -> Logical {
        Logical::UInt64
    }

    fn logical() -> (l: Logical) {
        Logical::UInt64
    }
}

impl ConcreteType for u64 {}

impl InfallibleBuild for u64 {
    proof fn lemma_infallible() {
    }
}

impl PrimitiveType for u64 {
    type Native = u64;
}

impl RefType for u64 {
    type Ref = u64;
}

impl DictionaryKey for u64 {
    proof fn lemma_dictionary_key() {
    }
}

/// UTF-8 strings with 64-bit offsets.
#[derive(Debug)]
pub struct LargeUtf8;

impl LogicalType for LargeUtf8 {
    type Optional = Option<LargeUtf8>;
    type Required = LargeUtf8;

    open spec fn spec_logical() -> Logical {
        Logical::LargeUtf8
    }

    fn logical() -> (l: Logical) {
        Logical::LargeUtf8
    }
}

impl ConcreteType for LargeUtf8 {}

impl InfallibleBuild for LargeUtf8 {
    proof fn lemma_infallible() {
    }
}

impl RefType for LargeUtf8 {
    type Ref = str;
}

/// UTF-8 strings in the view layout.
#[derive(Debug)]
pub struct Utf8View;

impl LogicalType for Utf8View {
    type Optional = Option<Utf8View>;
    type Required = Utf8View;

    open spec fn spec_logical() -> Logical {
        Logical::Utf8View
    }

    fn logical() -> (l: Logical) {
        Logical::Utf8View
    }
}

impl ConcreteType for Utf8View {}

impl InfallibleBuild for Utf8View {
    proof fn lemma_infallible() {
    }
}

impl RefType for Utf8View {
    type Ref = str;
}

/// Any of the UTF-8 encodings, read as `&str` (parse-only).
#[derive(Debug)]
pub struct AnyUtf8;

impl LogicalType for AnyUtf8 {
    type Optional = Option<AnyUtf8>;
    type Required = AnyUtf8;

    open spec fn spec_logical() -> Logical {
        Logical::AnyUtf8
    }

    fn logical() -> (l: Logical) {
        Logical::AnyUtf8
    }
}

impl RefType for AnyUtf8 {
    type Ref = str;
}

/// Byte strings with 32-bit offsets.
#[derive(Debug)]
pub struct Binary;

impl LogicalType for Binary {
    type Optional = Option<Binary>;
    type Required = Binary;

    open spec fn spec_logical() -> Logical {
        Logical::Binary
    }

    fn logical() -> (l: Logical) {
        Logical::Binary
    }
}

impl ConcreteType for Binary {}

impl InfallibleBuild for Binary {
    proof fn lemma_infallible() {
    }
}

impl RefType for Binary {
    type Ref = [u8];
}

/// Byte strings with 64-bit offsets.
#[derive(Debug)]
pub struct LargeBinary;

impl LogicalType for LargeBinary {
    type Optional = Option<LargeBinary>;
    type Required = LargeBinary;

    open spec fn spec_logical() -> Logical {
        Logical::LargeBinary
    }

    fn logical() -> (l: Logical) {
        Logical::LargeBinary
    }
}

impl ConcreteType for LargeBinary {}

impl InfallibleBuild for LargeBinary {
    proof fn lemma_infallible() {
    }
}

impl RefType for LargeBinary {
    type Ref = [u8];
}

/// Byte strings in the view layout.
#[derive(Debug)]
pub struct BinaryView;

impl LogicalType for BinaryView {
    type Optional = Option<BinaryView>;
    type Required = BinaryView;

    open spec fn spec_logical() -> Logical {
        Logical::BinaryView
    }

    fn logical() -> (l: Logical) {
        Logical::BinaryView
    }
}

impl ConcreteType for BinaryView {}

impl InfallibleBuild for BinaryView {
    proof fn lemma_infallible() {
    }
}

impl RefType for BinaryView {
    type Ref = [u8];
}

/// Any of the byte-string encodings, fixed-size ones included, read as `&[u8]` (parse-only).
#[derive(Debug)]
pub struct AnyBinary;

impl LogicalType for AnyBinary {
    type Optional = Option<AnyBinary>;
    type Required = AnyBinary;

    open spec fn spec_logical() -> Logical {
        Logical::AnyBinary
    }

    fn logical() -> (l: Logical) {
        Logical::AnyBinary
    }
}

impl RefType for AnyBinary {
    type Ref = [u8];
}

/// Days since the Unix epoch, as `i32`.
#[derive(Debug)]
pub struct Date32;

impl LogicalType for Date32 {
    type Optional = Option<Date32>;
    type Required = Date32;

    open spec fn spec_logical() -> Logical {
        Logical::Date32
    }

    fn logical() -> (l: Logical) {
        Logical::Date32
    }
}

impl ConcreteType for Date32 {}

impl InfallibleBuild for Date32 {
    proof fn lemma_infallible() {
    }
}

impl PrimitiveType for Date32 {
    type Native = i32;
}

impl RefType for Date32 {
    type Ref = i32;
}

/// Milliseconds since the Unix epoch, as `i64`.
#[derive(Debug)]
pub struct Date64;

impl LogicalType for Date64 {
    type Optional = Option<Date64>;
    type Required = Date64;

    open spec fn spec_logical() -> Logical {
        Logical::Date64
    }

    fn logical() -> (l: Logical) {
        Logical::Date64
    }
}

impl ConcreteType for Date64 {}

impl InfallibleBuild for Date64 {
    proof fn lemma_infallible() {
    }
}

impl PrimitiveType for Date64 {
    type Native = i64;
}

impl RefType for Date64 {
    type Ref = i64;
}

/// Seconds since midnight, as `i32`.
#[derive(Debug)]
pub struct Time32Second;

impl LogicalType for Time32Second {
    type Optional = Option<Time32Second>;
    type Required = Time32Second;

    open spec fn spec_logical() -> Logical {
        Logical::Time32(TimeUnit::Second)
    }

    fn logical() -> (l: Logical) {
        Logical::Time32(TimeUnit::Second)
    }
}

impl ConcreteType for Time32Second {}

impl InfallibleBuild for Time32Second {
    proof fn lemma_infallible() {
    }
}

impl PrimitiveType for Time32Second {
    type Native = i32;
}

impl RefType for Time32Second {
    type Ref = i32;
}

/// Milliseconds since midnight, as `i32`.
#[derive(Debug)]
pub struct Time32Millisecond;

impl LogicalType for Time32Millisecond {
    type Optional = Option<Time32Millisecond>;
    type Required = Time32Millisecond;

    open spec fn spec_logical() -> Logical {
        Logical::Time32(TimeUnit::Millisecond)
    }

    fn logical() -> (l: Logical) {
        Logical::Time32(TimeUnit::Millisecond)
    }
}

impl ConcreteType for Time32Millisecond {}

impl InfallibleBuild for Time32Millisecond {
    proof fn lemma_infallible() {
    }
}

impl PrimitiveType for Time32Millisecond {
    type Native = i32;
}

impl RefType for Time32Millisecond {
    type Ref = i32;
}

/// Microseconds since midnight, as `i64`.
#[derive(Debug)]
pub struct Time64Microsecond;

impl LogicalType for Time64Microsecond {
    type Optional = Option<Time64Microsecond>;
    type Required = Time64Microsecond;

    open spec fn spec_logical() -> Logical {
        Logical::Time64(TimeUnit::Microsecond)
    }

    fn logical() -> (l: Logical) {
        Logical::Time64(TimeUnit::Microsecond)
    }
}

impl ConcreteType for Time64Microsecond {}

impl InfallibleBuild for Time64Microsecond {
    proof fn lemma_infallible() {
    }
}

impl PrimitiveType for Time64Microsecond {
    type Native = i64;
}

impl RefType for Time64Microsecond {
    type Ref = i64;
}

/// Nanoseconds since midnight, as `i64`.
#[derive(Debug)]
pub struct Time64Nanosecond;

impl LogicalType for Time64Nanosecond {
    type Optional = Option<Time64Nanosecond>;
    type Required = Time64Nanosecond;

    open spec fn spec_logical() -> Logical {
        Logical::Time64(TimeUnit::Nanosecond)
    }

    fn logical() -> (l: Logical) {
        Logical::Time64(TimeUnit::Nanosecond)
    }
}

impl ConcreteType for Time64Nanosecond {}

impl InfallibleBuild for Time64Nanosecond {
    proof fn lemma_infallible() {
    }
}

impl PrimitiveType for Time64Nanosecond {
    type Native = i64;
}

impl RefType for Time64Nanosecond {
    type Ref = i64;
}

/// A dynamically typed leaf: accepts any arrow data type. It declares the
/// placeholder data type `Null`, and cannot be built from values.
#[derive(Debug)]
pub struct Dyn;

impl LogicalType for Dyn {
    type Optional = Option<Dyn>;
    type Required = Dyn;

    open spec fn spec_logical() -> Logical {
        Logical::Dyn
    }

    fn logical() -> (l: Logical) {
        Logical::Dyn
    }
}

impl ConcreteType for Dyn {}

pub type TimestampSecond<Z = NoTimezone> = Timestamp<Second, Z>;

pub type TimestampMillisecond<Z = NoTimezone> = Timestamp<Millisecond, Z>;

pub type TimestampMicrosecond<Z = NoTimezone> = Timestamp<Microsecond, Z>;

pub type TimestampNanosecond<Z = NoTimezone> = Timestamp<Nanosecond, Z>;

/// Elapsed time: `i64` ticks of unit `U`.
#[derive(Debug)]
pub struct Duration<U> {
    marker: PhantomData<U>,
}

impl<U: TimeUnitSpec> LogicalType for Duration<U> {
    type Optional = Option<Duration<U>>;
    type Required = Duration<U>;

    open spec fn spec_logical() -> Logical {
        Logical::Duration(U::spec_unit())
    }

    fn logical() -> (l: Logical) {
        Logical::Duration(U::unit())
    }
}

impl<U: TimeUnitSpec> ConcreteType for Duration<U> {}

impl<U: TimeUnitSpec> InfallibleBuild for Duration<U> {
    proof fn lemma_infallible() {
    }
}

impl<U: TimeUnitSpec> PrimitiveType for Duration<U> {
    type Native = i64;
}

impl<U: TimeUnitSpec> RefType for Duration<U> {
    type Ref = i64;
}

pub type DurationSecond = Duration<Second>;

pub type DurationMillisecond = Duration<Millisecond>;

pub type DurationMicrosecond = Duration<Microsecond>;

pub type DurationNanosecond = Duration<Nanosecond>;

/// Lists of `L`, with 64-bit offsets.
#[derive(Debug)]
pub struct LargeList<L> {
    marker: PhantomData<L>,
}

impl<L: LogicalType> LogicalType for LargeList<L> {
    type Optional = Option<LargeList<L>>;
    type Required = LargeList<L>;

    open spec fn spec_logical() -> Logical {
        Logical::LargeList(Box::new(L::spec_logical()))
    }

    fn logical() -> (l: Logical) {
        Logical::LargeList(Box::new(L::logical()))
    }
}

impl<L: ConcreteType> ConcreteType for LargeList<L> {}

impl<L: InfallibleBuild> InfallibleBuild for LargeList<L> {
    proof fn lemma_infallible() {
        L::lemma_infallible();
    }
}

/// Lists of `L`, in the view layout (per-row offset and size).
#[derive(Debug)]
pub struct ListView<L> {
    marker: PhantomData<L>,
}

impl<L: LogicalType> LogicalType for ListView<L> {
    type Optional = Option<ListView<L>>;
    type Required = ListView<L>;

    open spec fn spec_logical() -> Logical {
        Logical::ListView(Box::new(L::spec_logical()))
    }

    fn logical() -> (l: Logical) {
        Logical::ListView(Box::new(L::logical()))
    }
}

impl<L: ConcreteType> ConcreteType for ListView<L> {}

impl<L: InfallibleBuild> InfallibleBuild for ListView<L> {
    proof fn lemma_infallible() {
        L::lemma_infallible();
    }
}

/// Lists of `L`, in the view layout with 64-bit offsets and sizes.
#[derive(Debug)]
pub struct LargeListView<L> {
    marker: PhantomData<L>,
}

impl<L: LogicalType> LogicalType for LargeListView<L> {
    type Optional = Option<LargeListView<L>>;
    type Required = LargeListView<L>;

    open spec fn spec_logical() -> Logical {
        Logical::LargeListView(Box::new(L::spec_logical()))
    }

    fn logical() -> (l: Logical) {
        Logical::LargeListView(Box::new(L::logical()))
    }
}

impl<L: ConcreteType> ConcreteType for LargeListView<L> {}

impl<L: InfallibleBuild> InfallibleBuild for LargeListView<L> {
    proof fn lemma_infallible() {
        L::lemma_infallible();
    }
}

/// Lists of exactly `N` items of `L`.
#[derive(Debug)]
pub struct FixedSizeList<L, const N: usize> {
    marker: PhantomData<L>,
}

impl<L: LogicalType, const N: usize> LogicalType for FixedSizeList<L, N> {
    type Optional = Option<FixedSizeList<L, N>>;
    type Required = FixedSizeList<L, N>;

    open spec fn spec_logical() -> Logical {
        Logical::FixedSizeList(Box::new(L::spec_logical()), N)
    }

    fn logical() -> (l: Logical) {
        Logical::FixedSizeList(Box::new(L::logical()), N)
    }
}

impl<L: ConcreteType, const N: usize> ConcreteType for FixedSizeList<L, N> {}

impl<L: InfallibleBuild, const N: usize> InfallibleBuild for FixedSizeList<L, N> {
    proof fn lemma_infallible() {
        L::lemma_infallible();
    }
}

/// Lists of `L` in any of the list encodings (parse-only).
#[derive(Debug)]
pub struct AnyList<L> {
    marker: PhantomData<L>,
}

impl<L: LogicalType> LogicalType for AnyList<L> {
    type Optional = Option<AnyList<L>>;
    type Required = AnyList<L>;

    open spec fn spec_logical() -> Logical {
        Logical::AnyList(Box::new(L::spec_logical()))
    }

    fn logical() -> (l: Logical) {
        Logical::AnyList(Box::new(L::logical()))
    }
}

/// Maps from keys `K` to values `V`: one row is a list of key-value entries.
#[derive(Debug)]
pub struct MapOf<K, V> {
    marker: PhantomData<(K, V)>,
}

impl<K: LogicalType, V: LogicalType> LogicalType for MapOf<K, V> {
    type Optional = Option<MapOf<K, V>>;
    type Required = MapOf<K, V>;

    open spec fn spec_logical() -> Logical {
        Logical::MapOf(Box::new(K::spec_logical()), Box::new(V::spec_logical()))
    }

    fn logical() -> (l: Logical) {
        Logical::MapOf(Box::new(K::logical()), Box::new(V::logical()))
    }
}

impl<K: ConcreteType, V: ConcreteType> ConcreteType for MapOf<K, V> {}

impl<K: InfallibleBuild, V: InfallibleBuild> InfallibleBuild for MapOf<K, V> {
    proof fn lemma_infallible() {
        K::lemma_infallible();
        V::lemma_infallible();
    }
}

/// Dictionary-encoded values `V`, with keys of type `K`; read transparently as `V`.
#[derive(Debug)]
pub struct Dictionary<K, V> {
    marker: PhantomData<(K, V)>,
}

impl<K: DictionaryKey, V: LogicalType> LogicalType for Dictionary<K, V> {
    type Optional = Option<Dictionary<K, V>>;
    type Required = Dictionary<K, V>;

    open spec fn spec_logical() -> Logical {
        Logical::Dictionary(Box::new(K::spec_logical()), Box::new(V::spec_logical()))
    }

    fn logical() -> (l: Logical) {
        Logical::Dictionary(Box::new(K::logical()), Box::new(V::logical()))
    }
}

impl<K: DictionaryKey, V: ConcreteType> ConcreteType for Dictionary<K, V> {}

/// Run-end-encoded values `V`, with run ends of type `R`; read transparently as `V`.
#[derive(Debug)]
pub struct Run<R, V> {
    marker: PhantomData<(R, V)>,
}

impl<R: RunEndType, V: LogicalType> LogicalType for Run<R, V> {
    type Optional = Option<Run<R, V>>;
    type Required = Run<R, V>;

    open spec fn spec_logical() -> Logical {
        Logical::Run(Box::new(R::spec_logical()), Box::new(V::spec_logical()))
    }

    fn logical() -> (l: Logical) {
        Logical::Run(Box::new(R::logical()), Box::new(V::logical()))
    }
}

impl<R: RunEndType, V: ConcreteType> ConcreteType for Run<R, V> {}

/// Reads `L` while ignoring the validity mask at this level: a mask is never an error, and no value reads as null.
#[derive(Debug)]
pub struct IgnoreValidity<L> {
    marker: PhantomData<L>,
}

impl<L: LogicalType> LogicalType for IgnoreValidity<L> {
    type Optional = Option<IgnoreValidity<L>>;
    type Required = IgnoreValidity<L>;

    open spec fn spec_logical() -> Logical {
        Logical::IgnoreValidity(Box::new(L::spec_logical()))
    }

    fn logical() -> (l: Logical) {
        Logical::IgnoreValidity(Box::new(L::logical()))
    }
}

impl<L: ConcreteType> ConcreteType for IgnoreValidity<L> {}

impl<L: InfallibleBuild> InfallibleBuild for IgnoreValidity<L> {
    proof fn lemma_infallible() {
        L::lemma_infallible();
    }
}

impl<K: DictionaryKey, V: RefType> RefType for Dictionary<K, V> {
    type Ref = V::Ref;
}

impl<R: RunEndType, V: RefType> RefType for Run<R, V> {
    type Ref = V::Ref;
}

impl<L: PrimitiveType> PrimitiveType for IgnoreValidity<L> {
    type Native = L::Native;
}

impl<L: RefType> RefType for IgnoreValidity<L> {
    type Ref = L::Ref;
}

/// A type `T` stored as, and read as, its representation `Repr` (for foreign types).
#[derive(Debug)]
pub struct As<T, Repr> {
    marker: PhantomData<(T, Repr)>,
}

impl<T, Repr: LogicalType> LogicalType for As<T, Repr> {
    type Optional = Option<As<T, Repr>>;
    type Required = As<T, Repr>;

    open spec fn spec_logical() -> Logical {
        Repr::spec_logical()
    }

    fn logical() -> (l: Logical) {
        Repr::logical()
    }
}

impl<T, Repr: ConcreteType> ConcreteType for As<T, Repr> {}

impl<T, Repr: InfallibleBuild> InfallibleBuild for As<T, Repr> {
    proof fn lemma_infallible() {
        Repr::lemma_infallible();
    }
}

impl<T, Repr: PrimitiveType> PrimitiveType for As<T, Repr> {
    type Native = Repr::Native;
}

impl<T, Repr: RefType> RefType for As<T, Repr> {
    type Ref = Repr::Ref;
}

/// A column of `Repr` tagged with the domain type `T`; nothing is validated or converted.
#[derive(Debug)]
pub struct Transparent<T, Repr> {
    marker: PhantomData<(T, Repr)>,
}

impl<T, Repr: LogicalType> LogicalType for Transparent<T, Repr> {
    type Optional = Option<Transparent<T, Repr>>;
    type Required = Transparent<T, Repr>;

    open spec fn spec_logical() -> Logical {
        Repr::spec_logical()
    }

    fn logical() -> (l: Logical) {
        Repr::logical()
    }
}

impl<T, Repr: ConcreteType> ConcreteType for Transparent<T, Repr> {}

impl<T, Repr: InfallibleBuild> InfallibleBuild for Transparent<T, Repr> {
    proof fn lemma_infallible() {
        Repr::lemma_infallible();
    }
}

impl<T, Repr: PrimitiveType> PrimitiveType for Transparent<T, Repr> {
    type Native = Repr::Native;
}

impl<T, Repr: RefType> RefType for Transparent<T, Repr> {
    type Ref = Repr::Ref;
}

} // verus!
