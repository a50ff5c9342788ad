//! The layout of an arrow array, as plain values, and its validation against
//! a logical type.
//!
//! An [`ArrayLayout`] holds what validation reads from an arrow array: its
//! data type, its length, the validity of its rows, the offsets (or keys, or
//! run ends) that map its rows to its children, and the children themselves.
//! Validation checks the data type, then the nulls at every level the logical
//! type declares non-nullable — counting only the nulls a valid row can reach.

use vstd::prelude::*;

use crate::data_type::{DataType, DataTypeSpec};
use crate::error::{data_types_view, ColumnError};
use crate::logical::{
    accepts, lemma_optional_same_data_types, lemma_required_idempotent, optional_of, required_of,
    spec_accepts, spec_data_type, spec_nullable, spec_rejects_nulls, spec_supported,
    supported_data_types, Logical,
};
use crate::nulls::{
    dict_referenced_nulls, dictionary_referenced_null_count, fixed_item_null_count, fixed_offsets,
    is_valid, list_item_null_count, list_reachable_nulls, nulls_in, nulls_in_exec, offsets_ok,
    run_ends_ok, run_logical_null_count, run_logical_nulls, validity_len, validity_view,
    view_item_null_count, view_reachable_nulls,
};

verus! {

/// The layout of an arrow array.
///
/// * `validity`: per row, `true` for a valid row; `None` when the array has
///   no validity buffer.
/// * `offsets`: for `List`, `LargeList`, and `Map` arrays, the `len + 1`
///   offsets into the child; for list views, the start of each row's range;
///   for dictionaries, the key of each row; for run-end-encoded arrays, the
///   run ends.
/// * `sizes`: for list views, the size of each row's range.
/// * `offset`: for fixed-size lists, the child index where row 0 starts; for
///   every other array, the position of row 0 in the array's buffers (for a
///   run-end-encoded array, the logical position of row 0 among its runs).
/// * `children`: the child arrays — the items of a list, the keys then the
///   values of a map, the value table of a dictionary, the run values.
#[derive(Debug)]
pub struct ArrayLayout {
    pub data_type: DataType,
    pub len: usize,
    pub validity: Option<Vec<bool>>,
    pub offsets: Vec<usize>,
    pub sizes: Vec<usize>,
    pub offset: usize,
    pub children: Vec<ArrayLayout>,
}

/// The mathematical value of an [`ArrayLayout`].
pub struct LayoutSpec {
    pub data_type: DataTypeSpec,
    pub len: usize,
    pub validity: Option<Seq<bool>>,
    pub offsets: Seq<usize>,
    pub sizes: Seq<usize>,
    pub offset: usize,
    pub children: Seq<LayoutSpec>,
}

pub open spec fn layout_view(a: ArrayLayout) -> LayoutSpec
    decreases a, 0int,
{
    LayoutSpec {
        data_type: a.data_type@,
        len: a.len,
        validity: validity_view(&a.validity),
        offsets: a.offsets@,
        sizes: a.sizes@,
        offset: a.offset,
        children: layouts_view(a.children@),
    }
}

pub open spec fn layouts_view(s: Seq<ArrayLayout>) -> Seq<LayoutSpec>
    decreases s, 1int,
{
    if s.len() == 0 {
        Seq::empty()
    } else {
        seq![layout_view(s[0])] + layouts_view(s.drop_first())
    }
}

impl View for ArrayLayout {
    type V = LayoutSpec;

    open spec fn view(&self) -> LayoutSpec {
        layout_view(*self)
    }
}

pub proof fn lemma_layouts_view(s: Seq<ArrayLayout>)
    ensures
        layouts_view(s).len() == s.len(),
        forall|i: int| 0 <= i < s.len() ==> #[trigger] layouts_view(s)[i] == layout_view(s[i]),
    decreases s.len(),
{
    if s.len() > 0 {
        lemma_layouts_view(s.drop_first());
        assert forall|i: int| 0 <= i < s.len() implies #[trigger] layouts_view(s)[i] == layout_view(
            s[i],
        ) by {
            if i > 0 {
                assert(s.drop_first()[i - 1] == s[i]);
            }
        }
    }
}

// Shapes: what each encoding's layout guarantees (arrow upholds these for
// every array it constructs).

/// Offsets into a child: `len + 1` offsets that never decrease, within the child.
pub open spec fn list_shape_ok(a: LayoutSpec) -> bool {
    &&& a.children.len() >= 1
    &&& a.offsets.len() == a.len + 1
    &&& offsets_ok(a.offsets, a.children[0].len as int)
    &&& validity_len(a.children[0].validity, a.children[0].len as int)
}

/// Per-row ranges `offsets[r]..offsets[r] + sizes[r]` within the child.
pub open spec fn view_shape_ok(a: LayoutSpec) -> bool {
    &&& a.children.len() >= 1
    &&& a.offsets.len() == a.len
    &&& a.sizes.len() == a.len
    &&& forall|r: int| 0 <= r < a.len ==> a.offsets[r] + a.sizes[r] <= a.children[0].len
    &&& validity_len(a.children[0].validity, a.children[0].len as int)
    &&& view_reachable_nulls(
        a.offsets,
        a.sizes,
        a.validity,
        a.children[0].validity,
        0,
        a.len as int,
    ) <= usize::MAX
}

/// Rows of `size` items each, starting at `offset`, within the child.
pub open spec fn fixed_shape_ok(a: LayoutSpec, size: int) -> bool {
    &&& a.children.len() >= 1
    &&& 0 <= size
    &&& a.offset + a.len * size <= a.children[0].len
    &&& validity_len(a.children[0].validity, a.children[0].len as int)
}

/// A map: offsets into its keys and values, which have the same length.
pub open spec fn map_shape_ok(a: LayoutSpec) -> bool {
    &&& a.children.len() >= 2
    &&& a.offsets.len() == a.len + 1
    &&& offsets_ok(a.offsets, a.children[0].len as int)
    &&& a.children[1].len == a.children[0].len
    &&& validity_len(a.children[0].validity, a.children[0].len as int)
    &&& validity_len(a.children[1].validity, a.children[1].len as int)
}

/// A dictionary: one key per row; the key of a valid row is an index into the
/// value table.
pub open spec fn dict_shape_ok(a: LayoutSpec) -> bool {
    &&& a.children.len() >= 1
    &&& a.offsets.len() == a.len
    &&& validity_len(a.children[0].validity, a.children[0].len as int)
    &&& forall|r: int| 0 <= r < a.len && is_valid(a.validity, r) ==> a.offsets[r] < a.children[0].len
}

/// A run-end-encoded array: strictly increasing run ends covering the rows,
/// one run value per run, and no validity of its own.
pub open spec fn run_shape_ok(a: LayoutSpec) -> bool {
    &&& a.children.len() >= 1
    &&& a.validity is None
    &&& run_ends_ok(a.offsets)
    &&& a.offset + a.len <= usize::MAX
    &&& a.len > 0 ==> a.offsets.len() > 0 && a.offset + a.len <= a.offsets.last()
    &&& a.children[0].len >= a.offsets.len()
    &&& validity_len(a.children[0].validity, a.children[0].len as int)
}

/// The layout has the shape its data type calls for, at every level the
/// logical type reads.
pub open spec fn layout_ok(l: Logical, a: LayoutSpec) -> bool
    decreases l,
{
    &&& validity_len(a.validity, a.len as int)
    &&& match l {
        Logical::List(inner) | Logical::LargeList(inner) => list_shape_ok(a) && layout_ok(
            *inner,
            a.children[0],
        ),
        Logical::ListView(inner) | Logical::LargeListView(inner) => view_shape_ok(a) && layout_ok(
            *inner,
            a.children[0],
        ),
        Logical::FixedSizeList(inner, n) => fixed_shape_ok(a, n as int) && layout_ok(
            *inner,
            a.children[0],
        ),
        Logical::AnyList(inner) => match a.data_type {
            DataTypeSpec::List(_) | DataTypeSpec::LargeList(_) => list_shape_ok(a) && layout_ok(
                *inner,
                a.children[0],
            ),
            DataTypeSpec::ListView(_) | DataTypeSpec::LargeListView(_) => view_shape_ok(a)
                && layout_ok(*inner, a.children[0]),
            DataTypeSpec::FixedSizeList(_, m) => fixed_shape_ok(a, m as int) && layout_ok(
                *inner,
                a.children[0],
            ),
            _ => true,
        },
        Logical::MapOf(k, v) => map_shape_ok(a) && layout_ok(*k, a.children[0]) && layout_ok(
            *v,
            a.children[1],
        ),
        Logical::Dictionary(_, v) => dict_shape_ok(a) && layout_ok(*v, a.children[0]),
        Logical::Run(_, v) => run_shape_ok(a) && layout_ok(*v, a.children[0]),
        Logical::Nullable(inner) | Logical::IgnoreValidity(inner) => layout_ok(*inner, a),
        _ => true,
    }
}

/// The array is well-formed for its own data type, as arrow guarantees of
/// every array it constructs: validity buffers of the right length, the shape
/// each encoding calls for, and children whose data types are the ones their
/// parent declares.
pub open spec fn array_ok(a: LayoutSpec) -> bool
    decreases a,
{
    &&& validity_len(a.validity, a.len as int)
    &&& a.offset + a.len <= usize::MAX
    &&& match a.data_type {
        DataTypeSpec::List(f) | DataTypeSpec::LargeList(f) => {
            &&& list_shape_ok(a)
            &&& a.children[0].data_type == f.data_type
            &&& array_ok(a.children[0])
        },
        DataTypeSpec::ListView(f) | DataTypeSpec::LargeListView(f) => {
            &&& view_shape_ok(a)
            &&& a.children[0].data_type == f.data_type
            &&& array_ok(a.children[0])
        },
        DataTypeSpec::FixedSizeList(f, m) => {
            &&& fixed_shape_ok(a, m as int)
            &&& a.children[0].data_type == f.data_type
            &&& array_ok(a.children[0])
        },
        DataTypeSpec::MapOf(entries, _) => {
            &&& map_shape_ok(a)
            &&& entries.data_type matches DataTypeSpec::Struct(fs) && fs.len() == 2
                && a.children[0].data_type == fs[0].data_type && a.children[1].data_type
                == fs[1].data_type
            &&& array_ok(a.children[0])
            &&& array_ok(a.children[1])
        },
        DataTypeSpec::Dictionary(_, v) => {
            &&& dict_shape_ok(a)
            &&& a.children[0].data_type == *v
            &&& array_ok(a.children[0])
        },
        DataTypeSpec::RunEndEncoded(_, v) => {
            &&& run_shape_ok(a)
            &&& a.children[0].data_type == v.data_type
            &&& array_ok(a.children[0])
        },
        _ => true,
    }
}

/// A well-formed array whose data type the logical type accepts has the
/// layout the logical type reads.
pub proof fn lemma_accepted_layout(l: Logical, a: LayoutSpec)
    requires
        array_ok(a),
        spec_accepts(l, a.data_type),
    ensures
        layout_ok(l, a),
    decreases l,
{
    match l {
        Logical::List(inner) | Logical::LargeList(inner) | Logical::ListView(inner)
        | Logical::LargeListView(inner) | Logical::FixedSizeList(inner, _) | Logical::AnyList(inner) => {
            match a.data_type {
                DataTypeSpec::List(_) | DataTypeSpec::LargeList(_) | DataTypeSpec::ListView(_)
                | DataTypeSpec::LargeListView(_) | DataTypeSpec::FixedSizeList(_, _) => {
                    lemma_accepted_layout(*inner, a.children[0]);
                },
                _ => {},
            }
        },
        Logical::MapOf(k, v) => {
            lemma_accepted_layout(*k, a.children[0]);
            lemma_accepted_layout(*v, a.children[1]);
        },
        Logical::Dictionary(_, v) | Logical::Run(_, v) => {
            lemma_accepted_layout(*v, a.children[0]);
        },
        Logical::Nullable(inner) | Logical::IgnoreValidity(inner) => {
            lemma_accepted_layout(*inner, a);
        },
        _ => {},
    }
}

// The reachable nulls of each encoding's child.

pub open spec fn list_nulls(a: LayoutSpec, child: LayoutSpec) -> nat {
    list_reachable_nulls(a.offsets, a.validity, child.validity, 0, a.len as int)
}

pub open spec fn view_nulls(a: LayoutSpec) -> nat {
    view_reachable_nulls(a.offsets, a.sizes, a.validity, a.children[0].validity, 0, a.len as int)
}

pub open spec fn fixed_nulls(a: LayoutSpec, size: int) -> nat {
    list_reachable_nulls(
        fixed_offsets(a.offset as int, size, a.len as int),
        a.validity,
        a.children[0].validity,
        0,
        a.len as int,
    )
}

pub open spec fn dict_nulls(a: LayoutSpec) -> nat {
    dict_referenced_nulls(a.offsets, a.validity, a.children[0].validity, 0, a.len as int)
}

pub open spec fn run_nulls(a: LayoutSpec) -> nat {
    run_logical_nulls(a.offsets, a.children[0].validity, a.offset as int, a.offset + a.len)
}

/// The nulls of the rows themselves.
pub open spec fn top_nulls(a: LayoutSpec) -> nat {
    nulls_in(a.validity, 0, a.len as int)
}

/// A child check: `count` unexpected nulls if the item type rejects them,
/// else the outcome of the checks further down.
pub open spec fn item_check(inner: Logical, count: nat, rest: nat) -> nat {
    if spec_rejects_nulls(inner) && count > 0 {
        count
    } else {
        rest
    }
}

/// The unexpected nulls found below the top level: the count of the first
/// failing check (children before grandchildren, keys before values), or 0
/// when every check passes.
pub open spec fn downcast_nulls(l: Logical, a: LayoutSpec) -> nat
    decreases l,
{
    match l {
        Logical::List(inner) | Logical::LargeList(inner) => item_check(
            *inner,
            list_nulls(a, a.children[0]),
            downcast_nulls(*inner, a.children[0]),
        ),
        Logical::ListView(inner) | Logical::LargeListView(inner) => item_check(
            *inner,
            view_nulls(a),
            downcast_nulls(*inner, a.children[0]),
        ),
        Logical::FixedSizeList(inner, n) => item_check(
            *inner,
            fixed_nulls(a, n as int),
            downcast_nulls(*inner, a.children[0]),
        ),
        Logical::AnyList(inner) => match a.data_type {
            DataTypeSpec::List(_) | DataTypeSpec::LargeList(_) => item_check(
                *inner,
                list_nulls(a, a.children[0]),
                downcast_nulls(*inner, a.children[0]),
            ),
            DataTypeSpec::ListView(_) | DataTypeSpec::LargeListView(_) => item_check(
                *inner,
                view_nulls(a),
                downcast_nulls(*inner, a.children[0]),
            ),
            DataTypeSpec::FixedSizeList(_, m) => item_check(
                *inner,
                fixed_nulls(a, m as int),
                downcast_nulls(*inner, a.children[0]),
            ),
            _ => 0,
        },
        Logical::MapOf(k, v) => item_check(
            *k,
            list_nulls(a, a.children[0]),
            item_check(
                *v,
                list_nulls(a, a.children[1]),
                if downcast_nulls(*k, a.children[0]) > 0 {
                    downcast_nulls(*k, a.children[0])
                } else {
                    downcast_nulls(*v, a.children[1])
                },
            ),
        ),
        Logical::Dictionary(_, v) => item_check(*v, dict_nulls(a), downcast_nulls(*v, a.children[0])),
        Logical::Run(_, v) => item_check(*v, run_nulls(a), downcast_nulls(*v, a.children[0])),
        Logical::Nullable(inner) | Logical::IgnoreValidity(inner) => downcast_nulls(*inner, a),
        _ => 0,
    }
}

/// The outcome of validating an array against a logical type.
pub enum Verdict {
    Valid,
    WrongDataType,
    UnexpectedNulls(nat),
}

/// Validation: the data type first, then the nulls below the top level, then
/// the nulls of the rows themselves.
pub open spec fn spec_verdict(l: Logical, a: LayoutSpec) -> Verdict {
    if !spec_accepts(l, a.data_type) {
        Verdict::WrongDataType
    } else if downcast_nulls(l, a) > 0 {
        Verdict::UnexpectedNulls(downcast_nulls(l, a))
    } else if spec_rejects_nulls(l) && top_nulls(a) > 0 {
        Verdict::UnexpectedNulls(top_nulls(a))
    } else {
        Verdict::Valid
    }
}

/// `Option` layers are transparent to the layout checks and to the checks
/// below the top level: only the nulls of the rows themselves differ.
pub proof fn lemma_nullability_layers(l: Logical, a: LayoutSpec)
    ensures
        layout_ok(optional_of(l), a) == layout_ok(l, a),
        layout_ok(required_of(l), a) == layout_ok(l, a),
        downcast_nulls(optional_of(l), a) == downcast_nulls(l, a),
        downcast_nulls(required_of(l), a) == downcast_nulls(l, a),
    decreases l,
{
    if let Logical::Nullable(inner) = l {
        lemma_nullability_layers(*inner, a);
    }
}

/// The nullable form of a type accepts an array exactly when the type's data
/// type and its inner levels do, whatever the nulls of the rows; so it accepts
/// every array the type itself accepts.
pub proof fn lemma_optional_verdict(l: Logical, a: LayoutSpec)
    ensures
        (spec_verdict(optional_of(l), a) is Valid) == (spec_accepts(l, a.data_type) && downcast_nulls(l, a)
            == 0),
        spec_verdict(l, a) is Valid ==> spec_verdict(optional_of(l), a) is Valid,
{
    lemma_nullability_layers(l, a);
    lemma_optional_same_data_types(l, a.data_type);
}

/// The non-nullable form of a type accepts an array exactly when the
/// nullable form does and the rows themselves hold no null (unless the
/// innermost level ignores validity).
pub proof fn lemma_required_verdict(l: Logical, a: LayoutSpec)
    ensures
        (spec_verdict(required_of(l), a) is Valid) == (spec_verdict(optional_of(l), a) is Valid && (
        spec_rejects_nulls(required_of(l)) ==> top_nulls(a) == 0)),
{
    lemma_nullability_layers(l, a);
    lemma_optional_same_data_types(l, a.data_type);
    lemma_required_idempotent(l);
}

/// `IgnoreValidity` changes only the rejection of the rows' own nulls: it
/// accepts an array exactly when the inner type's data type and inner levels
/// do, whatever the rows' validity says, and it declares the same data type
/// and nullability as the inner type.
pub proof fn lemma_ignore_validity_verdict(l: Logical, a: LayoutSpec)
    ensures
        (spec_verdict(Logical::IgnoreValidity(Box::new(l)), a) is Valid) == (spec_accepts(l, a.data_type)
            && downcast_nulls(l, a) == 0),
        spec_verdict(l, a) is Valid ==> spec_verdict(Logical::IgnoreValidity(Box::new(l)), a) is Valid,
        spec_data_type(Logical::IgnoreValidity(Box::new(l))) == spec_data_type(l),
        spec_nullable(Logical::IgnoreValidity(Box::new(l))) == spec_nullable(l),
{
}

/// The validation outcome of a result.
pub open spec fn verdict_of(r: Result<(), ColumnError>, l: Logical, a: LayoutSpec) -> bool {
    match r {
        Ok(()) => spec_verdict(l, a) is Valid,
        Err(ColumnError::WrongDataType { supported, actual }) => spec_verdict(l, a) is WrongDataType
            && actual@ == a.data_type && data_types_view(supported@) == spec_supported(l),
        Err(ColumnError::UnexpectedNulls { null_count }) => spec_verdict(l, a) == Verdict::UnexpectedNulls(
            null_count as nat,
        ),
        _ => false,
    }
}

fn validity_ref(v: &Option<Vec<bool>>) -> (r: Option<&Vec<bool>>)
    ensures
        match (v, r) {
            (Some(x), Some(y)) => x == y,
            (None, None) => true,
            _ => false,
        },
{
    match v {
        Some(x) => Some(x),
        None => None,
    }
}

fn child_check(inner: &Logical, count: usize, rest: usize) -> (r: usize)
    ensures
        r == item_check(*inner, count as nat, rest as nat),
{
    if inner.rejects_nulls() && count > 0 {
        count
    } else {
        rest
    }
}

/// The unexpected nulls found below the top level (see [`downcast_nulls`]).
pub fn downcast_null_count(l: &Logical, a: &ArrayLayout) -> (r: usize)
    requires
        layout_ok(*l, a@),
    ensures
        r == downcast_nulls(*l, a@),
    decreases *l,
{
    proof {
        lemma_layouts_view(a.children@);
    }
    match l {
        Logical::List(inner) | Logical::LargeList(inner) => {
            let child = &a.children[0];
            let count = if inner.rejects_nulls() {
                list_item_null_count(&a.offsets, &a.validity, &child.validity)
            } else {
                0
            };
            if inner.rejects_nulls() && count > 0 {
                return count;
            }
            downcast_null_count(inner, child)
        },
        Logical::ListView(inner) | Logical::LargeListView(inner) => {
            let child = &a.children[0];
            let count = if inner.rejects_nulls() {
                view_item_null_count(&a.offsets, &a.sizes, &a.validity, &child.validity)
            } else {
                0
            };
            if inner.rejects_nulls() && count > 0 {
                return count;
            }
            downcast_null_count(inner, child)
        },
        Logical::FixedSizeList(inner, n) => {
            let child = &a.children[0];
            let count = if inner.rejects_nulls() {
                fixed_item_null_count(a.offset, *n, a.len, &a.validity, &child.validity)
            } else {
                0
            };
            if inner.rejects_nulls() && count > 0 {
                return count;
            }
            downcast_null_count(inner, child)
        },
        Logical::AnyList(inner) => any_list_null_count(l, a),
        Logical::MapOf(k, v) => {
            let keys = &a.children[0];
            let values = &a.children[1];
            if k.rejects_nulls() {
                let count = list_item_null_count(&a.offsets, &a.validity, &keys.validity);
                if count > 0 {
                    return count;
                }
            }
            if v.rejects_nulls() {
                let count = list_item_null_count(&a.offsets, &a.validity, &values.validity);
                if count > 0 {
                    return count;
                }
            }
            let in_keys = downcast_null_count(k, keys);
            if in_keys > 0 {
                return in_keys;
            }
            downcast_null_count(v, values)
        },
        Logical::Dictionary(_, v) => {
            let values = &a.children[0];
            if v.rejects_nulls() {
                let count = dictionary_referenced_null_count(&a.offsets, &a.validity, &values.validity);
                if count > 0 {
                    return count;
                }
            }
            downcast_null_count(v, values)
        },
        Logical::Run(_, v) => {
            let values = &a.children[0];
            if v.rejects_nulls() {
                let count = run_logical_null_count(&a.offsets, a.offset, a.len, &values.validity);
                if count > 0 {
                    return count;
                }
            }
            downcast_null_count(v, values)
        },
        Logical::Nullable(inner) | Logical::IgnoreValidity(inner) => downcast_null_count(inner, a),
        _ => 0,
    }
}

fn any_list_null_count(l: &Logical, a: &ArrayLayout) -> (r: usize)
    requires
        l is AnyList,
        layout_ok(*l, a@),
    ensures
        r == downcast_nulls(*l, a@),
    decreases *l, 0int,
{
    proof {
        lemma_layouts_view(a.children@);
        crate::data_type::lemma_view_shape(a.data_type);
    }
    let inner = match l {
        Logical::AnyList(inner) => inner,
        _ => {
            return 0;
        },
    };
    match &a.data_type {
        DataType::List(_) | DataType::LargeList(_) => {
            let child = &a.children[0];
            if inner.rejects_nulls() {
                let count = list_item_null_count(&a.offsets, &a.validity, &child.validity);
                if count > 0 {
                    return count;
                }
            }
            downcast_null_count(inner, child)
        },
        DataType::ListView(_) | DataType::LargeListView(_) => {
            let child = &a.children[0];
            if inner.rejects_nulls() {
                let count = view_item_null_count(&a.offsets, &a.sizes, &a.validity, &child.validity);
                if count > 0 {
                    return count;
                }
            }
            downcast_null_count(inner, child)
        },
        DataType::FixedSizeList(_, m) => {
            let child = &a.children[0];
            if inner.rejects_nulls() {
                let count = fixed_item_null_count(a.offset, *m as usize, a.len, &a.validity, &child.validity);
                if count > 0 {
                    return count;
                }
            }
            downcast_null_count(inner, child)
        },
        _ => 0,
    }
}

/// Validates an array against the logical type `l`: its data type (including
/// the inner types of nested arrays), then the reachable nulls at every level
/// `l` declares non-nullable — the children first, the rows themselves last.
pub fn validate(l: &Logical, a: &ArrayLayout) -> (r: Result<(), ColumnError>)
    requires
        array_ok(a@),
    ensures
        verdict_of(r, *l, a@),
{
    if !accepts(l, &a.data_type) {
        let supported = supported_data_types(l);
        proof {
            assert(data_types_view(supported@) =~= spec_supported(*l));
        }
        return Err(ColumnError::WrongDataType { supported, actual: a.data_type.duplicate() });
    }
    proof {
        lemma_accepted_layout(*l, a@);
    }
    let below = downcast_null_count(l, a);
    if below > 0 {
        return Err(ColumnError::UnexpectedNulls { null_count: below });
    }
    if l.rejects_nulls() {
        let own = nulls_in_exec(&a.validity, 0, a.len);
        if own > 0 {
            return Err(ColumnError::UnexpectedNulls { null_count: own });
        }
    }
    Ok(())
}

} // verus!
