//! Building and reading nested arrays: fixed-size lists, lists and maps of
//! any buildable item, key and value types.
//!
//! Each nested array is assembled from its rows as `builder` lays them out
//! (flattened items, running offsets, row validity); the child arrays are
//! built by the item types themselves, and the nested array takes the data
//! types its children actually have.

use vstd::prelude::*;

use crate::arrow_arrays::{
    arrow_child, arrow_layout, entries_array, fixed_size_list_array, fixed_size_list_items, list_array,
    list_items, map_array, map_keys, map_values, options_validity, ArrowArray,
};
use crate::buildable::{lemma_verdicts, readable, Buildable};
use crate::builder::{
    fixed_layout, fixed_parts, flatten, lemma_fixed_parts_valid, lemma_list_parts_valid, lemma_list_read_back,
    lemma_map_parts_valid, lemma_offsets_of, lemma_padded_index, lemma_padded_len, list_layout, list_parts,
    map_layout, map_parts, offsets_of, padded, padded_row, row_items, rows_of_size, rows_validity,
};
use crate::data_type::{fields_view, lemma_fields_view, plain_field, DataType, DataTypeSpec, Field};
use crate::layout::{layouts_view, lemma_layouts_view, ArrayLayout, LayoutSpec};
use crate::logical::{owned, spec_accepts, spec_nullable, Logical};
use crate::markers::{FixedSizeList, List, LogicalType, MapOf};
use crate::nulls::{is_valid, validity_view};

verus! {

/// A copy of a validity buffer.
pub(crate) fn copy_flags(v: &Option<Vec<bool>>) -> (r: Option<Vec<bool>>)
    ensures
        validity_view(&r) == validity_view(v),
{
    match v {
        None => None,
        Some(flags) => {
            let mut out: Vec<bool> = Vec::new();
            let mut i: usize = 0;
            while i < flags.len()
                invariant
                    i <= flags@.len(),
                    out@ == flags@.take(i as int),
                decreases flags@.len() - i,
            {
                proof {
                    assert(flags@.take(i + 1) =~= flags@.take(i as int).push(flags@[i as int]));
                }
                out.push(flags[i]);
                i += 1;
            }
            proof {
                assert(flags@.take(flags@.len() as int) =~= flags@);
            }
            Some(out)
        },
    }
}

/// The values, each present.
pub(crate) fn all_present<T>(values: Vec<T>) -> (r: Vec<Option<T>>)
    ensures
        r@ == values@.map_values(|v: T| Some(v)),
{
    let ghost vals = values@;
    let mut out: Vec<Option<T>> = Vec::new();
    for v in it: values
        invariant
            vals == it.seq(),
            out@ == vals.take(it.index() as int).map_values(|v: T| Some(v)),
    {
        proof {
            assert(vals.take(it.index() + 1) =~= vals.take(it.index() as int).push(vals[it.index() as int]));
        }
        out.push(Some(v));
    }
    proof {
        assert(vals.take(vals.len() as int) =~= vals);
    }
    out
}

/// The offsets as arrow's 32-bit offsets.
pub(crate) fn narrow_offsets(offsets: &Vec<usize>) -> (r: Vec<i32>)
    requires
        forall|i: int| 0 <= i < offsets@.len() ==> #[trigger] offsets@[i] <= i32::MAX,
    ensures
        r@.len() == offsets@.len(),
        forall|i: int| 0 <= i < offsets@.len() ==> #[trigger] r@[i] as int == offsets@[i] as int,
{
    let mut out: Vec<i32> = Vec::new();
    let mut i: usize = 0;
    while i < offsets.len()
        invariant
            i <= offsets@.len(),
            forall|k: int| 0 <= k < offsets@.len() ==> #[trigger] offsets@[k] <= i32::MAX,
            out@.len() == i,
            forall|k: int| 0 <= k < i ==> #[trigger] out@[k] as int == offsets@[k] as int,
        decreases offsets@.len() - i,
    {
        out.push(offsets[i] as i32);
        i += 1;
    }
    out
}

/// The row validity of list-like rows, as built, is the validity of the
/// rows as optional values.
pub(crate) proof fn lemma_rows_validity<T>(rows: Seq<Option<Vec<T>>>)
    ensures
        rows_validity(rows) == options_validity(rows),
{
    if !(forall|i: int| 0 <= i < rows.len() ==> #[trigger] rows[i] is Some) {
        assert(rows.map_values(|row: Option<Vec<T>>| row is Some) =~= rows.map_values(
            |v: Option<Vec<T>>| v is Some,
        ));
    }
}

/// Slots built from values that are all present are valid.
pub(crate) proof fn lemma_all_present_validity<T>(values: Seq<T>)
    ensures
        options_validity(values.map_values(|v: T| Some(v))) is None,
{
    let present = values.map_values(|v: T| Some(v));
    assert(forall|i: int| 0 <= i < values.len() ==> #[trigger] present[i] is Some);
}

impl<L: Buildable, const N: usize> Buildable for FixedSizeList<L, N> {
    type Owned = Vec<L::Owned>;

    /// Row `i` is the `N` item slots from the child position of row `i`.
    open spec fn contents(a: ArrowArray) -> Seq<Seq<<L::Owned as DeepView>::V>> {
        Seq::new(
            arrow_layout(a).len as nat,
            |i: int|
                Seq::new(
                    N as nat,
                    |j: int| L::contents(arrow_child(a, 0))[arrow_layout(a).offset + i * N + j],
                ),
        )
    }

    /// Every valid row holds `N` items (`N` positive, within arrow's 32-bit
    /// sizes), and the item slots can be built.
    open spec fn buildable(values: Seq<Option<Vec<L::Owned>>>) -> bool {
        &&& 0 < N <= i32::MAX
        &&& rows_of_size(values, N as nat)
        &&& values.len() * N <= usize::MAX
        &&& L::buildable(padded(values, N as nat))
    }

    fn build(values: Vec<Option<Vec<L::Owned>>>) -> (r: (ArrowArray, ArrayLayout)) {
        let n = values.len();
        let ghost rows = values@;
        proof {
            lemma_padded_len(rows, N as nat);
        }
        let parts = fixed_parts(values, N);
        let validity = parts.validity;
        let ghost slots = parts.items@;
        let (child, child_layout) = L::build(parts.items);
        let ghost child_spec = child_layout@;
        let ghost child_value = child;
        let list_validity = copy_flags(&validity);
        proof {
            vstd::arithmetic::div_mod::lemma_mod_multiples_basic(n as int, N as int);
            vstd::arithmetic::div_mod::lemma_div_multiples_vanish(n as int, N as int);
            assert((n * N) as int == n as int * N as int);
            assert(validity_view(&validity) matches Some(v) ==> v.len() == rows.len());
        }
        let array = fixed_size_list_array("item", N as i32, child, list_validity);
        let field = Field::new(owned("item"), child_layout.data_type.duplicate(), true);
        let mut children: Vec<ArrayLayout> = Vec::new();
        children.push(child_layout);
        let layout = ArrayLayout {
            data_type: DataType::FixedSizeList(Box::new(field), N as i32),
            len: n,
            validity,
            offsets: Vec::new(),
            sizes: Vec::new(),
            offset: 0,
            children,
        };
        proof {
            let l = Logical::FixedSizeList(Box::new(L::spec_logical()), N);
            lemma_layouts_view(layout.children@);
            assert(layouts_view(layout.children@) =~= seq![child_spec]);
            assert(layout.offsets@ =~= Seq::empty());
            assert(layout.sizes@ =~= Seq::empty());
            L::lemma_type();
            lemma_verdicts(L::spec_logical(), child_spec);
            assert forall|j: int|
                0 <= j < child_spec.len && #[trigger] padded(rows, N as nat)[j] is Some implies is_valid(
                child_spec.validity,
                j,
            ) by {
                assert(slots[j] is Some);
            }
            lemma_fixed_parts_valid(L::spec_logical(), N, rows, child_spec);
            lemma_verdicts(l, fixed_layout(L::spec_logical(), N, rows, child_spec));
            assert(layout@ == fixed_layout(L::spec_logical(), N, rows, child_spec));
            assert(((n * N) as nat) / (N as nat) == n);
            assert(arrow_layout(array) == layout@);
            lemma_rows_validity(rows);
            assert forall|i: int| 0 <= i < rows.len() && #[trigger] rows[i] is Some implies Self::contents(array)[i]
                == rows[i]->0.deep_view() by {
                assert forall|j: int| 0 <= j < N implies #[trigger] Self::contents(array)[i][j]
                    == rows[i]->0.deep_view()[j] by {
                    lemma_padded_index(rows, N as nat, i, j);
                    assert(padded_row(rows[i], N as nat)[j] == Some(rows[i]->0@[j]));
                    assert(slots[i * N + j] is Some);
                }
                assert(Self::contents(array)[i] =~= rows[i]->0.deep_view());
            }
        }
        (array, layout)
    }

    fn read(a: &ArrowArray, layout: &ArrayLayout, i: usize) -> (r: Vec<L::Owned>) {
        let ghost s = layout@;
        proof {
            L::lemma_type();
            lemma_layouts_view(layout.children@);
            assert(s.data_type matches DataTypeSpec::FixedSizeList(f, m) && m as int == N as int && spec_accepts(
                L::spec_logical(),
                f.data_type,
            ));
            assert(s.children[0] == layout.children@[0]@);
            assert(i * N + N <= s.len * N) by (nonlinear_arith)
                requires
                    i < s.len,
            ;
        }
        let child = fixed_size_list_items(a);
        let child_layout = &layout.children[0];
        let mut out: Vec<L::Owned> = Vec::new();
        let mut j: usize = 0;
        while j < N
            invariant
                s == layout@,
                j <= N,
                i < s.len,
                s.offset + i * N + N <= s.children[0].len,
                child_layout@ == s.children[0],
                arrow_layout(child) == s.children[0],
                child == arrow_child(*a, 0),
                readable(L::spec_logical(), s.children[0]),
                out@.len() == j,
                forall|k: int|
                    0 <= k < j ==> (#[trigger] out@[k]).deep_view() == L::contents(child)[s.offset + i * N + k],
            decreases N - j,
        {
            let p = layout.offset + i * N + j;
            out.push(L::read(&child, child_layout, p));
            j += 1;
        }
        proof {
            assert(out.deep_view() =~= Self::contents(*a)[i as int]);
        }
        out
    }

    proof fn lemma_type() {
    }
}

impl<L: Buildable> Buildable for List<L> {
    type Owned = Vec<L::Owned>;

    /// Row `i` is the item slots `offsets[i]..offsets[i + 1]`.
    open spec fn contents(a: ArrowArray) -> Seq<Seq<<L::Owned as DeepView>::V>> {
        Seq::new(
            arrow_layout(a).len as nat,
            |i: int|
                Seq::new(
                    (arrow_layout(a).offsets[i + 1] - arrow_layout(a).offsets[i]) as nat,
                    |j: int| L::contents(arrow_child(a, 0))[arrow_layout(a).offsets[i] + j],
                ),
        )
    }

    /// The items fit arrow's 32-bit offsets, and can be built.
    open spec fn buildable(values: Seq<Option<Vec<L::Owned>>>) -> bool {
        &&& flatten(values).len() <= i32::MAX
        &&& L::buildable(flatten(values).map_values(|v: L::Owned| Some(v)))
    }

    fn build(values: Vec<Option<Vec<L::Owned>>>) -> (r: (ArrowArray, ArrayLayout)) {
        let ghost rows = values@;
        let ghost flat = flatten(rows);
        let parts = list_parts(values);
        let slots = all_present(parts.items);
        let ghost ss = slots@;
        proof {
            lemma_all_present_validity(flat);
            lemma_offsets_of(rows);
        }
        let (child, child_layout) = L::build(slots);
        let ghost child_spec = child_layout@;
        let offsets = narrow_offsets(&parts.offsets);
        let validity = copy_flags(&parts.validity);
        proof {
            assert(offsets@[0] >= 0);
            assert(validity_view(&validity) matches Some(v) ==> v.len() == rows.len());
        }
        let array = list_array("item", false, child, offsets, validity);
        let field = Field::new(owned("item"), child_layout.data_type.duplicate(), false);
        let mut children: Vec<ArrayLayout> = Vec::new();
        children.push(child_layout);
        let layout = ArrayLayout {
            data_type: DataType::List(Box::new(field)),
            len: parts.offsets.len() - 1,
            validity: parts.validity,
            offsets: parts.offsets,
            sizes: Vec::new(),
            offset: 0,
            children,
        };
        proof {
            let l = Logical::List(Box::new(L::spec_logical()));
            lemma_layouts_view(layout.children@);
            assert(layouts_view(layout.children@) =~= seq![child_spec]);
            assert(layout.sizes@ =~= Seq::empty());
            L::lemma_type();
            lemma_verdicts(L::spec_logical(), child_spec);
            lemma_list_parts_valid(L::spec_logical(), false, rows, child_spec);
            lemma_verdicts(l, list_layout(L::spec_logical(), false, rows, child_spec));
            assert(layout@ == list_layout(L::spec_logical(), false, rows, child_spec));
            assert(offsets@.map_values(|o: i32| o as usize) =~= offsets_of(rows));
            assert(arrow_layout(array) == layout@);
            lemma_rows_validity(rows);
            assert forall|i: int| 0 <= i < rows.len() && #[trigger] rows[i] is Some implies Self::contents(array)[i]
                == rows[i]->0.deep_view() by {
                lemma_list_read_back(rows, i, 0);
                assert forall|j: int| 0 <= j < rows[i]->0@.len() implies #[trigger] Self::contents(array)[i][j]
                    == rows[i]->0.deep_view()[j] by {
                    lemma_list_read_back(rows, i, j);
                    assert(ss[offsets_of(rows)[i] + j] is Some);
                }
                assert(Self::contents(array)[i] =~= rows[i]->0.deep_view());
            }
        }
        (array, layout)
    }

    fn read(a: &ArrowArray, layout: &ArrayLayout, i: usize) -> (r: Vec<L::Owned>) {
        let ghost s = layout@;
        proof {
            L::lemma_type();
            lemma_layouts_view(layout.children@);
            assert(s.data_type matches DataTypeSpec::List(f) && spec_accepts(L::spec_logical(), f.data_type));
            assert(s.children[0] == layout.children@[0]@);
            assert(s.offsets[i as int] <= s.offsets[i + 1]);
        }
        let child = list_items(a);
        let child_layout = &layout.children[0];
        let start = layout.offsets[i];
        let end = layout.offsets[i + 1];
        let mut out: Vec<L::Owned> = Vec::new();
        let mut p: usize = start;
        while p < end
            invariant
                s == layout@,
                start <= p <= end,
                end <= s.children[0].len,
                start == s.offsets[i as int],
                end == s.offsets[i + 1],
                child_layout@ == s.children[0],
                arrow_layout(child) == s.children[0],
                child == arrow_child(*a, 0),
                readable(L::spec_logical(), s.children[0]),
                out@.len() == p - start,
                forall|k: int| 0 <= k < p - start ==> (#[trigger] out@[k]).deep_view() == L::contents(child)[start + k],
            decreases end - p,
        {
            out.push(L::read(&child, child_layout, p));
            p += 1;
        }
        proof {
            assert(out.deep_view() =~= Self::contents(*a)[i as int]);
        }
        out
    }

    proof fn lemma_type() {
    }
}

impl<K: Buildable, V: Buildable> Buildable for MapOf<K, V> {
    type Owned = Vec<(K::Owned, V::Owned)>;

    /// Row `i` is the entries `offsets[i]..offsets[i + 1]`: their keys and
    /// values, pair by pair.
    open spec fn contents(a: ArrowArray) -> Seq<Seq<(<K::Owned as DeepView>::V, <V::Owned as DeepView>::V)>> {
        Seq::new(
            arrow_layout(a).len as nat,
            |i: int|
                Seq::new(
                    (arrow_layout(a).offsets[i + 1] - arrow_layout(a).offsets[i]) as nat,
                    |j: int|
                        (
                            K::contents(arrow_child(a, 0))[arrow_layout(a).offsets[i] + j],
                            V::contents(arrow_child(a, 1))[arrow_layout(a).offsets[i] + j],
                        ),
                ),
        )
    }

    /// The entries fit arrow's 32-bit offsets, and the keys and values can
    /// be built.
    open spec fn buildable(values: Seq<Option<Vec<(K::Owned, V::Owned)>>>) -> bool {
        &&& flatten(values).len() <= i32::MAX
        &&& K::buildable(flatten(values).map_values(|e: (K::Owned, V::Owned)| Some(e.0)))
        &&& V::buildable(flatten(values).map_values(|e: (K::Owned, V::Owned)| Some(e.1)))
    }

    fn build(values: Vec<Option<Vec<(K::Owned, V::Owned)>>>) -> (r: (ArrowArray, ArrayLayout)) {
        let ghost rows = values@;
        let ghost entries = flatten(rows);
        let parts = map_parts(values);
        let key_slots = all_present(parts.keys);
        let value_slots = all_present(parts.values);
        let ghost ks = key_slots@;
        let ghost vs = value_slots@;
        proof {
            assert(ks =~= entries.map_values(|e: (K::Owned, V::Owned)| Some(e.0)));
            assert(vs =~= entries.map_values(|e: (K::Owned, V::Owned)| Some(e.1)));
            lemma_all_present_validity(entries.map_values(|e: (K::Owned, V::Owned)| e.0));
            lemma_all_present_validity(entries.map_values(|e: (K::Owned, V::Owned)| e.1));
            lemma_offsets_of(rows);
        }
        let (keys, key_layout) = K::build(key_slots);
        let (vals, value_layout) = V::build(value_slots);
        let ghost key_spec = key_layout@;
        let ghost value_spec = value_layout@;
        let ghost keys_value = keys;
        let ghost vals_value = vals;
        let offsets = narrow_offsets(&parts.offsets);
        let validity = copy_flags(&parts.validity);
        proof {
            assert(offsets@[0] >= 0);
            assert(validity_view(&validity) matches Some(v) ==> v.len() == rows.len());
        }
        let entry_array = entries_array("keys", "values", false, keys, vals);
        let array = map_array("entries", entry_array, offsets, validity);
        let mut fields: Vec<Field> = Vec::new();
        fields.push(Field::new(owned("keys"), key_layout.data_type.duplicate(), false));
        fields.push(Field::new(owned("values"), value_layout.data_type.duplicate(), false));
        proof {
            lemma_fields_view(fields@);
            assert(fields_view(fields@) =~= seq![
                plain_field("keys"@, key_spec.data_type, false),
                plain_field("values"@, value_spec.data_type, false),
            ]);
        }
        let entries_field = Field::new(owned("entries"), DataType::Struct(fields), false);
        let mut children: Vec<ArrayLayout> = Vec::new();
        children.push(key_layout);
        children.push(value_layout);
        let layout = ArrayLayout {
            data_type: DataType::MapOf(Box::new(entries_field), false),
            len: parts.offsets.len() - 1,
            validity: parts.validity,
            offsets: parts.offsets,
            sizes: Vec::new(),
            offset: 0,
            children,
        };
        proof {
            let l = Logical::MapOf(Box::new(K::spec_logical()), Box::new(V::spec_logical()));
            lemma_layouts_view(layout.children@);
            assert(layouts_view(layout.children@) =~= seq![key_spec, value_spec]);
            assert(layout.sizes@ =~= Seq::empty());
            K::lemma_type();
            V::lemma_type();
            lemma_verdicts(K::spec_logical(), key_spec);
            lemma_verdicts(V::spec_logical(), value_spec);
            lemma_map_parts_valid(K::spec_logical(), V::spec_logical(), rows, key_spec, value_spec);
            lemma_verdicts(l, map_layout(K::spec_logical(), V::spec_logical(), rows, key_spec, value_spec));
            assert(layout@ == map_layout(K::spec_logical(), V::spec_logical(), rows, key_spec, value_spec));
            assert(offsets@.map_values(|o: i32| o as usize) =~= offsets_of(rows));
            assert(arrow_layout(array) == layout@);
            lemma_rows_validity(rows);
            assert forall|i: int| 0 <= i < rows.len() && #[trigger] rows[i] is Some implies Self::contents(array)[i]
                == rows[i]->0.deep_view() by {
                lemma_list_read_back(rows, i, 0);
                assert forall|j: int| 0 <= j < rows[i]->0@.len() implies #[trigger] Self::contents(array)[i][j]
                    == rows[i]->0.deep_view()[j] by {
                    lemma_list_read_back(rows, i, j);
                    assert(ks[offsets_of(rows)[i] + j] is Some);
                    assert(vs[offsets_of(rows)[i] + j] is Some);
                }
                assert(Self::contents(array)[i] =~= rows[i]->0.deep_view());
            }
        }
        (array, layout)
    }

    fn read(a: &ArrowArray, layout: &ArrayLayout, i: usize) -> (r: Vec<(K::Owned, V::Owned)>) {
        let ghost s = layout@;
        proof {
            K::lemma_type();
            V::lemma_type();
            lemma_layouts_view(layout.children@);
            assert(s.data_type matches DataTypeSpec::MapOf(e, _) && e.data_type matches DataTypeSpec::Struct(fs)
                && spec_accepts(K::spec_logical(), fs[0].data_type) && spec_accepts(V::spec_logical(), fs[1].data_type));
            assert(s.children[0] == layout.children@[0]@);
            assert(s.children[1] == layout.children@[1]@);
            assert(s.offsets[i as int] <= s.offsets[i + 1]);
        }
        let keys = map_keys(a);
        let vals = map_values(a);
        let key_layout = &layout.children[0];
        let value_layout = &layout.children[1];
        let start = layout.offsets[i];
        let end = layout.offsets[i + 1];
        let mut out: Vec<(K::Owned, V::Owned)> = Vec::new();
        let mut p: usize = start;
        while p < end
            invariant
                s == layout@,
                start <= p <= end,
                end <= s.children[0].len,
                s.children[1].len == s.children[0].len,
                start == s.offsets[i as int],
                end == s.offsets[i + 1],
                key_layout@ == s.children[0],
                value_layout@ == s.children[1],
                arrow_layout(keys) == s.children[0],
                arrow_layout(vals) == s.children[1],
                keys == arrow_child(*a, 0),
                vals == arrow_child(*a, 1),
                readable(K::spec_logical(), s.children[0]),
                readable(V::spec_logical(), s.children[1]),
                out@.len() == p - start,
                forall|k: int|
                    0 <= k < p - start ==> (#[trigger] out@[k]).0.deep_view() == K::contents(keys)[start + k]
                        && out@[k].1.deep_view() == V::contents(vals)[start + k],
            decreases end - p,
        {
            let key = K::read(&keys, key_layout, p);
            let value = V::read(&vals, value_layout, p);
            out.push((key, value));
            p += 1;
        }
        proof {
            assert(out.deep_view() =~= Self::contents(*a)[i as int]);
        }
        out
    }

    proof fn lemma_type() {
    }
}

} // verus!
