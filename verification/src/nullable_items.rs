//! Nested arrays whose items (or map values) may be null: `List<Option<L>>`,
//! `FixedSizeList<Option<L>, N>`, `MapOf<K, Option<V>>`.
//!
//! The child array is built from the optional items directly: a null item is
//! a null slot of the child, and reads back as `None`.

use vstd::prelude::*;

use crate::arrow_arrays::{
    arrow_child, arrow_layout, entries_array, fixed_size_list_array, fixed_size_list_items, list_array,
    list_items, map_array, map_keys, map_values, options_validity, ArrowArray,
};
use crate::buildable::{lemma_verdicts, readable, Buildable};
use crate::builder::{
    fixed_layout, fixed_parts, flatten, lemma_fixed_parts_valid, lemma_list_parts_valid, lemma_list_read_back,
    lemma_map_parts_valid, lemma_offsets_of, lemma_padded_index, lemma_padded_len, list_layout, list_parts,
    map_layout, map_parts, offsets_of, padded, padded_row, rows_of_size,
};
use crate::data_type::{fields_view, lemma_fields_view, plain_field, DataType, DataTypeSpec, Field};
use crate::layout::{downcast_nulls, layouts_view, lemma_layouts_view, ArrayLayout, LayoutSpec};
use crate::logical::{owned, spec_accepts, Logical};
use crate::markers::{FixedSizeList, List, LogicalType, MapOf};
use crate::nested_build::{all_present, copy_flags, lemma_rows_validity, narrow_offsets};
use crate::nulls::{is_valid, validity_len, validity_view};

verus! {

/// The rows of an array of nullable `L`: each valid row's value, `None`
/// for a null row.
pub open spec fn optional_contents<L: Buildable>(a: ArrowArray) -> Seq<Option<<L::Owned as DeepView>::V>> {
    Seq::new(
        arrow_layout(a).len as nat,
        |p: int|
            if is_valid(arrow_layout(a).validity, p) {
                Some(L::contents(a)[p])
            } else {
                None
            },
    )
}

/// Is row `p` valid?
fn valid_at(validity: &Option<Vec<bool>>, p: usize, n: usize) -> (r: bool)
    requires
        validity_len(validity_view(validity), n as int),
        p < n,
    ensures
        r == is_valid(validity_view(validity), p as int),
{
    match validity {
        None => true,
        Some(flags) => flags[p],
    }
}

/// Row `p` of an array of nullable `L`.
fn read_optional<L: Buildable>(a: &ArrowArray, layout: &ArrayLayout, p: usize) -> (r: Option<L::Owned>)
    requires
        arrow_layout(*a) == layout@,
        readable(L::spec_logical(), layout@),
        p < layout@.len,
    ensures
        r.deep_view() == optional_contents::<L>(*a)[p as int],
{
    if valid_at(&layout.validity, p, layout.len) {
        Some(L::read(a, layout, p))
    } else {
        None
    }
}

/// An array built from optional values reads them back, `None` for `None`.
proof fn lemma_optional_built<L: Buildable>(values: Seq<Option<L::Owned>>, a: ArrowArray)
    requires
        arrow_layout(a).len == values.len(),
        arrow_layout(a).validity == options_validity(values),
        forall|i: int|
            0 <= i < values.len() && #[trigger] values[i] is Some ==> L::contents(a)[i] == values[i]->0.deep_view(),
    ensures
        forall|k: int| 0 <= k < values.len() ==> optional_contents::<L>(a)[k] == (#[trigger] values[k]).deep_view(),
{
    assert forall|k: int| 0 <= k < values.len() implies optional_contents::<L>(a)[k] == (
    #[trigger] values[k]).deep_view() by {
        if values[k] is None {
            assert(!(forall|i: int| 0 <= i < values.len() ==> #[trigger] values[i] is Some));
        }
    }
}

impl<L: Buildable> Buildable for List<Option<L>> {
    type Owned = Vec<Option<L::Owned>>;

    /// Row `i` is the items `offsets[i]..offsets[i + 1]`, `None` where null.
    open spec fn contents(a: ArrowArray) -> Seq<Seq<Option<<L::Owned as DeepView>::V>>> {
        Seq::new(
            arrow_layout(a).len as nat,
            |i: int|
                Seq::new(
                    (arrow_layout(a).offsets[i + 1] - arrow_layout(a).offsets[i]) as nat,
                    |j: int| optional_contents::<L>(arrow_child(a, 0))[arrow_layout(a).offsets[i] + j],
                ),
        )
    }

    /// The items fit arrow's 32-bit offsets, and can be built.
    open spec fn buildable(values: Seq<Option<Vec<Option<L::Owned>>>>) -> bool {
        &&& flatten(values).len() <= i32::MAX
        &&& L::buildable(flatten(values))
    }

    fn build(values: Vec<Option<Vec<Option<L::Owned>>>>) -> (r: (ArrowArray, ArrayLayout)) {
        let ghost rows = values@;
        let ghost flat = flatten(rows);
        let parts = list_parts(values);
        proof {
            lemma_offsets_of(rows);
        }
        let (child, child_layout) = L::build(parts.items);
        let ghost child_spec = child_layout@;
        let ghost child_value = child;
        let offsets = narrow_offsets(&parts.offsets);
        let validity = copy_flags(&parts.validity);
        proof {
            assert(offsets@[0] >= 0);
            assert(validity_view(&validity) matches Some(v) ==> v.len() == rows.len());
        }
        let array = list_array("item", true, child, offsets, validity);
        let field = Field::new(owned("item"), child_layout.data_type.duplicate(), true);
        let mut children: Vec<ArrayLayout> = Vec::new();
        children.push(child_layout);
        let layout = ArrayLayout {
            data_type: DataType::List(Box::new(field)),
            len: parts.offsets.len() - 1,
            validity: parts.validity,
            offsets: parts.offsets,
            sizes: Vec::new(),
            offset: 0,
            children,
        };
        proof {
            let inner = Logical::Nullable(Box::new(L::spec_logical()));
            let l = Logical::List(Box::new(inner));
            lemma_layouts_view(layout.children@);
            assert(layouts_view(layout.children@) =~= seq![child_spec]);
            assert(layout.sizes@ =~= Seq::empty());
            L::lemma_type();
            lemma_verdicts(L::spec_logical(), child_spec);
            lemma_list_parts_valid(inner, false, rows, child_spec);
            lemma_verdicts(l, list_layout(inner, false, rows, child_spec));
            assert(layout@ == list_layout(inner, false, rows, child_spec));
            assert(offsets@.map_values(|o: i32| o as usize) =~= offsets_of(rows));
            assert(arrow_layout(array) == layout@);
            lemma_rows_validity(rows);
            lemma_optional_built::<L>(flat, child_value);
            assert forall|i: int| 0 <= i < rows.len() && #[trigger] rows[i] is Some implies Self::contents(array)[i]
                == rows[i]->0.deep_view() by {
                lemma_list_read_back(rows, i, 0);
                assert forall|j: int| 0 <= j < rows[i]->0@.len() implies #[trigger] Self::contents(array)[i][j]
                    == rows[i]->0.deep_view()[j] by {
                    lemma_list_read_back(rows, i, j);
                }
                assert(Self::contents(array)[i] =~= rows[i]->0.deep_view());
            }
        }
        (array, layout)
    }

    fn read(a: &ArrowArray, layout: &ArrayLayout, i: usize) -> (r: Vec<Option<L::Owned>>) {
        let ghost s = layout@;
        proof {
            L::lemma_type();
            lemma_layouts_view(layout.children@);
            let inner = Logical::Nullable(Box::new(L::spec_logical()));
            assert(s.data_type matches DataTypeSpec::List(f) && spec_accepts(inner, f.data_type));
            assert(s.data_type matches DataTypeSpec::List(f) && spec_accepts(L::spec_logical(), f.data_type));
            assert(s.children[0] == layout.children@[0]@);
            assert(downcast_nulls(inner, s.children[0]) == 0);
            assert(downcast_nulls(L::spec_logical(), s.children[0]) == 0);
            assert(s.offsets[i as int] <= s.offsets[i + 1]);
        }
        let child = list_items(a);
        let child_layout = &layout.children[0];
        let start = layout.offsets[i];
        let end = layout.offsets[i + 1];
        let mut out: Vec<Option<L::Owned>> = Vec::new();
        let mut p: usize = start;
        while p < end
            invariant
                s == layout@,
                start <= p <= end,
                end <= s.children[0].len,
                start == s.offsets[i as int],
                end == s.offsets[i + 1],
                child_layout@ == s.children[0],
                arrow_layout(child) == s.children[0],
                child == arrow_child(*a, 0),
                readable(L::spec_logical(), s.children[0]),
                out@.len() == p - start,
                forall|k: int|
                    0 <= k < p - start ==> (#[trigger] out@[k]).deep_view() == optional_contents::<L>(child)[start + k],
            decreases end - p,
        {
            out.push(read_optional::<L>(&child, child_layout, p));
            p += 1;
        }
        proof {
            assert(out.deep_view() =~= Self::contents(*a)[i as int]);
        }
        out
    }

    proof fn lemma_type() {
    }
}

/// The item slots of padded rows of optional items: each slot's item, `None`
/// for a placeholder or a null item.
pub open spec fn joined<T>(slots: Seq<Option<Option<T>>>) -> Seq<Option<T>> {
    slots.map_values(
        |o: Option<Option<T>>|
            match o {
                Some(x) => x,
                None => None,
            },
    )
}

fn join_slots<T>(slots: Vec<Option<Option<T>>>) -> (r: Vec<Option<T>>)
    ensures
        r@ == joined(slots@),
{
    let ghost all = slots@;
    let mut out: Vec<Option<T>> = Vec::new();
    for slot in it: slots
        invariant
            all == it.seq(),
            out@ == joined(all.take(it.index() as int)),
    {
        proof {
            assert(all.take(it.index() + 1) =~= all.take(it.index() as int).push(all[it.index() as int]));
            assert(joined(all.take(it.index() + 1)) =~= joined(all.take(it.index() as int)).push(
                match all[it.index() as int] {
                    Some(x) => x,
                    None => None,
                },
            ));
        }
        let item = match slot {
            Some(x) => x,
            None => None,
        };
        out.push(item);
    }
    proof {
        assert(all.take(all.len() as int) =~= all);
    }
    out
}

impl<L: Buildable, const N: usize> Buildable for FixedSizeList<Option<L>, N> {
    type Owned = Vec<Option<L::Owned>>;

    /// Row `i` is the `N` item slots from the child position of row `i`,
    /// `None` where null.
    open spec fn contents(a: ArrowArray) -> Seq<Seq<Option<<L::Owned as DeepView>::V>>> {
        Seq::new(
            arrow_layout(a).len as nat,
            |i: int|
                Seq::new(
                    N as nat,
                    |j: int| optional_contents::<L>(arrow_child(a, 0))[arrow_layout(a).offset + i * N + j],
                ),
        )
    }

    /// Every valid row holds `N` items (`N` positive, within arrow's 32-bit
    /// sizes), and the item slots can be built.
    open spec fn buildable(values: Seq<Option<Vec<Option<L::Owned>>>>) -> bool {
        &&& 0 < N <= i32::MAX
        &&& rows_of_size(values, N as nat)
        &&& values.len() * N <= usize::MAX
        &&& L::buildable(joined(padded(values, N as nat)))
    }

    fn build(values: Vec<Option<Vec<Option<L::Owned>>>>) -> (r: (ArrowArray, ArrayLayout)) {
        let n = values.len();
        let ghost rows = values@;
        proof {
            lemma_padded_len(rows, N as nat);
        }
        let parts = fixed_parts(values, N);
        let validity = parts.validity;
        let slots = join_slots(parts.items);
        let ghost ss = slots@;
        let (child, child_layout) = L::build(slots);
        let ghost child_spec = child_layout@;
        let ghost child_value = child;
        let list_validity = copy_flags(&validity);
        proof {
            vstd::arithmetic::div_mod::lemma_mod_multiples_basic(n as int, N as int);
            vstd::arithmetic::div_mod::lemma_div_multiples_vanish(n as int, N as int);
            assert((n * N) as int == n as int * N as int);
            assert(validity_view(&validity) matches Some(v) ==> v.len() == rows.len());
        }
        let array = fixed_size_list_array("item", N as i32, child, list_validity);
        let field = Field::new(owned("item"), child_layout.data_type.duplicate(), true);
        let mut children: Vec<ArrayLayout> = Vec::new();
        children.push(child_layout);
        let layout = ArrayLayout {
            data_type: DataType::FixedSizeList(Box::new(field), N as i32),
            len: n,
            validity,
            offsets: Vec::new(),
            sizes: Vec::new(),
            offset: 0,
            children,
        };
        proof {
            let inner = Logical::Nullable(Box::new(L::spec_logical()));
            let l = Logical::FixedSizeList(Box::new(inner), N);
            lemma_layouts_view(layout.children@);
            assert(layouts_view(layout.children@) =~= seq![child_spec]);
            assert(layout.offsets@ =~= Seq::empty());
            assert(layout.sizes@ =~= Seq::empty());
            L::lemma_type();
            lemma_verdicts(L::spec_logical(), child_spec);
            lemma_fixed_parts_valid(inner, N, rows, child_spec);
            lemma_verdicts(l, fixed_layout(inner, N, rows, child_spec));
            assert(layout@ == fixed_layout(inner, N, rows, child_spec));
            assert(((n * N) as nat) / (N as nat) == n);
            assert(arrow_layout(array) == layout@);
            lemma_rows_validity(rows);
            lemma_optional_built::<L>(ss, child_value);
            assert forall|i: int| 0 <= i < rows.len() && #[trigger] rows[i] is Some implies Self::contents(array)[i]
                == rows[i]->0.deep_view() by {
                assert forall|j: int| 0 <= j < N implies #[trigger] Self::contents(array)[i][j]
                    == rows[i]->0.deep_view()[j] by {
                    lemma_padded_index(rows, N as nat, i, j);
                    assert(padded_row(rows[i], N as nat)[j] == Some(rows[i]->0@[j]));
                    assert(ss[i * N + j] == rows[i]->0@[j]);
                }
                assert(Self::contents(array)[i] =~= rows[i]->0.deep_view());
            }
        }
        (array, layout)
    }

    fn read(a: &ArrowArray, layout: &ArrayLayout, i: usize) -> (r: Vec<Option<L::Owned>>) {
        let ghost s = layout@;
        proof {
            L::lemma_type();
            lemma_layouts_view(layout.children@);
            let inner = Logical::Nullable(Box::new(L::spec_logical()));
            assert(s.data_type matches DataTypeSpec::FixedSizeList(f, m) && m as int == N as int && spec_accepts(
                inner,
                f.data_type,
            ));
            assert(s.data_type matches DataTypeSpec::FixedSizeList(f, m) && spec_accepts(L::spec_logical(), f.data_type));
            assert(s.children[0] == layout.children@[0]@);
            assert(downcast_nulls(inner, s.children[0]) == 0);
            assert(downcast_nulls(L::spec_logical(), s.children[0]) == 0);
            assert(i * N + N <= s.len * N) by (nonlinear_arith)
                requires
                    i < s.len,
            ;
        }
        let child = fixed_size_list_items(a);
        let child_layout = &layout.children[0];
        let mut out: Vec<Option<L::Owned>> = Vec::new();
        let mut j: usize = 0;
        while j < N
            invariant
                s == layout@,
                j <= N,
                i < s.len,
                s.offset + i * N + N <= s.children[0].len,
                child_layout@ == s.children[0],
                arrow_layout(child) == s.children[0],
                child == arrow_child(*a, 0),
                readable(L::spec_logical(), s.children[0]),
                out@.len() == j,
                forall|k: int|
                    0 <= k < j ==> (#[trigger] out@[k]).deep_view() == optional_contents::<L>(child)[s.offset + i * N
                        + k],
            decreases N - j,
        {
            let p = layout.offset + i * N + j;
            out.push(read_optional::<L>(&child, child_layout, p));
            j += 1;
        }
        proof {
            assert(out.deep_view() =~= Self::contents(*a)[i as int]);
        }
        out
    }

    proof fn lemma_type() {
    }
}

impl<K: Buildable, V: Buildable> Buildable for MapOf<K, Option<V>> {
    type Owned = Vec<(K::Owned, Option<V::Owned>)>;

    /// Row `i` is the entries `offsets[i]..offsets[i + 1]`: their keys, and
    /// their values, `None` where null.
    open spec fn contents(a: ArrowArray) -> Seq<Seq<(<K::Owned as DeepView>::V, Option<<V::Owned as DeepView>::V>)>> {
        Seq::new(
            arrow_layout(a).len as nat,
            |i: int|
                Seq::new(
                    (arrow_layout(a).offsets[i + 1] - arrow_layout(a).offsets[i]) as nat,
                    |j: int|
                        (
                            K::contents(arrow_child(a, 0))[arrow_layout(a).offsets[i] + j],
                            optional_contents::<V>(arrow_child(a, 1))[arrow_layout(a).offsets[i] + j],
                        ),
                ),
        )
    }

    /// The entries fit arrow's 32-bit offsets, and the keys and values can
    /// be built.
    open spec fn buildable(values: Seq<Option<Vec<(K::Owned, Option<V::Owned>)>>>) -> bool {
        &&& flatten(values).len() <= i32::MAX
        &&& K::buildable(flatten(values).map_values(|e: (K::Owned, Option<V::Owned>)| Some(e.0)))
        &&& V::buildable(flatten(values).map_values(|e: (K::Owned, Option<V::Owned>)| e.1))
    }

    fn build(values: Vec<Option<Vec<(K::Owned, Option<V::Owned>)>>>) -> (r: (ArrowArray, ArrayLayout)) {
        let ghost rows = values@;
        let ghost entries = flatten(rows);
        let parts = map_parts(values);
        let key_slots = all_present(parts.keys);
        let value_slots = parts.values;
        let ghost ks = key_slots@;
        let ghost vs = value_slots@;
        proof {
            assert(ks =~= entries.map_values(|e: (K::Owned, Option<V::Owned>)| Some(e.0)));
            assert(vs =~= entries.map_values(|e: (K::Owned, Option<V::Owned>)| e.1));
            crate::nested_build::lemma_all_present_validity(entries.map_values(|e: (K::Owned, Option<V::Owned>)| e.0));
            lemma_offsets_of(rows);
        }
        let (keys, key_layout) = K::build(key_slots);
        let (vals, value_layout) = V::build(value_slots);
        let ghost key_spec = key_layout@;
        let ghost value_spec = value_layout@;
        let ghost keys_value = keys;
        let ghost vals_value = vals;
        let offsets = narrow_offsets(&parts.offsets);
        let validity = copy_flags(&parts.validity);
        proof {
            assert(offsets@[0] >= 0);
            assert(validity_view(&validity) matches Some(v) ==> v.len() == rows.len());
        }
        let entry_array = entries_array("keys", "values", true, keys, vals);
        let array = map_array("entries", entry_array, offsets, validity);
        let mut fields: Vec<Field> = Vec::new();
        fields.push(Field::new(owned("keys"), key_layout.data_type.duplicate(), false));
        fields.push(Field::new(owned("values"), value_layout.data_type.duplicate(), true));
        proof {
            lemma_fields_view(fields@);
            assert(fields_view(fields@) =~= seq![
                plain_field("keys"@, key_spec.data_type, false),
                plain_field("values"@, value_spec.data_type, true),
            ]);
        }
        let entries_field = Field::new(owned("entries"), DataType::Struct(fields), false);
        let mut children: Vec<ArrayLayout> = Vec::new();
        children.push(key_layout);
        children.push(value_layout);
        let layout = ArrayLayout {
            data_type: DataType::MapOf(Box::new(entries_field), false),
            len: parts.offsets.len() - 1,
            validity: parts.validity,
            offsets: parts.offsets,
            sizes: Vec::new(),
            offset: 0,
            children,
        };
        proof {
            let v = Logical::Nullable(Box::new(V::spec_logical()));
            let l = Logical::MapOf(Box::new(K::spec_logical()), Box::new(v));
            lemma_layouts_view(layout.children@);
            assert(layouts_view(layout.children@) =~= seq![key_spec, value_spec]);
            assert(layout.sizes@ =~= Seq::empty());
            K::lemma_type();
            V::lemma_type();
            lemma_verdicts(K::spec_logical(), key_spec);
            lemma_verdicts(V::spec_logical(), value_spec);
            lemma_map_parts_valid(K::spec_logical(), v, rows, key_spec, value_spec);
            lemma_verdicts(l, map_layout(K::spec_logical(), v, rows, key_spec, value_spec));
            assert(layout@ == map_layout(K::spec_logical(), v, rows, key_spec, value_spec));
            assert(offsets@.map_values(|o: i32| o as usize) =~= offsets_of(rows));
            assert(arrow_layout(array) == layout@);
            lemma_rows_validity(rows);
            lemma_optional_built::<V>(vs, vals_value);
            assert forall|i: int| 0 <= i < rows.len() && #[trigger] rows[i] is Some implies Self::contents(array)[i]
                == rows[i]->0.deep_view() by {
                lemma_list_read_back(rows, i, 0);
                assert forall|j: int| 0 <= j < rows[i]->0@.len() implies #[trigger] Self::contents(array)[i][j]
                    == rows[i]->0.deep_view()[j] by {
                    lemma_list_read_back(rows, i, j);
                    assert(ks[offsets_of(rows)[i] + j] is Some);
                    assert(vs[offsets_of(rows)[i] + j] == rows[i]->0@[j].1);
                }
                assert(Self::contents(array)[i] =~= rows[i]->0.deep_view());
            }
        }
        (array, layout)
    }

    fn read(a: &ArrowArray, layout: &ArrayLayout, i: usize) -> (r: Vec<(K::Owned, Option<V::Owned>)>) {
        let ghost s = layout@;
        proof {
            K::lemma_type();
            V::lemma_type();
            lemma_layouts_view(layout.children@);
            let v = Logical::Nullable(Box::new(V::spec_logical()));
            assert(s.data_type matches DataTypeSpec::MapOf(e, _) && e.data_type matches DataTypeSpec::Struct(fs)
                && spec_accepts(K::spec_logical(), fs[0].data_type) && spec_accepts(v, fs[1].data_type));
            assert(s.data_type matches DataTypeSpec::MapOf(e, _) && e.data_type matches DataTypeSpec::Struct(fs)
                && spec_accepts(V::spec_logical(), fs[1].data_type));
            assert(s.children[0] == layout.children@[0]@);
            assert(s.children[1] == layout.children@[1]@);
            assert(downcast_nulls(K::spec_logical(), s.children[0]) == 0);
            assert(downcast_nulls(v, s.children[1]) == 0);
            assert(downcast_nulls(V::spec_logical(), s.children[1]) == 0);
            assert(s.offsets[i as int] <= s.offsets[i + 1]);
        }
        let keys = map_keys(a);
        let vals = map_values(a);
        let key_layout = &layout.children[0];
        let value_layout = &layout.children[1];
        let start = layout.offsets[i];
        let end = layout.offsets[i + 1];
        let mut out: Vec<(K::Owned, Option<V::Owned>)> = Vec::new();
        let mut p: usize = start;
        while p < end
            invariant
                s == layout@,
                start <= p <= end,
                end <= s.children[0].len,
                s.children[1].len == s.children[0].len,
                start == s.offsets[i as int],
                end == s.offsets[i + 1],
                key_layout@ == s.children[0],
                value_layout@ == s.children[1],
                arrow_layout(keys) == s.children[0],
                arrow_layout(vals) == s.children[1],
                keys == arrow_child(*a, 0),
                vals == arrow_child(*a, 1),
                readable(K::spec_logical(), s.children[0]),
                readable(V::spec_logical(), s.children[1]),
                out@.len() == p - start,
                forall|k: int|
                    0 <= k < p - start ==> (#[trigger] out@[k]).0.deep_view() == K::contents(keys)[start + k]
                        && out@[k].1.deep_view() == optional_contents::<V>(vals)[start + k],
            decreases end - p,
        {
            let key = K::read(&keys, key_layout, p);
            let value = read_optional::<V>(&vals, value_layout, p);
            out.push((key, value));
            p += 1;
        }
        proof {
            assert(out.deep_view() =~= Self::contents(*a)[i as int]);
        }
        out
    }

    proof fn lemma_type() {
    }
}

} // verus!
