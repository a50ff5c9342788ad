# quiver_types

Strongly typed, validated columns of Apache Arrow record batches, with the
validation logic verified in Verus.

A logical column type such as `List<Option<Utf8>>` or `Dictionary<i32, Utf8>`
says which arrow data types a column may have and at which nesting levels it
may hold nulls. An array is validated against it once — its data type first,
compared structurally, then the nulls that valid rows can reach at every
non-`Option` level — and reading it afterwards never fails.

## Layout

* `src/` — the verified library. It works on the layout of an array held as
  plain values (`ArrayLayout`): data type, length, row validity, the offsets,
  keys or run ends that map rows to children, and the children.
  * `markers.rs` — the logical types as Rust types, each denoting a `Logical`
    value (`logical.rs`), which says what it accepts and declares.
  * `data_type.rs`, `metadata.rs` — data types, fields, structural
    compatibility, metadata compared as maps.
  * `layout.rs`, `nulls.rs` — validation and the count of reachable nulls.
  * `typed_array.rs`, `column.rs`, `dyn_column.rs` — validated arrays and
    columns, extraction from a record batch by name, reading positions.
  * `column_desc.rs` — column descriptors.
  * `slicing.rs` — windows on rows; a slice of a valid array is valid.
  * `builder.rs` — the layouts of nested columns built from values.
  * `cursor.rs` — iteration over rows, list items, and map entries.
  * `wellformed.rs` — checking a layout against what arrow guarantees.
  * `arrow_arrays.rs` — the calls into arrow that build arrays (leaves,
    lists, fixed-size lists, maps) and read their slots, each with a contract
    over what the array holds.
  * `buildable.rs`, `nested_build.rs`, `nullable_items.rs` — the `Buildable`
    logical types: integers, dates, timestamps, strings, binaries, and lists,
    fixed-size lists and maps of any of them (items and map values possibly
    null). Building never fails within arrow's limits, and reading row `i`
    gives back the value row `i` was built from.
  * `value_array.rs` — arrays built from values (`ValueArray`): the arrow
    array kept with its validated layout; read back, sliced, or validated
    against another logical type (`AnyBinary`, `IgnoreValidity`, …) and read
    through it.
* `tests/` — tests of the library on concrete layouts and on arrow arrays
  built from values.
* `app/` — reads layouts off real arrow arrays and record batches, keeps the
  arrow array next to the validated layout, and gives the errors their
  messages.
