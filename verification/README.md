# vortex_list_layout

A layout for columns of variable-length lists, verified with Verus.

A list column is stored as two or three columns, its children: the validity of its rows, where
rows may be null, the offsets that cut its elements into rows, and the elements.

- `src/lists.rs` says which rows a list column holds.
- `src/kernels.rs` calls the array library. What is believed of it is written there, above each
  call, and in `src/dtype.rs` and `src/error.rs`.
- `src/writer.rs` takes the chunks of a list column apart into pieces for the children.
- `src/layout.rs` and `src/children.rs` describe how the children belong together.
- `src/reader.rs` plans what to read of the children and puts rows together again.
- `src/laws.rs` proves that what was written is read back, however it was cut into chunks, and
  says which rows take up elements that are not their own.
- `app/` runs the library on arrays, streams and tasks.
