# dataprep

The decision logic of the dataprep packing tools, verified with Verus.

- `src/` is the library. `bencher` keeps benchmark records and decides where
  they are written; `fs_partition` decides how a large copied file is cut into
  parts of at most 4 GiB and steps the copy of each part; `unpack` and `unpack_to_disk`
  are the state machines that rebuild an entry from its chunks; `types`,
  `pack_plan` and `cli` hold the plain data that these work on; `paths` holds
  the path and decimal helpers.
- `app/` is the I/O around it: clap parsing, the benchmark report and JSON
  record, and the asynchronous drivers that carry out the file system work
  that the state machines ask for.
- `tests/` exercises the library on concrete values.
