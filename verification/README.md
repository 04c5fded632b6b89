# web_top

A small system monitor: a server that publishes metrics snapshots and a
browser dashboard that shows CPU, GPU, memory and process tables.

- `src/` is the verified library (Verus): the snapshot model, the process
  orders (stable sorts, proved to be permutations that are ordered and keep
  ties in input order), table navigation, byte-size rendering computed
  exactly as the double-precision rendering would print it, the decoding of
  GPU client records from the accelerator registry, and the texts and
  addresses the dashboard uses.
- `tests/` exercises the library, including differential checks against
  the standard library's float formatting, casts and string parsing.
- `app/` is the unverified shell: the axum server, the Leptos dashboard,
  the macOS IOKit reader, and the serde wire types.
