# waycast-networkd

A privileged system bus helper that creates a Wi-Fi Direct group for one casting
session at a time and manages temporary UFW allowances for it.

- `src/` is the verified library: rules and their comparison with the packet
  filter's listing, interface validation, socket validation, the service's state,
  and the procedures by which a session comes up, is updated, is checked and goes
  down. A procedure names the work it waits for and is advanced by the answer, so
  it can be driven by any runtime. The files whose names end in `_laws`, with
  `comparison.rs`, `history.rs`, `listing.rs`, `respelling.rs` and `spelling.rs`,
  state what holds of the library as a whole.
- `app/` is what stands around it: `main.rs` is the helper, with the bus endpoint,
  commands and kernel attributes; `lib.rs` is the client. Both
  expect the `waycast_net` crate for radio access.
- `tests/` exercise the library.
