# florestad

The parts of a Bitcoin node's daemon that decide things, written in Verus.

- `src/record.rs`, `src/request.rs`, `src/json.rs`: log events as OTLP log records, and the requests
  that export them.
- `src/batch.rs`, `src/round.rs`: how the sender gathers records into batches and exports them,
  as state machines that are told what happened and say what to do next.
- `src/sender.rs`, `src/endpoint.rs`: where records go, and what is reported about it.
- `src/config.rs`, `src/wallet.rs`, `src/error.rs`: which config file counts, and the wallet inputs
  of a boot.
- `src/text.rs`: numbers as text.

`serde_json` and `bitcoin` are called through the declarations in `src/json.rs` and `src/wallet.rs`;
what is taken on trust about them stands there. Of the standard library, `RandomState::new` and its
`build_hasher` are taken on trust in `src/request.rs`, and `PathBuf` with its `clone` and `join` in
`src/config.rs`. The laws about the queue between the layer and the sender are stated for a bounded
channel that answers as `std::sync::mpsc::sync_channel` is documented to. `app/` is ordinary Rust
around the library: the `tracing` layer, the sender thread, HTTP, files and the environment.
