# hayate

The ledger of a Cardano node: epochs, rewards, certificates, Conway
governance, genesis, and the epoch dumps by which two nodes are compared. The
library under `src/` is written in Verus; each of its functions is proved to
meet its contract.

- `src/ledger/` holds the ledger state, its rules, and the laws that they keep:
  rewards, epoch boundaries, certificates, ratification, nonces.
- `src/node/` is what a node does with the ledger as it follows the chain:
  raw blocks and their transactions, stake tracking, epoch steps, snapshots.
- `src/dump/` builds and compares epoch dumps and traces reward updates.
- `src/genesis.rs` sets up the first ledger.
- `src/table.rs`, `src/sums.rs`, `src/text.rs`, `src/item.rs`, `src/hexa.rs`
  and `src/bigint.rs` are the ground the rest stands on: ordered tables, sums,
  text, and big integers.
- `app/` is the program around the library: files, sockets, JSON, the LSM
  store, and the command line.
- `tests/` runs the library.

A contract speaks of the model of a value (its `@` or `model()`); laws are the
public proof functions whose names start with `law_`. Calls into other crates
stand in functions marked `external_body`, each of which says in its doc comment
what is taken for granted.
