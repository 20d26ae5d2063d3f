# soroban-storage

Storage-lifecycle tooling for Soroban smart contracts, with its decisions
stated as contracts and proved with Verus.

- `src/` — the verified library:
  - `lifecycle`, `ttl`: the three storage lifecycles and TTL policies;
  - `grammar`: the grammar of a `storage!` body, over its tokens;
  - `schema`: what a `storage!` declaration means, and which declarations are
    refused (no lifecycle, or `critical` data in `temporary` storage);
  - `ops`: which TTL extension each storage operation asks the host for;
  - `vault`: the rules of the example vault contract;
  - `lints` (`parse`, `walk`, `items`, `scan`, `rules`): the storage model of
    a source file, the walk over its items and function bodies that builds
    it, and the lint rules run over it;
  - `risk`, `keeper`, `rpc`, `config`: the rent keeper's risk windows,
    extension batching, retry backoff, poll planning and configuration checks;
  - `keys`, `xdr_util`, `restore`: strkeys, ledger keys, bounded XDR vectors
    and the restore planner's candidate selection and fees;
  - `ledger`: what the tooling reads from returned ledger entries (wasm
    hashes, sizes, expiries);
  - `transaction`: restore and extension transactions as plain values,
    their XDR encoding, signing and envelopes;
  - `order`: the order the linter reports files and findings in;
  - `cli`: the three command lines;
  - `text`: string helpers shared by the above.
- `app/` — the programs around the library: reading files, parsing Rust
  source with `syn` and handing its syntax to the library, the Stellar RPC
  and Soroban host calls, metrics, the generated accessor code and the
  example contract.
- `tests/` — tests of the library.
