# dina

The contracts of the Dina network and the logic of its command-line tool,
written in Verus: every state change and query carries a contract over a
mathematical model of the state, and the properties that span calls are
stated and proved as `law_*` proof functions beside the code they speak of.

- `src/` — the verified library, one module per contract (tokens, royalties,
  agent wallets, device capabilities, service agreements, the bridges, the
  lending pool, the vaults, the DEX, the currency contracts and the developer
  contracts), the tool's settings, wallet sealing and USDC amounts, and the
  shared pieces (`keymap`, `math`, `text`, `bytes`, `addr`). SHA-256, Ed25519,
  hexadecimal and JSON string encoding are called in their crates through a
  few trusted wrappers, each with its contract in its doc comment.
- `tests/` — tests of the library on concrete values.
- `app/` — JSON entry points for each contract and the tool's settings and
  wallet files on disk, around the library.
