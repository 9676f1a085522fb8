# paradigm_core

The core of the Paradigm network: addresses, transactions and their
validation rules, the transaction pool, wallets, the PAR token ledger and the
tokenomics built on it (treasury, rewards, governance markets, bridges, model
hosting, post-quantum credentials, temporal staking, analytics and AI
governance agents).

- `src/` is the library, written in Verus: every function carries a contract
  that Verus proves, and the laws the library keeps (conservation of supply,
  round trips of transfers, mints, stakes and key imports, what the pool and
  the treasury never do) are proof functions beside the code. The calls into
  the clock, the operating system's randomness, Ed25519 and BLAKE3 are the
  trusted items of `src/sys.rs` (and `push_char` in `src/address.rs`); the
  pool's concurrent maps (`dashmap::DashMap`) are declared, with the
  contracts of the methods it uses, in `src/shared_map.rs`. The pool's nonce
  and gas-price indexes are std `BTreeMap`s, whose key order
  `src/keyorder.rs` proves from vstd's specification. The PAR supply is
  capped at one billion PAR.
- `tests/` exercises the library on concrete values.
- `app/` is ordinary Rust around it: files and the wallet database, the
  asynchronous transaction processor, serde records, and the scoring done in
  floating point (reputation, pricing, AI agents, token evolution,
  optimizer).
