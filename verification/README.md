# cw_airdrop_burn

Two CosmWasm contracts, with their logic verified by Verus.

* **airdrop** pays a fixed amount (1000000 `udao`) to an address that has
  delegations, all in one denomination, adding up to more than zero, and keeps a
  numbered history of the claims that can be read page by page.
* **burn** lets the address that instantiated it burn `ubcna` held by the
  contract, and keeps a numbered history of the burns.

Layout:

* `src/` — the verified library. `ledger.rs` and `history.rs` model what each
  contract keeps in storage (a configuration, a sequence and a map from ids to
  records, kept in ascending order of id) and prove the map and paging rules; `airdrop/` and `burn/` hold each contract's messages, state and
  operations, with their contracts and laws; `coin.rs` and `chain.rs` hold the
  plain-value forms of the chain's coins, times, responses and errors.
* `app/` — the chain side: it reads the part of contract storage a request
  touches and the querier, calls the library, writes back what changed, and converts to and from the chain's
  types (serde, schema and error derives live here).
* `tests/` — tests of the library on concrete values.
