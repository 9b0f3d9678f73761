# radix_engine

Core decisions of a ledger engine, written in Verus and proved against
their contracts:

- `decimal`, `wide`: 256-bit fixed-point amounts with 18 decimal places
  and exact checked arithmetic (products and quotients go through
  512-bit intermediates and word-by-word long division).
- `address`, `well_known`: node ids, addresses, non-fungible ids and their
  encoded payloads.
- `scrypto_value`: structured values, schemas, schema paths and decoding.
- `access_rule`, `auth_converter`: access rules and their resolution into
  method authorizations against a value and its schema.
- `fungible_proof`: fungible proofs and the lock/unlock calls that cloning
  and dropping them make.
- `validator`, `validator_access`, `validator_index`: validator state, the
  epoch manager's index keys and what each validator operation does to the
  index, staking arithmetic, registration, claims, and validator access
  rules.
- `collections`: values by name and sets of addresses, each key once.
- `substates`, `node`, `logger`: substates and their layout by offset.

`app/` holds the parts that talk to the engine: it reads what a decision
needs, calls the library, and carries out what the decision says.
