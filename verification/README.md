# carbon_credit

A ledger of carbon credits as PSP34 non-fungible tokens, for ink! smart
contracts, verified with Verus. Each token stands for one tonne of verified CO2
offset and carries the metadata of the project behind it.

- The owner of the contract mints credits and may hand the contract over.
- A holder, or an operator the holder approved, transfers and burns credits. A
  credit cannot be transferred to its own holder.
- Burning a credit retires it: the token and its metadata are gone, and its
  number is never used again.
- All tokens, and the tokens of each holder, can be enumerated by index; the
  numbers minted for a project can be asked for by the project's name.

## Layout

| File                | Contents                                                   |
|---------------------|------------------------------------------------------------|
| `src/types.rs`      | accounts, token identifiers, metadata, errors              |
| `src/events.rs`     | the events that the ledger reports                         |
| `src/cells.rs`      | storage forms of identifiers and metadata, encoded sizes   |
| `src/tables.rs`     | the storage tables, each an `ink::storage::Mapping`        |
| `src/hash.rs`       | the key of a project                                       |
| `src/model.rs`      | what each call does to the state of the ledger             |
| `src/ledger.rs`     | `CarbonCredit`, the ledger itself                          |
| `src/wellformed.rs` | the invariant of the ledger                                |
| `src/history.rs`    | sequences of calls                                         |
| `src/laws.rs`       | what holds of all calls and of all sequences of calls      |
| `app/`              | the ink! contract around the ledger                        |

## What to know as a caller

- The account that makes a call is its first argument. The ledger collects its
  events; `take_events` hands them over. The contract in `app/` reads the caller
  from the chain and emits the events.
- `mint` and `transfer_ownership` are for the owner of the contract;
  `ensure_owner` tells whether an account is the owner.
- Storage entries pass through a buffer of 16384 bytes, and counters are
  bounded. `mint_fits`, `transfer_fits` and `approve_fits` tell whether a call
  stays within these limits, and `checked_mint` includes the test. The limits of
  the chain on key and value lengths are assumed to be no lower than the buffer.
- At most one `Storage` may be in use at a time: two would be handles on the same
  storage cells.
- The results of the calls into `ink` (four calls of `Mapping`, one hash) are
  taken as their contracts in `src/tables.rs` and `src/hash.rs` state them.
