# ledger_store

An accounting store: general ledgers, ledger accounts, journals, journal
transactions and their posting to the ledgers, fiscal years and their interim
periods, and the interfaces that storage back ends implement.

- `src/` is the library, verified with Verus. `memory_store.rs` holds the
  in-memory store, its invariant and its operations; `posting.rs` what posting
  a journal transaction writes; `laws.rs` the proved laws that span
  operations; `table.rs` the keyed tables the store is made of; `orm.rs` the
  back-end interfaces; `search_domain.rs` the reader of search domains.
  Identifiers, times and dates are plain integers (`ids.rs`, `calendar.rs`);
  the UUID and calendar arithmetic is left to `uuid`, `chrono` and
  `chronoutil` behind small trusted wrappers.
- `app/` is ordinary Rust around the library: the store shared between tasks
  behind a `tokio` lock, and a PostgreSQL back end that asks the library for
  every decision and does the SQL.
- `tests/` exercises the library through its public interface.

Design notes:

- The store's tables are `Table`s: vectors of key and value rows, with the
  invariant that no key occurs twice. A `HashMap` keyed by the identifier
  structs would tell the verifier nothing it could use (its specification in
  `vstd` covers keys whose hashing and equality it knows, not structs that
  derive them), while over a vector every lookup, insert and replacement is
  proved, and the order in which rows come back is the table's order, which
  the contracts state.
- Creating a fiscal year stores the year only. Its interim calendar (the
  calendar months of the year) is not derived from it: interim periods are
  stored one by one with `create_interim_period`.
- Running totals of special journal columns are not kept: the store has an
  identifier type for them (`ColumnTotalId`) and nothing more.
