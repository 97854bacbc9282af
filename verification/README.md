# receipt_manager

A verified receipt manager for contract executions. It collects the action receipts that one
execution creates, links each receipt to the receipts whose output it waits for, and shares the
gas that is left over among the function calls that asked for a part of it.

- `src/types.rs`, `src/view.rs`, `src/clone.rs`: the data, its mathematical views, its copies.
- `src/model.rs`: what a manager is and what each operation does, as spec functions.
- `src/manager.rs`: `ReceiptManager`, whose operations are proved to do what the model says.
- `src/decode.rs`: method names and public keys out of bytes; the only trusted items stand here.
- `src/external.rs`: where data ids come from.
- `src/gas.rs`, `src/links.rs`: lemmas. `src/laws.rs`: what holds of the manager as a whole.
- `app/`: the manager over the types of the NEAR crates, with the conversions.

A manager starts out from `ReceiptManager::default()`. Gas is distributed in proportion to the
weights, rounded down, and what the rounding leaves goes to the last call with a weight, so that
none is lost.
