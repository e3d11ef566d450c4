# mes

The domain logic of a manufacturing execution system, verified with Verus.

- `src/` is the library. Work-order, operation, transfer, revision,
  maintenance, procurement and NCR lifecycles; the machine-state engine
  (debouncing, state timeline, planned-stop overlay, shift-boundary splits,
  downtime events); Pareto ranking and shift windows; inspection evaluation
  and the NCR/hold plan; spare-part ledger rules; barcode framing; sync
  tokens, batch limits and the per-entry apply decision; diagnostics payloads, redaction
  and the bounded event buffer; the agent tool catalog, MCP framing and the
  copilot's tool-use loop; and the HTTP error answers. Every function has a
  contract; the proof functions state the laws the library keeps.
- `tests/` exercises the library on concrete values.
- `app/` is the cloud service around it: configuration, the PostgreSQL
  repositories (master data, orders, DNC, QMS, CMMS, traceability, ERP,
  ingestion, sync), HTTP routes, the model backend, diagnostics shipping, and
  the floating-point OEE and Pareto shares.

Calls into `sha2`, `ulid`, `rust_decimal` and `std`'s `DefaultHasher` go
through small trusted wrappers whose contracts are stated next to them.
