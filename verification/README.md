# oxidebooks_db

The decision and arithmetic core of an accounting data layer, verified with Verus.

Every repository operation of the data layer reads rows, decides, computes and writes.
The library in `src/` holds the deciding and computing part as plain functions over
plain values, each with a contract proved by Verus; `app/` holds the database side,
which reads the rows with sqlx, calls the library and writes back what it planned.

## Layout

- `src/` — the verified library, one module per area:
  - dates, identifiers and text: `dates`, `ids`, `time_ops`, `text`, `seqs`, `error`
  - the ledger and documents: `ledger`, `invoices`, `payments`, `sales_orders`, `quotes`,
    `purchasing`, `goods_returns`, `claims`, `intercompany`
  - stock: `inventory`
  - schedules: `recurring`, `schedules` (revenue recognition, prepaid expenses, landed
    costs), `subscriptions`, `leases`
  - payroll and people: `payroll`, `workforce`, `filings`, `identity`, `roles`
  - receivables: `receivables`
  - reports: `reports`, `statements`, `aging`, `cash_flow`, `forecast`, `costing`,
    `profitability`, `summaries`
- `tests/` — tests of the library on concrete values.
- `app/` — the sqlx side of each operation.

Laws that relate several operations are public proof functions named `lemma_…`, next to
the functions they speak of.
