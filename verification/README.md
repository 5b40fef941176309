# Payflow Forecast

A planner for a dedicated recurring-payment account: it forecasts the account
balance from recurring bills and paycheck transfers, imports transactions from
YNAB, classifies them and detects recurring payments.

## Layout

- `src/` is the verified library (Verus). It holds the planner's rules:
  calendar arithmetic and date text (`date`), when bills and paydays fall
  (`schedule`), names and categories (`names`), the interface text in English
  and French (`i18n`), classification of imported transactions (`classify`,
  `ledger`), detection of recurring runs and their cadence (`runs`,
  `recurring`), the bills detection adds (`detected`), sorting and grouping of
  the transaction list (`ordering`, `sorting`, `collections`), typed money
  amounts (`money`), hand-entered ids (`ids`) and the choice of YNAB budget and
  account (`ynab`). Every function states its result in its contract, and the
  laws that relate functions are proof functions named `law_*`.
- `tests/` runs the library on concrete values.
- `app/` is the Leptos browser application around the library: the views,
  browser storage, the YNAB requests, and the floating-point balance
  simulation, which the library cannot hold.
