# ledger_rs

A personal ledger: accounts in one currency each, income and expense
transactions with fixed categories, transfers between accounts, monthly
category budgets, reports, CSV exchange and complete backups. Amounts are
exact integer minor units; timestamps are zoned instants.

The library in `src/` is verified with Verus. Its public operations state their
results and their changes to the repositories they are given over mathematical
views (`Map`s of stored values, `Seq`s of listed values, integers for money and
instants); where a result rests on the time-zone database, the contract says
what is handed to it and what holds of every answer. The repositories are traits that a storage
implements; where one of their calls fails, a contract states which checks came
before it, and the decision that follows the calls stands in a function of its
own that takes the listed values (`plan_import`, `reconcile_listed`,
`validate_backup_entries`).

- `domain/`: accounts, money, transactions, transfers, budgets, and the pure
  calculations over them (balances, category outflow, cash-flow summaries).
- `application/`: the use cases over repository traits, whose contracts are
  stated over the stored maps; listing, paging, reports, budget status, trends,
  CSV import and export, backup documents and the audit log.
- `infrastructure/`: in-memory repositories, and the reading of stored rows.
- `codes.rs`, `decimal.rs`, `text.rs`: stored codes, decimal text and character
  helpers, with round-trip laws.
- `cli.rs`, `app_paths.rs`: the command-line values and the choice of the
  database path, as plain data and decisions.
- `report_text.rs`: the lines in which results are reported, with category
  rows in alphabetical order of their names.

Time-zone arithmetic is done by `jiff` behind a few trusted wrappers in
`domain/time.rs`. Their contracts say what jiff's source and documentation
show: a zoned text without a bracketed zone is refused, a text of the form
`YYYY-MM-DDTHH:MM:SS+HH:MM[ZONE]` reads as that civil time less the offset
(within the seconds by which a historical offset is rounded) in the named zone,
and a local time resolved in a named zone lies within the largest offset of that
civil time and carries the zone. Which texts are accepted, and the exact offset a
zone applies, are left to the time-zone database.

`app/` is the command-line program: argument parsing with `clap`, SQLite
storage with `rusqlite`, JSON backups with `serde_json`, and file access. It
calls the library and prints its results.

`tests/` runs the library on concrete values.
