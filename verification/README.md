# ccusage UI, verified core

The backend of a desktop dashboard for [`ccusage`](https://github.com/ccusage/ccusage)
token and cost reports, with its logic written in Verus and proved against its contracts.

- `src/` is the verified library: reading a `ccusage` JSON report into usage by period and
  by model (`report`, `parser`, `json`, `totals`, `grouping`), usage requests and their date
  ranges (`models`, `dates`), the command line and the search for the `ccusage` executable
  (`runner`, `paths`), settings and settings patches (`settings`), the report cache
  (`cache`), errors (`errors`), and the steps of each user-interface command (`commands`).
- `app/` is the unverified shell around it: files, processes, environment variables, the
  JSON reader (which works in floating point) and serde forms of the library's types.
- `tests/` runs the library on concrete inputs.
