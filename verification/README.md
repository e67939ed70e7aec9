# lottery_api

A lottery service: it draws distinct winners from a list of names (repeats
allowed), optionally from a seed so that a draw can be repeated, writes the
result to an Excel workbook, and serves the workbook for download.

The library under `src/` is verified with Verus:

- `lottery` — the draw: refusal of bad requests, first-occurrence
  deduplication, the shuffle (through `rand`/`rand_chacha`), the choice of
  winners, and laws about reproducibility and full draws.
- `export` — workbook file names (through `chrono` and `uuid`), download
  URLs, validation of download names, download headers, and the combined
  draw-and-export step.
- `workbook` — the layout of the exported workbook as a sequence of sheet
  operations, with a model that states every cell.
- `text` — decimal formatting and small character scans.
- `error` — the service's error and its HTTP status.

`app/` is the HTTP server (axum, utoipa, tokio): it parses requests, reads
and writes files, carries out the workbook plan with `xlsxwriter`, and
converts between the library's types and copies that carry serde derives.
