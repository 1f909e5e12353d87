# web_crawler

A crawler for the film catalogue at www.80s.tw: it walks the channel lists,
saves the item and detail pages, extracts one entry per item into
`data/data.csv`, converts that table into one row per downloadable file
(`data/data.finished.csv`), and fetches the posters. Progress is kept in
one-column CSV logs under `logs/`, so an interrupted crawl resumes.

- `src/` is the verified library (Verus): text operations with the
  semantics of `str`'s methods (`text`), numerals (`numbers`), page
  addresses and list pages (`pages`), detail pages (`details`,
  `detail_page`), the entry type and the table conversion (`info`), the CSV
  files (`table`), retry bookkeeping (`retry`), and the properties that hold
  across steps (`laws`). HTML parsing (`victoria_dom`) and CSV encoding
  (`csv`) are called through trusted wrappers in `dom` and `table`.
- `app/` is the command line and the network and file work (`reqwest`,
  `rayon`, `clap`).
- `tests/` exercise the library on concrete pages and rows.
