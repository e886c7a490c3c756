# lab_logger

A lab attendance logger. At the start of a lab session the lab assistant
enters the course, branch, year and semester; students then scan (or type)
their roll numbers. The first scan records an entry time in the session's
table, a later scan at least two minutes after it records the exit time.
Each month has its own SQLite database (`databases/MM-YYYY.db`) with a
`master_table` listing its sessions. A small web server on port 5252 serves
a reports page and the records as JSON.

Layout:

- `src/` — the verified library (Verus). Text handling, database file names
  and labels, stored times and the two-minute exit rule, the configuration,
  the SQL and session records, terminal input decisions, and the report
  server's routing and reply framing, each with its contract.
- `app/` — the program around it: prompts, the configuration file, SQLite,
  the clock-driven loop and the TCP server.
- `tests/` — tests of the library.
