# time_manager

The verified core of a Windows-first browser time tracker. A browser
extension posts usage events to a local HTTP endpoint; a desktop shell stores
them in SQLite.

- `src/` is the library, verified with Verus: which requests reach the event
  store and what every other request is answered (`http`), the CORS headers
  of each reply, the 16 KiB body limit, the per-install ingest token
  (`token`), the check on usage events and the status report (`commands`),
  and the domain rules a new database is seeded with (`db`).
- `app/` is the shell around it: the Tauri commands and start-up, the SQLite
  calls, the tiny_http server loop and the token file. It performs the I/O
  and hands the library plain values.
- `tests/` runs the library on concrete inputs.
