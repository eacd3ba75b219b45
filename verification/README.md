# taskdeck

The storage and decision logic of a desktop task desk, verified with Verus.

The desk keeps one JSON document (projects, stages, clients, tags, notes,
smart lists, note categories, tasks with their subtasks and logs, and a few
meta values) in normalised SQLite tables. The library decides, for each
save, which rows to delete and which to write, so that only items that are new,
moved or changed are rewritten (stages, note categories and meta values
are rewritten on every save); it reassembles the document from the stored rows; and it states
and proves what a save followed by a load gives back.

Layout:

- `src/` — the verified library: the JSON model (`json`), the table
  descriptions (`schema`), save planning (`save`), reassembly (`load`), the
  laws relating them (`laws`), schema upgrades and event routing (`setup`),
  daily snapshots (`snapshots`), the AI summary request and reply (`chat`)
  and platform text (`platform`).
- `app/` — the desktop shell: SQLite, the network, dialogs, menus and the
  tray, which carry out what the library decides.
- `tests/` — tests of the library, with a store held in memory.
