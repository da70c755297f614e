# pony_core

The verified core of PonyClean, a Windows desktop widget that monitors processes,
cleans junk files from the system drive, analyses disk usage and manages startup items.

- `src/` — the library, verified with Verus: cleaning targets and path safety rules
  (`cleaner`, `targets`, `paths`), scan and deletion decisions (`scan`, `delete`), the clean
  log (`cleanlog`), disk analysis (`disk`), network quality (`netmon`), process actions
  (`monitor`), startup items (`startup`), icon encoding (`icon`), window geometry and hit
  testing (`window`), settings and errors (`settings`), and text helpers (`text`).
- `tests/` — tests of the library.
- `app/` — the command-line shell: directory walks, file system and registry access,
  Windows system calls, threads, JSON and the floating-point monitor figures.

The built-in cleaning targets number 54 (the recycle bin is emptied directly rather than
scanned as a target); the tests check that count.
