# ghgrab_gui

The decision logic of the GitHub Grab desktop interface, proved with Verus,
and the program around it.

`src/` is the library:

- `theme` — the three colour themes (GitHub Dark, the default; GitHub Light;
  Vaporwave) as plain RGBA palettes; the GitHub themes' text colours reach
  the WCAG AAA contrast ratio on their backgrounds
  (`lemma_github_text_contrast`).
- `files` — repository entries, their listing order (folders first, then by
  lowercase name, stable), their icons, binary-file detection and the unit in
  which a size is shown.
- `paths` — breadcrumb trails, the folder above a path, and where each crumb
  leads.
- `jobs` — the background worker's decisions: which requests need an open
  repository, and the report each outcome of a request gives.
- `model` — the requests the interface sends to its worker and the reports it
  gets back.
- `state` — the interface state and every decision taken on a click or on a
  worker report.
- `text` — string operations, proved here or called behind small wrappers of
  `std`.

`app/` is the program: the egui widgets, the Tokio worker that talks to the
forge through the `ghgrab` library and hands each outcome to `jobs`, the file dialogs, and the floating-point
formatting of sizes and progress.

`tests/` runs the library on concrete values.
