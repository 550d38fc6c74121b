# docx_engine

A FormatPlan-driven .docx writer and analyzer, written in Verus. The
library in `src/` states what it writes and reads in `requires`/`ensures`
contracts over mathematical models (sequences of characters, views of the
plan types) and Verus proves them.

- `plan` — the FormatPlan model (sizes in half-points, line spacing in twips).
- `presets` — the undergraduate-thesis preset.
- `text`, `autoformat`, `refs` — string helpers, automatic sub/superscript
  splitting, reference numbers and citations.
- `props` — run, paragraph and section properties; header/footer references.
- `parts` — the OPC package: relationships, content types, header, footer
  and settings parts, template styles.
- `body` — paragraphs, tables, equations, images, reference entries and the
  section structure of `word/document.xml`.
- `docx` — value mappings, the archive entries of a plan (`package_entries`)
  and `build`.
- `analyze`, `xmlev`, `archive` — reading a .docx: XML events (quick-xml),
  ZIP entries (zip), effective formatting and the analysis JSON.
- `cli` — command-line options and the dangling-style check.

`app/` is the command-line program: it reads and writes files, parses the
plan JSON with serde, and calls the library. `tests/` runs the library on
concrete plans and documents.
