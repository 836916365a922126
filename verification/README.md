# gaply_core

The report engine of Gaply, a pre-submission manuscript checker, as a Verus
library: every function in `src/` carries a contract that Verus proves.

## Layout

- `text`, `lines`, `extract`: character-level text operations (whitespace,
  case, digits, line and token splitting) and the extraction record the
  engine reads.
- `standards`, `journal`, `criteria`, `statement`, `risk`: reporting
  standards and their carried items, a journal's stored requirements, the
  review criteria, required statements and the risk rows.
- `report`, `checklist`, `compliance`: the report vocabulary, evaluation of a
  standard against one manuscript, and the compliance checklist built from a
  journal's guidelines or stored requirements.
- `reference_use`, `grouping`: the uncited-reference finding over the
  matcher's verdicts, and the merging of findings a reader cannot tell apart.
- `lens_sources`, `lens_checks`, `inputs`, `collect`, `review`: the review
  lenses, what each may read, and the lens review with its absence rule.
- `state_encoding`, `research_state`: the manuscript's research state, its
  canonical byte encoding, its SHA-256 content hash and its evidence graph.
- `report_compose`, `report_sections`, `report_model`, `report_html`,
  `report_pdf`, `report_layout`: the composed block set, the summary and
  statistics sections, and the renderers. The PDF path is
  exact: WinAnsi encoding with fold-or-mark, Helvetica metrics, word wrap,
  pagination in hundredths of a point, and the object graph with its
  cross-reference table.

Laws of the library stand in `src/` as public proof functions named
`lemma_*`, each with a doc comment stating it in words.

## Trusted items

Each is a small `#[verifier::external_body]` wrapper in `src/text.rs` or
`src/research_state.rs` whose doc comment says what its contract claims:
`String::push`, `str::to_lowercase`, `str::to_uppercase`,
`char::is_alphanumeric`, `Arc::clone`, and SHA-256 from the `sha2` crate.

## app/

Ordinary Rust around the library: the serde forms of the checklist, with
conversions in both directions.
