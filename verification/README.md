# erosion

Measures code erosion in the committed source of a Git repository: at one
revision, between two commits, at calendar checkpoints through its history, or
module by module. Nothing is checked out, fetched or changed.

Erosion is the percentage of complexity-weighted mass in functions whose
cyclomatic complexity is over 10:

```text
mass(function) = cyclomatic_complexity * sqrt(source_lines)
erosion = 100 * sum(mass where complexity > 10) / sum(all mass)
```

JavaScript, TypeScript, TSX, Python, Rust and Gleam are measured. Test code can be
left out by rules that each language owns.

## Layout

- `src/` is the library, verified with Verus: everything that is decided or
  counted. Its contracts say what each function returns; its public proof functions
  state what holds of several of them together.
  - `languages/`: syntax trees, callables, decisions, source lines, and the test
    code of each language
  - `git`, `history`, `config`, `globs`: what Git prints, checkpoints, and the
    paths that are measured
  - `cache`, `analyzer`: analyses by blob, in memory and as records
  - `snapshot`, `scope_history`, `report`: counts, one snapshot of each checkpoint,
    and series of them
  - `modules`, `module_history`: directories, and each of them through all checkpoints
  - `output`, `records`, `render`: tables, CSV, and the format asked for
- `app/` is the program: arguments, Git processes, files, floating-point masses
  and JSON.
- `tests/` runs the library.
- `extras/sources.py` writes the digests of the sources that decide a measurement.
  Run it after a change to one of them: records of analyses are kept under them.

## Limits

What tree-sitter, globset, chrono, SHA-256, serde_json, csv and a few functions of
the standard library compute is stated in the contracts of small wrappers, not
proved. Masses and scores are floating-point numbers and are computed in `app/`;
the library decides which functions have mass and which snapshots have a score.
