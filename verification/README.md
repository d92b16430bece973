# fmi_rs

Reading and checking the model descriptions of Functional Mock-up Units (FMI 2.0
and FMI 3.0), with the behaviour of each function stated in its contract and
proved.

## Layout

- `src/` — the library.
  - `xml.rs` — the XML tree that model descriptions are read from (parsed by
    `roxmltree`) and the queries on it.
  - `text.rs` — integer, Boolean and floating-point literals, decimal numerals,
    white space and words.
  - `model_description.rs` and `model_description/` — the FMI 2.0 and 3.0 model
    descriptions: their data, their readers, their lookups and their validation,
    including the structured naming convention for variable names
    (`validation.rs`, with its grammar in `validation/grammar.rs`).
  - `fmi.rs` and `fmi/` — a smaller reader that covers both versions with one
    data model.
  - `fmi2.rs`, `fmi3.rs`, `sim/` — status codes, log lines, the values of
    variables as literals, the check that start values name variables, and CSV
    files of trajectories: the records written, and the trajectories read from
    a file (parsed by `csv`).
  - `util.rs` — the entries of an FMU's ZIP archive (read by `zip`): their names
    and what extracting it writes.
- `app/` — what touches files, the terminal or floating-point numbers: reading
  model descriptions from paths, unpacking FMUs, logging in color, checking
  simulation steps and recorded trajectories, and writing them to CSV files.
- `tests/` — tests of the library.

## Laws

Besides the contract of each function, the library proves:

- a name passes `validate_structured_variable_name` exactly when it follows the
  grammar of structured names (`lemma_structured_name_grammar`);
- a model description has no validation problems exactly when it is valid
  (`lemma_no_problems_iff_valid`, for FMI 2.0 and FMI 3.0);
- a value written with `to_literal` reads back with `parse_variable_value`
  (`lemma_literal_reads_back`, for FMI 2.0 and FMI 3.0);
- the CSV records written for trajectories read back as the same variables,
  times and values (`lemma_written_records_read_back`).
