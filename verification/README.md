# transfor

Data plumbing between JSON, TOML and CSV, as a verified library and a small
command-line program around it.

- `src/` is the library, verified with Verus:
  - `cli.rs`: the formats and the options of a run;
  - `error.rs`: the ways a run fails;
  - `text.rs`: lexicographic comparison of texts;
  - `json.rs`: the document model, whose objects keep their keys in
    ascending order;
  - `codec.rs`: JSON and TOML text, parsed and rendered by `serde_json` and
    `toml`;
  - `formats.rs`: reading input text into a document (CSV into an array of
    objects), and writing a document as JSON, as a TOML document or as a CSV
    table;
  - `driver.rs`: guessing the input format, and the conversion run as a
    state machine from state and event to next state and action.
- `app/main.rs` parses the command line and opens, reads and writes files and
  streams; it performs each action that the run asks for.
- `tests/` holds the tests.
