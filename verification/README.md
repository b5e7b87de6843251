# code-count

A code and document line counter with a command line and a terminal UI. The line
counting itself is done by `tokei`; this project owns the report model built from its
counts and everything done with that model, and proves it with Verus.

## Layout

- `src/` — the verified library:
  - `model.rs`: the report model and how a report is built from per-language counts
    (totals, line categories, languages and files ordered largest first);
  - `sort.rs`: the stable ordering of report rows;
  - `diff.rs`: the changes between two reports;
  - `report.rs`: Markdown, HTML and CSV reports and their escaping;
  - `state.rs`: the terminal UI's state and what each key does to it;
  - `view.rs`: the text of every panel of the terminal UI;
  - `console.rs`: what the command line prints;
  - `config.rs`: `code-count.toml` and command-line flags combined into scan options;
  - `text.rs`: strings, decimal numbers and padding as sequences of characters;
  - `laws.rs`: properties that span several operations.
- `app/` — the `code-count` program: argument parsing, scanning with `tokei`, reading
  and writing files, JSON, and drawing the terminal UI with `ratatui`.
- `tests/` — tests of the library on concrete values.
