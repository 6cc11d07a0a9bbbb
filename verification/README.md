# generate_docs

Markdown documentation for Cargo workspaces: one page per crate (its
manifest data, a flowchart of its modules and workspace neighbours, a
sequence diagram and a summary), an architecture page for the workspace and a
README listing its members. Two page styles are produced: a detailed one that
lists the public items of each source file, and a compact one that counts the
public items of each file and directory.

## Layout

- `src/` — the library, verified with Verus.
  - `text.rs` — strings as character sequences: trimming, prefixes, line
    splitting, decimal notation, and the list-of-lines building blocks.
  - `workspace.rs` — crate names, the dependency map built from Cargo's
    resolved graph, sequence-diagram participants, and the two path helpers
    that call `std::path::Path`.
  - `markdown.rs` — page pieces shared by both styles.
  - `docs.rs` — the detailed style (`parse_rust_file`, `parse_cargo_toml`,
    `generate_crate_markdown`, ...).
  - `helper.rs` — the compact style (`count_public_items`, `walk_dir_items`,
    `detect_crate_type`, ...).
  - `laws.rs` — properties proved for all inputs (participant limits,
    agreement of the dependents relation with the map, sorted directory
    listings, additivity of item counts over line blocks, ...).
- `tests/` — tests on concrete inputs.
- `app/` — the command-line program: runs `cargo metadata` and `cargo arc`,
  reads the source tree, and writes the pages.
  `generate_docs <project-path>` writes the detailed pages;
  `generate_docs helper <project-path>` writes the compact pages.
