# memeroute

The model side of a PCB autorouter, written in Verus: reading Specctra DSN
designs, turning them into the structure of a board, and the board's own
bookkeeping (names, layers, nets, rule sets). Every function in `src/` carries
a contract that Verus proves.

## Layout

- `src/name.rs` — the table of names and the IDs handed out for them.
- `src/text.rs` — small text helpers (integer parsing, splitting, characters).
- `src/dsn/` — the DSN format:
  - `lexer.rs`, `token.rs` — tokens, with the `string_quote` and
    `space_in_quoted_tokens` directives;
  - `parser.rs`, `shapes.rs`, `library.rs`, `placement.rs`, `network.rs`,
    `structure.rs` — the grammar, each construct with a specification of what
    it reads from the tokens (`spec_*`) and a reader proved to follow it;
  - `number.rs` — decimal numbers as the file writes them;
  - `types.rs`, `models.rs` — the design and its mathematical model;
  - `design.rs`, `design_to_pcb.rs` — from a design to the structure of a
    board: names, layers, padstacks, images, components, nets and rule sets,
    with every error the conversion can report;
  - `session.rs` — the layout of session files.
- `src/model/` — the board: layer sets, layers, nets, rule sets and clearance
  rules (`pcb.rs`), integer rectangles and points, spatial-index queries.
- `tests/` — tests of the library on concrete designs.
- `app/` — a command-line program that reads a design, prints a summary of
  its board and writes the board's session file; it turns the decimals of
  the design into floating-point millimetres, which the library leaves out.

Coordinates are kept in the library as the decimal numbers of the file.
