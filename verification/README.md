# simbank

A simulated crypto bank, a multiplayer snake game server and a chat
server, with their logic verified by Verus.

- `src/` is the verified library:
  - `bank/` — money, wallets, accounts, people, events, the AML rules,
    the business checks and postings, the event log's numbering and files;
  - `report/` — transaction, AML and velocity reports and their CSV,
    JSON and Markdown exports;
  - `cli.rs` — what the bank's command line decides (identifiers, flag
    words, report titles, column truncation);
  - `snake/` — the grid, snakes, collisions, food, the tick over the
    game's maps, the rate limiter and the session protocol;
  - `chat/` — the text and binary chat messages, the connection registry
    and the server settings;
  - `dashmaps.rs` — the concurrent map the game and the chat server keep
    their state in, declared for the contracts;
  - `decimal.rs`, `clock.rs`, `text.rs` — amounts computed by
    `rust_decimal`, times formatted by `chrono`, and text helpers.
- `tests/` runs the library on concrete values.
- `app/` is the program around it: SQLite, files, sockets, the async
  runtime and the command-line parser.

`verus` checks `src/`; `cargo test` runs `tests/`.
