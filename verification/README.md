# ani-tui

A terminal client for the anime catalogue of animeav1.com: search, list the
episodes of an anime, pick a video server (SUB or DUB) and play it with mpv,
or in the browser when mpv cannot play it.

The logic is a Verus library, its functions proved against their
contracts. Five small wrappers are trusted rather than proved: each makes
one call (std's `str::len`, `String::push`, `str::to_lowercase` and
`char::is_alphanumeric`, and the `\d` class of the `regex` crate) and
states what that call returns. The program around the
library reads the network, the terminal and the clock, and launches the
players.

## Layout

- `src/` — the verified library
  - `scraper/` — reading the catalogue pages: search results, the episodes
    and metadata of an anime, the video sources of an episode
  - `resolver.rs` — turning an embed URL into a playable stream
  - `player.rs` — choosing between mpv and the browser, one step at a time
  - `app.rs` — the state of the interface and its operations
  - `events.rs` — what each key and each finished download does
  - `security.rs` — validation of slugs, episode numbers and queries
  - `logger.rs` — the lines of the log, the events that resolution and
    validation report for it, and the cleaning of untrusted text
  - `ui.rs` — the texts the screens show
  - `text.rs` — strings, character classes and UTF-8 positions
- `tests/` — tests of the library
- `app/` — the program: command line, event loop, HTTP, drawing with
  Ratatui, the REST interface, the log file, launching mpv
