# motrix

The core of a desktop download manager that drives an [aria2](https://aria2.github.io/)
engine over JSON-RPC, written in Verus. The functions in `src/` carry
contracts that Verus proves, except a few small trusted wrappers around the
standard library, `base64`, `regex` and `serde_json` (marked `#[verifier::external_body]`),
whose contracts are assumed.

## Layout

- `src/` — the verified library.
  - `calendar`, `activity`: day numbers and dates, the daily transfer log
    and its JSON text (with its save/load round trip).
  - `text`, `format`: decimal numbers, trimming, line splitting; byte sizes,
    speeds and durations as the interface prints them.
  - `types`, `client`: aria2's task records and their normalization; the
    JSON-RPC requests and how replies are judged.
  - `state`: the application state and what a poll of the engine does to it.
  - `daemon`: where aria2c is looked for and the arguments it is started with.
  - `views`, `forms`, `pages`, `trackers`, `notify`, `theme`: what the pages
    show and what their controls send.
- `tests/` — tests of the library on concrete values.
- `app/` — a terminal front end: files, HTTP, processes and notifications.
