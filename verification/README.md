# switchbot

A command-line controller for the SwitchBot Color Bulb (Cloud API v1.1),
whose logic is a library verified with Verus.

## Layout

- `src/` — the verified library.
  - `text.rs`: characters, trimming, splitting, decimal and hexadecimal numerals.
  - `signing.rs`: the `sign` header (HMAC-SHA256, Base64, upper case).
  - `api.rs`: API data, reply checks, colour strings, request headers, command
    names, parameters and bodies, endpoint URLs.
  - `cli.rs`: the commands and the validation of their arguments.
  - `config.rs`: the mode file, the devices file, `.env` parsing, credentials,
    and the decisions of loading the context.
  - `commands.rs`: bump arithmetic, mode checks, and the decisions of each
    command as a function from what is known to the next action.
  - `status_json.rs`, `listing.rs`: the output of `status` and `list`.
  - `feedback.rs`: log lines and notification scripts.
- `tests/` — tests of the library.
- `app/` — the program around it: argument parsing with clap, files, HTTP with
  reqwest, `op inject`, the log file and notifications. It performs the
  actions that the library decides on and hands the outcomes back.

Outside crates are called from the library through a few trusted wrappers
(HMAC-SHA256, Base64, header-value validation, JSON string escaping, TOML
serialisation, random UUIDs); each states in its doc comment what is claimed.
