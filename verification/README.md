# xk-rust

A desktop client for the DNUI course-selection (elective) system: login with
captcha, batch selection, paged course lists, filtering, timed and repeated
selection, keep-alive, pause/stop, "swap A for B when B has a seat", and the
campus VPN sign-in.

## Layout

- `src/` — the library, verified with Verus. Every decision the client takes
  is here, with its contract:
  - `text`, `json`: text helpers and the JSON value model used throughout;
  - `model`: preferences, batches, course rows (ids, times, places, seats);
  - `failure`: failures as chains of messages with a root kind;
  - `codec`: Base64, the AES password envelope, captcha data URLs;
  - `network`: response verdicts, redirects, imported session cookies;
  - `api`: answers of the elective system, the login conversation and the
    paged course list as state machines;
  - `rob`, `rounds`: success of a submission, course filters, and the rounds
    of a selection task;
  - `swap`: the A-for-B swap;
  - `relogin`: restoring an expired login at most once per task;
  - `screen`: how the window reacts to worker reports, and launch checks;
  - `vpn_auth`: the VPN sign-in window's rules and its reply;
  - `schedule`: the scheduled start time.
- `tests/` — tests of the library.
- `app/` — the program around the library: the egui window, the HTTP client,
  threads and waits, files, the captcha recogniser and the sign-in helper
  process. It drives the library's state machines and shows their reports.

Calls into outside crates (`base64`, `aes`/`ecb`/`cipher`, `regex`, the URL
parser of `reqwest`, `chrono`) go through small trusted wrappers whose
contracts are stated next to them.
