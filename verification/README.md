# biliticket

The core of a ticket-purchase client for the Bilibili show service,
written in Verus: every request the client sends is built by a verified
function, every reply it reads is classified by one, and the decisions of
the purchase loops are verified state transitions.

## Layout

- `src/` — the verified library.
  - `text.rs` — string helpers (splitting, trimming, decimal numbers, `i64` parsing).
  - `fe_sign.rs` — MurmurHash3 x64/128 and the `feSign` device signature.
  - `gen_cp.rs` — the click token (`ctoken`) of hot projects.
  - `cookies.rs`, `cookie_manager.rs` — the cookie store of a session, the
    headers of its requests, and the browser identity of a new session.
  - `json.rs` — request bodies as values, replies read at JSON pointers.
  - `api.rs` — the service's endpoints: token, confirmation, order,
    fake-order check, QR login, project and buyer details, clock.
  - `grab.rs` — what each error code means and what the purchase loops do next.
  - `push.rs` — notification channels and their requests.
  - `taskmanager.rs` — the task registry, its message queue, and the
    result each finished task reports.
  - `vault.rs`, `codec.rs` — files sealed with the machine key.
  - `config.rs` — the settings document and its accounts.
  - `input.rs` — what a filtered text field keeps.
  - `outside.rs`, `http.rs` — the calls into randomness, the clock and the HTTP client.
- `app/` — sending requests, local files, notifications and the task worker.
- `tests/` — tests of the library.
