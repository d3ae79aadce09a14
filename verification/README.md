# rcw

A verified library for a remote-assistance relay and its Windows host, with
the programs around it.

- `src/` is the library, written in Verus. Each function states what it does
  in `requires` / `ensures`, and Verus proves it. It holds the relay's state
  machine (hosts, sessions, pending opens, request routes, detached exec jobs,
  tunnels and their streams, rate limits), the controller and host message
  steps, the binary frame codec, one-time codes (HOTP/TOTP), configuration,
  identifiers, the host's live state and its audit records with their
  redaction rules. Outside crates (hashing, HMAC, hex, base64, ULID, URL
  parsing, time) are called through small trusted wrappers whose contracts
  say what those crates document.
- `app/` is the executable around the library: the relay's websocket server
  and the console host, with their I/O, sockets, processes and files. Each
  decision it acts on comes from a library function.
- `tests/` exercises the library on concrete values.
