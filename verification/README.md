# podkit

The core of the podkit server, verified with Verus.

- `src/` — the library:
  - `validation` — strict e-mail validation (RFC 5321 / RFC 1123 subset)
    and normalisation, with the laws that normalising is idempotent and
    does not change how an address validates;
  - `domain` — users (the `Email` value object, settings, the password
    hashing interface), workspaces, teams, memberships and projects;
  - `ids` — the Snowflake id generator as a state machine over clock
    readings, with the layout of ids and the law that ids increase;
  - `passwords` — Argon2id hashing and verification (PHC strings);
  - `models`, `server` — database rows, the authentication rules, tokens'
    claims, the session cookie and the server settings;
  - `decimal`, `text`, `datetime` — numerals, UTF-8 lengths, timestamps.
- `app/` — the HTTP server (axum, sqlx, jsonwebtoken, tokio) around it.
- `tests/` — tests of the library on concrete values.
