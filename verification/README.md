# tagvox

A Discord bot that answers trigger phrases, plays voice commands with
playback buttons, posts anonymous messages, and is managed from a small web
panel. Its decisions are a Verus library with proved contracts; the program
around it does the I/O.

## Layout

- `src/` — the verified library.
  - `text` — whitespace, trimming, decimal numbers; wrappers of std's
    Unicode functions.
  - `matching` — normalization of phrases, the containment test, and the
    choice of the best-scoring entry.
  - `message` — what the bot does with a chat message (a state machine).
  - `voice` — control commands and buttons, playback replies, where sound
    files are looked up, and the steps of starting a voice command.
  - `anon` — the `/anon` command as a state machine.
  - `catalog`, `phrases` — the phrase book and the panel's edits of it.
  - `auth`, `cookie`, `password`, `random`, `clock` — panel login:
    sessions, one-time OAuth states, the OAuth callback, passwords.
  - `guilds`, `sounds`, `config`, `panel`, `token`, `json` — the panel's
    other endpoints and the bot's settings files.
  - `order`, `seqs` — a verified stable sort and lemmas on sequences.
- `tests/` — tests of the library on concrete values.
- `app/` — the executable: Discord (serenity, songbird), the web server
  (axum), the database (sqlx), files, and the similarity scores, which are
  floats.
