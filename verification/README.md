# faba_plus

A library for editing FABA+ cards and keeping their playlists in FABA Cloud,
with every decision proved by Verus.

- `src/` is the verified library: identifiers, the scan of a card from its
  directory listing, the plans for writing, deleting and exporting figures
  and for putting a written folder in place (the old one is restored when
  the new one cannot take its place), the editor's library database as a
  model, the local playlist cache with its cloud pushes and pulls, the
  journal lines, and the checks and answers of the cloud service.
- `app/` is the program around it: the cloud service (axum, PostgreSQL,
  the audio volume) and the desktop editor's file system, SQLite file and
  HTTP requests, which carry out what the library decides.
- `tests/` runs the library on concrete values.
