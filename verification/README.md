# session_parsers

Readers for the sessions that the Copilot CLI and the Cursor agent leave on
disk, written in Verus.

- `src/` is the verified library. `copilot` and `cursor` turn lines and rows into
  a `session::Session`; `cwd` and `workspace` look for the working directory of a
  Cursor session, asking the caller what the disk holds, one question at a time.
  The other modules are what these rest on: text, paths, times, JSON, and bytes
  stored in hexadecimal or base64.
- `app/` opens files and databases, lists directories, and hands what it finds to
  the library.
- `tests/` runs the library on concrete sessions.

Calls into `chrono`, `hex`, `base64`, `serde_json` and `std::path` stand behind
functions marked `external_body`; the comment above each says what is taken on
trust.
