# smallpict_rust

An image upload service for the SmallPict optimization API. The decision
logic is a Verus-verified library (`src/`); the HTTP server, database,
file system and network calls are a thin program around it (`app/`).

- `src/text.rs` — character-level string helpers (trim, search, ASCII
  case-insensitive comparison, decimal numbers) with exact specifications.
- `src/paths.rs` — `file_name`, `file_stem` and `extension` of a path.
- `src/mime.rs` — MIME type to file extension, output format by name.
- `src/config.rs` — configuration defaults and the `.env` line format.
- `src/extract.rs` — taking the image out of a request (Base64, data URIs,
  file bytes).
- `src/handler.rs` — request classification, field selection and replies.
- `src/upload.rs` — the upload flow as a state machine, with its laws
  (bounded polling, termination, what a saved record holds).
