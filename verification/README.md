# terminal_note

The core of a terminal notes application, written in Verus: notes and their
JSON form, Argon2 key derivation and AES-256-GCM encryption of stored notes,
a full-text search index, the application state and what the terminal
interface decides.

Layout:

- `src/text.rs` – whitespace splitting, line splitting, lower-casing, decimal text.
- `src/time.rs` – `Timestamp`, a UTC instant with its RFC 3339 text (chrono).
- `src/note.rs` – `Note`, its JSON object, reading a note from JSON.
- `src/json.rs` – `JsonValue`, the JSON values that notes are stored as.
- `src/search.rs` – `SearchEngine`, the inverted index, and its laws.
- `src/note_map.rs` – `NoteMap`, notes by key in insertion order.
- `src/crypto.rs` – key derivation (argon2), encryption (aes-gcm), base64.
- `src/storage.rs` – note file names and paths, encrypted payloads.
- `src/app.rs` – `App`, the application state and its operations.
- `src/ui.rs` – key and paste handling as a state machine, and the screen.
- `app/main.rs` – the program: files under `./notes`, serde, the terminal.

Operations that need storage work are split at it: the library decides what
to store, the program stores it and hands the outcome back.
