//! A terminal notes application's core: notes, their JSON form, encryption
//! of note payloads, a full-text search index and the application state.

pub mod text;
pub mod time;
pub mod note;
pub mod search;
pub mod note_map;
pub mod crypto;
pub mod storage;
pub mod app;
pub mod ui;
pub mod json;
