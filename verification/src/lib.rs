//! Readers for the sessions that coding agents leave on disk.
//!
//! A session of the Copilot CLI is a file of events ([`copilot`]); a session of
//! the Cursor agent is a database of metadata and blobs ([`cursor`]), whose
//! working directory may have to be looked for among Cursor's projects
//! ([`cwd`], [`workspace`]). Each becomes a [`session::Session`].

pub mod codec;
pub mod copilot;
pub mod copilot_laws;
pub mod cursor;
pub mod cursor_laws;
pub mod cwd;
pub mod host_path;
pub mod json;
pub mod lists;
pub mod session;
pub mod slash_path;
pub mod text;
pub mod timestamp;
pub mod workspace;
pub mod workspace_laws;
