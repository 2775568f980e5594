//! Core logic of a chat bot that polls a transport for updates, routes
//! message text to command handlers, and answers from flat JSON documents.
//!
//! The library is pure: it decides, and the surrounding program performs.
//! Text is carried as `Vec<char>`, documents as typed records, and every
//! public function states exactly what it returns.

pub mod chatlog;
pub mod claims;
pub mod crew;
pub mod docs;
pub mod handlers;
pub mod json;
pub mod jsondocs;
pub mod jsonparse;
pub mod poll;
pub mod prompt;
pub mod roundtrip;
pub mod router;
pub mod schedule;
pub mod standings;
pub mod text;
