//! What each request decides, apart from reading and writing.

pub mod audios;
pub mod users;
