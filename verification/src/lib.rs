//! Core of a timezone-preference chat assistant: routing of inbound chat
//! updates to exactly one handling path, translation of response kinds to
//! transport-safe text, and the persistence model for per-user timezone
//! preferences keyed by a stable external identity.

pub mod bot;
pub mod db;
pub mod err;
pub mod tg;
