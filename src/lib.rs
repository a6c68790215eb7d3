//! A store of reading notes on papers: each record is kept under an identity
//! derived from its title, can be found again by a prefix of that identity,
//! and is listed in a fixed-width table ordered by modification time.

pub mod error;
pub mod progress;
pub mod text;
pub mod digest;
pub mod paper;
pub mod store;
pub mod view;
pub mod editor;
