//! Resolves an emoji or icon identifier, a family and an optional vendor into
//! an attribution page for that icon.

pub mod error;
pub mod hex;
pub mod html;
pub mod metadata;
pub mod page;
pub mod token;
