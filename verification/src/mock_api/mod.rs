//! Fixed sample data for the preview screens, shaped as the records of
//! `models`.

pub mod content;
pub mod devices;
pub mod preferences;
pub mod transfer;
