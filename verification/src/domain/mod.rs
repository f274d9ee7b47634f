pub mod content;
pub mod content_laws;
pub mod device;
pub mod preferences;
pub mod transfer;
