//! The logic of a Taildrop sending client: what is selected for sending,
//! which devices can receive it, how a transfer advances, and how sizes,
//! names and paths are presented.

pub mod text;
pub mod path;
pub mod domain;
pub mod presentation;
pub mod tailscale;
pub mod outside;
pub mod archive;
pub mod transfer;
pub mod application;
pub mod file_selection;
pub mod models;
pub mod ui;
pub mod mock_api;
