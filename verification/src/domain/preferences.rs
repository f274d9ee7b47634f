//! The user's preferences, and the changes the preferences dialog makes.

use vstd::prelude::*;
use std::time::Duration;
use crate::domain::content::{ArchiveDefaults, ArchiveFormat, CompressionLevel};

verus! {

#[derive(Debug, Clone, Copy)]
pub struct Preferences {
    pub notify_after_transfer: bool,
    pub inhibit_suspend: bool,
    pub speed_sample_interval: Duration,
    pub show_offline_devices: bool,
    pub default_format: ArchiveFormat,
    pub compression_level: CompressionLevel,
}

#[derive(Debug, Clone, Copy)]
pub enum PreferenceChange {
    NotifyAfterTransfer(bool),
    InhibitSuspend(bool),
    SpeedSampleInterval(Duration),
    ShowOfflineDevices(bool),
    DefaultFormat(ArchiveFormat),
    CompressionLevel(CompressionLevel),
}

impl Preferences {
    /// The format and compression a new archive starts with.
    pub fn archive_defaults(&self) -> (r: ArchiveDefaults)
        ensures
            r.format == self.default_format,
            r.compression == self.compression_level,
    {
        ArchiveDefaults { format: self.default_format, compression: self.compression_level }
    }
}

} // verus!
