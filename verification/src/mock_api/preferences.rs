//! Sample preferences, and a sink for the changes made to them.

use vstd::prelude::*;
use crate::models::{ArchiveFormat, CompressionLevel, PreferenceChange, PreferencesData};

verus! {

pub fn fetch_preferences() -> (r: PreferencesData)
    ensures
        r.notify_after_transfer,
        r.inhibit_suspend,
        r.default_format == ArchiveFormat::Auto,
        r.compression_level == CompressionLevel::Balanced,
{
    PreferencesData {
        notify_after_transfer: true,
        inhibit_suspend: true,
        default_format: ArchiveFormat::Auto,
        compression_level: CompressionLevel::Balanced,
    }
}

/// Accepts a change; the sample preferences stay as they are.
pub fn update_preference(change: PreferenceChange) {
    match change {
        PreferenceChange::NotifyAfterTransfer(_) | PreferenceChange::InhibitSuspend(_) => {},
        PreferenceChange::DefaultFormat(_) => {},
        PreferenceChange::CompressionLevel(_) => {},
    }
}

} // verus!
