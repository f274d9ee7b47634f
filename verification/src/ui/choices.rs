//! The positions and names under which archive formats and compression
//! levels appear in lists, toggles and stored settings.

use vstd::prelude::*;
use crate::domain::content::{ArchiveFormat, CompressionLevel};

verus! {

/// The position of a format in format lists: tar, tar.zst, tar.gz, zip.
pub open spec fn format_position(format: ArchiveFormat) -> u32 {
    match format {
        ArchiveFormat::Tar => 0,
        ArchiveFormat::TarZst => 1,
        ArchiveFormat::TarGz => 2,
        ArchiveFormat::Zip => 3,
    }
}

/// The position of a level in level lists: fast, balanced, smaller.
pub open spec fn compression_position(level: CompressionLevel) -> u32 {
    match level {
        CompressionLevel::Fast => 0,
        CompressionLevel::Balanced => 1,
        CompressionLevel::Smaller => 2,
    }
}

/// The name of a level's toggle.
pub open spec fn compression_toggle(level: CompressionLevel) -> Seq<char> {
    match level {
        CompressionLevel::Fast => "fast"@,
        CompressionLevel::Balanced => "balanced"@,
        CompressionLevel::Smaller => "smaller"@,
    }
}

pub fn format_index(format: ArchiveFormat) -> (r: u32)
    ensures
        r == format_position(format),
{
    match format {
        ArchiveFormat::Tar => 0,
        ArchiveFormat::TarZst => 1,
        ArchiveFormat::TarGz => 2,
        ArchiveFormat::Zip => 3,
    }
}

/// The format at a list position; lists show four.
pub fn format_at(index: u32) -> (r: Option<ArchiveFormat>)
    ensures
        r is Some <==> index < 4,
        r matches Some(f) ==> format_position(f) == index,
{
    match index {
        0 => Some(ArchiveFormat::Tar),
        1 => Some(ArchiveFormat::TarZst),
        2 => Some(ArchiveFormat::TarGz),
        3 => Some(ArchiveFormat::Zip),
        _ => None,
    }
}

pub fn compression_index(level: CompressionLevel) -> (r: u32)
    ensures
        r == compression_position(level),
{
    match level {
        CompressionLevel::Fast => 0,
        CompressionLevel::Balanced => 1,
        CompressionLevel::Smaller => 2,
    }
}

/// The level at a list position; lists show three.
pub fn compression_at(index: u32) -> (r: Option<CompressionLevel>)
    ensures
        r is Some <==> index < 3,
        r matches Some(c) ==> compression_position(c) == index,
{
    match index {
        0 => Some(CompressionLevel::Fast),
        1 => Some(CompressionLevel::Balanced),
        2 => Some(CompressionLevel::Smaller),
        _ => None,
    }
}

pub fn compression_name(level: CompressionLevel) -> (r: &'static str)
    ensures
        r@ == compression_toggle(level),
{
    match level {
        CompressionLevel::Fast => "fast",
        CompressionLevel::Balanced => "balanced",
        CompressionLevel::Smaller => "smaller",
    }
}

/// The level whose toggle has this name.
pub fn compression_named(name: &str) -> (r: Option<CompressionLevel>)
    ensures
        r matches Some(c) ==> compression_toggle(c) == name@,
        r is None ==> forall|c: CompressionLevel| compression_toggle(c) != name@,
{
    proof {
        reveal_strlit("fast");
        reveal_strlit("balanced");
        reveal_strlit("smaller");
    }
    if crate::text::text_equals(name, "fast") {
        Some(CompressionLevel::Fast)
    } else if crate::text::text_equals(name, "balanced") {
        Some(CompressionLevel::Balanced)
    } else if crate::text::text_equals(name, "smaller") {
        Some(CompressionLevel::Smaller)
    } else {
        assert forall|c: CompressionLevel| compression_toggle(c) != name@ by {
            match c {
                CompressionLevel::Fast => {},
                CompressionLevel::Balanced => {},
                CompressionLevel::Smaller => {},
            }
        }
        None
    }
}

/// Every level has one of the three positions, and no two levels share a
/// position or a toggle name; so reading a level back from its position or
/// its name gives the same level.
pub proof fn law_compression_choices_distinct(a: CompressionLevel, b: CompressionLevel)
    ensures
        compression_position(a) < 3,
        compression_position(a) == compression_position(b) ==> a == b,
        compression_toggle(a) == compression_toggle(b) ==> a == b,
{
    reveal_strlit("fast");
    reveal_strlit("balanced");
    reveal_strlit("smaller");
    if a != b {
        assert(compression_toggle(a).len() != compression_toggle(b).len()
            || compression_toggle(a)[0] != compression_toggle(b)[0]);
    }
}

/// Every format has one of the four positions, and no two formats share
/// one; so `format_at(format_index(f))` gives `f` back.
pub proof fn law_format_positions_distinct(a: ArchiveFormat, b: ArchiveFormat)
    ensures
        format_position(a) < 4,
        format_position(a) == format_position(b) ==> a == b,
{
}

} // verus!
