//! Byte units, the ceilings of the display ladder, and the buffer bounds.

use vstd::prelude::*;

verus! {

pub const KB_SIZE: u64 = 1024;
pub const MB_SIZE: u64 = KB_SIZE * KB_SIZE;
pub const GB_SIZE: u64 = MB_SIZE * KB_SIZE;

/// Largest count shown in plain bytes (inclusive).
pub const TWO_KB: u64 = 2 * KB_SIZE;
/// Largest count shown in KB (inclusive).
pub const TWO_MB: u64 = 2 * MB_SIZE;
/// Largest count shown in MB (inclusive).
pub const TWO_GB: u64 = 2 * GB_SIZE;
/// Largest count shown in GB with two decimals (inclusive); above it, whole GB.
pub const HALF_TB: u64 = 512 * GB_SIZE;

pub const NANOS_PER_SEC: u64 = 1000000000;

/// Smallest adaptive transfer-buffer size.
pub const MIN_BUF_SIZE: usize = 256;
/// Largest adaptive transfer-buffer size.
pub const MAX_BUF_SIZE: usize = 32 * 1048576;

/// A display unit of the scaling ladder.
#[derive(Clone, Copy, Debug, PartialEq, Eq, Structural)]
pub enum Unit {
    Bytes,
    KB,
    MB,
    GB,
}

impl Unit {
    /// How many bytes one of this unit holds.
    pub open spec fn size(self) -> nat {
        match self {
            Unit::Bytes => 1,
            Unit::KB => KB_SIZE as nat,
            Unit::MB => MB_SIZE as nat,
            Unit::GB => GB_SIZE as nat,
        }
    }

    /// The unit's name as written after a quantity.
    pub open spec fn label(self) -> Seq<char> {
        match self {
            Unit::Bytes => "Bytes"@,
            Unit::KB => "KB"@,
            Unit::MB => "MB"@,
            Unit::GB => "GB"@,
        }
    }

    pub fn label_str(&self) -> (s: &'static str)
        ensures
            s@ == self.label(),
    {
        match self {
            Unit::Bytes => "Bytes",
            Unit::KB => "KB",
            Unit::MB => "MB",
            Unit::GB => "GB",
        }
    }
}

} // verus!
