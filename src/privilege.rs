//! Reading back what a privilege adjustment reported of the privilege's
//! former state.
use vstd::prelude::*;

verus! {

/// The privilege was enabled.
pub const SE_PRIVILEGE_ENABLED: u32 = 0x2;

/// The privilege is enabled by default.
pub const SE_PRIVILEGE_ENABLED_BY_DEFAULT: u32 = 0x1;

/// Whether a privilege was enabled before an adjustment, from what the
/// adjustment wrote back: the number of bytes written (which must be the size of
/// a one-entry record), the record's entry count, and the entry's attributes.
pub fn previously_enabled(bytes_written: u32, record_size: u32, count: u32, attributes: u32) -> (r:
    bool)
    ensures
        r == (bytes_written == record_size && count == 1 && attributes & (SE_PRIVILEGE_ENABLED
            | SE_PRIVILEGE_ENABLED_BY_DEFAULT) != 0),
{
    bytes_written == record_size && count == 1 && attributes & (SE_PRIVILEGE_ENABLED
        | SE_PRIVILEGE_ENABLED_BY_DEFAULT) != 0
}

} // verus!
