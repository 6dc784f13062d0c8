//! Well-known index groups.
use vstd::prelude::*;

verus! {

/// Get the version counter of the symbol table.
pub const GET_SYMVERSION: u32 = 0xF008;

/// Write several index groups and offsets with one request.
pub const SUMUP_WRITE: u32 = 0xF081;

/// Write and read several index groups and offsets with one request.
pub const SUMUP_READWRITE: u32 = 0xF082;

/// Read several index groups and offsets with one request; the lengths that
/// came back stand in front of the data.
pub const SUMUP_READ_EX: u32 = 0xF083;

/// Add several notifications with one request.
pub const SUMUP_ADDDEVNOTE: u32 = 0xF085;

/// Delete several notifications with one request.
pub const SUMUP_DELDEVNOTE: u32 = 0xF086;

/// Each index group has the number that the protocol gives it.
pub proof fn index_groups_have_numbers()
    ensures
        GET_SYMVERSION == 0xF008,
        SUMUP_WRITE == 0xF081,
        SUMUP_READWRITE == 0xF082,
        SUMUP_READ_EX == 0xF083,
        SUMUP_ADDDEVNOTE == 0xF085,
        SUMUP_DELDEVNOTE == 0xF086,
{
}

} // verus!
