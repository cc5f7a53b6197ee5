//! Storage in ZFS pools.

pub mod contents;
pub mod dataset;
pub mod pool;
pub mod storage;
pub mod usage;
pub mod volume;

use vstd::prelude::*;
use vstd::string::*;

use crate::error::{outcome, Error, ErrorView};
use crate::text::{parse_u64 as parse_number, parsed};

verus! {

/// The snapshot of an image that machines are cloned from.
pub open spec fn base_snapshot() -> Seq<char> {
    "base"@
}

/// A figure of a listing, or the error for a field that holds none.
pub open spec fn figure(value: Seq<char>, field: Seq<char>) -> Result<u64, ErrorView> {
    match parsed(value, u64::MAX as nat) {
        Some(n) => Ok(n as u64),
        None => Err(ErrorView::Zfs("failed to parse "@ + field + ": '"@ + value + "'"@)),
    }
}

/// Reads a figure of a listing.
pub fn parse_u64(value: &str, field: &str) -> (r: Result<u64, Error>)
    ensures
        outcome(r) == figure(value@, field@),
{
    match parse_number(value) {
        Some(n) => Ok(n),
        None => Err(
            Error::Zfs(
                "failed to parse ".to_owned().concat(field).concat(": '").concat(value).concat(
                    "'",
                ),
            ),
        ),
    }
}

} // verus!
