//! The run modes and the validation of the compression level argument.
use vstd::prelude::*;

verus! {

/// What a run does.
#[derive(Debug, Clone, Copy, PartialEq, Eq, Structural)]
pub enum Mode {
    /// Only count the region files and chunks that could be deleted, changing nothing.
    Check,
    /// Delete unused region files and chunks, rewriting the rest.
    Write,
}

/// What `str::parse::<u32>` makes of a string; `None` when it is no decimal `u32`.
pub uninterp spec fn parsed_u32(s: Seq<char>) -> Option<u32>;

/// Relies on `str::parse::<u32>`: the result depends on the characters alone.
#[verifier::external_body]
fn parse_u32(s: &str) -> (r: Option<u32>)
    ensures
        r == parsed_u32(s@),
{
    s.parse::<u32>().ok()
}

/// The message for a compression level out of range.
pub open spec fn level_message() -> Seq<char> {
    "Compression level must be an integer between 0 and 9"@
}

/// Accepts a parsed compression level from 0 to 9.
pub fn check_compression_level(parsed: Option<u32>) -> (r: Result<u32, String>)
    ensures
        match parsed {
            Some(level) => if level <= 9 {
                r == Ok::<u32, String>(level)
            } else {
                r is Err && r->Err_0@ == level_message()
            },
            None => r is Err && r->Err_0@ == level_message(),
        },
{
    match parsed {
        Some(level) => {
            if level <= 9 {
                return Ok(level);
            }
        },
        None => {},
    }
    Err("Compression level must be an integer between 0 and 9".to_owned())
}

/// Parses a compression level argument and accepts it from 0 to 9.
pub fn validate_compression_level(s: &str) -> (r: Result<u32, String>)
    ensures
        match parsed_u32(s@) {
            Some(level) => if level <= 9 {
                r == Ok::<u32, String>(level)
            } else {
                r is Err && r->Err_0@ == level_message()
            },
            None => r is Err && r->Err_0@ == level_message(),
        },
{
    check_compression_level(parse_u32(s))
}

} // verus!
