use vstd::prelude::*;

verus! {

/// Smallest accepted title length, in characters.
pub const TITLE_MIN: u64 = 1;

/// Largest accepted title length, in characters.
pub const TITLE_MAX: u64 = 100;

/// Exact length of a YouTube identifier, in characters.
pub const YOUTUBE_ID_LEN: u64 = 11;

pub open spec fn title_ok(t: Seq<char>) -> bool {
    TITLE_MIN <= t.len() <= TITLE_MAX
}

pub open spec fn youtube_id_ok(y: Seq<char>) -> bool {
    y.len() == YOUTUBE_ID_LEN
}

/// Relies on validator's `ValidateLength` for `String` (validator 0.18): the
/// length counted is the number of chars, accepted when `min <= len <= max`.
#[verifier::external_body]
fn length_within(s: &String, min: u64, max: u64) -> (r: bool)
    ensures
        r == (min <= s@.len() && s@.len() <= max),
{
    validator::ValidateLength::<u64>::validate_length(s, Some(min), Some(max), None)
}

/// Whether a title has an accepted length.
pub fn check_title(t: &String) -> (r: bool)
    ensures
        r == title_ok(t@),
{
    length_within(t, TITLE_MIN, TITLE_MAX)
}

/// Whether a YouTube identifier has the accepted length.
pub fn check_youtube_id(y: &String) -> (r: bool)
    ensures
        r == youtube_id_ok(y@),
{
    length_within(y, YOUTUBE_ID_LEN, YOUTUBE_ID_LEN)
}

} // verus!
