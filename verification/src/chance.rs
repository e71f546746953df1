//! What is known of the results that differ from call to call.
//!
//! The bodies of these predicates are known here alone. Elsewhere a value meets
//! one of them only where the call that draws such a value gave it.
use vstd::prelude::*;

verus! {

/// A number that a draw of 32 random bits can give: any.
pub closed spec fn is_drawn_number(n: u32) -> bool {
    n <= u32::MAX
}

/// A text that a random UUID can have: hyphens between five groups of digits,
/// and the version in front of the third.
pub closed spec fn is_drawn_uuid(s: Seq<char>) -> bool {
    &&& s.len() == 36
    &&& s[8] == '-' && s[13] == '-' && s[18] == '-' && s[23] == '-'
    &&& s[14] == '4'
}

/// Nanoseconds that can have passed since a reading of the steady clock: as many
/// as a span of time can hold.
pub closed spec fn is_age_of(origin: std::time::Instant, nanos: u128) -> bool {
    nanos <= 0xffff_ffff_ffff_ffff * 1_000_000_000 + 999_999_999
}

/// The text of a random UUID has thirty-six characters, hyphens after the eighth,
/// the twelfth, the sixteenth and the twentieth digit, and says that it is of the
/// fourth version.
pub proof fn law_shape_of_a_uuid(s: Seq<char>)
    requires
        is_drawn_uuid(s),
    ensures
        s.len() == 36,
        forall|i: int|
            i == 8 || i == 13 || i == 18 || i == 23 ==> #[trigger] s[i] == '-',
        s[14] == '4',
{
}

/// No more nanoseconds pass than a span of time can hold.
pub proof fn law_ages_are_spans(origin: std::time::Instant, nanos: u128)
    requires
        is_age_of(origin, nanos),
    ensures
        nanos / 1_000_000_000 <= u64::MAX,
{
}

}
