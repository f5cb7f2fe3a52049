//! Fresh identities and the time of day.
use vstd::arithmetic::power::pow;
use vstd::prelude::*;

verus! {

/// The sixteen lower-case digits of hexadecimal numbers.
pub open spec fn hex_digits() -> Seq<char> {
    seq!['0', '1', '2', '3', '4', '5', '6', '7', '8', '9', 'a', 'b', 'c', 'd', 'e', 'f']
}

/// The `k`th hexadecimal digit of 128 bits, the highest first.
pub open spec fn hex_digit(bits: u128, k: int) -> char {
    hex_digits()[(bits as int / pow(16, (31 - k) as nat)) % 16]
}

/// The text of a UUID: 32 digits in groups of 8, 4, 4, 4 and 12 with a hyphen between two groups.
pub open spec fn uuid_text(bits: u128) -> Seq<char> {
    Seq::new(
        36,
        |i: int|
            if i == 8 || i == 13 || i == 18 || i == 23 {
                '-'
            } else if i < 8 {
                hex_digit(bits, i)
            } else if i < 13 {
                hex_digit(bits, i - 1)
            } else if i < 18 {
                hex_digit(bits, i - 2)
            } else if i < 23 {
                hex_digit(bits, i - 3)
            } else {
                hex_digit(bits, i - 4)
            },
    )
}

/// The bits of a random UUID: the version bits say "random", and the variant bits are those of the
/// standard layout.
pub open spec fn is_random_uuid(bits: u128) -> bool {
    bits & 0xF000C000000000000000u128 == 0x40008000000000000000u128
}

/// A random UUID, by `uuid::Uuid::new_v4`, as its bits. The contract claims what holds of every
/// outcome: the version bits say "random" and the variant bits those of the standard layout. The
/// other bits are left open. The call panics where the system has no randomness to give.
#[verifier::external_body]
pub(crate) fn fresh_uuid() -> (r: u128)
    ensures
        is_random_uuid(r),
{
    uuid::Uuid::new_v4().as_u128()
}

/// The text of a UUID, by the `Display` of `uuid::Uuid`: lower-case digits, with hyphens.
#[verifier::external_body]
pub(crate) fn render_uuid(bits: u128) -> (r: String)
    ensures
        r@ == uuid_text(bits),
{
    uuid::Uuid::from_u128(bits).to_string()
}

/// The longest time that `std::time::Duration` holds, in nanoseconds.
pub const LONGEST_NANOS: u128 = 18_446_744_073_709_551_615_999_999_999;

/// The time of day, by `std::time::SystemTime::now`: the nanoseconds since the Unix epoch, or, as
/// an error, those until it where the clock is set to an earlier time. The contract claims that
/// they are no more than a `std::time::Duration` holds; what time it is, is left open.
#[verifier::external_body]
fn read_clock() -> (r: Result<u128, u128>)
    ensures
        r matches Ok(nanos) ==> nanos <= LONGEST_NANOS,
        r matches Err(nanos) ==> nanos <= LONGEST_NANOS,
{
    match std::time::SystemTime::now().duration_since(std::time::UNIX_EPOCH) {
        Ok(after) => Ok(after.as_nanos()),
        Err(early) => Err(early.duration().as_nanos()),
    }
}

/// A time of day as nanoseconds since the Unix epoch, negative before it.
pub open spec fn epoch_nanos(time: Result<u128, u128>) -> int {
    match time {
        Ok(nanos) => nanos as int,
        Err(nanos) => -nanos,
    }
}

/// A time of day as nanoseconds since the Unix epoch, negative before it.
fn signed_nanos(time: Result<u128, u128>) -> (r: i128)
    requires
        time matches Ok(nanos) ==> nanos <= LONGEST_NANOS,
        time matches Err(nanos) ==> nanos <= LONGEST_NANOS,
    ensures
        r == epoch_nanos(time),
{
    match time {
        Ok(nanos) => nanos as i128,
        Err(nanos) => -(nanos as i128),
    }
}

/// Whether a time of day is one that a clock can show.
pub open spec fn is_wall_time(nanos: i128) -> bool {
    -(LONGEST_NANOS as int) <= nanos <= LONGEST_NANOS
}

/// The time of day, in nanoseconds since the Unix epoch, negative before it.
pub(crate) fn unix_nanos() -> (r: i128)
    ensures
        is_wall_time(r),
{
    signed_nanos(read_clock())
}

/// A number of nanoseconds in seconds and the rest; None where there are more seconds than
/// `std::time::Duration` holds.
pub fn clock_span(nanos: u128) -> (r: Option<(u64, u32)>)
    ensures
        match r {
            Some((secs, rest)) => rest < 1_000_000_000 && secs * 1_000_000_000 + rest == nanos,
            None => nanos > LONGEST_NANOS,
        },
{
    let secs: u128 = nanos / 1_000_000_000;
    let rest: u128 = nanos % 1_000_000_000;
    if secs > 18_446_744_073_709_551_615 {
        return None;
    }
    Some((secs as u64, rest as u32))
}

/// Whether the machine's clock reaches so much further than now, by `tokio::time::Instant::now`
/// and `tokio::time::Instant::checked_add`. It depends on the machine and on the time how far the
/// clock reaches; the contract claims only that it reaches the time that it shows.
#[verifier::external_body]
pub(crate) fn clock_reaches(secs: u64, nanos: u32) -> (r: bool)
    requires
        nanos < 1_000_000_000,
    ensures
        secs == 0 && nanos == 0 ==> r,
{
    tokio::time::Instant::now().checked_add(std::time::Duration::new(secs, nanos)).is_some()
}

} // verus!
