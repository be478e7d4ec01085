//! The two places where the library leaves verified code: the clock and the
//! random number generator.

use rand::Rng;
use vstd::prelude::*;

verus! {

/// Whether `c` is one of the 62 characters `A-Z`, `a-z`, `0-9`.
pub open spec fn is_key_char(c: char) -> bool {
    ('A' <= c && c <= 'Z') || ('a' <= c && c <= 'z') || ('0' <= c && c <= '9')
}

/// Whether `s` is a key of `len` characters: each of them is one of `A-Z`,
/// `a-z`, `0-9`.
pub open spec fn is_key(s: Seq<char>, len: nat) -> bool {
    s.len() == len && forall|i: int| 0 <= i < s.len() ==> is_key_char(#[trigger] s[i])
}

/// Calls `time::precise_time_ns`: the value of a high-resolution counter in
/// nanoseconds since an unspecified epoch. Nothing is claimed of the value.
#[verifier::external_body]
pub(crate) fn precise_ns() -> u64 {
    time::precise_time_ns()
}

/// Calls `rand::thread_rng` and `Rng::gen_ascii_chars`, and collects the first
/// `len` characters of that iterator. Claimed: the result has `len`
/// characters, each of them from `A-Z`, `a-z`, `0-9`. Which ones is not
/// claimed. `thread_rng` panics where the system offers no entropy at all.
#[verifier::external_body]
pub(crate) fn random_key(len: usize) -> (key: String)
    ensures
        is_key(key@, len as nat),
{
    rand::thread_rng().gen_ascii_chars().take(len).collect()
}

/// The current reading of the clock in whole milliseconds.
pub fn now_ms() -> (now: u64)
    ensures
        exists|ns: u64| now == #[trigger] millis_of(ns as int),
{
    let ns: u64 = precise_ns();
    let now: u64 = to_millis(ns);
    assert(now == millis_of(ns as int));
    now
}

/// The whole milliseconds in `ns` nanoseconds.
pub open spec fn millis_of(ns: int) -> int {
    ns / 1_000_000
}

/// The whole milliseconds in a reading of `ns` nanoseconds.
pub fn to_millis(ns: u64) -> (ms: u64)
    ensures
        ms == millis_of(ns as int),
{
    ns / 1_000_000
}

} // verus!
