//! Identifiers and points in time.

use vstd::arithmetic::power::{lemma_pow0, lemma_pow_positive, pow};
use vstd::prelude::*;

verus! {

/// Identifier of a deployment: the 128 bits of a UUID.
#[derive(Clone, Copy, Debug, PartialEq, Eq, Hash, Structural)]
pub struct Uuid {
    pub value: u128,
}

/// Identifier of a service or of a project: the 128 bits of a ULID.
#[derive(Clone, Copy, Debug, PartialEq, Eq, Hash, Structural)]
pub struct Ulid {
    pub value: u128,
}

/// A point in time: seconds since the Unix epoch and nanoseconds within the second.
#[derive(Clone, Copy, Debug, PartialEq, Eq, Hash, Structural)]
pub struct Timestamp {
    pub secs: i64,
    pub nanos: u32,
}

impl Timestamp {
    /// Whether `self` is an earlier point in time than `other`.
    pub open spec fn is_before(self, other: Timestamp) -> bool {
        self.secs < other.secs || (self.secs == other.secs && self.nanos < other.nanos)
    }

    pub fn before(&self, other: &Timestamp) -> (result: bool)
        ensures
            result == self.is_before(*other),
            result == (self.secs < other.secs || (self.secs == other.secs && self.nanos
                < other.nanos)),
    {
        self.secs < other.secs || (self.secs == other.secs && self.nanos < other.nanos)
    }
}

/// The digit of Crockford's base 32 with value `digit`.
pub open spec fn base32_digit(digit: int) -> char {
    if digit < 10 {
        (('0' as int) + digit) as char
    } else if digit < 18 {
        (('A' as int) + digit - 10) as char
    } else if digit < 20 {
        (('J' as int) + digit - 18) as char
    } else if digit < 22 {
        (('M' as int) + digit - 20) as char
    } else if digit < 27 {
        (('P' as int) + digit - 22) as char
    } else {
        (('V' as int) + digit - 27) as char
    }
}

/// The last `digits` base-32 digits of `value`, most significant first.
pub open spec fn base32(value: nat, digits: nat) -> Seq<char>
    decreases digits,
{
    if digits == 0 {
        Seq::empty()
    } else {
        base32(value / 32, (digits - 1) as nat).push(base32_digit((value % 32) as int))
    }
}

/// The canonical text of a ULID: its 26 digits in Crockford's base 32.
pub open spec fn ulid_text(value: u128) -> Seq<char> {
    base32(value as nat, 26)
}

/// Calls `ulid::Ulid::to_string`: the value as 26 digits of Crockford's base 32,
/// most significant digit first, letters in upper case.
#[verifier::external_body]
fn ulid_to_string(value: u128) -> (text: String)
    ensures
        text@ == ulid_text(value),
{
    ulid::Ulid(value).to_string()
}

/// Calls `ulid::Ulid::new`, which draws a new identifier from the clock and from a source of
/// random numbers. Nothing is claimed of the identifier, nor that it differs from others.
#[verifier::external_body]
fn fresh_ulid() -> (value: u128) {
    ulid::Ulid::new().0
}

/// Calls `chrono::Utc::now`, the current time of the system's clock. All that is claimed of it
/// is that the nanoseconds are a fraction of a second.
#[verifier::external_body]
fn system_time() -> (time: Timestamp)
    ensures
        time.nanos < 1_000_000_000,
{
    let now = chrono::Utc::now();
    Timestamp { secs: now.timestamp(), nanos: now.timestamp_subsec_nanos() }
}

impl Ulid {
    /// A new identifier, for a row that is about to be created.
    pub fn new() -> (id: Ulid) {
        Ulid { value: fresh_ulid() }
    }

    /// The canonical text, under which the identifier is stored and sent.
    pub fn to_string(&self) -> (text: String)
        ensures
            text@ == ulid_text(self.value),
    {
        ulid_to_string(self.value)
    }
}

impl Timestamp {
    /// The current time.
    pub fn now() -> (time: Timestamp)
        ensures
            time.nanos < 1_000_000_000,
    {
        system_time()
    }
}

proof fn lemma_base32_digit_injective(a: int, b: int)
    requires
        0 <= a < 32,
        0 <= b < 32,
        base32_digit(a) == base32_digit(b),
    ensures
        a == b,
{
}

proof fn lemma_base32_injective(a: nat, b: nat, digits: nat)
    requires
        a < pow(32, digits),
        b < pow(32, digits),
        base32(a, digits) == base32(b, digits),
    ensures
        a == b,
    decreases digits,
{
    if digits == 0 {
        lemma_pow0(32);
    } else {
        let rest = (digits - 1) as nat;
        lemma_pow_positive(32, rest);
        assert(pow(32, digits) == 32 * pow(32, rest)) by {
            reveal(pow);
        }
        let (ta, tb) = (base32(a, digits), base32(b, digits));
        assert(ta.last() == tb.last());
        lemma_base32_digit_injective((a % 32) as int, (b % 32) as int);
        assert(base32(a / 32, rest) =~= ta.drop_last());
        assert(base32(b / 32, rest) =~= tb.drop_last());
        lemma_base32_injective(a / 32, b / 32, rest);
    }
}

/// Two ULIDs have the same text only if they are equal: a statement that compares the text
/// selects the rows of exactly one service.
pub proof fn law_ulid_text_is_unique(a: Ulid, b: Ulid)
    requires
        ulid_text(a.value) == ulid_text(b.value),
    ensures
        a == b,
{
    assert(pow(32, 26) > u128::MAX) by {
        reveal(pow);
        reveal_with_fuel(pow, 27);
    }
    lemma_base32_injective(a.value as nat, b.value as nat, 26);
}

} // verus!
