//! What the library takes from the machine it runs on: random identifiers,
//! the wall clock, and the names of the host, the user and the platform.
//!
//! The executable functions here are thin calls into other crates. Their
//! contracts are taken on trust from those crates and are not proved; the
//! rest of the library is proved from them.

use vstd::arithmetic::power::pow;
use vstd::prelude::*;

verus! {

/// Whether `id`, read as a UUID, has version 4 (random) and the RFC variant.
///
/// The version is the thirteenth of the 32 hexadecimal digits; the variant is
/// the two highest bits of the seventeenth.
pub open spec fn is_random_uuid(id: u128) -> bool {
    &&& (id as int / 0x1000_0000_0000_0000_0000) % 16 == 4
    &&& (id as int / 0x4000_0000_0000_0000) % 4 == 2
}

/// The `k`-th hexadecimal digit of `id`, counted from the most significant.
pub open spec fn uuid_nibble(id: u128, k: int) -> int
    recommends
        0 <= k < 32,
{
    (id as int / pow(16, (31 - k) as nat)) % 16
}

/// The lower-case character of a hexadecimal digit.
pub open spec fn hex_char(digit: int) -> char
    recommends
        0 <= digit < 16,
{
    seq!['0', '1', '2', '3', '4', '5', '6', '7', '8', '9', 'a', 'b', 'c', 'd', 'e', 'f'][digit]
}

/// The character at place `i` of the hyphenated text of `id`.
pub open spec fn hyphenated_char(id: u128, i: int) -> char
    recommends
        0 <= i < 36,
{
    if i == 8 || i == 13 || i == 18 || i == 23 {
        '-'
    } else if i < 8 {
        hex_char(uuid_nibble(id, i))
    } else if i < 13 {
        hex_char(uuid_nibble(id, i - 1))
    } else if i < 18 {
        hex_char(uuid_nibble(id, i - 2))
    } else if i < 23 {
        hex_char(uuid_nibble(id, i - 3))
    } else {
        hex_char(uuid_nibble(id, i - 4))
    }
}

/// A UUID as text: 32 lower-case hexadecimal digits, most significant first,
/// in groups of 8, 4, 4, 4 and 12 with a hyphen between groups.
pub open spec fn hyphenated(id: u128) -> Seq<char> {
    Seq::new(36, |i: int| hyphenated_char(id, i))
}

/// The text of a random UUID shows its version and its variant: the first
/// digit of the third group is `4`, and the first digit of the fourth group is
/// one of `8`, `9`, `a` and `b`.
pub proof fn lemma_random_uuid_shows_its_version(id: u128)
    requires
        is_random_uuid(id),
    ensures
        hyphenated(id).len() == 36,
        hyphenated(id)[14] == '4',
        hyphenated(id)[19] == '8' || hyphenated(id)[19] == '9' || hyphenated(id)[19] == 'a'
            || hyphenated(id)[19] == 'b',
        hyphenated(id)[8] == '-',
        hyphenated(id)[13] == '-',
        hyphenated(id)[18] == '-',
        hyphenated(id)[23] == '-',
{
    assert(pow(16, 19) == 0x1000_0000_0000_0000_0000) by {
        vstd::arithmetic::power::lemma_pow1(16);
        vstd::arithmetic::power::lemma_pow_adds(16, 1, 1);
        assert(pow(16, 2) == 0x100);
        vstd::arithmetic::power::lemma_pow_adds(16, 2, 1);
        assert(pow(16, 3) == 0x1000);
        vstd::arithmetic::power::lemma_pow_adds(16, 2, 2);
        assert(pow(16, 4) == 0x1_0000);
        vstd::arithmetic::power::lemma_pow_adds(16, 4, 4);
        assert(pow(16, 8) == 0x1_0000_0000);
        vstd::arithmetic::power::lemma_pow_adds(16, 8, 8);
        assert(pow(16, 16) == 0x1_0000_0000_0000_0000);
        vstd::arithmetic::power::lemma_pow_adds(16, 16, 3);
    }
    assert(uuid_nibble(id, 12) == 4);
    assert(pow(16, 15) == 0x1000_0000_0000_0000) by {
        vstd::arithmetic::power::lemma_pow1(16);
        vstd::arithmetic::power::lemma_pow_adds(16, 1, 1);
        assert(pow(16, 2) == 0x100);
        vstd::arithmetic::power::lemma_pow_adds(16, 2, 1);
        assert(pow(16, 3) == 0x1000);
        vstd::arithmetic::power::lemma_pow_adds(16, 3, 3);
        assert(pow(16, 6) == 0x100_0000);
        vstd::arithmetic::power::lemma_pow_adds(16, 6, 6);
        assert(pow(16, 12) == 0x1_0000_0000_0000);
        vstd::arithmetic::power::lemma_pow_adds(16, 12, 3);
    }
    assert(8 <= uuid_nibble(id, 16) <= 11);
}

/// A fresh random identifier from `uuid::Uuid::new_v4`, as the 128-bit number
/// that `Uuid::as_u128` gives for it.
///
/// Trusted: `new_v4` fixes the version digit to 4 and the variant bits to the
/// RFC pattern; the other 122 bits are random and nothing is said of them.
#[verifier::external_body]
pub(crate) fn random_uuid() -> (id: u128)
    ensures
        is_random_uuid(id),
{
    uuid::Uuid::new_v4().as_u128()
}

/// The text that `uuid::Uuid` displays for the identifier `id`.
///
/// Trusted: a `Uuid` made by `from_u128` displays as its lower-case hyphenated
/// form.
#[verifier::external_body]
pub(crate) fn uuid_text(id: u128) -> (text: String)
    ensures
        text@ == hyphenated(id),
{
    uuid::Uuid::from_u128(id).to_string()
}

/// The current time from `chrono::Utc::now`, in milliseconds since the Unix
/// epoch. Nothing is promised of the value.
#[verifier::external_body]
pub(crate) fn utc_now_millis() -> (millis: i64) {
    chrono::Utc::now().timestamp_millis()
}

/// The host name from `hostname::get`, or `None` where the system gives none
/// or gives one that is not valid Unicode.
#[verifier::external_body]
pub(crate) fn host_name() -> (name: Option<String>) {
    match hostname::get() {
        Ok(name) => name.into_string().ok(),
        Err(_) => None,
    }
}

/// The name of the user who runs the process, from `whoami::username`.
/// Nothing is promised of the name.
#[verifier::external_body]
pub(crate) fn user_name() -> (name: String) {
    whoami::username()
}

/// The name of the platform from `whoami::platform`, as it displays. Nothing
/// is promised of the name.
#[verifier::external_body]
pub(crate) fn platform_name() -> (name: String) {
    whoami::platform().to_string()
}

} // verus!
