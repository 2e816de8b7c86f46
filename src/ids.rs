//! User identifiers (UUIDs) as 128-bit values.

use vstd::prelude::*;
use crate::text::{extend_chars, string_of};

verus! {

/// What `uuid::Uuid::parse_str` reads from `s`, as its 128-bit value.
pub uninterp spec fn uuid_value(s: Seq<char>) -> Option<u128>;

/// The lower-case hexadecimal digit for `d` (below 16).
pub open spec fn hex_char(d: u128) -> char {
    seq!['0', '1', '2', '3', '4', '5', '6', '7', '8', '9', 'a', 'b', 'c', 'd', 'e', 'f'][d as int]
}

/// The `i`-th hexadecimal digit of `id`, most significant first.
pub open spec fn nibble(id: u128, i: int) -> u128 {
    (id >> ((124 - 4 * i) as u128)) & 0xf
}

/// The 32 hexadecimal digits of `id`, most significant first.
pub open spec fn uuid_hex(id: u128) -> Seq<char> {
    Seq::new(32, |i: int| hex_char(nibble(id, i)))
}

/// The text form of the UUID `id`: its digits in groups of 8, 4, 4, 4 and
/// 12, joined by hyphens.
pub open spec fn uuid_string(id: u128) -> Seq<char> {
    let h = uuid_hex(id);
    h.subrange(0, 8) + seq!['-'] + h.subrange(8, 12) + seq!['-'] + h.subrange(12, 16) + seq!['-']
        + h.subrange(16, 20) + seq!['-'] + h.subrange(20, 32)
}

/// The version nibble of a random (version 4, RFC 4122 variant) UUID.
pub open spec fn is_random_uuid(id: u128) -> bool {
    (id >> 76u128) & 0xf == 4 && (id >> 62u128) & 0x3 == 2
}

#[verifier::external_type_specification]
#[verifier::external_body]
pub struct ExUuidError(uuid::Error);

/// Relies on `uuid::Uuid::parse_str` and `Uuid::as_u128`: the value of a
/// UUID written in one of the accepted text forms.
#[verifier::external_body]
fn uuid_parse(s: &str) -> (r: Result<u128, uuid::Error>)
    ensures
        match r {
            Ok(v) => uuid_value(s@) == Some(v),
            Err(_) => uuid_value(s@) is None,
        },
{
    uuid::Uuid::parse_str(s).map(|u| u.as_u128())
}

/// Relies on `uuid::Uuid::new_v4`: random bits with the version set to 4
/// and the variant to RFC 4122.
#[verifier::external_body]
fn uuid_random() -> (r: u128)
    ensures
        is_random_uuid(r),
{
    uuid::Uuid::new_v4().as_u128()
}

/// Reads a UUID.
pub fn parse_uuid(s: &str) -> (r: Option<u128>)
    ensures
        r == uuid_value(s@),
{
    match uuid_parse(s) {
        Ok(v) => Some(v),
        Err(_) => None,
    }
}

/// The text form of a UUID.
pub fn uuid_text(id: u128) -> (r: String)
    ensures
        r@ == uuid_string(id),
{
    let digits: [char; 16] = ['0', '1', '2', '3', '4', '5', '6', '7', '8', '9', 'a', 'b', 'c', 'd', 'e', 'f'];
    assert(digits@ == seq!['0', '1', '2', '3', '4', '5', '6', '7', '8', '9', 'a', 'b', 'c', 'd', 'e', 'f']);
    let mut hex: Vec<char> = Vec::new();
    let mut i: usize = 0;
    while i < 32
        invariant
            i <= 32,
            digits@ == seq!['0', '1', '2', '3', '4', '5', '6', '7', '8', '9', 'a', 'b', 'c', 'd', 'e', 'f'],
            hex@ == uuid_hex(id).subrange(0, i as int),
        decreases 32 - i,
    {
        let shift: u128 = 124 - 4 * (i as u128);
        let d: u128 = (id >> shift) & 0xf;
        assert(d < 16) by (bit_vector)
            requires
                d == (id >> shift) & 0xf,
        ;
        assert(d == nibble(id, i as int));
        hex.push(digits[d as usize]);
        i = i + 1;
        assert(hex@ =~= uuid_hex(id).subrange(0, i as int));
    }
    let mut out: Vec<char> = Vec::new();
    extend_chars(&mut out, &hex, 0, 8);
    out.push('-');
    extend_chars(&mut out, &hex, 8, 12);
    out.push('-');
    extend_chars(&mut out, &hex, 12, 16);
    out.push('-');
    extend_chars(&mut out, &hex, 16, 20);
    out.push('-');
    extend_chars(&mut out, &hex, 20, 32);
    assert(hex@ =~= uuid_hex(id));
    assert(out@ =~= uuid_string(id));
    string_of(&out)
}

/// A fresh random UUID for a new user.
pub fn new_user_id() -> (r: u128)
    ensures
        is_random_uuid(r),
{
    uuid_random()
}

} // verus!
