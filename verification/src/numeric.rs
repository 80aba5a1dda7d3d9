//! The protocol's number encoding, as far as the length prefix needs it.

use vstd::prelude::*;

verus! {

/// Numbers below this take one wire digit.
pub const MAX1: u32 = 253;

/// Numbers below this take two wire digits.
pub const MAX2: u32 = 64009;

/// Numbers below this take three wire digits.
pub const MAX3: u32 = 16194277;

/// The largest number that four wire digits can carry.
pub const MAX4: u32 = 4097152080;

/// The four wire digits of `n`, lowest first. A digit is stored plus one,
/// and a digit that the number does not reach is the filler 254.
pub open spec fn encoded(n: u32) -> Seq<u8> {
    let r3: int = if n >= MAX3 { n as int % MAX3 as int } else { n as int };
    let r2: int = if n >= MAX2 { r3 % MAX2 as int } else { r3 };
    let r1: int = if n >= MAX1 { r2 % MAX1 as int } else { r2 };
    seq![
        (r1 + 1) as u8,
        if n >= MAX1 { (r2 / MAX1 as int + 1) as u8 } else { 254u8 },
        if n >= MAX2 { (r3 / MAX2 as int + 1) as u8 } else { 254u8 },
        if n >= MAX3 { (n as int / MAX3 as int + 1) as u8 } else { 254u8 },
    ]
}

/// The value of the wire digit at place `i`: a missing byte, a zero byte and
/// the filler 254 all count as zero, any other byte as itself less one.
pub open spec fn digit(bytes: Seq<u8>, i: int) -> int {
    if i < bytes.len() && bytes[i] != 0 && bytes[i] != 254 {
        bytes[i] as int - 1
    } else {
        0
    }
}

/// The number that the first four bytes of `bytes` stand for.
pub open spec fn decoded(bytes: Seq<u8>) -> int {
    digit(bytes, 3) * MAX3 as int + digit(bytes, 2) * MAX2 as int + digit(bytes, 1) * MAX1 as int
        + digit(bytes, 0)
}

/// Trusted: `eo::data::encode_number`. The contract writes out the digit
/// scheme of that function; it panics above `MAX4`, which `requires` excludes.
#[verifier::external_body]
pub(crate) fn encode_number(number: u32) -> (bytes: Vec<u8>)
    requires
        number <= MAX4,
    ensures
        bytes@ == encoded(number),
{
    eo::data::encode_number(number).to_vec()
}

/// Trusted: `eo::data::decode_number`. The contract writes out how that
/// function weighs up to four bytes; it accepts a slice of any length.
#[verifier::external_body]
pub(crate) fn decode_number(bytes: &Vec<u8>) -> (number: u32)
    ensures
        number as int == decoded(bytes@),
{
    eo::data::decode_number(bytes.as_slice())
}

/// Two bytes never decode to more than this.
pub const MAX_PREFIX_VALUE: u32 = 64516;

/// A two-byte prefix decodes into a bounded number.
pub proof fn lemma_decoded_two_bytes_bound(bytes: Seq<u8>)
    requires
        bytes.len() <= 2,
    ensures
        0 <= decoded(bytes) <= MAX_PREFIX_VALUE,
{
}

/// Decoding the two low digits of a number below `MAX2` gives the number back.
pub proof fn lemma_two_digit_round_trip(n: u32)
    requires
        n < MAX2,
    ensures
        decoded(encoded(n).subrange(0, 2)) == n,
{
    let two = encoded(n).subrange(0, 2);
    assert(two.len() == 2);
    assert(two[0] == encoded(n)[0]);
    assert(two[1] == encoded(n)[1]);
    if n >= MAX1 {
        assert(n as int == 253 * (n as int / 253) + n as int % 253) by (nonlinear_arith);
        assert(1 <= n as int / 253 < 253) by (nonlinear_arith)
            requires
                253 <= n < 64009,
        ;
    }
}

} // verus!
