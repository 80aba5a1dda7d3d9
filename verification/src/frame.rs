//! The wire frame: a two-byte length prefix and the body it counts.

use vstd::prelude::*;
use crate::numeric::{decode_number, decoded, encode_number, encoded, lemma_two_digit_round_trip, MAX2, MAX4};

verus! {

/// Bytes taken by the length prefix.
pub const PACKET_LENGTH_SIZE: usize = 2;

/// Bytes taken by a packet's header: action, then family.
pub const PACKET_HEADER_SIZE: usize = 2;

/// The two-byte prefix that announces a body of `len` bytes.
pub open spec fn prefix(len: nat) -> Seq<u8> {
    encoded(len as u32).subrange(0, 2)
}

/// The frame around `body`: its prefix, then the body untouched.
pub open spec fn framed(body: Seq<u8>) -> Seq<u8> {
    prefix(body.len()) + body
}

/// The body of `bytes` read as one whole frame, where the prefix counts
/// exactly the bytes that follow it.
pub open spec fn deframed(bytes: Seq<u8>) -> Option<Seq<u8>> {
    if bytes.len() >= 2 && decoded(bytes.subrange(0, 2)) == bytes.len() - 2 {
        Some(bytes.subrange(2, bytes.len() as int))
    } else {
        None
    }
}

/// Puts the length prefix in front of `body`.
pub fn frame(body: Vec<u8>) -> (bytes: Vec<u8>)
    requires
        body@.len() <= MAX4,
    ensures
        bytes@ == framed(body@),
        bytes@.len() == body@.len() + 2,
{
    let mut bytes = body;
    let length_bytes = encode_number(bytes.len() as u32);
    bytes.insert(0, length_bytes[1]);
    bytes.insert(0, length_bytes[0]);
    assert(bytes@ =~= framed(body@));
    bytes
}

/// Takes one whole frame apart; `None` where the prefix and the number of
/// bytes behind it disagree, or the prefix itself is cut short.
pub fn deframe(bytes: &Vec<u8>) -> (body: Option<Vec<u8>>)
    ensures
        body.is_some() == deframed(bytes@).is_some(),
        body.is_some() ==> body.unwrap()@ == deframed(bytes@).unwrap(),
{
    if bytes.len() < 2 {
        return None;
    }
    let mut head: Vec<u8> = Vec::new();
    head.push(bytes[0]);
    head.push(bytes[1]);
    assert(head@ =~= bytes@.subrange(0, 2));
    let announced = decode_number(&head);
    if announced as usize != bytes.len() - 2 {
        return None;
    }
    let mut body: Vec<u8> = Vec::new();
    let mut i: usize = 2;
    while i < bytes.len()
        invariant
            2 <= i <= bytes.len(),
            body@ == bytes@.subrange(2, i as int),
        decreases bytes.len() - i,
    {
        body.push(bytes[i]);
        i += 1;
        assert(body@ =~= bytes@.subrange(2, i as int));
    }
    Some(body)
}

/// A body shorter than `MAX2` comes back out of its own frame, and the
/// prefix decodes to the body's length.
pub proof fn lemma_frame_round_trip(body: Seq<u8>)
    requires
        body.len() < MAX2,
    ensures
        decoded(framed(body).subrange(0, 2)) == body.len(),
        deframed(framed(body)) == Some(body),
{
    lemma_two_digit_round_trip(body.len() as u32);
    assert(framed(body).subrange(0, 2) =~= prefix(body.len()));
    assert(framed(body).subrange(2, framed(body).len() as int) =~= body);
}

} // verus!
