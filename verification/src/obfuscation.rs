//! The keyed byte scrambling that covers a packet's header and payload.

use vstd::prelude::*;

verus! {

/// What `eo::net::PacketProcessor::encode` makes of `bytes` under a nonzero
/// encode multiple.
pub uninterp spec fn scrambled(bytes: Seq<u8>, multiple: u8) -> Seq<u8>;

/// What `eo::net::PacketProcessor::decode` makes of `bytes` under a nonzero
/// decode multiple.
pub uninterp spec fn unscrambled(bytes: Seq<u8>, multiple: u8) -> Seq<u8>;

/// A packet as it goes on the wire under the encode multiple `multiple`.
/// The neutral multiple 0 leaves it as it is, and so do bytes too few to
/// hold a header, on which the transform is not defined.
pub open spec fn obfuscated(bytes: Seq<u8>, multiple: u8) -> Seq<u8> {
    if multiple == 0 || bytes.len() < 2 {
        bytes
    } else {
        scrambled(bytes, multiple)
    }
}

/// A frame body as it is read under the decode multiple `multiple`. The
/// neutral multiple 0 leaves it as it is, and so does a body too short to
/// hold a header, on which the transform is not defined.
pub open spec fn deobfuscated(bytes: Seq<u8>, multiple: u8) -> Seq<u8> {
    if multiple == 0 || bytes.len() < 2 {
        bytes
    } else {
        unscrambled(bytes, multiple)
    }
}

/// Trusted: `eo::net::PacketProcessor::encode`, on a processor made by
/// `with_multiples`. It rewrites the slice in place, so the length stays; with
/// a zero multiple it returns at once. With a nonzero one it reads the first
/// two bytes, which `requires` makes sure are there.
#[verifier::external_body]
pub(crate) fn scramble(bytes: &mut Vec<u8>, multiple: u8)
    requires
        multiple == 0 || old(bytes)@.len() >= 2,
    ensures
        final(bytes)@ == (if multiple == 0 {
            old(bytes)@
        } else {
            scrambled(old(bytes)@, multiple)
        }),
        final(bytes)@.len() == old(bytes)@.len(),
{
    eo::net::PacketProcessor::with_multiples(0, multiple).encode(bytes.as_mut_slice());
}

/// Trusted: `eo::net::PacketProcessor::decode`, on a processor made by
/// `with_multiples`. It rewrites the slice in place, so the length stays; with
/// a zero multiple it returns at once. With a nonzero one it reads the first
/// two bytes, which `requires` makes sure are there.
#[verifier::external_body]
pub(crate) fn unscramble(bytes: &mut Vec<u8>, multiple: u8)
    requires
        multiple == 0 || old(bytes)@.len() >= 2,
    ensures
        final(bytes)@ == (if multiple == 0 {
            old(bytes)@
        } else {
            unscrambled(old(bytes)@, multiple)
        }),
        final(bytes)@.len() == old(bytes)@.len(),
{
    eo::net::PacketProcessor::with_multiples(multiple, 0).decode(bytes.as_mut_slice());
}

/// Obfuscates a packet of any length for the wire.
pub fn encode(bytes: &mut Vec<u8>, multiple: u8)
    ensures
        final(bytes)@ == obfuscated(old(bytes)@, multiple),
        final(bytes)@.len() == old(bytes)@.len(),
{
    if bytes.len() >= 2 {
        scramble(bytes, multiple);
    }
}

/// Removes the obfuscation from a frame body of any length.
pub fn decode(bytes: &mut Vec<u8>, multiple: u8)
    ensures
        final(bytes)@ == deobfuscated(old(bytes)@, multiple),
        final(bytes)@.len() == old(bytes)@.len(),
{
    if bytes.len() >= 2 {
        unscramble(bytes, multiple);
    }
}

/// With the neutral multiple neither direction changes a byte.
pub proof fn lemma_neutral_is_identity(bytes: Seq<u8>)
    ensures
        obfuscated(bytes, 0) == bytes,
        deobfuscated(bytes, 0) == bytes,
{
}

} // verus!
