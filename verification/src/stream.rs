//! The byte stream builder of the protocol crate, as far as a packet's
//! header and payload are put together with it.

use vstd::prelude::*;
use eo::data::StreamBuilder;

verus! {

/// Trusted: the type `eo::data::StreamBuilder`, carried as an opaque value.
#[verifier::external_type_specification]
#[verifier::external_body]
pub struct ExStreamBuilder(eo::data::StreamBuilder);

/// The bytes that a builder holds, in the order in which they were added.
pub uninterp spec fn built(builder: StreamBuilder) -> Seq<u8>;

/// Trusted: `StreamBuilder::with_capacity`. The new builder holds no byte;
/// the capacity only reserves room.
#[verifier::external_body]
pub(crate) fn with_capacity(capacity: usize) -> (builder: StreamBuilder)
    ensures
        built(builder) == Seq::<u8>::empty(),
{
    StreamBuilder::with_capacity(capacity)
}

/// Trusted: `StreamBuilder::add_byte`. The byte is put at the end as it is.
#[verifier::external_body]
pub(crate) fn add_byte(builder: &mut StreamBuilder, number: u8)
    ensures
        built(*final(builder)) == built(*old(builder)).push(number),
{
    builder.add_byte(number);
}

/// Trusted: `StreamBuilder::append`. The bytes are put at the end as they
/// are, in their order.
#[verifier::external_body]
pub(crate) fn append(builder: &mut StreamBuilder, other: Vec<u8>)
    ensures
        built(*final(builder)) == built(*old(builder)) + other@,
{
    builder.append(other.into());
}

/// Trusted: `StreamBuilder::get`. It hands out the bytes that the builder
/// holds.
#[verifier::external_body]
pub(crate) fn get(builder: StreamBuilder) -> (bytes: Vec<u8>)
    ensures
        bytes@ == built(builder),
{
    builder.get().to_vec()
}

} // verus!
