//! The fixed-size payloads of the exchange and the buffers they travel in.
//!
//! A packet is opaque: only its size matters. The sender fills it with zero
//! bytes, the acknowledgment is filled with the letter `a`.
use vstd::prelude::*;
use bytes::Bytes;

verus! {

/// Size in bytes of the payload carried by every stream and datagram.
pub const PACKET_SIZE: usize = 1000;

/// Size in bytes of the datagram send and receive buffers of a connection.
pub const DATAGRAM_BUFFER_SIZE: usize = PACKET_SIZE * 1024 * 1024;

/// Number of chunk buffers that one read of a stream can fill.
pub const CHUNK_SLOTS: usize = 4;

/// The byte that fills a packet written to a stream.
pub const PACKET_FILL: u8 = 0;

/// The byte that fills an acknowledgment datagram, the letter `a`.
pub const ACK_FILL: u8 = 97;

/// `bytes::Bytes`, the buffer type that streams and datagrams are read into
/// and sent from. Nothing is known of a value but the bytes it holds, which
/// `bytes_content` names.
#[verifier::external_type_specification]
#[verifier::external_body]
pub struct ExBytes(bytes::Bytes);

/// The bytes that a `bytes::Bytes` buffer holds, in order.
pub uninterp spec fn bytes_content(b: Bytes) -> Seq<u8>;

/// `Bytes::from(Vec<u8>)`: the buffer takes over the vector and holds exactly
/// its bytes, in the same order.
#[verifier::external_body]
fn bytes_from_vec(v: Vec<u8>) -> (b: Bytes)
    ensures
        bytes_content(b) == v@,
{
    Bytes::from(v)
}

/// `Bytes::new()`: a buffer that holds no bytes.
#[verifier::external_body]
fn bytes_new() -> (b: Bytes)
    ensures
        bytes_content(b) == Seq::<u8>::empty(),
{
    Bytes::new()
}

/// A payload of `size` bytes, each equal to `fill`.
pub open spec fn uniform(fill: u8, size: nat) -> Seq<u8> {
    Seq::new(size, |i: int| fill)
}

/// Builds a payload of `size` bytes, each equal to `fill`.
pub fn uniform_payload(fill: u8, size: usize) -> (v: Vec<u8>)
    ensures
        v@ == uniform(fill, size as nat),
{
    let mut v: Vec<u8> = Vec::new();
    let mut i: usize = 0;
    while i < size
        invariant
            i <= size,
            v@ == uniform(fill, i as nat),
        decreases size - i,
    {
        v.push(fill);
        i = i + 1;
        assert(v@ =~= uniform(fill, i as nat));
    }
    v
}

/// The packet that the sender writes to each stream.
pub fn packet_payload() -> (v: Vec<u8>)
    ensures
        v@ == uniform(PACKET_FILL, PACKET_SIZE as nat),
{
    uniform_payload(PACKET_FILL, PACKET_SIZE)
}

/// A datagram of `size` bytes, each equal to `fill`.
pub fn uniform_datagram(fill: u8, size: usize) -> (b: Bytes)
    ensures
        bytes_content(b) == uniform(fill, size as nat),
{
    bytes_from_vec(uniform_payload(fill, size))
}

/// The acknowledgment that answers one drained stream, ready to be handed to
/// the datagram channel.
pub fn ack_datagram() -> (b: Bytes)
    ensures
        bytes_content(b) == uniform(ACK_FILL, PACKET_SIZE as nat),
{
    uniform_datagram(ACK_FILL, PACKET_SIZE)
}

/// The empty chunk buffers that the reads of one stream rotate through.
pub fn chunk_buffers() -> (bufs: Vec<Bytes>)
    ensures
        bufs@.len() == CHUNK_SLOTS,
        forall|i: int| 0 <= i < bufs@.len() ==> bytes_content(#[trigger] bufs@[i]) == Seq::<u8>::empty(),
{
    let mut bufs: Vec<Bytes> = Vec::new();
    let mut i: usize = 0;
    while i < CHUNK_SLOTS
        invariant
            i <= CHUNK_SLOTS,
            bufs@.len() == i,
            forall|j: int| 0 <= j < bufs@.len() ==> bytes_content(#[trigger] bufs@[j]) == Seq::<u8>::empty(),
        decreases CHUNK_SLOTS - i,
    {
        bufs.push(bytes_new());
        i = i + 1;
    }
    bufs
}

/// The number of chunk buffers that hold data after a read that reported
/// `reported` chunks: never more than there are buffers.
pub fn usable_chunks(reported: usize) -> (n: usize)
    ensures
        n == if reported <= CHUNK_SLOTS { reported } else { CHUNK_SLOTS },
{
    if reported <= CHUNK_SLOTS {
        reported
    } else {
        CHUNK_SLOTS
    }
}

} // verus!
