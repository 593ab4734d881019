//! The wire format between the daemon and its clients: each message is its
//! length as four big-endian bytes, then the message.

use vstd::prelude::*;

verus! {

/// The four big-endian bytes of `n`.
pub open spec fn be_bytes(n: u32) -> Seq<u8> {
    seq![(n / 16777216) as u8, ((n / 65536) % 256) as u8, ((n / 256) % 256) as u8, (n % 256) as u8]
}

/// The number that four big-endian bytes hold.
pub open spec fn be_value(b0: u8, b1: u8, b2: u8, b3: u8) -> int {
    b0 * 16777216 + b1 * 65536 + b2 * 256 + b3
}

/// The frame of a message: its length (modulo 2^32, as the `u32` cast
/// keeps it) as four big-endian bytes, then the message.
pub open spec fn framed(payload: Seq<u8>) -> Seq<u8> {
    be_bytes(payload.len() as u32) + payload
}

/// Frames a message for the socket.
pub fn frame(payload: &[u8]) -> (res: Vec<u8>)
    ensures
        res@ == framed(payload@),
{
    let n = payload.len() as u32;
    let mut res: Vec<u8> = Vec::new();
    res.push((n / 16777216) as u8);
    res.push(((n / 65536) % 256) as u8);
    res.push(((n / 256) % 256) as u8);
    res.push((n % 256) as u8);
    let ghost head = res@;
    for i in 0..payload.len()
        invariant
            head == be_bytes(n),
            res@ == head + payload@.take(i as int),
    {
        assert(payload@.take(i + 1) =~= payload@.take(i as int).push(payload@[i as int]));
        res.push(payload[i]);
        assert(res@ =~= head + payload@.take(i + 1));
    }
    assert(payload@.take(payload@.len() as int) =~= payload@);
    res
}

/// The message length that a frame's four header bytes announce.
pub fn frame_len(header: [u8; 4]) -> (res: u32)
    ensures
        res == be_value(header[0], header[1], header[2], header[3]),
{
    (header[0] as u32) * 16777216 + (header[1] as u32) * 65536 + (header[2] as u32) * 256
        + (header[3] as u32)
}

/// Reading a frame's header gives back the length it was written with (for
/// messages shorter than 2^32 bytes), and the message follows it.
pub proof fn law_frame_round_trip(payload: Seq<u8>)
    requires
        payload.len() <= u32::MAX,
    ensures
        framed(payload).len() == 4 + payload.len(),
        be_value(framed(payload)[0], framed(payload)[1], framed(payload)[2], framed(payload)[3])
            == payload.len(),
        framed(payload).skip(4) == payload,
{
    let n = payload.len() as u32;
    assert(n == payload.len());
    let f = framed(payload);
    assert(f.skip(4) =~= payload);
    assert(((n / 16777216) as u8) as int * 16777216 + (((n / 65536) % 256) as u8) as int * 65536
        + (((n / 256) % 256) as u8) as int * 256 + ((n % 256) as u8) as int == n as int) by (bit_vector);
}

} // verus!
