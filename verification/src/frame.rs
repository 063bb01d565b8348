//! The wire envelope: `[1-byte packet id][payload bytes]`.
//!
//! Assembling and splitting the envelope, and checking the id against the
//! catalog the connection's phase selects, are done here; what the payload
//! bytes mean is the business of the payload codec outside this library.
use crate::conn::ConnState;
use crate::packets::request_catalog_has;
use vstd::prelude::*;

verus! {

/// The frame carrying `payload` under the tag byte `id`.
pub fn encode_frame(id: u8, payload: &Vec<u8>) -> (r: Vec<u8>)
    ensures
        r@ == seq![id] + payload@,
{
    let mut buf: Vec<u8> = Vec::new();
    buf.push(id);
    let mut i: usize = 0;
    while i < payload.len()
        invariant
            i <= payload@.len(),
            buf@ == seq![id] + payload@.take(i as int),
        decreases payload@.len() - i,
    {
        buf.push(payload[i]);
        i = i + 1;
        proof {
            assert(payload@.take(i as int) == payload@.take(i - 1) + seq![payload@[i - 1]]);
        }
    }
    proof {
        assert(payload@.take(payload@.len() as int) == payload@);
    }
    buf
}

/// Split a frame into its tag byte and payload.  The empty frame is a
/// decode failure; any other frame splits after its first byte.
pub fn decode_frame(buf: &Vec<u8>) -> (r: Option<(u8, Vec<u8>)>)
    ensures
        buf@.len() == 0 ==> r is None,
        buf@.len() > 0 ==> r is Some && r->Some_0.0 == buf@[0] && r->Some_0.1@ == buf@.skip(1),
{
    if buf.len() == 0 {
        return None;
    }
    let id = buf[0];
    let mut payload: Vec<u8> = Vec::new();
    let mut i: usize = 1;
    while i < buf.len()
        invariant
            1 <= i <= buf@.len(),
            payload@ == buf@.subrange(1, i as int),
        decreases buf@.len() - i,
    {
        payload.push(buf[i]);
        i = i + 1;
        proof {
            assert(buf@.subrange(1, i as int) == buf@.subrange(1, i - 1) + seq![buf@[i - 1]]);
        }
    }
    proof {
        assert(buf@.subrange(1, buf@.len() as int) == buf@.skip(1));
    }
    Some((id, payload))
}

/// Split an incoming frame and check its tag against the catalog that
/// `phase` selects.  A zero-length frame, and a frame whose id is not in the
/// current phase's catalog, always yield a decode failure; the caller treats
/// that failure as fatal for the connection.
pub fn decode_request_frame(phase: ConnState, buf: &Vec<u8>) -> (r: Option<(u8, Vec<u8>)>)
    ensures
        r is Some <==> buf@.len() > 0 && request_catalog_has(phase, buf@[0]),
        r is Some ==> r->Some_0.0 == buf@[0] && r->Some_0.1@ == buf@.skip(1),
{
    let decoded = decode_frame(buf);
    match decoded {
        None => None,
        Some((id, payload)) => {
            let in_catalog = match phase {
                ConnState::Login => id == 0,
                ConnState::Lobby => id == 0 || id == 1,
                ConnState::Room => id == 0,
                ConnState::Game => false,
            };
            if in_catalog {
                Some((id, payload))
            } else {
                None
            }
        },
    }
}

/// Splitting a frame assembled from `id` and `payload` gives `id` and
/// `payload` back.
pub proof fn lemma_frame_round_trip(id: u8, payload: Seq<u8>)
    ensures
        (seq![id] + payload).len() > 0,
        (seq![id] + payload)[0] == id,
        (seq![id] + payload).skip(1) == payload,
{
    assert((seq![id] + payload).skip(1) =~= payload);
}

} // verus!
