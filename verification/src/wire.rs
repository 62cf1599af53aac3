//! The wire format used for every payload that crosses the host/guest
//! boundary: a 4-byte little-endian unsigned length prefix immediately
//! followed by exactly that many raw payload bytes; no padding, no checksum,
//! no versioning.

use vstd::prelude::*;
use vstd::bytes::*;

verus! {

/// The wire encoding of a payload: its length as a 4-byte little-endian
/// header, then the payload bytes themselves.
pub open spec fn wire_encoding(payload: Seq<u8>) -> Seq<u8> {
    spec_u32_to_le_bytes(payload.len() as u32) + payload
}

/// The length header stored at `base` in `mem`, decoded as little-endian.
pub open spec fn header_at(mem: Seq<u8>, base: int) -> u32 {
    spec_u32_from_le_bytes(mem.subrange(base, base + 4))
}

/// True when `mem` holds, starting at `base`, the wire encoding of `payload`.
pub open spec fn wire_at(mem: Seq<u8>, base: int, payload: Seq<u8>) -> bool {
    &&& 0 <= base
    &&& payload.len() <= u32::MAX - 4
    &&& base + 4 + payload.len() <= mem.len()
    &&& mem.subrange(base, base + 4 + payload.len() as int) == wire_encoding(payload)
}

/// Round trip of the wire format: wherever a payload was written in its wire
/// encoding, decoding the header recovers the payload's exact length, and the
/// bytes that follow the header are the payload itself.
pub proof fn lemma_wire_round_trip(mem: Seq<u8>, base: int, payload: Seq<u8>)
    requires
        wire_at(mem, base, payload),
    ensures
        header_at(mem, base) == payload.len(),
        mem.subrange(base + 4, base + 4 + payload.len() as int) == payload,
{
    lemma_auto_spec_u32_to_from_le_bytes();
    let enc = wire_encoding(payload);
    let all = mem.subrange(base, base + 4 + payload.len() as int);
    assert(mem.subrange(base, base + 4) =~= all.subrange(0, 4));
    assert(all.subrange(0, 4) =~= spec_u32_to_le_bytes(payload.len() as u32));
    assert(mem.subrange(base + 4, base + 4 + payload.len() as int) =~= all.subrange(
        4,
        4 + payload.len() as int,
    ));
    assert(all.subrange(4, 4 + payload.len() as int) =~= payload);
}

/// Builds the wire encoding of `payload`: the 4-byte little-endian length
/// header followed by the payload bytes.
pub fn encode(payload: &[u8]) -> (r: Vec<u8>)
    requires
        payload@.len() <= u32::MAX - 4,
    ensures
        r@ == wire_encoding(payload@),
        r@.len() == payload@.len() + 4,
{
    let mut out: Vec<u8> = u32_to_le_bytes(payload.len() as u32);
    let mut i: usize = 0;
    while i < payload.len()
        invariant
            i <= payload@.len(),
            payload@.len() <= u32::MAX - 4,
            out@ == spec_u32_to_le_bytes(payload@.len() as u32) + payload@.subrange(0, i as int),
        decreases payload@.len() - i,
    {
        out.push(payload[i]);
        i = i + 1;
        proof {
            assert(payload@.subrange(0, i as int) =~= payload@.subrange(0, i - 1) + seq![
                payload@[i - 1],
            ]);
        }
    }
    proof {
        lemma_auto_spec_u32_to_from_le_bytes();
        assert(payload@.subrange(0, payload@.len() as int) =~= payload@);
        assert(out@ =~= wire_encoding(payload@));
    }
    out
}

} // verus!
