//! Locating the physical-density descriptor inside a produced container
//! stream: walks the chunk sequence and returns the data of the first
//! physical-density chunk.

use vstd::prelude::*;
use crate::density::be32_value;

verus! {

/// The container signature: the eight fixed bytes that begin every stream.
pub open spec fn signature_bytes() -> Seq<u8> {
    seq![137u8, 80u8, 78u8, 71u8, 13u8, 10u8, 26u8, 10u8]
}

/// The four type bytes of the physical-density chunk stand at `i` in `b`.
pub open spec fn phys_type_at(b: Seq<u8>, i: int) -> bool {
    b[i] == 112 && b[i + 1] == 72 && b[i + 2] == 89 && b[i + 3] == 115
}

/// Scans the chunk sequence of `b` from `i`. Each chunk is a big-endian
/// 4-byte data length, four type bytes, the data, and a 4-byte checksum.
/// Yields the data of the first physical-density chunk, or `None` when the
/// stream ends, or breaks off, before one occurs.
pub open spec fn phys_scan(b: Seq<u8>, i: int) -> Option<Seq<u8>>
    decreases b.len() - i,
{
    if i < 0 || i + 8 > b.len() {
        None
    } else {
        let len = be32_value(b[i], b[i + 1], b[i + 2], b[i + 3]) as int;
        if i + 12 + len > b.len() {
            None
        } else if phys_type_at(b, i + 4) {
            Some(b.subrange(i + 8, i + 8 + len))
        } else {
            phys_scan(b, i + 12 + len)
        }
    }
}

/// The physical-density descriptor embedded in a container stream: the data
/// of the first physical-density chunk after the signature.
pub open spec fn density_chunk_of(b: Seq<u8>) -> Option<Seq<u8>> {
    if b.len() < 8 || b.subrange(0, 8) != signature_bytes() {
        None
    } else {
        phys_scan(b, 8)
    }
}

/// Finds the physical-density descriptor in a container stream: exactly the
/// data bytes of the first physical-density chunk, `None` when the stream
/// carries none or is not well formed up to that point.
pub fn find_density_chunk(b: &Vec<u8>) -> (r: Option<Vec<u8>>)
    ensures
        match r {
            Some(v) => density_chunk_of(b@) == Some(v@),
            None => density_chunk_of(b@) is None,
        },
{
    let n = b.len();
    if n < 8 {
        return None;
    }
    if !(b[0] == 137 && b[1] == 80 && b[2] == 78 && b[3] == 71 && b[4] == 13 && b[5] == 10 && b[6]
        == 26 && b[7] == 10) {
        proof {
            assert(b@.subrange(0, 8) != signature_bytes()) by {
                assert(forall|k: int| 0 <= k < 8 ==> b@.subrange(0, 8)[k] == b@[k]);
            }
        }
        return None;
    }
    proof {
        assert(b@.subrange(0, 8) =~= signature_bytes());
    }
    let mut i: usize = 8;
    loop
        invariant
            8 <= i <= n == b.len(),
            phys_scan(b@, 8) == phys_scan(b@, i as int),
            b@.subrange(0, 8) == signature_bytes(),
        decreases n - i,
    {
        if n - i < 8 {
            return None;
        }
        let clen = ((b[i] as u32) << 24) | ((b[i + 1] as u32) << 16) | ((b[i + 2] as u32) << 8) | (
        b[i + 3] as u32);
        let remaining = n - i - 8;
        if remaining < 4 || clen as usize > remaining - 4 {
            return None;
        }
        if b[i + 4] == 112 && b[i + 5] == 72 && b[i + 6] == 89 && b[i + 7] == 115 {
            let start = i + 8;
            let end = start + clen as usize;
            let mut out: Vec<u8> = Vec::new();
            let mut j: usize = start;
            while j < end
                invariant
                    start <= j <= end <= b.len(),
                    out@ =~= b@.subrange(start as int, j as int),
                decreases end - j,
            {
                out.push(b[j]);
                proof {
                    assert(out@ =~= b@.subrange(start as int, j as int + 1));
                }
                j = j + 1;
            }
            proof {
                assert(out@ =~= b@.subrange(i as int + 8, i as int + 8 + clen));
            }
            return Some(out);
        }
        proof {
            assert(!phys_type_at(b@, i as int + 4));
        }
        i = i + 12 + clen as usize;
    }
}

} // verus!
