//! Per-dex parameter blobs. A hop carries an opaque byte blob that only the
//! venue matching the hop's dex identifier reads; for the constant-product
//! venue it names the swap fee and whether the stable pool of the pair is
//! addressed. Three encodings circulate: a 3-byte form (big-endian 16-bit fee
//! and a stability flag), a 9-byte form (little-endian 64-bit fee and the
//! flag), and a 35-byte form that appends a 32-byte pool-address override to
//! the 3-byte form.

use vstd::prelude::*;

verus! {

/// The dex identifier of the constant-product venue.
pub const MIRA_DEX_ID: u64 = 0;

/// The fee named by a 3- or 35-byte blob: big-endian 16-bit value.
pub open spec fn be16(b0: u8, b1: u8) -> int {
    b0 * 0x100 + b1
}

/// The fee named by a 9-byte blob: little-endian 64-bit value.
pub open spec fn le64(b: Seq<u8>) -> int {
    b[0] + b[1] * 0x100 + b[2] * 0x1_0000 + b[3] * 0x100_0000 + b[4] * 0x1_0000_0000 + b[5]
        * 0x100_0000_0000 + b[6] * 0x1_0000_0000_0000 + b[7] * 0x100_0000_0000_0000
}

/// What a parameter blob says: the fee and the stability flag, or nothing if
/// the blob has an unknown length or a flag byte that is neither 0 nor 1.
pub open spec fn decoded_fee(params: Seq<u8>) -> Option<(u64, bool)> {
    if params.len() == 3 || params.len() == 35 {
        if params[2] == 0 || params[2] == 1 {
            Some((be16(params[0], params[1]) as u64, params[2] == 1))
        } else {
            None
        }
    } else if params.len() == 9 {
        if params[8] == 0 || params[8] == 1 {
            Some((le64(params) as u64, params[8] == 1))
        } else {
            None
        }
    } else {
        None
    }
}

/// Encodes the 3-byte blob: big-endian 16-bit fee, then the stability flag.
/// A fee above 16 bits is truncated, as the venue's own encoder does.
pub fn encode_mira_params(fee: u64, is_stable: bool) -> (r: Vec<u8>)
    ensures
        r@.len() == 3,
        r@[0] == ((fee as u16) / 0x100) as u8,
        r@[1] == ((fee as u16) % 0x100) as u8,
        r@[2] == (if is_stable { 1u8 } else { 0u8 }),
        decoded_fee(r@) == Some((((fee as u16) as u64, is_stable))),
{
    let f: u16 = fee as u16;
    let flag: u8 = if is_stable { 1 } else { 0 };
    let r: Vec<u8> = vec![(f / 0x100) as u8, (f % 0x100) as u8, flag];
    proof {
        assert(be16(r@[0], r@[1]) == f as int);
    }
    r
}

/// Encodes the 35-byte blob: the 3-byte form followed by a 32-byte
/// pool-address override, copied verbatim.
pub fn encode_mira_params_with_dex_address(fee: u64, is_stable: bool, address: &[u8; 32]) -> (r:
    Vec<u8>)
    ensures
        r@.len() == 35,
        r@.subrange(0, 3) == encoded_head(fee, is_stable),
        r@.subrange(3, 35) == address@,
        decoded_fee(r@) == Some((((fee as u16) as u64, is_stable))),
{
    let f: u16 = fee as u16;
    let flag: u8 = if is_stable { 1 } else { 0 };
    let mut r: Vec<u8> = vec![(f / 0x100) as u8, (f % 0x100) as u8, flag];
    let mut i: usize = 0;
    while i < 32
        invariant
            i <= 32,
            r@.len() == 3 + i,
            r@[0] == ((fee as u16) / 0x100) as u8,
            r@[1] == ((fee as u16) % 0x100) as u8,
            r@[2] == (if is_stable { 1u8 } else { 0u8 }),
            r@.subrange(3, 3 + i as int) == address@.subrange(0, i as int),
        decreases 32 - i,
    {
        let b: u8 = address[i];
        r.push(b);
        proof {
            assert(r@.subrange(3, 3 + i + 1) =~= r@.subrange(3, 3 + i).push(r@[3 + i]));
            assert(r@.subrange(3, 3 + i).push(r@[3 + i]) =~= address@.subrange(0, i + 1));
        }
        i = i + 1;
    }
    proof {
        assert(r@.subrange(3, 35) =~= address@.subrange(0, 32));
        assert(address@.subrange(0, 32) =~= address@);
        assert(r@.subrange(0, 3) =~= encoded_head(fee, is_stable));
        assert(be16(r@[0], r@[1]) == (fee as u16) as int);
    }
    r
}

/// The 3-byte head every encoder writes: big-endian fee, then the flag.
pub open spec fn encoded_head(fee: u64, is_stable: bool) -> Seq<u8> {
    seq![
        ((fee as u16) / 0x100) as u8,
        ((fee as u16) % 0x100) as u8,
        if is_stable { 1u8 } else { 0u8 },
    ]
}

/// Decodes a parameter blob into its fee and stability flag.
pub fn decode_mira_params(params: &Vec<u8>) -> (r: Option<(u64, bool)>)
    ensures
        r == decoded_fee(params@),
{
    let n = params.len();
    if n == 3 || n == 35 {
        let flag = params[2];
        if flag == 0 || flag == 1 {
            let fee: u64 = (params[0] as u64) * 0x100 + (params[1] as u64);
            Some((fee, flag == 1))
        } else {
            None
        }
    } else if n == 9 {
        let flag = params[8];
        if flag == 0 || flag == 1 {
            let fee: u64 = (params[0] as u64) + (params[1] as u64) * 0x100 + (params[2] as u64)
                * 0x1_0000 + (params[3] as u64) * 0x100_0000 + (params[4] as u64) * 0x1_0000_0000
                + (params[5] as u64) * 0x100_0000_0000 + (params[6] as u64) * 0x1_0000_0000_0000 + (
            params[7] as u64) * 0x100_0000_0000_0000;
            Some((fee, flag == 1))
        } else {
            None
        }
    } else {
        None
    }
}

} // verus!
