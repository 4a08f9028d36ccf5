//! Big-endian byte packing for the texture blob header.

use vstd::prelude::*;

verus! {

/// The big-endian bytes of a 32-bit value, most significant first.
pub open spec fn be_bytes_of(v: u32) -> Seq<u8> {
    seq![
        (v >> 24) as u8,
        ((v >> 16) & 0xff) as u8,
        ((v >> 8) & 0xff) as u8,
        (v & 0xff) as u8,
    ]
}

/// The 32-bit value read from four big-endian bytes.
pub open spec fn u32_of_be(b0: u8, b1: u8, b2: u8, b3: u8) -> u32 {
    (((b0 as u32) << 24) + ((b1 as u32) << 16) + ((b2 as u32) << 8) + (b3 as u32)) as u32
}

/// Splits a 32-bit value into its four big-endian bytes.
pub fn u32_to_u8_vec(value: u32) -> (out: Vec<u8>)
    ensures
        out@ == be_bytes_of(value),
{
    let a: u8 = ((value >> 24) & 0xff) as u8;
    let b: u8 = ((value >> 16) & 0xff) as u8;
    let c: u8 = ((value >> 8) & 0xff) as u8;
    let d: u8 = (value & 0xff) as u8;

    let mut out: Vec<u8> = Vec::new();
    out.push(a);
    out.push(b);
    out.push(c);
    out.push(d);

    proof {
        assert((value >> 24) & 0xff == value >> 24) by (bit_vector);
        assert(out@ =~= be_bytes_of(value));
    }
    return out;
}

/// Reads a 32-bit value from the first four bytes of a slice, most
/// significant first.
pub fn load_4byte_to_u32(bytes: &[u8]) -> (out: u32)
    requires
        bytes@.len() >= 4,
    ensures
        out == u32_of_be(bytes@[0], bytes@[1], bytes@[2], bytes@[3]),
{
    let b0 = bytes[0];
    let b1 = bytes[1];
    let b2 = bytes[2];
    let b3 = bytes[3];
    proof {
        assert(((b0 as u32) << 24) + ((b1 as u32) << 16) + ((b2 as u32) << 8) + (b3 as u32)
            <= 0xffff_ffffu32) by (bit_vector);
    }
    let out_value: u32 = ((b0 as u32) << 24) + ((b1 as u32) << 16) + ((b2 as u32) << 8) + (
    b3 as u32);
    return out_value;
}

/// Decoding undoes encoding: the four big-endian bytes of a value read
/// back as that value.
pub proof fn lemma_be_round_trip(v: u32)
    ensures
        u32_of_be(
            be_bytes_of(v)[0],
            be_bytes_of(v)[1],
            be_bytes_of(v)[2],
            be_bytes_of(v)[3],
        ) == v,
{
    assert(((((v >> 24) as u8) as u32) << 24) + (((((v >> 16) & 0xff) as u8) as u32) << 16) + ((((
    (v >> 8) & 0xff) as u8) as u32) << 8) + (((v & 0xff) as u8) as u32) == v) by (bit_vector);
}

/// Packs an image into the texture blob format: four big-endian bytes of
/// width, four of height, then the raw RGBA data.
#[verifier::loop_isolation(false)]
pub fn encode_rgba_blob(width: u32, height: u32, rgba: &Vec<u8>) -> (out: Vec<u8>)
    ensures
        out@ == be_bytes_of(width) + be_bytes_of(height) + rgba@,
{
    let mut out = u32_to_u8_vec(width);
    let mut height_bytes = u32_to_u8_vec(height);
    out.append(&mut height_bytes);
    let n = rgba.len();
    let mut i: usize = 0;
    while i < n
        invariant
            n == rgba@.len(),
            i <= n,
            out@ == be_bytes_of(width) + be_bytes_of(height) + rgba@.take(i as int),
        decreases n - i,
    {
        out.push(rgba[i]);
        proof {
            assert(be_bytes_of(width) + be_bytes_of(height) + rgba@.take(i as int + 1) =~= (
            be_bytes_of(width) + be_bytes_of(height) + rgba@.take(i as int)).push(
                rgba@[i as int],
            ));
        }
        i = i + 1;
    }
    proof {
        assert(rgba@.take(n as int) =~= rgba@);
    }
    out
}

/// Unpacks a texture blob: the width and height read from the eight header
/// bytes, and the RGBA data after them. Succeeds exactly when the header
/// is present.
#[verifier::loop_isolation(false)]
pub fn parse_rgba_blob(blob: &Vec<u8>) -> (r: Option<(u32, u32, Vec<u8>)>)
    ensures
        r is Some <==> blob@.len() >= 8,
        r is Some ==> {
            &&& (r->Some_0).0 == u32_of_be(blob@[0], blob@[1], blob@[2], blob@[3])
            &&& (r->Some_0).1 == u32_of_be(blob@[4], blob@[5], blob@[6], blob@[7])
            &&& (r->Some_0).2@ == blob@.skip(8)
        },
{
    let n = blob.len();
    if n < 8 {
        return Option::None;
    }
    let s = blob.as_slice();
    let width = load_4byte_to_u32(&s[0..4]);
    let height = load_4byte_to_u32(&s[4..8]);
    let mut data: Vec<u8> = Vec::new();
    let mut i: usize = 8;
    while i < n
        invariant
            n == blob@.len(),
            8 <= i <= n,
            data@ == blob@.subrange(8, i as int),
        decreases n - i,
    {
        data.push(blob[i]);
        proof {
            assert(blob@.subrange(8, i as int + 1) =~= blob@.subrange(8, i as int).push(
                blob@[i as int],
            ));
        }
        i = i + 1;
    }
    proof {
        assert(blob@.subrange(8, n as int) =~= blob@.skip(8));
    }
    Option::Some((width, height, data))
}

/// Unpacking undoes packing: a blob built from a size and data hands the
/// same size and data back.
pub proof fn lemma_blob_round_trip(width: u32, height: u32, rgba: Seq<u8>)
    ensures
        ({
            let blob = be_bytes_of(width) + be_bytes_of(height) + rgba;
            &&& blob.len() >= 8
            &&& u32_of_be(blob[0], blob[1], blob[2], blob[3]) == width
            &&& u32_of_be(blob[4], blob[5], blob[6], blob[7]) == height
            &&& blob.skip(8) =~= rgba
        }),
{
    let blob = be_bytes_of(width) + be_bytes_of(height) + rgba;
    assert(blob[0] == be_bytes_of(width)[0]);
    assert(blob[1] == be_bytes_of(width)[1]);
    assert(blob[2] == be_bytes_of(width)[2]);
    assert(blob[3] == be_bytes_of(width)[3]);
    assert(blob[4] == be_bytes_of(height)[0]);
    assert(blob[5] == be_bytes_of(height)[1]);
    assert(blob[6] == be_bytes_of(height)[2]);
    assert(blob[7] == be_bytes_of(height)[3]);
    lemma_be_round_trip(width);
    lemma_be_round_trip(height);
}

} // verus!
