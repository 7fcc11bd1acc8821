//! Byte-exact binary mesh serialization.
//!
//! The artifact is the standard binary triangle-mesh layout consumed by
//! 3D-printing tooling: an 80-byte zero-filled header, a 4-byte
//! little-endian unsigned triangle count, then one 50-byte record per
//! triangle — twelve little-endian 32-bit words (face normal, then the
//! three vertices in winding order, one word per coordinate) followed by a
//! two-byte attribute field left zero. Coordinates arrive here as the raw
//! bit patterns of their single-precision values, so the byte layout is
//! fully specified and proved without any floating-point arithmetic.

use vstd::prelude::*;

verus! {

/// One vector of the record, each coordinate as the bit pattern of its
/// single-precision value.
#[derive(Clone, Copy, Debug, PartialEq, Eq, Structural)]
pub struct VectorBits {
    pub x: u32,
    pub y: u32,
    pub z: u32,
}

/// One triangle of the artifact: face normal and the three vertices in
/// winding order.
#[derive(Clone, Copy, Debug, PartialEq, Eq, Structural)]
pub struct TriangleBits {
    pub normal: VectorBits,
    pub v0: VectorBits,
    pub v1: VectorBits,
    pub v2: VectorBits,
}

/// The four bytes of a 32-bit word, least significant first.
pub open spec fn le_word_bytes(word: u32) -> Seq<u8> {
    seq![
        (word & 0xff) as u8,
        ((word >> 8) & 0xff) as u8,
        ((word >> 16) & 0xff) as u8,
        ((word >> 24) & 0xff) as u8,
    ]
}

/// The twelve bytes of one vector.
pub open spec fn vector_bytes(v: VectorBits) -> Seq<u8> {
    le_word_bytes(v.x) + le_word_bytes(v.y) + le_word_bytes(v.z)
}

/// The 50 bytes of one triangle record.
pub open spec fn triangle_record_bytes(t: TriangleBits) -> Seq<u8> {
    vector_bytes(t.normal) + vector_bytes(t.v0) + vector_bytes(t.v1) + vector_bytes(t.v2) + seq![
        0u8,
        0u8,
    ]
}

/// The records of all triangles, in order.
pub open spec fn records_bytes(ts: Seq<TriangleBits>) -> Seq<u8>
    decreases ts.len(),
{
    if ts.len() == 0 {
        Seq::empty()
    } else {
        records_bytes(ts.drop_last()) + triangle_record_bytes(ts.last())
    }
}

/// The complete artifact: zero-filled header, little-endian count, records.
pub open spec fn stl_bytes(ts: Seq<TriangleBits>) -> Seq<u8> {
    Seq::new(80, |i: int| 0u8) + le_word_bytes(ts.len() as u32) + records_bytes(ts)
}

pub proof fn lemma_records_bytes_len(ts: Seq<TriangleBits>)
    ensures
        records_bytes(ts).len() == 50 * ts.len(),
    decreases ts.len(),
{
    if ts.len() > 0 {
        lemma_records_bytes_len(ts.drop_last());
    }
}

/// Append the four little-endian bytes of one 32-bit word.
fn push_le_word(r: &mut Vec<u8>, word: u32)
    ensures
        final(r)@ == old(r)@ + le_word_bytes(word),
{
    r.push((word & 0xff) as u8);
    r.push(((word >> 8) & 0xff) as u8);
    r.push(((word >> 16) & 0xff) as u8);
    r.push(((word >> 24) & 0xff) as u8);
    proof {
        assert(r@ =~= old(r)@ + le_word_bytes(word));
    }
}

/// Append the twelve bytes of one vector.
fn push_vector(r: &mut Vec<u8>, v: VectorBits)
    ensures
        final(r)@ == old(r)@ + vector_bytes(v),
{
    push_le_word(r, v.x);
    push_le_word(r, v.y);
    push_le_word(r, v.z);
    proof {
        assert(r@ =~= old(r)@ + vector_bytes(v));
    }
}

/// Serialize a triangle list as the binary mesh artifact, byte for byte:
/// 80 zero header bytes, the 4-byte little-endian triangle count, then the
/// 50-byte record of each triangle in list order.
pub fn stl_binary(triangles: &Vec<TriangleBits>) -> (r: Vec<u8>)
    requires
        triangles@.len() <= u32::MAX,
        84 + 50 * triangles@.len() <= usize::MAX,
    ensures
        r@ == stl_bytes(triangles@),
        r@.len() == 84 + 50 * triangles@.len(),
{
    let mut r: Vec<u8> = Vec::new();
    let mut i: usize = 0;
    while i < 80
        invariant
            i <= 80,
            r@.len() == i,
            forall|j: int| 0 <= j < i ==> r@[j] == 0u8,
        decreases 80 - i,
    {
        r.push(0u8);
        i = i + 1;
    }
    proof {
        assert(r@ =~= Seq::new(80, |j: int| 0u8));
    }
    let ghost header_and_count: Seq<u8> = Seq::new(80, |j: int| 0u8) + le_word_bytes(
        triangles@.len() as u32,
    );
    push_le_word(&mut r, triangles.len() as u32);
    let mut t: usize = 0;
    while t < triangles.len()
        invariant
            t <= triangles@.len(),
            header_and_count == Seq::new(80, |j: int| 0u8) + le_word_bytes(
                triangles@.len() as u32,
            ),
            r@ == header_and_count + records_bytes(triangles@.take(t as int)),
            r@.len() == 84 + 50 * t,
        decreases triangles@.len() - t,
    {
        let tri = triangles[t];
        let ghost r_before: Seq<u8> = r@;
        push_vector(&mut r, tri.normal);
        push_vector(&mut r, tri.v0);
        push_vector(&mut r, tri.v1);
        push_vector(&mut r, tri.v2);
        r.push(0u8);
        r.push(0u8);
        proof {
            assert(r@ =~= r_before + triangle_record_bytes(triangles@[t as int]));
            let taken = triangles@.take(t as int + 1);
            assert(taken.drop_last() =~= triangles@.take(t as int));
            assert(taken.last() == triangles@[t as int]);
            assert(r@ =~= header_and_count + records_bytes(taken));
        }
        t = t + 1;
    }
    proof {
        assert(triangles@.take(triangles@.len() as int) =~= triangles@);
        lemma_records_bytes_len(triangles@);
        assert(r@ =~= stl_bytes(triangles@));
    }
    r
}

} // verus!
