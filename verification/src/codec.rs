//! The binary wire codec of the protocol.
//!
//! A message body is the canonical binary serialization of
//! [`TrackingMessage`]: little-endian integers, `u64`-length-prefixed
//! sequences and strings, a `u32` tag in front of enum variants, a one-byte
//! tag in front of optional values. A wire frame wraps one body in a header:
//!
//! ```text
//! +--------+--------+--------+
//! | u64 LE | u32 LE | bytes  |
//! | fprint | size   | body   |
//! +--------+--------+--------+
//! ```
//!
//! where `fprint` is the structural fingerprint of the message type and
//! `size` the exact body length. A recording is a flat concatenation of
//! records, each an 8-byte little-endian microsecond inter-arrival delay
//! followed by one frame.
//!
//! Every encoder has a spec mirror (`enc_*`), every decoder one (`dec_*`)
//! working on a byte sequence and a cursor, and the two are proved inverse:
//! see [`lemma_message_round_trip`], [`lemma_frame_round_trip`] and
//! [`lemma_record_round_trip`].

use vstd::prelude::*;
use vstd::bytes::{
    spec_u16_to_le_bytes, spec_u16_from_le_bytes, lemma_auto_spec_u16_to_from_le_bytes,
    spec_u32_to_le_bytes, spec_u32_from_le_bytes, lemma_auto_spec_u32_to_from_le_bytes,
    spec_u64_to_le_bytes, spec_u64_from_le_bytes, lemma_auto_spec_u64_to_from_le_bytes,
    u16_to_le_bytes, u16_from_le_bytes, u32_to_le_bytes, u32_from_le_bytes, u64_to_le_bytes,
    u64_from_le_bytes,
};
use vstd::slice::{slice_subrange, slice_to_vec};
use vstd::utf8::{encode_utf8, decode_utf8, valid_utf8, encode_utf8_valid_utf8, encode_utf8_decode_utf8, decode_utf8_encode_utf8};
use crate::data::{
    Eye, FaceData, Image, Mesh, PersistentId, SpecEye, SpecFaceData, SpecImage, SpecMesh,
    SpecPersistentId, SpecTrackingMessage, TrackingMessage, Vec2Bits, Vec3Bits, Vertex, QuatBits,
    wf_eye, wf_face, wf_image, wf_mesh, wf_message, wf_persistent_id,
};

verus! {

/// Encoding of a `u16`: two bytes, little-endian.
pub open spec fn enc_u16(x: u16) -> Seq<u8> {
    spec_u16_to_le_bytes(x)
}

/// Encoding of a `u32`: four bytes, little-endian.
pub open spec fn enc_u32(x: u32) -> Seq<u8> {
    spec_u32_to_le_bytes(x)
}

/// Encoding of a `u64`: eight bytes, little-endian.
pub open spec fn enc_u64(x: u64) -> Seq<u8> {
    spec_u64_to_le_bytes(x)
}

/// Decodes a `u16` at `pos`, giving the value and the cursor after it.
pub open spec fn dec_u16(b: Seq<u8>, pos: int) -> Option<(u16, int)> {
    if 0 <= pos && pos + 2 <= b.len() {
        Some((spec_u16_from_le_bytes(b.subrange(pos, pos + 2)), pos + 2))
    } else {
        None
    }
}

/// Decodes a `u32` at `pos`.
pub open spec fn dec_u32(b: Seq<u8>, pos: int) -> Option<(u32, int)> {
    if 0 <= pos && pos + 4 <= b.len() {
        Some((spec_u32_from_le_bytes(b.subrange(pos, pos + 4)), pos + 4))
    } else {
        None
    }
}

/// Decodes a `u64` at `pos`.
pub open spec fn dec_u64(b: Seq<u8>, pos: int) -> Option<(u64, int)> {
    if 0 <= pos && pos + 8 <= b.len() {
        Some((spec_u64_from_le_bytes(b.subrange(pos, pos + 8)), pos + 8))
    } else {
        None
    }
}

/// The lengths of the integer encodings and both round-trip directions, in
/// one package.
pub proof fn lemma_int_codecs()
    ensures
        forall|x: u16| (#[trigger] enc_u16(x)).len() == 2 && spec_u16_from_le_bytes(enc_u16(x)) == x,
        forall|x: u32| (#[trigger] enc_u32(x)).len() == 4 && spec_u32_from_le_bytes(enc_u32(x)) == x,
        forall|x: u64| (#[trigger] enc_u64(x)).len() == 8 && spec_u64_from_le_bytes(enc_u64(x)) == x,
{
    lemma_auto_spec_u16_to_from_le_bytes();
    lemma_auto_spec_u32_to_from_le_bytes();
    lemma_auto_spec_u64_to_from_le_bytes();
}

/// Appends the two-byte encoding of `x` to `out`.
pub fn put_u16(out: &mut Vec<u8>, x: u16)
    ensures
        final(out)@ == old(out)@ + enc_u16(x),
{
    let mut bytes = u16_to_le_bytes(x);
    out.append(&mut bytes);
}

/// Appends the four-byte encoding of `x` to `out`.
pub fn put_u32(out: &mut Vec<u8>, x: u32)
    ensures
        final(out)@ == old(out)@ + enc_u32(x),
{
    let mut bytes = u32_to_le_bytes(x);
    out.append(&mut bytes);
}

/// Appends the eight-byte encoding of `x` to `out`.
pub fn put_u64(out: &mut Vec<u8>, x: u64)
    ensures
        final(out)@ == old(out)@ + enc_u64(x),
{
    let mut bytes = u64_to_le_bytes(x);
    out.append(&mut bytes);
}

/// Reads a `u16` at the cursor, advancing it; fails when the bytes end first.
pub fn read_u16(b: &[u8], pos: &mut usize) -> (r: Option<u16>)
    ensures
        match r {
            Some(v) => dec_u16(b@, *old(pos) as int) == Some((v, *final(pos) as int)),
            None => dec_u16(b@, *old(pos) as int) is None && *final(pos) == *old(pos),
        },
{
    if *pos <= b.len() && b.len() - *pos >= 2 {
        let s = slice_subrange(b, *pos, *pos + 2);
        let v = u16_from_le_bytes(s);
        *pos = *pos + 2;
        Some(v)
    } else {
        None
    }
}

/// Reads a `u32` at the cursor, advancing it.
pub fn read_u32(b: &[u8], pos: &mut usize) -> (r: Option<u32>)
    ensures
        match r {
            Some(v) => dec_u32(b@, *old(pos) as int) == Some((v, *final(pos) as int)),
            None => dec_u32(b@, *old(pos) as int) is None && *final(pos) == *old(pos),
        },
{
    if *pos <= b.len() && b.len() - *pos >= 4 {
        let s = slice_subrange(b, *pos, *pos + 4);
        let v = u32_from_le_bytes(s);
        *pos = *pos + 4;
        Some(v)
    } else {
        None
    }
}

/// Reads a `u64` at the cursor, advancing it.
pub fn read_u64(b: &[u8], pos: &mut usize) -> (r: Option<u64>)
    ensures
        match r {
            Some(v) => dec_u64(b@, *old(pos) as int) == Some((v, *final(pos) as int)),
            None => dec_u64(b@, *old(pos) as int) is None && *final(pos) == *old(pos),
        },
{
    if *pos <= b.len() && b.len() - *pos >= 8 {
        let s = slice_subrange(b, *pos, *pos + 8);
        let v = u64_from_le_bytes(s);
        *pos = *pos + 8;
        Some(v)
    } else {
        None
    }
}

/// Splitting a known concatenation: when the bytes at `pos` are `s1 + s2`,
/// the first `s1.len()` of them are `s1` and the rest are `s2`.
pub proof fn lemma_split2(b: Seq<u8>, pos: int, s1: Seq<u8>, s2: Seq<u8>)
    requires
        0 <= pos,
        pos + s1.len() + s2.len() <= b.len(),
        b.subrange(pos, pos + s1.len() + s2.len()) == s1 + s2,
    ensures
        b.subrange(pos, pos + s1.len()) == s1,
        b.subrange(pos + s1.len(), pos + s1.len() + s2.len()) == s2,
{
    let whole = b.subrange(pos, pos + s1.len() + s2.len());
    assert(b.subrange(pos, pos + s1.len()) =~= s1) by {
        assert forall|i: int| 0 <= i < s1.len() implies b.subrange(pos, pos + s1.len())[i] == s1[i] by {
            assert(whole[i] == (s1 + s2)[i]);
        }
    }
    assert(b.subrange(pos + s1.len(), pos + s1.len() + s2.len()) =~= s2) by {
        assert forall|i: int| 0 <= i < s2.len() implies b.subrange(
            pos + s1.len(),
            pos + s1.len() + s2.len(),
        )[i] == s2[i] by {
            assert(whole[s1.len() + i] == (s1 + s2)[s1.len() + i]);
        }
    }
}

/// The `u16` codec round-trips at any position.
pub proof fn lemma_dec_enc_u16(x: u16, b: Seq<u8>, pos: int)
    requires
        0 <= pos,
        pos + 2 <= b.len(),
        b.subrange(pos, pos + 2) == enc_u16(x),
    ensures
        dec_u16(b, pos) == Some((x, pos + 2)),
{
    lemma_int_codecs();
}

/// The `u32` codec round-trips at any position.
pub proof fn lemma_dec_enc_u32(x: u32, b: Seq<u8>, pos: int)
    requires
        0 <= pos,
        pos + 4 <= b.len(),
        b.subrange(pos, pos + 4) == enc_u32(x),
    ensures
        dec_u32(b, pos) == Some((x, pos + 4)),
{
    lemma_int_codecs();
}

/// The `u64` codec round-trips at any position.
pub proof fn lemma_dec_enc_u64(x: u64, b: Seq<u8>, pos: int)
    requires
        0 <= pos,
        pos + 8 <= b.len(),
        b.subrange(pos, pos + 8) == enc_u64(x),
    ensures
        dec_u64(b, pos) == Some((x, pos + 8)),
{
    lemma_int_codecs();
}

/// Encoding of a byte string: a `u64` length, then the bytes themselves.
pub open spec fn enc_bytes(data: Seq<u8>) -> Seq<u8>
    recommends
        data.len() < 0x1_0000_0000_0000_0000,
{
    enc_u64(data.len() as u64) + data
}

/// Decodes a length-prefixed byte string at `pos`.
pub open spec fn dec_bytes(b: Seq<u8>, pos: int) -> Option<(Seq<u8>, int)> {
    match dec_u64(b, pos) {
        None => None,
        Some((n, p1)) => if p1 + n <= b.len() {
            Some((b.subrange(p1, p1 + n as int), p1 + n as int))
        } else {
            None
        },
    }
}

/// Appends the length-prefixed encoding of `data` to `out`.
pub fn put_bytes(out: &mut Vec<u8>, data: &[u8])
    ensures
        final(out)@ == old(out)@ + enc_bytes(data@),
{
    let ghost out0 = out@;
    put_u64(out, data.len() as u64);
    let mut copy = slice_to_vec(data);
    out.append(&mut copy);
    proof {
        assert(out@ =~= out0 + enc_bytes(data@));
    }
}

/// Reads a length-prefixed byte string at the cursor, advancing it.
pub fn read_bytes(b: &[u8], pos: &mut usize) -> (r: Option<Vec<u8>>)
    ensures
        match r {
            Some(v) => dec_bytes(b@, *old(pos) as int) == Some((v@, *final(pos) as int)),
            None => dec_bytes(b@, *old(pos) as int) is None && *final(pos) == *old(pos),
        },
{
    let pos0 = *pos;
    match read_u64(b, pos) {
        None => None,
        Some(n) => {
            if n <= (b.len() - *pos) as u64 {
                let len = n as usize;
                let s = slice_subrange(b, *pos, *pos + len);
                let v = slice_to_vec(s);
                *pos = *pos + len;
                Some(v)
            } else {
                *pos = pos0;
                None
            }
        }
    }
}

/// Encoding of a string: its UTF-8 bytes, length-prefixed.
pub open spec fn enc_string(s: Seq<char>) -> Seq<u8>
    recommends
        encode_utf8(s).len() < 0x1_0000_0000_0000_0000,
{
    enc_bytes(encode_utf8(s))
}

/// Decodes a length-prefixed string at `pos`; fails when the bytes are not
/// valid UTF-8.
pub open spec fn dec_string(b: Seq<u8>, pos: int) -> Option<(Seq<char>, int)> {
    match dec_bytes(b, pos) {
        None => None,
        Some((bytes, p)) => if valid_utf8(bytes) {
            Some((decode_utf8(bytes), p))
        } else {
            None
        },
    }
}

/// Relies on `String::from_utf8`: yields the string whose UTF-8 encoding is
/// the given byte vector, and nothing exactly when the bytes are not valid
/// UTF-8.
#[verifier::external_body]
fn string_from_utf8(bytes: Vec<u8>) -> (r: Option<String>)
    ensures
        match r {
            Some(s) => valid_utf8(bytes@) && s@ == decode_utf8(bytes@),
            None => !valid_utf8(bytes@),
        },
{
    match String::from_utf8(bytes) {
        Ok(s) => Some(s),
        Err(_) => None,
    }
}

/// Appends the length-prefixed UTF-8 encoding of `s` to `out`.
pub fn put_string(out: &mut Vec<u8>, s: &str)
    ensures
        final(out)@ == old(out)@ + enc_string(s@),
{
    let bytes = s.as_bytes();
    put_bytes(out, bytes);
}

/// Reads a length-prefixed string at the cursor, advancing it.
pub fn read_string(b: &[u8], pos: &mut usize) -> (r: Option<String>)
    ensures
        match r {
            Some(v) => dec_string(b@, *old(pos) as int) == Some((v@, *final(pos) as int)),
            None => dec_string(b@, *old(pos) as int) is None && *final(pos) == *old(pos),
        },
{
    let pos0 = *pos;
    match read_bytes(b, pos) {
        None => None,
        Some(bytes) => match string_from_utf8(bytes) {
            Some(s) => Some(s),
            None => {
                *pos = pos0;
                None
            }
        },
    }
}

/// The byte-string codec round-trips at any position.
pub proof fn lemma_dec_enc_bytes(data: Seq<u8>, b: Seq<u8>, pos: int)
    requires
        0 <= pos,
        data.len() < 0x1_0000_0000_0000_0000,
        pos + enc_bytes(data).len() <= b.len(),
        b.subrange(pos, pos + enc_bytes(data).len()) == enc_bytes(data),
    ensures
        dec_bytes(b, pos) == Some((data, pos + enc_bytes(data).len())),
{
    lemma_int_codecs();
    let n = data.len() as u64;
    lemma_split2(b, pos, enc_u64(n), data);
    lemma_dec_enc_u64(n, b, pos);
}

/// The string codec round-trips at any position.
pub proof fn lemma_dec_enc_string(s: Seq<char>, b: Seq<u8>, pos: int)
    requires
        0 <= pos,
        encode_utf8(s).len() < 0x1_0000_0000_0000_0000,
        pos + enc_string(s).len() <= b.len(),
        b.subrange(pos, pos + enc_string(s).len()) == enc_string(s),
    ensures
        dec_string(b, pos) == Some((s, pos + enc_string(s).len())),
{
    lemma_dec_enc_bytes(encode_utf8(s), b, pos);
    encode_utf8_valid_utf8(s);
    encode_utf8_decode_utf8(s);
}

/// Decodes a single byte at `pos`.
pub open spec fn dec_u8(b: Seq<u8>, pos: int) -> Option<(u8, int)> {
    if 0 <= pos && pos + 1 <= b.len() {
        Some((b[pos], pos + 1))
    } else {
        None
    }
}

/// Reads one byte at the cursor, advancing it.
pub fn read_u8(b: &[u8], pos: &mut usize) -> (r: Option<u8>)
    ensures
        match r {
            Some(v) => dec_u8(b@, *old(pos) as int) == Some((v, *final(pos) as int)),
            None => dec_u8(b@, *old(pos) as int) is None && *final(pos) == *old(pos),
        },
{
    if *pos < b.len() {
        let v = b[*pos];
        *pos = *pos + 1;
        Some(v)
    } else {
        None
    }
}

/// Encoding of a vertex: position, then texture coordinate, component-wise.
pub open spec fn enc_vertex(v: Vertex) -> Seq<u8> {
    enc_u32(v.position.x) + enc_u32(v.position.y) + enc_u32(v.position.z) + enc_u32(v.uv.x)
        + enc_u32(v.uv.y)
}

/// Encoding of a vertex list, front first, without a length prefix.
pub open spec fn enc_vertices(vs: Seq<Vertex>) -> Seq<u8>
    decreases vs.len(),
{
    if vs.len() == 0 {
        Seq::empty()
    } else {
        enc_vertex(vs[0]) + enc_vertices(vs.drop_first())
    }
}

/// Encoding of a triangle index list, without a length prefix.
pub open spec fn enc_indices(idx: Seq<u16>) -> Seq<u8>
    decreases idx.len(),
{
    if idx.len() == 0 {
        Seq::empty()
    } else {
        enc_u16(idx[0]) + enc_indices(idx.drop_first())
    }
}

/// Encoding of a mesh: length-prefixed vertices, then length-prefixed
/// indices.
pub open spec fn enc_mesh(m: SpecMesh) -> Seq<u8> {
    enc_u64(m.vertices.len() as u64) + enc_vertices(m.vertices) + enc_u64(m.indices.len() as u64)
        + enc_indices(m.indices)
}

/// Encoding of an image: dimensions, then the length-prefixed pixel data.
pub open spec fn enc_image(i: SpecImage) -> Seq<u8> {
    enc_u32(i.width) + enc_u32(i.height) + enc_bytes(i.data)
}

/// Encoding of an eye: texture, mesh, iris center and radius.
pub open spec fn enc_eye(e: SpecEye) -> Seq<u8> {
    enc_image(e.texture) + enc_mesh(e.mesh) + enc_u32(e.iris_center.x) + enc_u32(e.iris_center.y)
        + enc_u32(e.iris_center.z) + enc_u32(e.iris_radius)
}

/// Encoding of an optional eye: a one-byte presence tag, then the eye.
pub open spec fn enc_opt_eye(o: Option<SpecEye>) -> Seq<u8> {
    match o {
        None => seq![0u8],
        Some(e) => seq![1u8] + enc_eye(e),
    }
}

/// Encoding of a persistent identity: a `u32` variant tag, and for a named
/// identity the name itself.
pub open spec fn enc_pid(p: SpecPersistentId) -> Seq<u8> {
    match p {
        SpecPersistentId::InProgress => enc_u32(0),
        SpecPersistentId::Unavailable => enc_u32(1),
        SpecPersistentId::Unknown => enc_u32(2),
        SpecPersistentId::Available(name) => enc_u32(3) + enc_string(name),
    }
}

/// Encoding of one face: identifiers, pose, then both optional eyes.
pub open spec fn enc_face(f: SpecFaceData) -> Seq<u8> {
    enc_u32(f.ephemeral_id) + enc_pid(f.persistent_id) + enc_u32(f.head_position.x)
        + enc_u32(f.head_position.y) + enc_u32(f.head_rotation.x) + enc_u32(f.head_rotation.y)
        + enc_u32(f.head_rotation.z) + enc_u32(f.head_rotation.w) + enc_opt_eye(f.left_eye)
        + enc_opt_eye(f.right_eye)
}

/// Encoding of a face list, front first, without a length prefix.
pub open spec fn enc_faces(fs: Seq<SpecFaceData>) -> Seq<u8>
    decreases fs.len(),
{
    if fs.len() == 0 {
        Seq::empty()
    } else {
        enc_face(fs[0]) + enc_faces(fs.drop_first())
    }
}

/// Encoding of a whole message body: timestamp, then the length-prefixed
/// face list.
pub open spec fn enc_message(m: SpecTrackingMessage) -> Seq<u8> {
    enc_u32(m.timestamp) + enc_u64(m.faces.len() as u64) + enc_faces(m.faces)
}

/// Appends the encoding of one vertex to `out`.
pub fn put_vertex(out: &mut Vec<u8>, v: &Vertex)
    ensures
        final(out)@ == old(out)@ + enc_vertex(*v),
{
    let ghost out0 = out@;
    put_u32(out, v.position.x);
    put_u32(out, v.position.y);
    put_u32(out, v.position.z);
    put_u32(out, v.uv.x);
    put_u32(out, v.uv.y);
    proof {
        assert(out@ =~= out0 + enc_vertex(*v));
    }
}

/// Appends the encoding of a mesh to `out`.
pub fn put_mesh(out: &mut Vec<u8>, m: &Mesh)
    ensures
        final(out)@ == old(out)@ + enc_mesh(m@),
{
    let ghost out0 = out@;
    put_u64(out, m.vertices.len() as u64);
    let ghost after_count = out@;
    let mut i: usize = 0;
    while i < m.vertices.len()
        invariant
            i <= m.vertices.len(),
            out@ == after_count + enc_vertices(m.vertices@.take(i as int)),
        decreases m.vertices.len() - i,
    {
        let ghost before = out@;
        put_vertex(out, &m.vertices[i]);
        proof {
            lemma_enc_vertices_push(m.vertices@.take(i as int), m.vertices@[i as int]);
            assert(m.vertices@.take(i as int + 1) =~= m.vertices@.take(i as int).push(
                m.vertices@[i as int],
            ));
            assert(out@ =~= after_count + enc_vertices(m.vertices@.take(i as int + 1)));
        }
        i = i + 1;
    }
    proof {
        assert(m.vertices@.take(m.vertices@.len() as int) =~= m.vertices@);
    }
    put_u64(out, m.indices.len() as u64);
    let ghost after_icount = out@;
    let mut k: usize = 0;
    while k < m.indices.len()
        invariant
            k <= m.indices.len(),
            out@ == after_icount + enc_indices(m.indices@.take(k as int)),
        decreases m.indices.len() - k,
    {
        put_u16(out, m.indices[k]);
        proof {
            lemma_enc_indices_push(m.indices@.take(k as int), m.indices@[k as int]);
            assert(m.indices@.take(k as int + 1) =~= m.indices@.take(k as int).push(
                m.indices@[k as int],
            ));
            assert(out@ =~= after_icount + enc_indices(m.indices@.take(k as int + 1)));
        }
        k = k + 1;
    }
    proof {
        assert(m.indices@.take(m.indices@.len() as int) =~= m.indices@);
        assert(out@ =~= out0 + enc_mesh(m@));
    }
}

/// Appending one element to an encoded vertex list appends its encoding.
pub proof fn lemma_enc_vertices_push(vs: Seq<Vertex>, v: Vertex)
    ensures
        enc_vertices(vs.push(v)) == enc_vertices(vs) + enc_vertex(v),
    decreases vs.len(),
{
    reveal_with_fuel(enc_vertices, 3);
    if vs.len() == 0 {
        assert(vs.push(v)[0] == v);
        assert(vs.push(v).drop_first() =~= Seq::<Vertex>::empty());
        assert(enc_vertices(vs.push(v)) =~= enc_vertices(vs) + enc_vertex(v));
    } else {
        assert(vs.push(v)[0] == vs[0]);
        assert(vs.push(v).drop_first() =~= vs.drop_first().push(v));
        lemma_enc_vertices_push(vs.drop_first(), v);
        assert(enc_vertices(vs.push(v)) =~= enc_vertices(vs) + enc_vertex(v));
    }
}

/// Appending one element to an encoded index list appends its encoding.
pub proof fn lemma_enc_indices_push(idx: Seq<u16>, x: u16)
    ensures
        enc_indices(idx.push(x)) == enc_indices(idx) + enc_u16(x),
    decreases idx.len(),
{
    reveal_with_fuel(enc_indices, 3);
    if idx.len() == 0 {
        assert(idx.push(x)[0] == x);
        assert(idx.push(x).drop_first() =~= Seq::<u16>::empty());
        assert(enc_indices(idx.push(x)) =~= enc_indices(idx) + enc_u16(x));
    } else {
        assert(idx.push(x)[0] == idx[0]);
        assert(idx.push(x).drop_first() =~= idx.drop_first().push(x));
        lemma_enc_indices_push(idx.drop_first(), x);
        assert(enc_indices(idx.push(x)) =~= enc_indices(idx) + enc_u16(x));
    }
}

/// Appending one face to an encoded face list appends its encoding.
pub proof fn lemma_enc_faces_push(fs: Seq<SpecFaceData>, f: SpecFaceData)
    ensures
        enc_faces(fs.push(f)) == enc_faces(fs) + enc_face(f),
    decreases fs.len(),
{
    reveal_with_fuel(enc_faces, 3);
    if fs.len() == 0 {
        assert(fs.push(f)[0] == f);
        assert(fs.push(f).drop_first() =~= Seq::<SpecFaceData>::empty());
        assert(enc_faces(fs.push(f)) =~= enc_faces(fs) + enc_face(f));
    } else {
        assert(fs.push(f)[0] == fs[0]);
        assert(fs.push(f).drop_first() =~= fs.drop_first().push(f));
        lemma_enc_faces_push(fs.drop_first(), f);
        assert(enc_faces(fs.push(f)) =~= enc_faces(fs) + enc_face(f));
    }
}

/// Appends the encoding of an image to `out`.
pub fn put_image(out: &mut Vec<u8>, img: &Image)
    ensures
        final(out)@ == old(out)@ + enc_image(img@),
{
    let ghost out0 = out@;
    put_u32(out, img.width);
    put_u32(out, img.height);
    put_bytes(out, img.data.as_slice());
    proof {
        assert(out@ =~= out0 + enc_image(img@));
    }
}

/// Appends the encoding of an eye to `out`.
pub fn put_eye(out: &mut Vec<u8>, e: &Eye)
    ensures
        final(out)@ == old(out)@ + enc_eye(e@),
{
    let ghost out0 = out@;
    put_image(out, &e.texture);
    put_mesh(out, &e.mesh);
    put_u32(out, e.iris_center.x);
    put_u32(out, e.iris_center.y);
    put_u32(out, e.iris_center.z);
    put_u32(out, e.iris_radius);
    proof {
        assert(out@ =~= out0 + enc_eye(e@));
    }
}

/// Appends the encoding of an optional eye to `out`.
pub fn put_opt_eye(out: &mut Vec<u8>, o: &Option<Eye>)
    ensures
        final(out)@ == old(out)@ + enc_opt_eye(match o {
            Some(e) => Some(e@),
            None => None,
        }),
{
    let ghost out0 = out@;
    match o {
        None => {
            out.push(0u8);
            proof {
                assert(out@ =~= out0 + seq![0u8]);
            }
        }
        Some(e) => {
            out.push(1u8);
            put_eye(out, e);
            proof {
                assert(out@ =~= out0 + (seq![1u8] + enc_eye(e@)));
            }
        }
    }
}

/// Appends the encoding of a persistent identity to `out`.
pub fn put_pid(out: &mut Vec<u8>, p: &PersistentId)
    ensures
        final(out)@ == old(out)@ + enc_pid(p@),
{
    let ghost out0 = out@;
    match p {
        PersistentId::InProgress => put_u32(out, 0),
        PersistentId::Unavailable => put_u32(out, 1),
        PersistentId::Unknown => put_u32(out, 2),
        PersistentId::Available(name) => {
            put_u32(out, 3);
            put_string(out, name.as_str());
            proof {
                assert(out@ =~= out0 + enc_pid(p@));
            }
        }
    }
}

/// Appends the encoding of one face to `out`.
pub fn put_face(out: &mut Vec<u8>, f: &FaceData)
    ensures
        final(out)@ == old(out)@ + enc_face(f@),
{
    let ghost out0 = out@;
    put_u32(out, f.ephemeral_id);
    put_pid(out, &f.persistent_id);
    put_u32(out, f.head_position.x);
    put_u32(out, f.head_position.y);
    put_u32(out, f.head_rotation.x);
    put_u32(out, f.head_rotation.y);
    put_u32(out, f.head_rotation.z);
    put_u32(out, f.head_rotation.w);
    put_opt_eye(out, &f.left_eye);
    put_opt_eye(out, &f.right_eye);
    proof {
        assert(out@ =~= out0 + enc_face(f@));
    }
}

/// Encodes a whole message body into a fresh byte vector.
pub fn encode_message(m: &TrackingMessage) -> (r: Vec<u8>)
    ensures
        r@ == enc_message(m@),
{
    let mut out: Vec<u8> = Vec::new();
    put_u32(&mut out, m.timestamp);
    put_u64(&mut out, m.faces.len() as u64);
    let ghost after_count = out@;
    let ghost fs = m@.faces;
    let mut i: usize = 0;
    while i < m.faces.len()
        invariant
            i <= m.faces.len(),
            fs == m@.faces,
            fs.len() == m.faces@.len(),
            forall|k: int| 0 <= k < fs.len() ==> fs[k] == #[trigger] m.faces@[k]@,
            out@ == after_count + enc_faces(fs.take(i as int)),
        decreases m.faces.len() - i,
    {
        put_face(&mut out, &m.faces[i]);
        proof {
            lemma_enc_faces_push(fs.take(i as int), fs[i as int]);
            assert(fs.take(i as int + 1) =~= fs.take(i as int).push(fs[i as int]));
            assert(out@ =~= after_count + enc_faces(fs.take(i as int + 1)));
        }
        i = i + 1;
    }
    proof {
        assert(fs.take(fs.len() as int) =~= fs);
        assert(out@ =~= enc_message(m@));
    }
    out
}

/// Decodes one vertex at `pos`.
pub open spec fn dec_vertex(b: Seq<u8>, pos: int) -> Option<(Vertex, int)> {
    match dec_u32(b, pos) {
        None => None,
        Some((px, p1)) => match dec_u32(b, p1) {
            None => None,
            Some((py, p2)) => match dec_u32(b, p2) {
                None => None,
                Some((pz, p3)) => match dec_u32(b, p3) {
                    None => None,
                    Some((ux, p4)) => match dec_u32(b, p4) {
                        None => None,
                        Some((uy, p5)) => Some(
                            (
                                Vertex {
                                    position: Vec3Bits { x: px, y: py, z: pz },
                                    uv: Vec2Bits { x: ux, y: uy },
                                },
                                p5,
                            ),
                        ),
                    },
                },
            },
        },
    }
}

/// Decodes `n` vertices at `pos`.
pub open spec fn dec_vertices(b: Seq<u8>, pos: int, n: nat) -> Option<(Seq<Vertex>, int)>
    decreases n,
{
    if n == 0 {
        Some((Seq::empty(), pos))
    } else {
        match dec_vertex(b, pos) {
            None => None,
            Some((v, p1)) => match dec_vertices(b, p1, (n - 1) as nat) {
                None => None,
                Some((vs, p2)) => Some((seq![v] + vs, p2)),
            },
        }
    }
}

/// Decodes `n` triangle indices at `pos`.
pub open spec fn dec_indices(b: Seq<u8>, pos: int, n: nat) -> Option<(Seq<u16>, int)>
    decreases n,
{
    if n == 0 {
        Some((Seq::empty(), pos))
    } else {
        match dec_u16(b, pos) {
            None => None,
            Some((x, p1)) => match dec_indices(b, p1, (n - 1) as nat) {
                None => None,
                Some((xs, p2)) => Some((seq![x] + xs, p2)),
            },
        }
    }
}

/// Decodes a mesh at `pos` and checks its structural invariants: whole
/// triangles only, every index in bounds.
pub open spec fn dec_mesh(b: Seq<u8>, pos: int) -> Option<(SpecMesh, int)> {
    match dec_u64(b, pos) {
        None => None,
        Some((nv, p1)) => match dec_vertices(b, p1, nv as nat) {
            None => None,
            Some((vs, p2)) => match dec_u64(b, p2) {
                None => None,
                Some((ni, p3)) => match dec_indices(b, p3, ni as nat) {
                    None => None,
                    Some((idx, p4)) => {
                        let m = SpecMesh { vertices: vs, indices: idx };
                        if wf_mesh(m) {
                            Some((m, p4))
                        } else {
                            None
                        }
                    },
                },
            },
        },
    }
}

/// Decodes an image at `pos` and checks that the data length matches the
/// dimensions.
pub open spec fn dec_image(b: Seq<u8>, pos: int) -> Option<(SpecImage, int)> {
    match dec_u32(b, pos) {
        None => None,
        Some((w, p1)) => match dec_u32(b, p1) {
            None => None,
            Some((h, p2)) => match dec_bytes(b, p2) {
                None => None,
                Some((data, p3)) => {
                    let img = SpecImage { width: w, height: h, data };
                    if wf_image(img) {
                        Some((img, p3))
                    } else {
                        None
                    }
                },
            },
        },
    }
}

/// Decodes an eye at `pos`.
pub open spec fn dec_eye(b: Seq<u8>, pos: int) -> Option<(SpecEye, int)> {
    match dec_image(b, pos) {
        None => None,
        Some((texture, p1)) => match dec_mesh(b, p1) {
            None => None,
            Some((mesh, p2)) => match dec_u32(b, p2) {
                None => None,
                Some((cx, p3)) => match dec_u32(b, p3) {
                    None => None,
                    Some((cy, p4)) => match dec_u32(b, p4) {
                        None => None,
                        Some((cz, p5)) => match dec_u32(b, p5) {
                            None => None,
                            Some((ir, p6)) => Some(
                                (
                                    SpecEye {
                                        texture,
                                        mesh,
                                        iris_center: Vec3Bits { x: cx, y: cy, z: cz },
                                        iris_radius: ir,
                                    },
                                    p6,
                                ),
                            ),
                        },
                    },
                },
            },
        },
    }
}

/// Decodes an optional eye at `pos`: the presence tag must be 0 or 1.
pub open spec fn dec_opt_eye(b: Seq<u8>, pos: int) -> Option<(Option<SpecEye>, int)> {
    match dec_u8(b, pos) {
        None => None,
        Some((tag, p1)) => if tag == 0 {
            Some((None, p1))
        } else if tag == 1 {
            match dec_eye(b, p1) {
                None => None,
                Some((e, p2)) => Some((Some(e), p2)),
            }
        } else {
            None
        },
    }
}

/// Decodes a persistent identity at `pos`: the variant tag must name one of
/// the four variants.
pub open spec fn dec_pid(b: Seq<u8>, pos: int) -> Option<(SpecPersistentId, int)> {
    match dec_u32(b, pos) {
        None => None,
        Some((tag, p1)) => if tag == 0 {
            Some((SpecPersistentId::InProgress, p1))
        } else if tag == 1 {
            Some((SpecPersistentId::Unavailable, p1))
        } else if tag == 2 {
            Some((SpecPersistentId::Unknown, p1))
        } else if tag == 3 {
            match dec_string(b, p1) {
                None => None,
                Some((name, p2)) => Some((SpecPersistentId::Available(name), p2)),
            }
        } else {
            None
        },
    }
}

/// Decodes one face at `pos`.
pub open spec fn dec_face(b: Seq<u8>, pos: int) -> Option<(SpecFaceData, int)> {
    match dec_u32(b, pos) {
        None => None,
        Some((eid, p1)) => match dec_pid(b, p1) {
            None => None,
            Some((pid, p2)) => match dec_u32(b, p2) {
                None => None,
                Some((hx, p3)) => match dec_u32(b, p3) {
                    None => None,
                    Some((hy, p4)) => match dec_u32(b, p4) {
                        None => None,
                        Some((rx, p5)) => match dec_u32(b, p5) {
                            None => None,
                            Some((ry, p6)) => match dec_u32(b, p6) {
                                None => None,
                                Some((rz, p7)) => match dec_u32(b, p7) {
                                    None => None,
                                    Some((rw, p8)) => match dec_opt_eye(b, p8) {
                                        None => None,
                                        Some((le, p9)) => match dec_opt_eye(b, p9) {
                                            None => None,
                                            Some((re, p10)) => Some(
                                                (
                                                    SpecFaceData {
                                                        ephemeral_id: eid,
                                                        persistent_id: pid,
                                                        head_position: Vec2Bits { x: hx, y: hy },
                                                        head_rotation: QuatBits {
                                                            x: rx,
                                                            y: ry,
                                                            z: rz,
                                                            w: rw,
                                                        },
                                                        left_eye: le,
                                                        right_eye: re,
                                                    },
                                                    p10,
                                                ),
                                            ),
                                        },
                                    },
                                },
                            },
                        },
                    },
                },
            },
        },
    }
}

/// Decodes `n` faces at `pos`.
pub open spec fn dec_faces(b: Seq<u8>, pos: int, n: nat) -> Option<(Seq<SpecFaceData>, int)>
    decreases n,
{
    if n == 0 {
        Some((Seq::empty(), pos))
    } else {
        match dec_face(b, pos) {
            None => None,
            Some((f, p1)) => match dec_faces(b, p1, (n - 1) as nat) {
                None => None,
                Some((fs, p2)) => Some((seq![f] + fs, p2)),
            },
        }
    }
}

/// Decodes a whole message body at `pos`.
pub open spec fn dec_message(b: Seq<u8>, pos: int) -> Option<(SpecTrackingMessage, int)> {
    match dec_u32(b, pos) {
        None => None,
        Some((ts, p1)) => match dec_u64(b, p1) {
            None => None,
            Some((n, p2)) => match dec_faces(b, p2, n as nat) {
                None => None,
                Some((fs, p3)) => Some((SpecTrackingMessage { timestamp: ts, faces: fs }, p3)),
            },
        },
    }
}

/// Checks that every index is smaller than `vlen`.
fn indices_in_bounds(indices: &Vec<u16>, vlen: usize) -> (r: bool)
    ensures
        r == (forall|k: int| 0 <= k < indices@.len() ==> (indices@[k] as int) < vlen as int),
{
    let mut k: usize = 0;
    while k < indices.len()
        invariant
            k <= indices@.len(),
            forall|j: int| 0 <= j < k ==> (indices@[j] as int) < vlen as int,
        decreases indices@.len() - k,
    {
        if !((indices[k] as usize) < vlen) {
            return false;
        }
        k = k + 1;
    }
    true
}

/// Reads one vertex at the cursor, advancing it.
fn read_vertex(b: &[u8], pos: &mut usize) -> (r: Option<Vertex>)
    ensures
        match r {
            Some(v) => dec_vertex(b@, *old(pos) as int) == Some((v, *final(pos) as int)),
            None => dec_vertex(b@, *old(pos) as int) is None && *final(pos) == *old(pos),
        },
{
    let pos0 = *pos;
    let px = match read_u32(b, pos) {
        None => {
            return None;
        },
        Some(x) => x,
    };
    let py = match read_u32(b, pos) {
        None => {
            *pos = pos0;
            return None;
        },
        Some(x) => x,
    };
    let pz = match read_u32(b, pos) {
        None => {
            *pos = pos0;
            return None;
        },
        Some(x) => x,
    };
    let ux = match read_u32(b, pos) {
        None => {
            *pos = pos0;
            return None;
        },
        Some(x) => x,
    };
    let uy = match read_u32(b, pos) {
        None => {
            *pos = pos0;
            return None;
        },
        Some(x) => x,
    };
    Some(Vertex { position: Vec3Bits { x: px, y: py, z: pz }, uv: Vec2Bits { x: ux, y: uy } })
}

/// Reads `n` vertices at the cursor, advancing it.
fn read_vertices(b: &[u8], pos: &mut usize, n: u64) -> (r: Option<Vec<Vertex>>)
    ensures
        match r {
            Some(vs) => dec_vertices(b@, *old(pos) as int, n as nat) == Some(
                (vs@, *final(pos) as int),
            ) && vs@.len() == n as nat,
            None => dec_vertices(b@, *old(pos) as int, n as nat) is None && *final(pos) == *old(
                pos,
            ),
        },
{
    let pos0 = *pos;
    let mut acc: Vec<Vertex> = Vec::new();
    let mut i: u64 = 0;
    while i < n
        invariant
            pos0 == *old(pos),
            i <= n,
            acc@.len() == i as nat,
            dec_vertices(b@, pos0 as int, n as nat) == (match dec_vertices(
                b@,
                *pos as int,
                (n - i) as nat,
            ) {
                Some((rest, p)) => Some((acc@ + rest, p)),
                None => None::<(Seq<Vertex>, int)>,
            }),
        decreases n - i,
    {
        let ghost prev_pos = *pos as int;
        let ghost prev_acc = acc@;
        let ghost k = (n - i) as nat;
        match read_vertex(b, pos) {
            None => {
                proof {
                    assert(dec_vertices(b@, prev_pos, k) is None);
                }
                *pos = pos0;
                return None;
            },
            Some(v) => {
                proof {
                    assert(dec_vertices(b@, prev_pos, k) == (match dec_vertices(
                        b@,
                        *pos as int,
                        (k - 1) as nat,
                    ) {
                        Some((ys, q)) => Some((seq![v] + ys, q)),
                        None => None::<(Seq<Vertex>, int)>,
                    }));
                }
                acc.push(v);
                i = i + 1;
                proof {
                    assert(acc@ == prev_acc.push(v));
                    assert(forall|ys: Seq<Vertex>| prev_acc + (seq![v] + ys) =~= acc@ + ys);
                    assert((k - 1) as nat == (n - i) as nat);
                }
            },
        }
    }
    proof {
        assert(dec_vertices(b@, *pos as int, 0nat) == Some((Seq::<Vertex>::empty(), *pos as int)));
        assert(acc@ + Seq::<Vertex>::empty() =~= acc@);
    }
    Some(acc)
}

/// Reads `n` triangle indices at the cursor, advancing it.
fn read_indices(b: &[u8], pos: &mut usize, n: u64) -> (r: Option<Vec<u16>>)
    ensures
        match r {
            Some(vs) => dec_indices(b@, *old(pos) as int, n as nat) == Some(
                (vs@, *final(pos) as int),
            ) && vs@.len() == n as nat,
            None => dec_indices(b@, *old(pos) as int, n as nat) is None && *final(pos) == *old(
                pos,
            ),
        },
{
    let pos0 = *pos;
    let mut acc: Vec<u16> = Vec::new();
    let mut i: u64 = 0;
    while i < n
        invariant
            pos0 == *old(pos),
            i <= n,
            acc@.len() == i as nat,
            dec_indices(b@, pos0 as int, n as nat) == (match dec_indices(
                b@,
                *pos as int,
                (n - i) as nat,
            ) {
                Some((rest, p)) => Some((acc@ + rest, p)),
                None => None::<(Seq<u16>, int)>,
            }),
        decreases n - i,
    {
        let ghost prev_pos = *pos as int;
        let ghost prev_acc = acc@;
        let ghost k = (n - i) as nat;
        match read_u16(b, pos) {
            None => {
                proof {
                    assert(dec_indices(b@, prev_pos, k) is None);
                }
                *pos = pos0;
                return None;
            },
            Some(v) => {
                proof {
                    assert(dec_indices(b@, prev_pos, k) == (match dec_indices(
                        b@,
                        *pos as int,
                        (k - 1) as nat,
                    ) {
                        Some((ys, q)) => Some((seq![v] + ys, q)),
                        None => None::<(Seq<u16>, int)>,
                    }));
                }
                acc.push(v);
                i = i + 1;
                proof {
                    assert(acc@ == prev_acc.push(v));
                    assert(forall|ys: Seq<u16>| prev_acc + (seq![v] + ys) =~= acc@ + ys);
                    assert((k - 1) as nat == (n - i) as nat);
                }
            },
        }
    }
    proof {
        assert(dec_indices(b@, *pos as int, 0nat) == Some((Seq::<u16>::empty(), *pos as int)));
        assert(acc@ + Seq::<u16>::empty() =~= acc@);
    }
    Some(acc)
}

/// Reads a mesh at the cursor, advancing it; fails when the bytes end first
/// or the mesh breaks its structural invariants.
fn read_mesh(b: &[u8], pos: &mut usize) -> (r: Option<Mesh>)
    ensures
        match r {
            Some(m) => dec_mesh(b@, *old(pos) as int) == Some((m@, *final(pos) as int)),
            None => dec_mesh(b@, *old(pos) as int) is None && *final(pos) == *old(pos),
        },
{
    let pos0 = *pos;
    let nv = match read_u64(b, pos) {
        None => {
            return None;
        },
        Some(x) => x,
    };
    let vertices = match read_vertices(b, pos, nv) {
        None => {
            *pos = pos0;
            return None;
        },
        Some(v) => v,
    };
    let ni = match read_u64(b, pos) {
        None => {
            *pos = pos0;
            return None;
        },
        Some(x) => x,
    };
    let indices = match read_indices(b, pos, ni) {
        None => {
            *pos = pos0;
            return None;
        },
        Some(v) => v,
    };
    if indices.len() % 3 != 0 {
        *pos = pos0;
        return None;
    }
    if !indices_in_bounds(&indices, vertices.len()) {
        *pos = pos0;
        return None;
    }
    let m = Mesh { vertices, indices };
    proof {
        assert(wf_mesh(m@));
    }
    Some(m)
}

/// Reads an image at the cursor, advancing it; fails when the bytes end
/// first or the data length does not match the dimensions.
fn read_image(b: &[u8], pos: &mut usize) -> (r: Option<Image>)
    ensures
        match r {
            Some(img) => dec_image(b@, *old(pos) as int) == Some((img@, *final(pos) as int)),
            None => dec_image(b@, *old(pos) as int) is None && *final(pos) == *old(pos),
        },
{
    let pos0 = *pos;
    let w = match read_u32(b, pos) {
        None => {
            return None;
        },
        Some(x) => x,
    };
    let h = match read_u32(b, pos) {
        None => {
            *pos = pos0;
            return None;
        },
        Some(x) => x,
    };
    let data = match read_bytes(b, pos) {
        None => {
            *pos = pos0;
            return None;
        },
        Some(x) => x,
    };
    proof {
        assert((w as u64) * (h as u64) <= 0xffff_ffffu64 * 0xffff_ffffu64) by (nonlinear_arith)
            requires
                w as u64 <= 0xffff_ffffu64,
                h as u64 <= 0xffff_ffffu64,
        ;
    }
    let wh = (w as u64) * (h as u64);
    let ghost expected: int = 4 * (w as int) * (h as int);
    proof {
        assert(wh as int == (w as int) * (h as int));
        assert(4 * (wh as int) == expected) by (nonlinear_arith)
            requires
                wh as int == (w as int) * (h as int),
                expected == 4 * (w as int) * (h as int),
        ;
        assert(data@.len() <= usize::MAX);
        assert(usize::MAX <= u64::MAX);
    }
    let ok: bool = if wh <= u64::MAX / 4 {
        (data.len() as u64) == 4 * wh
    } else {
        false
    };
    proof {
        assert(ok == (data@.len() == expected));
    }
    if !ok {
        *pos = pos0;
        return None;
    }
    let img = Image { width: w, height: h, data };
    proof {
        assert(wf_image(img@));
    }
    Some(img)
}

/// Reads an eye at the cursor, advancing it.
fn read_eye(b: &[u8], pos: &mut usize) -> (r: Option<Eye>)
    ensures
        match r {
            Some(e) => dec_eye(b@, *old(pos) as int) == Some((e@, *final(pos) as int)),
            None => dec_eye(b@, *old(pos) as int) is None && *final(pos) == *old(pos),
        },
{
    let pos0 = *pos;
    let texture = match read_image(b, pos) {
        None => {
            return None;
        },
        Some(x) => x,
    };
    let mesh = match read_mesh(b, pos) {
        None => {
            *pos = pos0;
            return None;
        },
        Some(x) => x,
    };
    let cx = match read_u32(b, pos) {
        None => {
            *pos = pos0;
            return None;
        },
        Some(x) => x,
    };
    let cy = match read_u32(b, pos) {
        None => {
            *pos = pos0;
            return None;
        },
        Some(x) => x,
    };
    let cz = match read_u32(b, pos) {
        None => {
            *pos = pos0;
            return None;
        },
        Some(x) => x,
    };
    let ir = match read_u32(b, pos) {
        None => {
            *pos = pos0;
            return None;
        },
        Some(x) => x,
    };
    Some(Eye { texture, mesh, iris_center: Vec3Bits { x: cx, y: cy, z: cz }, iris_radius: ir })
}

/// Reads an optional eye at the cursor, advancing it.
fn read_opt_eye(b: &[u8], pos: &mut usize) -> (r: Option<Option<Eye>>)
    ensures
        match r {
            Some(o) => dec_opt_eye(b@, *old(pos) as int) == Some(
                (
                    match o {
                        Some(e) => Some(e@),
                        None => None,
                    },
                    *final(pos) as int,
                ),
            ),
            None => dec_opt_eye(b@, *old(pos) as int) is None && *final(pos) == *old(pos),
        },
{
    let pos0 = *pos;
    let tag = match read_u8(b, pos) {
        None => {
            return None;
        },
        Some(x) => x,
    };
    if tag == 0 {
        Some(None)
    } else if tag == 1 {
        match read_eye(b, pos) {
            None => {
                *pos = pos0;
                None
            },
            Some(e) => Some(Some(e)),
        }
    } else {
        *pos = pos0;
        None
    }
}

/// Reads a persistent identity at the cursor, advancing it.
fn read_pid(b: &[u8], pos: &mut usize) -> (r: Option<PersistentId>)
    ensures
        match r {
            Some(p) => dec_pid(b@, *old(pos) as int) == Some((p@, *final(pos) as int)),
            None => dec_pid(b@, *old(pos) as int) is None && *final(pos) == *old(pos),
        },
{
    let pos0 = *pos;
    let tag = match read_u32(b, pos) {
        None => {
            return None;
        },
        Some(x) => x,
    };
    if tag == 0 {
        Some(PersistentId::InProgress)
    } else if tag == 1 {
        Some(PersistentId::Unavailable)
    } else if tag == 2 {
        Some(PersistentId::Unknown)
    } else if tag == 3 {
        match read_string(b, pos) {
            None => {
                *pos = pos0;
                None
            },
            Some(name) => Some(PersistentId::Available(name)),
        }
    } else {
        *pos = pos0;
        None
    }
}

/// Reads one face at the cursor, advancing it.
fn read_face(b: &[u8], pos: &mut usize) -> (r: Option<FaceData>)
    ensures
        match r {
            Some(f) => dec_face(b@, *old(pos) as int) == Some((f@, *final(pos) as int)),
            None => dec_face(b@, *old(pos) as int) is None && *final(pos) == *old(pos),
        },
{
    let pos0 = *pos;
    let eid = match read_u32(b, pos) {
        None => {
            return None;
        },
        Some(x) => x,
    };
    let pid = match read_pid(b, pos) {
        None => {
            *pos = pos0;
            return None;
        },
        Some(x) => x,
    };
    let hx = match read_u32(b, pos) {
        None => {
            *pos = pos0;
            return None;
        },
        Some(x) => x,
    };
    let hy = match read_u32(b, pos) {
        None => {
            *pos = pos0;
            return None;
        },
        Some(x) => x,
    };
    let rx = match read_u32(b, pos) {
        None => {
            *pos = pos0;
            return None;
        },
        Some(x) => x,
    };
    let ry = match read_u32(b, pos) {
        None => {
            *pos = pos0;
            return None;
        },
        Some(x) => x,
    };
    let rz = match read_u32(b, pos) {
        None => {
            *pos = pos0;
            return None;
        },
        Some(x) => x,
    };
    let rw = match read_u32(b, pos) {
        None => {
            *pos = pos0;
            return None;
        },
        Some(x) => x,
    };
    let le = match read_opt_eye(b, pos) {
        None => {
            *pos = pos0;
            return None;
        },
        Some(x) => x,
    };
    let re = match read_opt_eye(b, pos) {
        None => {
            *pos = pos0;
            return None;
        },
        Some(x) => x,
    };
    Some(
        FaceData {
            ephemeral_id: eid,
            persistent_id: pid,
            head_position: Vec2Bits { x: hx, y: hy },
            head_rotation: QuatBits { x: rx, y: ry, z: rz, w: rw },
            left_eye: le,
            right_eye: re,
        },
    )
}

/// Reads `n` faces at the cursor, advancing it.
fn read_faces(b: &[u8], pos: &mut usize, n: u64) -> (r: Option<Vec<FaceData>>)
    ensures
        match r {
            Some(fs) => dec_faces(b@, *old(pos) as int, n as nat) == Some(
                (fs@.map_values(|f: FaceData| f@), *final(pos) as int),
            ) && fs@.len() == n as nat,
            None => dec_faces(b@, *old(pos) as int, n as nat) is None && *final(pos) == *old(pos),
        },
{
    let pos0 = *pos;
    let mut acc: Vec<FaceData> = Vec::new();
    let mut i: u64 = 0;
    while i < n
        invariant
            pos0 == *old(pos),
            i <= n,
            acc@.len() == i as nat,
            dec_faces(b@, pos0 as int, n as nat) == (match dec_faces(
                b@,
                *pos as int,
                (n - i) as nat,
            ) {
                Some((rest, p)) => Some((acc@.map_values(|f: FaceData| f@) + rest, p)),
                None => None::<(Seq<SpecFaceData>, int)>,
            }),
        decreases n - i,
    {
        let ghost prev_pos = *pos as int;
        let ghost prev_acc = acc@;
        let ghost k = (n - i) as nat;
        match read_face(b, pos) {
            None => {
                proof {
                    assert(dec_faces(b@, prev_pos, k) is None);
                }
                *pos = pos0;
                return None;
            },
            Some(f) => {
                proof {
                    assert(dec_faces(b@, prev_pos, k) == (match dec_faces(
                        b@,
                        *pos as int,
                        (k - 1) as nat,
                    ) {
                        Some((ys, q)) => Some((seq![f@] + ys, q)),
                        None => None::<(Seq<SpecFaceData>, int)>,
                    }));
                }
                acc.push(f);
                i = i + 1;
                proof {
                    assert(acc@ == prev_acc.push(f));
                    assert(acc@.map_values(|x: FaceData| x@) =~= prev_acc.map_values(
                        |x: FaceData| x@,
                    ).push(f@));
                    assert(forall|ys: Seq<SpecFaceData>|
                        prev_acc.map_values(|x: FaceData| x@) + (seq![f@] + ys) =~= acc@.map_values(
                            |x: FaceData| x@,
                        ) + ys);
                    assert((k - 1) as nat == (n - i) as nat);
                }
            },
        }
    }
    proof {
        assert(dec_faces(b@, *pos as int, 0nat) == Some(
            (Seq::<SpecFaceData>::empty(), *pos as int),
        ));
        assert(acc@.map_values(|f: FaceData| f@) + Seq::<SpecFaceData>::empty() =~= acc@.map_values(
            |f: FaceData| f@,
        ));
    }
    Some(acc)
}

/// How decoding a message body, a frame or a record can fail.
#[derive(Debug, Clone, Copy, PartialEq, Eq, Structural)]
pub enum DecodeError {
    /// The fingerprint at the head of the frame is not the one expected.
    FingerprintMismatch,
    /// The bytes end before the message, frame or record is complete.
    Truncated,
    /// The bytes do not hold a valid message encoding.
    InvalidData,
}

/// Reads a whole message body at the cursor, advancing it.
fn read_message(b: &[u8], pos: &mut usize) -> (r: Option<TrackingMessage>)
    ensures
        match r {
            Some(m) => dec_message(b@, *old(pos) as int) == Some((m@, *final(pos) as int)),
            None => dec_message(b@, *old(pos) as int) is None && *final(pos) == *old(pos),
        },
{
    let pos0 = *pos;
    let ts = match read_u32(b, pos) {
        None => {
            return None;
        },
        Some(x) => x,
    };
    let n = match read_u64(b, pos) {
        None => {
            *pos = pos0;
            return None;
        },
        Some(x) => x,
    };
    let faces = match read_faces(b, pos, n) {
        None => {
            *pos = pos0;
            return None;
        },
        Some(x) => x,
    };
    Some(TrackingMessage { timestamp: ts, faces })
}

/// Decodes a whole message body. Succeeds exactly when the bytes are one
/// complete, valid message encoding with nothing left over; the decoded
/// message then satisfies every structural invariant of the data model.
pub fn decode_message(b: &[u8]) -> (r: Result<TrackingMessage, DecodeError>)
    ensures
        match r {
            Ok(m) => dec_message(b@, 0) == Some((m@, b@.len() as int)) && wf_message(m@),
            Err(e) => e == DecodeError::InvalidData && (match dec_message(b@, 0) {
                Some((m, p)) => p != b@.len(),
                None => true,
            }),
        },
{
    let mut pos: usize = 0;
    match read_message(b, &mut pos) {
        None => Err(DecodeError::InvalidData),
        Some(m) => {
            if pos == b.len() {
                proof {
                    lemma_dec_message_wf(b@, 0);
                }
                Ok(m)
            } else {
                Err(DecodeError::InvalidData)
            }
        },
    }
}

/// A decoded persistent identity is well-formed: a decoded name came from at
/// most `u64`-many bytes of UTF-8.
pub proof fn lemma_dec_pid_wf(b: Seq<u8>, pos: int)
    ensures
        match dec_pid(b, pos) {
            Some((p, _)) => wf_persistent_id(p),
            None => true,
        },
{
    match dec_u32(b, pos) {
        Some((tag, p1)) => if tag == 3 {
            match dec_bytes(b, p1) {
                Some((bytes, p2)) => {
                    if valid_utf8(bytes) {
                        decode_utf8_encode_utf8(bytes);
                    }
                },
                None => {},
            }
        } else {
        },
        None => {},
    }
}

/// A decoded face is well-formed: its eyes and identity passed validation.
pub proof fn lemma_dec_face_wf(b: Seq<u8>, pos: int)
    ensures
        match dec_face(b, pos) {
            Some((f, _)) => wf_face(f),
            None => true,
        },
{
    match dec_u32(b, pos) {
        Some((eid, p1)) => {
            lemma_dec_pid_wf(b, p1);
        },
        None => {},
    }
}

/// All faces decoded from a count-bounded run are well-formed.
pub proof fn lemma_dec_faces_wf(b: Seq<u8>, pos: int, n: nat)
    ensures
        match dec_faces(b, pos, n) {
            Some((fs, _)) => fs.len() == n && (forall|k: int|
                0 <= k < fs.len() ==> wf_face(#[trigger] fs[k])),
            None => true,
        },
    decreases n,
{
    if n == 0 {
    } else {
        match dec_face(b, pos) {
            None => {},
            Some((f, p1)) => {
                lemma_dec_face_wf(b, pos);
                lemma_dec_faces_wf(b, p1, (n - 1) as nat);
            },
        }
    }
}

/// Every successfully decoded message satisfies the structural invariants of
/// the data model: image data lengths match their dimensions, mesh indices
/// come in whole triangles and stay in bounds.
pub proof fn lemma_dec_message_wf(b: Seq<u8>, pos: int)
    ensures
        match dec_message(b, pos) {
            Some((m, _)) => wf_message(m),
            None => true,
        },
{
    match dec_u32(b, pos) {
        Some((ts, p1)) => {
            match dec_u64(b, p1) {
                Some((n, p2)) => {
                    lemma_dec_faces_wf(b, p2, n as nat);
                },
                None => {},
            }
        },
        None => {},
    }
}

/// The vertex codec round-trips at any position.
pub proof fn lemma_dec_enc_vertex(v: Vertex, b: Seq<u8>, pos: int)
    requires
        0 <= pos,
        pos + enc_vertex(v).len() <= b.len(),
        b.subrange(pos, pos + enc_vertex(v).len()) == enc_vertex(v),
    ensures
        dec_vertex(b, pos) == Some((v, pos + enc_vertex(v).len())),
{
    lemma_int_codecs();
    let e1 = enc_u32(v.position.x);
    let e2 = enc_u32(v.position.y);
    let e3 = enc_u32(v.position.z);
    let e4 = enc_u32(v.uv.x);
    let e5 = enc_u32(v.uv.y);
    assert(enc_vertex(v) =~= e1 + (e2 + (e3 + (e4 + e5))));
    lemma_split2(b, pos, e1, e2 + (e3 + (e4 + e5)));
    lemma_dec_enc_u32(v.position.x, b, pos);
    lemma_split2(b, pos + 4, e2, e3 + (e4 + e5));
    lemma_dec_enc_u32(v.position.y, b, pos + 4);
    lemma_split2(b, pos + 8, e3, e4 + e5);
    lemma_dec_enc_u32(v.position.z, b, pos + 8);
    lemma_split2(b, pos + 12, e4, e5);
    lemma_dec_enc_u32(v.uv.x, b, pos + 12);
    lemma_dec_enc_u32(v.uv.y, b, pos + 16);
}

/// The vertex-list codec round-trips at any position.
pub proof fn lemma_dec_enc_vertices(vs: Seq<Vertex>, b: Seq<u8>, pos: int)
    requires
        0 <= pos,
        pos + enc_vertices(vs).len() <= b.len(),
        b.subrange(pos, pos + enc_vertices(vs).len()) == enc_vertices(vs),
    ensures
        dec_vertices(b, pos, vs.len()) == Some((vs, pos + enc_vertices(vs).len())),
    decreases vs.len(),
{
    if vs.len() == 0 {
        assert(vs =~= Seq::<Vertex>::empty());
    } else {
        let head = enc_vertex(vs[0]);
        let rest = enc_vertices(vs.drop_first());
        assert(enc_vertices(vs) == head + rest);
        lemma_split2(b, pos, head, rest);
        lemma_dec_enc_vertex(vs[0], b, pos);
        lemma_dec_enc_vertices(vs.drop_first(), b, pos + head.len());
        assert(seq![vs[0]] + vs.drop_first() =~= vs);
    }
}

/// The index-list codec round-trips at any position.
pub proof fn lemma_dec_enc_indices(idx: Seq<u16>, b: Seq<u8>, pos: int)
    requires
        0 <= pos,
        pos + enc_indices(idx).len() <= b.len(),
        b.subrange(pos, pos + enc_indices(idx).len()) == enc_indices(idx),
    ensures
        dec_indices(b, pos, idx.len()) == Some((idx, pos + enc_indices(idx).len())),
    decreases idx.len(),
{
    if idx.len() == 0 {
        assert(idx =~= Seq::<u16>::empty());
    } else {
        let head = enc_u16(idx[0]);
        let rest = enc_indices(idx.drop_first());
        assert(enc_indices(idx) == head + rest);
        lemma_int_codecs();
        lemma_split2(b, pos, head, rest);
        lemma_dec_enc_u16(idx[0], b, pos);
        lemma_dec_enc_indices(idx.drop_first(), b, pos + head.len());
        assert(seq![idx[0]] + idx.drop_first() =~= idx);
    }
}

/// The mesh codec round-trips at any position, for well-formed meshes.
pub proof fn lemma_dec_enc_mesh(m: SpecMesh, b: Seq<u8>, pos: int)
    requires
        0 <= pos,
        wf_mesh(m),
        pos + enc_mesh(m).len() <= b.len(),
        b.subrange(pos, pos + enc_mesh(m).len()) == enc_mesh(m),
    ensures
        dec_mesh(b, pos) == Some((m, pos + enc_mesh(m).len())),
{
    lemma_int_codecs();
    let nv = m.vertices.len() as u64;
    let ni = m.indices.len() as u64;
    let e1 = enc_u64(nv);
    let e2 = enc_vertices(m.vertices);
    let e3 = enc_u64(ni);
    let e4 = enc_indices(m.indices);
    assert(enc_mesh(m) =~= e1 + (e2 + (e3 + e4)));
    lemma_split2(b, pos, e1, e2 + (e3 + e4));
    lemma_dec_enc_u64(nv, b, pos);
    lemma_split2(b, pos + 8, e2, e3 + e4);
    lemma_dec_enc_vertices(m.vertices, b, pos + 8);
    lemma_split2(b, pos + 8 + e2.len(), e3, e4);
    lemma_dec_enc_u64(ni, b, pos + 8 + e2.len());
    lemma_dec_enc_indices(m.indices, b, pos + 16 + e2.len());
    assert(m == SpecMesh { vertices: m.vertices, indices: m.indices });
}

/// The image codec round-trips at any position, for well-formed images.
pub proof fn lemma_dec_enc_image(i: SpecImage, b: Seq<u8>, pos: int)
    requires
        0 <= pos,
        wf_image(i),
        pos + enc_image(i).len() <= b.len(),
        b.subrange(pos, pos + enc_image(i).len()) == enc_image(i),
    ensures
        dec_image(b, pos) == Some((i, pos + enc_image(i).len())),
{
    lemma_int_codecs();
    let e1 = enc_u32(i.width);
    let e2 = enc_u32(i.height);
    let e3 = enc_bytes(i.data);
    assert(enc_image(i) =~= e1 + (e2 + e3));
    lemma_split2(b, pos, e1, e2 + e3);
    lemma_dec_enc_u32(i.width, b, pos);
    lemma_split2(b, pos + 4, e2, e3);
    lemma_dec_enc_u32(i.height, b, pos + 4);
    lemma_dec_enc_bytes(i.data, b, pos + 8);
    assert(i == SpecImage { width: i.width, height: i.height, data: i.data });
}

/// The eye codec round-trips at any position, for well-formed eyes.
pub proof fn lemma_dec_enc_eye(e: SpecEye, b: Seq<u8>, pos: int)
    requires
        0 <= pos,
        wf_eye(e),
        pos + enc_eye(e).len() <= b.len(),
        b.subrange(pos, pos + enc_eye(e).len()) == enc_eye(e),
    ensures
        dec_eye(b, pos) == Some((e, pos + enc_eye(e).len())),
{
    lemma_int_codecs();
    let e1 = enc_image(e.texture);
    let e2 = enc_mesh(e.mesh);
    let e3 = enc_u32(e.iris_center.x);
    let e4 = enc_u32(e.iris_center.y);
    let e5 = enc_u32(e.iris_center.z);
    let e6 = enc_u32(e.iris_radius);
    assert(enc_eye(e) =~= e1 + (e2 + (e3 + (e4 + (e5 + e6)))));
    lemma_split2(b, pos, e1, e2 + (e3 + (e4 + (e5 + e6))));
    lemma_dec_enc_image(e.texture, b, pos);
    lemma_split2(b, pos + e1.len(), e2, e3 + (e4 + (e5 + e6)));
    lemma_dec_enc_mesh(e.mesh, b, pos + e1.len());
    lemma_split2(b, pos + e1.len() + e2.len(), e3, e4 + (e5 + e6));
    lemma_dec_enc_u32(e.iris_center.x, b, pos + e1.len() + e2.len());
    lemma_split2(b, pos + e1.len() + e2.len() + 4, e4, e5 + e6);
    lemma_dec_enc_u32(e.iris_center.y, b, pos + e1.len() + e2.len() + 4);
    lemma_split2(b, pos + e1.len() + e2.len() + 8, e5, e6);
    lemma_dec_enc_u32(e.iris_center.z, b, pos + e1.len() + e2.len() + 8);
    lemma_dec_enc_u32(e.iris_radius, b, pos + e1.len() + e2.len() + 12);
    assert(e == SpecEye {
        texture: e.texture,
        mesh: e.mesh,
        iris_center: Vec3Bits { x: e.iris_center.x, y: e.iris_center.y, z: e.iris_center.z },
        iris_radius: e.iris_radius,
    });
}

/// The optional-eye codec round-trips at any position.
pub proof fn lemma_dec_enc_opt_eye(o: Option<SpecEye>, b: Seq<u8>, pos: int)
    requires
        0 <= pos,
        match o {
            Some(e) => wf_eye(e),
            None => true,
        },
        pos + enc_opt_eye(o).len() <= b.len(),
        b.subrange(pos, pos + enc_opt_eye(o).len()) == enc_opt_eye(o),
    ensures
        dec_opt_eye(b, pos) == Some((o, pos + enc_opt_eye(o).len())),
{
    match o {
        None => {
            assert(b.subrange(pos, pos + 1)[0] == seq![0u8][0]);
        },
        Some(e) => {
            lemma_split2(b, pos, seq![1u8], enc_eye(e));
            assert(b.subrange(pos, pos + 1)[0] == seq![1u8][0]);
            lemma_dec_enc_eye(e, b, pos + 1);
        },
    }
}

/// The persistent-identity codec round-trips at any position, for names that
/// fit their length prefix.
pub proof fn lemma_dec_enc_pid(p: SpecPersistentId, b: Seq<u8>, pos: int)
    requires
        0 <= pos,
        wf_persistent_id(p),
        pos + enc_pid(p).len() <= b.len(),
        b.subrange(pos, pos + enc_pid(p).len()) == enc_pid(p),
    ensures
        dec_pid(b, pos) == Some((p, pos + enc_pid(p).len())),
{
    lemma_int_codecs();
    match p {
        SpecPersistentId::InProgress => {
            lemma_dec_enc_u32(0, b, pos);
        },
        SpecPersistentId::Unavailable => {
            lemma_dec_enc_u32(1, b, pos);
        },
        SpecPersistentId::Unknown => {
            lemma_dec_enc_u32(2, b, pos);
        },
        SpecPersistentId::Available(name) => {
            lemma_split2(b, pos, enc_u32(3), enc_string(name));
            lemma_dec_enc_u32(3, b, pos);
            lemma_dec_enc_string(name, b, pos + 4);
        },
    }
}

/// The face codec round-trips at any position, for well-formed faces.
pub proof fn lemma_dec_enc_face(f: SpecFaceData, b: Seq<u8>, pos: int)
    requires
        0 <= pos,
        wf_face(f),
        pos + enc_face(f).len() <= b.len(),
        b.subrange(pos, pos + enc_face(f).len()) == enc_face(f),
    ensures
        dec_face(b, pos) == Some((f, pos + enc_face(f).len())),
{
    lemma_int_codecs();
    let e1 = enc_u32(f.ephemeral_id);
    let e2 = enc_pid(f.persistent_id);
    let e3 = enc_u32(f.head_position.x);
    let e4 = enc_u32(f.head_position.y);
    let e5 = enc_u32(f.head_rotation.x);
    let e6 = enc_u32(f.head_rotation.y);
    let e7 = enc_u32(f.head_rotation.z);
    let e8 = enc_u32(f.head_rotation.w);
    let e9 = enc_opt_eye(f.left_eye);
    let e10 = enc_opt_eye(f.right_eye);
    assert(enc_face(f) =~= e1 + (e2 + (e3 + (e4 + (e5 + (e6 + (e7 + (e8 + (e9 + e10)))))))));
    lemma_split2(b, pos, e1, e2 + (e3 + (e4 + (e5 + (e6 + (e7 + (e8 + (e9 + e10))))))));
    lemma_dec_enc_u32(f.ephemeral_id, b, pos);
    let p1 = pos + 4;
    lemma_split2(b, p1, e2, e3 + (e4 + (e5 + (e6 + (e7 + (e8 + (e9 + e10)))))));
    lemma_dec_enc_pid(f.persistent_id, b, p1);
    let p2 = p1 + e2.len();
    lemma_split2(b, p2, e3, e4 + (e5 + (e6 + (e7 + (e8 + (e9 + e10))))));
    lemma_dec_enc_u32(f.head_position.x, b, p2);
    let p3 = p2 + 4;
    lemma_split2(b, p3, e4, e5 + (e6 + (e7 + (e8 + (e9 + e10)))));
    lemma_dec_enc_u32(f.head_position.y, b, p3);
    let p4 = p3 + 4;
    lemma_split2(b, p4, e5, e6 + (e7 + (e8 + (e9 + e10))));
    lemma_dec_enc_u32(f.head_rotation.x, b, p4);
    let p5 = p4 + 4;
    lemma_split2(b, p5, e6, e7 + (e8 + (e9 + e10)));
    lemma_dec_enc_u32(f.head_rotation.y, b, p5);
    let p6 = p5 + 4;
    lemma_split2(b, p6, e7, e8 + (e9 + e10));
    lemma_dec_enc_u32(f.head_rotation.z, b, p6);
    let p7 = p6 + 4;
    lemma_split2(b, p7, e8, e9 + e10);
    lemma_dec_enc_u32(f.head_rotation.w, b, p7);
    let p8 = p7 + 4;
    lemma_split2(b, p8, e9, e10);
    lemma_dec_enc_opt_eye(f.left_eye, b, p8);
    let p9 = p8 + e9.len();
    lemma_dec_enc_opt_eye(f.right_eye, b, p9);
    assert(f == SpecFaceData {
        ephemeral_id: f.ephemeral_id,
        persistent_id: f.persistent_id,
        head_position: Vec2Bits { x: f.head_position.x, y: f.head_position.y },
        head_rotation: QuatBits {
            x: f.head_rotation.x,
            y: f.head_rotation.y,
            z: f.head_rotation.z,
            w: f.head_rotation.w,
        },
        left_eye: f.left_eye,
        right_eye: f.right_eye,
    });
}

/// The face-list codec round-trips at any position, for well-formed faces.
pub proof fn lemma_dec_enc_faces(fs: Seq<SpecFaceData>, b: Seq<u8>, pos: int)
    requires
        0 <= pos,
        forall|k: int| 0 <= k < fs.len() ==> wf_face(#[trigger] fs[k]),
        pos + enc_faces(fs).len() <= b.len(),
        b.subrange(pos, pos + enc_faces(fs).len()) == enc_faces(fs),
    ensures
        dec_faces(b, pos, fs.len()) == Some((fs, pos + enc_faces(fs).len())),
    decreases fs.len(),
{
    if fs.len() == 0 {
        assert(fs =~= Seq::<SpecFaceData>::empty());
    } else {
        let head = enc_face(fs[0]);
        let rest = enc_faces(fs.drop_first());
        assert(enc_faces(fs) == head + rest);
        lemma_split2(b, pos, head, rest);
        lemma_dec_enc_face(fs[0], b, pos);
        lemma_dec_enc_faces(fs.drop_first(), b, pos + head.len());
        assert(seq![fs[0]] + fs.drop_first() =~= fs);
    }
}

/// The message-body codec round-trips at any position, for well-formed
/// messages.
pub proof fn lemma_dec_enc_message(m: SpecTrackingMessage, b: Seq<u8>, pos: int)
    requires
        0 <= pos,
        wf_message(m),
        pos + enc_message(m).len() <= b.len(),
        b.subrange(pos, pos + enc_message(m).len()) == enc_message(m),
    ensures
        dec_message(b, pos) == Some((m, pos + enc_message(m).len())),
{
    lemma_int_codecs();
    let e1 = enc_u32(m.timestamp);
    let e2 = enc_u64(m.faces.len() as u64);
    let e3 = enc_faces(m.faces);
    assert(enc_message(m) =~= e1 + (e2 + e3));
    lemma_split2(b, pos, e1, e2 + e3);
    lemma_dec_enc_u32(m.timestamp, b, pos);
    lemma_split2(b, pos + 4, e2, e3);
    lemma_dec_enc_u64(m.faces.len() as u64, b, pos + 4);
    lemma_dec_enc_faces(m.faces, b, pos + 12);
    assert(m == SpecTrackingMessage { timestamp: m.timestamp, faces: m.faces });
}

/// Round-trip of the message codec: decoding an encoded well-formed message
/// gives the message back, bit for bit, consuming exactly its bytes.
pub proof fn lemma_message_round_trip(m: SpecTrackingMessage)
    requires
        wf_message(m),
    ensures
        dec_message(enc_message(m), 0) == Some((m, enc_message(m).len() as int)),
{
    let b = enc_message(m);
    assert(b.subrange(0, b.len() as int) =~= b);
    lemma_dec_enc_message(m, b, 0);
}

/// Encoding of a wire frame: fingerprint, body size, body.
pub open spec fn enc_frame(fp: u64, body: Seq<u8>) -> Seq<u8>
    recommends
        body.len() < 0x1_0000_0000,
{
    enc_u64(fp) + enc_u32(body.len() as u32) + body
}

/// Decodes one wire frame at `pos`, expecting the fingerprint `fp`. A frame
/// whose fingerprint differs is rejected without looking further; a frame
/// whose size field and body disagree, or whose body is malformed, is invalid
/// data; bytes that end before the frame does are truncated.
pub open spec fn dec_frame(b: Seq<u8>, pos: int, fp: u64) -> Result<
    (SpecTrackingMessage, int),
    DecodeError,
> {
    match dec_u64(b, pos) {
        None => Err(DecodeError::Truncated),
        Some((got, p1)) => if got != fp {
            Err(DecodeError::FingerprintMismatch)
        } else {
            match dec_u32(b, p1) {
                None => Err(DecodeError::Truncated),
                Some((size, p2)) => if p2 + size > b.len() {
                    Err(DecodeError::Truncated)
                } else {
                    match dec_message(b, p2) {
                        Some((m, p3)) => if p3 == p2 + size {
                            Ok((m, p3))
                        } else {
                            Err(DecodeError::InvalidData)
                        },
                        None => Err(DecodeError::InvalidData),
                    }
                },
            }
        },
    }
}

/// Encodes one message as a wire frame under the given fingerprint. Fails
/// exactly when the encoded body does not fit the 32-bit size field.
pub fn encode_frame(fp: u64, m: &TrackingMessage) -> (r: Option<Vec<u8>>)
    ensures
        match r {
            Some(v) => enc_message(m@).len() < 0x1_0000_0000 && v@ == enc_frame(
                fp,
                enc_message(m@),
            ),
            None => enc_message(m@).len() >= 0x1_0000_0000,
        },
{
    let body = encode_message(m);
    if (body.len() as u64) >= 0x1_0000_0000u64 {
        return None;
    }
    let mut out: Vec<u8> = Vec::new();
    put_u64(&mut out, fp);
    put_u32(&mut out, body.len() as u32);
    let mut body = body;
    out.append(&mut body);
    proof {
        assert(out@ =~= enc_frame(fp, enc_message(m@)));
    }
    Some(out)
}

/// Decodes one wire frame at the cursor. On success the cursor moves past
/// the frame; on failure it stays, and the error says whether the frame was
/// incomplete, carried a foreign fingerprint, or held invalid data.
pub fn decode_frame(b: &[u8], pos: &mut usize, fp: u64) -> (r: Result<TrackingMessage, DecodeError>)
    ensures
        match r {
            Ok(m) => dec_frame(b@, *old(pos) as int, fp) == Ok::<_, DecodeError>(
                (m@, *final(pos) as int),
            ) && wf_message(m@),
            Err(e) => dec_frame(b@, *old(pos) as int, fp) == Err::<(SpecTrackingMessage, int), _>(
                e,
            ) && *final(pos) == *old(pos),
        },
{
    let pos0 = *pos;
    let got = match read_u64(b, pos) {
        None => {
            return Err(DecodeError::Truncated);
        },
        Some(x) => x,
    };
    if got != fp {
        *pos = pos0;
        return Err(DecodeError::FingerprintMismatch);
    }
    let size = match read_u32(b, pos) {
        None => {
            *pos = pos0;
            return Err(DecodeError::Truncated);
        },
        Some(x) => x,
    };
    if (size as u64) > (b.len() - *pos) as u64 {
        *pos = pos0;
        return Err(DecodeError::Truncated);
    }
    let body_end: usize = *pos + (size as usize);
    match read_message(b, pos) {
        None => {
            *pos = pos0;
            Err(DecodeError::InvalidData)
        },
        Some(m) => {
            if *pos == body_end {
                proof {
                    lemma_dec_message_wf(b@, pos0 as int + 12);
                }
                Ok(m)
            } else {
                *pos = pos0;
                Err(DecodeError::InvalidData)
            }
        },
    }
}

/// A frame whose first eight bytes are not the expected fingerprint is
/// rejected as a fingerprint mismatch, whatever follows them.
pub proof fn lemma_frame_fingerprint_reject(b: Seq<u8>, pos: int, fp: u64, got: u64)
    requires
        dec_u64(b, pos) matches Some((g, _)) && g == got,
        got != fp,
    ensures
        dec_frame(b, pos, fp) == Err::<(SpecTrackingMessage, int), DecodeError>(
            DecodeError::FingerprintMismatch,
        ),
{
}

/// The frame codec round-trips at any position, for well-formed messages
/// whose body fits the size field.
pub proof fn lemma_dec_enc_frame(fp: u64, m: SpecTrackingMessage, b: Seq<u8>, pos: int)
    requires
        0 <= pos,
        wf_message(m),
        enc_message(m).len() < 0x1_0000_0000,
        pos + enc_frame(fp, enc_message(m)).len() <= b.len(),
        b.subrange(pos, pos + enc_frame(fp, enc_message(m)).len()) == enc_frame(
            fp,
            enc_message(m),
        ),
    ensures
        dec_frame(b, pos, fp) == Ok::<_, DecodeError>(
            (m, pos + enc_frame(fp, enc_message(m)).len()),
        ),
{
    lemma_int_codecs();
    let body = enc_message(m);
    let e1 = enc_u64(fp);
    let e2 = enc_u32(body.len() as u32);
    assert(enc_frame(fp, body) =~= e1 + (e2 + body));
    lemma_split2(b, pos, e1, e2 + body);
    lemma_dec_enc_u64(fp, b, pos);
    lemma_split2(b, pos + 8, e2, body);
    lemma_dec_enc_u32(body.len() as u32, b, pos + 8);
    lemma_dec_enc_message(m, b, pos + 12);
}

/// Round-trip of the frame codec: decoding an encoded frame under the same
/// fingerprint yields the message back and consumes exactly the frame.
pub proof fn lemma_frame_round_trip(fp: u64, m: SpecTrackingMessage)
    requires
        wf_message(m),
        enc_message(m).len() < 0x1_0000_0000,
    ensures
        dec_frame(enc_frame(fp, enc_message(m)), 0, fp) == Ok::<_, DecodeError>(
            (m, enc_frame(fp, enc_message(m)).len() as int),
        ),
{
    let b = enc_frame(fp, enc_message(m));
    assert(b.subrange(0, b.len() as int) =~= b);
    lemma_dec_enc_frame(fp, m, b, 0);
}

/// Encoding of one record of a recording: the microsecond inter-arrival
/// delay, then one wire frame.
pub open spec fn enc_record(delay: u64, fp: u64, m: SpecTrackingMessage) -> Seq<u8>
    recommends
        enc_message(m).len() < 0x1_0000_0000,
{
    enc_u64(delay) + enc_frame(fp, enc_message(m))
}

/// Decodes one record at `pos`.
pub open spec fn dec_record(b: Seq<u8>, pos: int, fp: u64) -> Result<
    ((u64, SpecTrackingMessage), int),
    DecodeError,
> {
    match dec_u64(b, pos) {
        None => Err(DecodeError::Truncated),
        Some((delay, p1)) => match dec_frame(b, p1, fp) {
            Ok((m, p2)) => Ok(((delay, m), p2)),
            Err(e) => Err(e),
        },
    }
}

/// Encodes one record of a recording. Fails exactly when the encoded body
/// does not fit the frame's 32-bit size field.
pub fn encode_record(delay: u64, fp: u64, m: &TrackingMessage) -> (r: Option<Vec<u8>>)
    ensures
        match r {
            Some(v) => enc_message(m@).len() < 0x1_0000_0000 && v@ == enc_record(delay, fp, m@),
            None => enc_message(m@).len() >= 0x1_0000_0000,
        },
{
    match encode_frame(fp, m) {
        None => None,
        Some(frame) => {
            let mut out: Vec<u8> = Vec::new();
            put_u64(&mut out, delay);
            let mut frame = frame;
            out.append(&mut frame);
            proof {
                assert(out@ =~= enc_record(delay, fp, m@));
            }
            Some(out)
        },
    }
}

/// Decodes one record at the cursor. On success the cursor moves past the
/// record; on failure it stays.
pub fn decode_record(b: &[u8], pos: &mut usize, fp: u64) -> (r: Result<
    (u64, TrackingMessage),
    DecodeError,
>)
    ensures
        match r {
            Ok((delay, m)) => dec_record(b@, *old(pos) as int, fp) == Ok::<_, DecodeError>(
                ((delay, m@), *final(pos) as int),
            ) && wf_message(m@),
            Err(e) => dec_record(b@, *old(pos) as int, fp) == Err::<
                ((u64, SpecTrackingMessage), int),
                _,
            >(e) && *final(pos) == *old(pos),
        },
{
    let pos0 = *pos;
    let delay = match read_u64(b, pos) {
        None => {
            return Err(DecodeError::Truncated);
        },
        Some(x) => x,
    };
    match decode_frame(b, pos, fp) {
        Ok(m) => Ok((delay, m)),
        Err(e) => {
            *pos = pos0;
            Err(e)
        },
    }
}

/// Encoding of a whole recording: records, one after the other.
pub open spec fn enc_records(rs: Seq<(u64, SpecTrackingMessage)>, fp: u64) -> Seq<u8>
    decreases rs.len(),
{
    if rs.len() == 0 {
        Seq::empty()
    } else {
        enc_record(rs[0].0, fp, rs[0].1) + enc_records(rs.drop_first(), fp)
    }
}

/// Decodes `n` records at `pos`.
pub open spec fn dec_records(b: Seq<u8>, pos: int, fp: u64, n: nat) -> Option<
    (Seq<(u64, SpecTrackingMessage)>, int),
>
    decreases n,
{
    if n == 0 {
        Some((Seq::empty(), pos))
    } else {
        match dec_record(b, pos, fp) {
            Err(_) => None,
            Ok((r, p1)) => match dec_records(b, p1, fp, (n - 1) as nat) {
                None => None,
                Some((rs, p2)) => Some((seq![r] + rs, p2)),
            },
        }
    }
}

/// The record codec round-trips at any position.
pub proof fn lemma_dec_enc_record(delay: u64, fp: u64, m: SpecTrackingMessage, b: Seq<u8>, pos: int)
    requires
        0 <= pos,
        wf_message(m),
        enc_message(m).len() < 0x1_0000_0000,
        pos + enc_record(delay, fp, m).len() <= b.len(),
        b.subrange(pos, pos + enc_record(delay, fp, m).len()) == enc_record(delay, fp, m),
    ensures
        dec_record(b, pos, fp) == Ok::<_, DecodeError>(
            ((delay, m), pos + enc_record(delay, fp, m).len()),
        ),
{
    lemma_int_codecs();
    let e1 = enc_u64(delay);
    let e2 = enc_frame(fp, enc_message(m));
    assert(enc_record(delay, fp, m) =~= e1 + e2);
    lemma_split2(b, pos, e1, e2);
    lemma_dec_enc_u64(delay, b, pos);
    lemma_dec_enc_frame(fp, m, b, pos + 8);
}

/// Every message of a recording is well-formed and its body fits a frame.
pub open spec fn wf_records(rs: Seq<(u64, SpecTrackingMessage)>) -> bool {
    forall|k: int|
        0 <= k < rs.len() ==> wf_message(#[trigger] rs[k].1) && enc_message(rs[k].1).len()
            < 0x1_0000_0000
}

/// The record-list codec round-trips at any position: a recording read back
/// under the fingerprint it was written with yields every record, in order.
pub proof fn lemma_dec_enc_records(rs: Seq<(u64, SpecTrackingMessage)>, fp: u64, b: Seq<u8>, pos: int)
    requires
        0 <= pos,
        wf_records(rs),
        pos + enc_records(rs, fp).len() <= b.len(),
        b.subrange(pos, pos + enc_records(rs, fp).len()) == enc_records(rs, fp),
    ensures
        dec_records(b, pos, fp, rs.len()) == Some((rs, pos + enc_records(rs, fp).len())),
    decreases rs.len(),
{
    if rs.len() == 0 {
        assert(rs =~= Seq::<(u64, SpecTrackingMessage)>::empty());
    } else {
        let head = enc_record(rs[0].0, fp, rs[0].1);
        let rest = enc_records(rs.drop_first(), fp);
        assert(enc_records(rs, fp) == head + rest);
        lemma_split2(b, pos, head, rest);
        lemma_dec_enc_record(rs[0].0, fp, rs[0].1, b, pos);
        lemma_dec_enc_records(rs.drop_first(), fp, b, pos + head.len());
        assert(seq![(rs[0].0, rs[0].1)] + rs.drop_first() =~= rs);
    }
}

/// Round-trip of a whole recording: replaying a recording of well-formed
/// messages yields the same delays and the same messages, in the same order.
pub proof fn lemma_record_round_trip(rs: Seq<(u64, SpecTrackingMessage)>, fp: u64)
    requires
        wf_records(rs),
    ensures
        dec_records(enc_records(rs, fp), 0, fp, rs.len()) == Some(
            (rs, enc_records(rs, fp).len() as int),
        ),
{
    let b = enc_records(rs, fp);
    assert(b.subrange(0, b.len() as int) =~= b);
    lemma_dec_enc_records(rs, fp, b, 0);
}

} // verus!
