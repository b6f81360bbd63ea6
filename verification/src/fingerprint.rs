//! The structural fingerprint: a 64-bit digest of the message type's
//! serialization shape, carried at the head of every wire frame so that a
//! publisher and a subscriber built against different message layouts refuse
//! each other at connect time.
//!
//! A type's shape is first written down as a stream of structure tokens —
//! one tag byte per primitive or composite kind, and for a struct its field
//! count followed by each length-prefixed field name — and the stream is
//! hashed with FNV-1a. Both halves are deterministic functions, so the
//! fingerprint of the message type is one fixed value for a given build, and
//! any change to a field name, a field order or a primitive kind changes the
//! token stream.
//!
//! A sequence token carries no element tokens and an option token no inner
//! tokens: the fingerprint covers the top-level shape exactly as deep as the
//! serialization framework walks it when it is driven without data.

use vstd::prelude::*;
use crate::codec::{enc_string, enc_u64, put_string, put_u64};

verus! {

/// FNV-1a 64-bit offset basis.
pub const FNV_OFFSET: u64 = 0xcbf2_9ce4_8422_2325;

/// FNV-1a 64-bit prime.
pub const FNV_PRIME: u64 = 0x0000_0100_0000_01b3;

/// Structure tag: `bool`.
pub const TAG_BOOL: u8 = 1;

/// Structure tag: `i8`.
pub const TAG_I8: u8 = 2;

/// Structure tag: `i16`.
pub const TAG_I16: u8 = 3;

/// Structure tag: `i32`.
pub const TAG_I32: u8 = 4;

/// Structure tag: `i64`.
pub const TAG_I64: u8 = 5;

/// Structure tag: `u8`.
pub const TAG_U8: u8 = 6;

/// Structure tag: `u16`.
pub const TAG_U16: u8 = 7;

/// Structure tag: `u32`.
pub const TAG_U32: u8 = 8;

/// Structure tag: `u64`.
pub const TAG_U64: u8 = 9;

/// Structure tag: `f32`.
pub const TAG_F32: u8 = 10;

/// Structure tag: `f64`.
pub const TAG_F64: u8 = 11;

/// Structure tag: `char`.
pub const TAG_CHAR: u8 = 12;

/// Structure tag: a string, owned or borrowed — one wire shape.
pub const TAG_STR: u8 = 13;

/// Structure tag: a byte string.
pub const TAG_BYTES: u8 = 14;

/// Structure tag: an optional value.
pub const TAG_OPTION: u8 = 15;

/// Structure tag: the unit value.
pub const TAG_UNIT: u8 = 16;

/// Structure tag: a unit struct.
pub const TAG_UNIT_STRUCT: u8 = 17;

/// Structure tag: a newtype struct.
pub const TAG_NEWTYPE_STRUCT: u8 = 18;

/// Structure tag: a sequence.
pub const TAG_SEQ: u8 = 19;

/// Structure tag: a tuple; followed by its length.
pub const TAG_TUPLE: u8 = 20;

/// Structure tag: a tuple struct; followed by its length.
pub const TAG_TUPLE_STRUCT: u8 = 21;

/// Structure tag: a map.
pub const TAG_MAP: u8 = 22;

/// Structure tag: a struct; followed by its field count and field names.
pub const TAG_STRUCT: u8 = 23;

/// Structure tag: an enum; followed by its variant count and variant names.
pub const TAG_ENUM: u8 = 24;

/// Structure tag: an identifier.
pub const TAG_IDENTIFIER: u8 = 25;

/// One FNV-1a step: fold one byte into the accumulator.
pub open spec fn fnv1a_step(acc: u64, byte: u8) -> u64 {
    (acc ^ (byte as u64)).wrapping_mul(FNV_PRIME)
}

/// FNV-1a over a byte sequence, starting from `acc`.
pub open spec fn fnv1a(acc: u64, tokens: Seq<u8>) -> u64
    decreases tokens.len(),
{
    if tokens.len() == 0 {
        acc
    } else {
        fnv1a(fnv1a_step(acc, tokens[0]), tokens.drop_first())
    }
}

/// The hash of a token stream: FNV-1a from the offset basis.
pub open spec fn spec_fp_hash(tokens: Seq<u8>) -> u64 {
    fnv1a(FNV_OFFSET, tokens)
}

/// Hashes a structure token stream with FNV-1a. The same stream always gives
/// the same value.
pub fn fp_hash(tokens: &Vec<u8>) -> (r: u64)
    ensures
        r == spec_fp_hash(tokens@),
{
    let mut acc: u64 = FNV_OFFSET;
    let mut i: usize = 0;
    proof {
        assert(tokens@.skip(0) =~= tokens@);
    }
    while i < tokens.len()
        invariant
            i <= tokens@.len(),
            spec_fp_hash(tokens@) == fnv1a(acc, tokens@.skip(i as int)),
        decreases tokens@.len() - i,
    {
        proof {
            assert(tokens@.skip(i as int)[0] == tokens@[i as int]);
            assert(tokens@.skip(i as int).drop_first() =~= tokens@.skip(i as int + 1));
        }
        acc = (acc ^ (tokens[i] as u64)).wrapping_mul(FNV_PRIME);
        i = i + 1;
    }
    proof {
        assert(tokens@.skip(tokens@.len() as int) =~= Seq::<u8>::empty());
    }
    acc
}

/// The structure token stream of the tracking message type: a struct with
/// the fields `timestamp` (a 32-bit integer) and `faces` (a sequence).
pub open spec fn spec_message_structure() -> Seq<u8> {
    seq![TAG_STRUCT] + enc_u64(2) + enc_string("timestamp"@) + enc_string("faces"@)
        + seq![TAG_U32] + seq![TAG_SEQ]
}

/// Writes down the structure token stream of the tracking message type.
pub fn message_structure() -> (r: Vec<u8>)
    ensures
        r@ == spec_message_structure(),
{
    let mut out: Vec<u8> = Vec::new();
    out.push(TAG_STRUCT);
    put_u64(&mut out, 2);
    put_string(&mut out, "timestamp");
    put_string(&mut out, "faces");
    out.push(TAG_U32);
    out.push(TAG_SEQ);
    proof {
        assert(out@ =~= spec_message_structure());
    }
    out
}

/// The structural fingerprint of the tracking message type: one fixed value,
/// the hash of one fixed token stream, so every call in every process of the
/// same build returns the same fingerprint.
pub fn message_fingerprint() -> (r: u64)
    ensures
        r == spec_fp_hash(spec_message_structure()),
{
    let tokens = message_structure();
    fp_hash(&tokens)
}

/// The fingerprint is deterministic: any two values that
/// [`message_fingerprint`] can return — in this process or another of the
/// same build — are the same value, since each equals the hash of the one
/// fixed token stream.
pub proof fn lemma_fingerprint_deterministic(a: u64, b: u64)
    requires
        a == spec_fp_hash(spec_message_structure()),
        b == spec_fp_hash(spec_message_structure()),
    ensures
        a == b,
{
}

} // verus!
