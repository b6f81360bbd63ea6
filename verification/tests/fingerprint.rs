use providence::codec::{put_string, put_u64};
use providence::fingerprint::{
    fp_hash, message_fingerprint, message_structure, FNV_OFFSET, TAG_I8, TAG_SEQ, TAG_STR,
    TAG_STRUCT, TAG_U16, TAG_U32, TAG_U64, TAG_U8,
};

fn struct_tokens(fields: &[(&str, u8)]) -> Vec<u8> {
    let mut out = Vec::new();
    out.push(TAG_STRUCT);
    put_u64(&mut out, fields.len() as u64);
    for (name, _) in fields {
        put_string(&mut out, name);
    }
    for (_, tag) in fields {
        out.push(*tag);
    }
    out
}

#[test]
fn fingerprint_deterministic() {
    assert_eq!(message_fingerprint(), message_fingerprint());
    assert_eq!(fp_hash(&message_structure()), message_fingerprint());
}

#[test]
fn fingerprint_of_message_structure() {
    let tokens = message_structure();
    // a struct of two fields: a 32-bit timestamp and a sequence of faces
    let expected = struct_tokens(&[("timestamp", TAG_U32), ("faces", TAG_SEQ)]);
    assert_eq!(tokens, expected);
    assert_ne!(message_fingerprint(), FNV_OFFSET);
}

#[test]
fn field_name_change() {
    let s1 = struct_tokens(&[("a", TAG_U8), ("b", TAG_U32)]);
    let s2 = struct_tokens(&[("a", TAG_U8), ("c", TAG_U32)]);
    assert_ne!(fp_hash(&s1), fp_hash(&s2));
}

#[test]
fn string_ownership() {
    // an owned and a borrowed string have the same wire shape and carry the
    // same structure tag, so the fingerprints agree
    let s1 = struct_tokens(&[("a", TAG_U8), ("b", TAG_U32), ("c", TAG_STR)]);
    let s2 = struct_tokens(&[("a", TAG_U8), ("b", TAG_U32), ("c", TAG_STR)]);
    assert_eq!(fp_hash(&s1), fp_hash(&s2));
}

#[test]
fn struct_int_change() {
    let with_u8 = struct_tokens(&[("a", TAG_U8), ("b", TAG_U8), ("c", TAG_U64)]);
    let with_u16 = struct_tokens(&[("a", TAG_U8), ("b", TAG_U16), ("c", TAG_U64)]);
    let with_i8 = struct_tokens(&[("a", TAG_U8), ("b", TAG_I8), ("c", TAG_U64)]);
    assert_ne!(fp_hash(&with_u8), fp_hash(&with_u16));
    assert_ne!(fp_hash(&with_u8), fp_hash(&with_i8));
    assert_eq!(fp_hash(&with_u8), fp_hash(&with_u8));
}

#[test]
fn field_order_change() {
    let s1 = struct_tokens(&[("a", TAG_U8), ("b", TAG_U32)]);
    let s2 = struct_tokens(&[("b", TAG_U32), ("a", TAG_U8)]);
    assert_ne!(fp_hash(&s1), fp_hash(&s2));
}
