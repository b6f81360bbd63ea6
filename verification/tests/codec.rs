use providence::codec::{
    decode_frame, decode_message, decode_record, encode_frame, encode_message, encode_record,
    DecodeError,
};
use providence::data::{
    Eye, FaceData, Image, Mesh, PersistentId, QuatBits, TrackingMessage, Vec2Bits, Vec3Bits,
    Vertex,
};
use providence::fingerprint::message_fingerprint;

fn test_eye() -> Eye {
    Eye {
        texture: Image { width: 1, height: 1, data: vec![0, 1, 2, 3] },
        mesh: Mesh {
            vertices: vec![
                Vertex {
                    position: Vec3Bits {
                        x: 0.0f32.to_bits(),
                        y: (-1.0f32).to_bits(),
                        z: 0.5f32.to_bits(),
                    },
                    uv: Vec2Bits { x: 1.0f32.to_bits(), y: 0.5f32.to_bits() },
                };
                3
            ],
            indices: vec![0, 1, 2],
        },
        iris_center: Vec3Bits { x: 0, y: 0, z: 0 },
        iris_radius: 0.25f32.to_bits(),
    }
}

fn echo_message() -> TrackingMessage {
    TrackingMessage {
        timestamp: 1,
        faces: vec![FaceData {
            ephemeral_id: 123,
            persistent_id: PersistentId::Unknown,
            head_position: Vec2Bits { x: 1.0f32.to_bits(), y: 2.0f32.to_bits() },
            head_rotation: QuatBits { x: 0, y: 0, z: 0, w: 0 },
            left_eye: Some(test_eye()),
            right_eye: Some(test_eye()),
        }],
    }
}

#[test]
fn echo_message_roundtrip() {
    let m = echo_message();
    let fp = message_fingerprint();
    let frame = encode_frame(fp, &m).unwrap();
    let mut pos = 0usize;
    let decoded = decode_frame(&frame, &mut pos, fp).unwrap();
    assert_eq!(pos, frame.len());
    assert_eq!(decoded, m);
}

#[test]
fn empty_message_roundtrip() {
    let m = TrackingMessage { timestamp: 0, faces: Vec::new() };
    let body = encode_message(&m);
    // timestamp + face count and nothing else
    assert_eq!(body.len(), 4 + 8);
    let decoded = decode_message(&body).unwrap();
    assert_eq!(decoded, m);
}

#[test]
fn named_identity_roundtrip() {
    let mut m = echo_message();
    m.faces[0].persistent_id = PersistentId::Available(String::from("Ada Lovelace \u{1F600}"));
    let body = encode_message(&m);
    let decoded = decode_message(&body).unwrap();
    assert_eq!(decoded, m);
}

#[test]
fn all_identity_variants_roundtrip() {
    for pid in [
        PersistentId::InProgress,
        PersistentId::Unavailable,
        PersistentId::Unknown,
        PersistentId::Available(String::new()),
    ] {
        let mut m = echo_message();
        m.faces[0].persistent_id = pid;
        let body = encode_message(&m);
        assert_eq!(decode_message(&body).unwrap(), m);
    }
}

#[test]
fn fingerprint_reject() {
    let m = echo_message();
    let fp = message_fingerprint();
    let frame = encode_frame(0xDEAD_BEEF_DEAD_BEEF, &m).unwrap();
    let mut pos = 0usize;
    assert_eq!(decode_frame(&frame, &mut pos, fp), Err(DecodeError::FingerprintMismatch));
    assert_eq!(pos, 0);
}

#[test]
fn truncated_frame() {
    let m = echo_message();
    let fp = message_fingerprint();
    let frame = encode_frame(fp, &m).unwrap();
    let cut = &frame[..frame.len() - 1];
    let mut pos = 0usize;
    assert_eq!(decode_frame(cut, &mut pos, fp), Err(DecodeError::Truncated));
    assert_eq!(pos, 0);
    let mut pos = 0usize;
    assert_eq!(decode_frame(&frame[..4], &mut pos, fp), Err(DecodeError::Truncated));
}

#[test]
fn invalid_image_rejected() {
    // the encoder writes whatever it is given; the decoder refuses an image
    // whose data length does not match its dimensions
    let mut m = echo_message();
    let eye = m.faces[0].left_eye.as_mut().unwrap();
    eye.texture = Image { width: 2, height: 2, data: vec![0, 1, 2] };
    let fp = message_fingerprint();
    let frame = encode_frame(fp, &m).unwrap();
    let mut pos = 0usize;
    assert_eq!(decode_frame(&frame, &mut pos, fp), Err(DecodeError::InvalidData));
    assert_eq!(pos, 0);
}

#[test]
fn invalid_mesh_rejected() {
    // an index past the vertex list
    let mut m = echo_message();
    let eye = m.faces[0].left_eye.as_mut().unwrap();
    eye.mesh.indices = vec![0, 1, 3];
    let body = encode_message(&m);
    assert_eq!(decode_message(&body), Err(DecodeError::InvalidData));
    // a partial triangle
    let eye = m.faces[0].left_eye.as_mut().unwrap();
    eye.mesh.indices = vec![0, 1];
    let body = encode_message(&m);
    assert_eq!(decode_message(&body), Err(DecodeError::InvalidData));
}

#[test]
fn trailing_bytes_rejected() {
    let m = echo_message();
    let mut body = encode_message(&m);
    body.push(0);
    assert_eq!(decode_message(&body), Err(DecodeError::InvalidData));
}

#[test]
fn garbage_rejected() {
    assert!(decode_message(&[1, 2, 3]).is_err());
    let mut pos = 0usize;
    assert!(decode_frame(&[], &mut pos, 7).is_err());
}

#[test]
fn three_records() {
    // a recording of three frames at 10 ms, 20 ms, 30 ms inter-arrival reads
    // back as the same three frames, in order, with the same delays
    let fp = message_fingerprint();
    let mut m1 = echo_message();
    m1.timestamp = 10;
    let mut m2 = echo_message();
    m2.timestamp = 20;
    m2.faces[0].persistent_id = PersistentId::Available(String::from("n"));
    let mut m3 = echo_message();
    m3.timestamp = 30;
    m3.faces.clear();
    let delays = [10_000u64, 20_000, 30_000];
    let msgs = [m1, m2, m3];
    let mut file: Vec<u8> = Vec::new();
    for (delay, m) in delays.iter().zip(msgs.iter()) {
        file.extend_from_slice(&encode_record(*delay, fp, m).unwrap());
    }
    let mut pos = 0usize;
    for (delay, m) in delays.iter().zip(msgs.iter()) {
        let (d, decoded) = decode_record(&file, &mut pos, fp).unwrap();
        assert_eq!(d, *delay);
        assert_eq!(&decoded, m);
    }
    assert_eq!(pos, file.len());
    // the next read reports the clean end of the recording
    assert_eq!(decode_record(&file, &mut pos, fp), Err(DecodeError::Truncated));
}
