use providence::data::{Image, Mesh, Vec2Bits, Vec3Bits, Vertex};
use providence::triangulate::{TriangulatedEye, Triangulator, F32_SIGN_BIT};

const EYE_STRIP: [u16; 42] = [
    0, 1, 15, 1, 2, 15, 15, 2, 14, 2, 3, 14, 14, 3, 13, 3, 4, 13, 13, 4, 12, 4, 5, 12, 12, 5, 11,
    5, 6, 11, 11, 6, 10, 6, 7, 10, 10, 7, 9, 7, 8, 9,
];

#[test]
fn fixed_topology() {
    let tri = Triangulator::new();
    assert_eq!(tri.mesh.indices, EYE_STRIP.to_vec());
    assert!(tri.mesh.vertices.is_empty());
    // whole triangles, every index within the 16 contour vertices
    assert_eq!(tri.mesh.indices.len() % 3, 0);
    assert!(tri.mesh.indices.iter().all(|&i| i < 16));
}

fn sample_eye() -> TriangulatedEye {
    TriangulatedEye {
        texture: Image { width: 1, height: 1, data: vec![9, 9, 9, 9] },
        mesh: Mesh {
            vertices: vec![
                Vertex {
                    position: Vec3Bits {
                        x: 0.5f32.to_bits(),
                        y: 0.25f32.to_bits(),
                        z: (-0.125f32).to_bits(),
                    },
                    uv: Vec2Bits { x: 0.0f32.to_bits(), y: 1.0f32.to_bits() },
                },
                Vertex {
                    position: Vec3Bits {
                        x: (-2.0f32).to_bits(),
                        y: 0.0f32.to_bits(),
                        z: 3.0f32.to_bits(),
                    },
                    uv: Vec2Bits { x: 1.0f32.to_bits(), y: 0.0f32.to_bits() },
                },
            ],
            indices: vec![0, 1, 0],
        },
        iris_center: Vec3Bits { x: 1.5f32.to_bits(), y: 0.5f32.to_bits(), z: 0.5f32.to_bits() },
        iris_radius: 0.25f32.to_bits(),
    }
}

#[test]
fn flip_negates_x() {
    let eye = sample_eye();
    let flipped = eye.clone().flip_horizontal();
    // flipping the sign bit is exactly float negation
    assert_eq!(F32_SIGN_BIT, 0x8000_0000);
    assert_eq!(flipped.mesh.vertices[0].position.x, (-0.5f32).to_bits());
    assert_eq!(flipped.mesh.vertices[1].position.x, 2.0f32.to_bits());
    assert_eq!(flipped.iris_center.x, (-1.5f32).to_bits());
    // everything but the X coordinates is kept
    assert_eq!(flipped.mesh.vertices[0].position.y, eye.mesh.vertices[0].position.y);
    assert_eq!(flipped.mesh.vertices[0].position.z, eye.mesh.vertices[0].position.z);
    assert_eq!(flipped.mesh.vertices[0].uv, eye.mesh.vertices[0].uv);
    assert_eq!(flipped.mesh.indices, eye.mesh.indices);
    assert_eq!(flipped.texture, eye.texture);
    assert_eq!(flipped.iris_center.y, eye.iris_center.y);
    assert_eq!(flipped.iris_radius, eye.iris_radius);
}

#[test]
fn flip_twice_is_identity() {
    let eye = sample_eye();
    let back = eye.clone().flip_horizontal().flip_horizontal();
    assert_eq!(back, eye);
}

#[test]
fn into_message_carries_everything() {
    let eye = sample_eye();
    let msg = eye.clone().into_message();
    assert_eq!(msg.texture, eye.texture);
    assert_eq!(msg.mesh, eye.mesh);
    assert_eq!(msg.iris_center, eye.iris_center);
    assert_eq!(msg.iris_radius, eye.iris_radius);
}
