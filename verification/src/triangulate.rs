//! The fixed topology of a triangulated eye, and the mirror flip applied to
//! every triangulated eye before it is published.
//!
//! Sixteen eye-contour landmarks are tessellated with a fixed strip of
//! fourteen triangles — nine vertices along the top of the eye, seven along
//! the bottom. The triangles are emitted clockwise; the horizontal mirror
//! flip turns them counter-clockwise, the winding the wire format promises.
//! The numeric part of triangulation — bounding box, normalization into a
//! centered cube, rotation into the head-local frame — is floating-point
//! geometry and happens outside the library; what arrives here are the
//! finished vertex coordinates as `f32` bit patterns.

use vstd::prelude::*;
use crate::data;
use crate::data::{Image, Mesh, SpecMesh, Vec3Bits, Vertex, wf_mesh};

verus! {

/// The IEEE-754 sign bit of a 32-bit float: flipping it negates the number.
pub const F32_SIGN_BIT: u32 = 0x8000_0000;

/// Which eye to extract from the face landmarks.
#[derive(Debug, Clone, Copy, PartialEq, Eq, Structural)]
pub enum Eye {
    Left,
    Right,
}

/// The fixed triangle strip over 16 eye-contour vertices, three indices per
/// triangle, clockwise on emission.
pub open spec fn eye_strip_indices() -> Seq<u16> {
    seq![
        0u16, 1, 15,
        1, 2, 15,
        15, 2, 14,
        2, 3, 14,
        14, 3, 13,
        3, 4, 13,
        13, 4, 12,
        4, 5, 12,
        12, 5, 11,
        5, 6, 11,
        11, 6, 10,
        6, 7, 10,
        10, 7, 9,
        7, 8, 9,
    ]
}

/// The eye strip is a whole number of triangles and stays within its 16
/// contour vertices, so a mesh of the strip over 16 vertices is well-formed.
pub proof fn lemma_eye_strip_wf(vertices: Seq<Vertex>)
    requires
        vertices.len() == 16,
    ensures
        wf_mesh(SpecMesh { vertices, indices: eye_strip_indices() }),
{
    let idx = eye_strip_indices();
    assert(idx.len() == 42);
    assert(forall|k: int| 0 <= k < 42 ==> (idx[k] as int) < 16);
}

/// Builds eye meshes: the indices are always the fixed strip, only the
/// vertices change from frame to frame.
pub struct Triangulator {
    pub mesh: Mesh,
}

impl Triangulator {
    /// A fresh triangulator: the fixed strip and no vertices yet.
    pub fn new() -> (r: Triangulator)
        ensures
            r.mesh.indices@ == eye_strip_indices(),
            r.mesh.vertices@ =~= Seq::<Vertex>::empty(),
    {
        let mut indices: Vec<u16> = Vec::new();
        indices.push(0);
        indices.push(1);
        indices.push(15);
        indices.push(1);
        indices.push(2);
        indices.push(15);
        indices.push(15);
        indices.push(2);
        indices.push(14);
        indices.push(2);
        indices.push(3);
        indices.push(14);
        indices.push(14);
        indices.push(3);
        indices.push(13);
        indices.push(3);
        indices.push(4);
        indices.push(13);
        indices.push(13);
        indices.push(4);
        indices.push(12);
        indices.push(4);
        indices.push(5);
        indices.push(12);
        indices.push(12);
        indices.push(5);
        indices.push(11);
        indices.push(5);
        indices.push(6);
        indices.push(11);
        indices.push(11);
        indices.push(6);
        indices.push(10);
        indices.push(6);
        indices.push(7);
        indices.push(10);
        indices.push(10);
        indices.push(7);
        indices.push(9);
        indices.push(7);
        indices.push(8);
        indices.push(9);
        proof {
            assert(indices@ =~= eye_strip_indices());
        }
        Triangulator { mesh: Mesh { vertices: Vec::new(), indices } }
    }
}

/// A vertex after the horizontal mirror flip: the X coordinate negated by
/// its sign bit, everything else kept.
pub open spec fn spec_flip_vertex(v: Vertex) -> Vertex {
    Vertex {
        position: Vec3Bits { x: v.position.x ^ F32_SIGN_BIT, y: v.position.y, z: v.position.z },
        uv: v.uv,
    }
}

/// One triangulated eye, ready to be flipped and turned into its wire form.
#[derive(Debug, Clone, PartialEq)]
pub struct TriangulatedEye {
    pub texture: Image,
    pub mesh: Mesh,
    /// Iris center in the head-local frame, `f32` bit patterns.
    pub iris_center: Vec3Bits,
    /// Mean distance from the iris center to its rim, an `f32` bit pattern.
    pub iris_radius: u32,
}

impl TriangulatedEye {
    /// Flips the mesh and the iris center so that the eye appears mirrored
    /// horizontally: every X coordinate is negated — for an IEEE-754 float,
    /// its sign bit flipped — and nothing else changes. Applied once before
    /// publishing, it also turns the strip's clockwise emission into the
    /// counter-clockwise winding of the wire format.
    pub fn flip_horizontal(self) -> (r: TriangulatedEye)
        ensures
            r.texture == self.texture,
            r.mesh.indices == self.mesh.indices,
            r.mesh.vertices@.len() == self.mesh.vertices@.len(),
            forall|k: int|
                0 <= k < self.mesh.vertices@.len() ==> r.mesh.vertices@[k] == spec_flip_vertex(
                    #[trigger] self.mesh.vertices@[k],
                ),
            r.iris_center == (Vec3Bits {
                x: self.iris_center.x ^ F32_SIGN_BIT,
                y: self.iris_center.y,
                z: self.iris_center.z,
            }),
            r.iris_radius == self.iris_radius,
    {
        let TriangulatedEye { texture, mesh, iris_center, iris_radius } = self;
        let Mesh { vertices, indices } = mesh;
        let mut flipped: Vec<Vertex> = Vec::new();
        let mut i: usize = 0;
        while i < vertices.len()
            invariant
                i <= vertices@.len(),
                flipped@.len() == i as nat,
                forall|k: int|
                    0 <= k < i ==> flipped@[k] == spec_flip_vertex(#[trigger] vertices@[k]),
            decreases vertices@.len() - i,
        {
            let v = vertices[i];
            flipped.push(
                Vertex {
                    position: Vec3Bits {
                        x: v.position.x ^ F32_SIGN_BIT,
                        y: v.position.y,
                        z: v.position.z,
                    },
                    uv: v.uv,
                },
            );
            i = i + 1;
        }
        TriangulatedEye {
            texture,
            mesh: Mesh { vertices: flipped, indices },
            iris_center: Vec3Bits {
                x: iris_center.x ^ F32_SIGN_BIT,
                y: iris_center.y,
                z: iris_center.z,
            },
            iris_radius,
        }
    }

    /// Rearranges the triangulated eye into its wire form, carrying every
    /// part over unchanged.
    pub fn into_message(self) -> (r: data::Eye)
        ensures
            r.texture == self.texture,
            r.mesh == self.mesh,
            r.iris_center == self.iris_center,
            r.iris_radius == self.iris_radius,
    {
        let TriangulatedEye { texture, mesh, iris_center, iris_radius } = self;
        data::Eye { texture, mesh, iris_center, iris_radius }
    }
}

/// Flipping a vertex twice gives the vertex back: the mirror is an
/// involution on the bit patterns.
pub proof fn lemma_flip_involution(v: Vertex)
    ensures
        spec_flip_vertex(spec_flip_vertex(v)) == v,
{
    let x = v.position.x;
    assert((x ^ 0x8000_0000u32) ^ 0x8000_0000u32 == x) by (bit_vector);
}

} // verus!
