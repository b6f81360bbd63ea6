//! The tracking data model: the message that travels on the wire and the
//! pieces it is made of.
//!
//! Every 32-bit floating-point quantity of the protocol (positions, rotation
//! quaternion, texture coordinates, iris measurements) is carried here as its
//! IEEE-754 bit pattern in a `u32`. The wire format stores exactly those four
//! bytes, so the bit pattern is the value as far as transport is concerned,
//! and round-trips are bitwise. Producers and consumers convert between `f32`
//! and bits at the edge.
//!
//! Each type has a spec-level mirror (`Spec*`) holding sequences instead of
//! vectors; the `View` impls connect the two. Well-formedness of a message is
//! the set of structural invariants the protocol promises: image data length
//! matches the dimensions, mesh indices come in whole triangles and stay in
//! bounds of the vertex list.

use vstd::prelude::*;
use vstd::utf8::encode_utf8;

verus! {

/// A 2D triangle mesh in counter-clockwise winding order.
#[derive(Debug, Clone, PartialEq)]
pub struct Mesh {
    pub vertices: Vec<Vertex>,
    /// Triangle list: three entries per triangle, each an index into
    /// `vertices`.
    pub indices: Vec<u16>,
}

/// One mesh vertex: a 3D position and a texture coordinate, each component an
/// `f32` bit pattern.
#[derive(Debug, Clone, Copy, PartialEq)]
pub struct Vertex {
    pub position: Vec3Bits,
    pub uv: Vec2Bits,
}

/// Two `f32` bit patterns: a 2D point or texture coordinate.
#[derive(Debug, Clone, Copy, PartialEq)]
pub struct Vec2Bits {
    pub x: u32,
    pub y: u32,
}

/// Three `f32` bit patterns: a 3D point.
#[derive(Debug, Clone, Copy, PartialEq)]
pub struct Vec3Bits {
    pub x: u32,
    pub y: u32,
    pub z: u32,
}

/// Four `f32` bit patterns: a quaternion `(x, y, z, w)`.
#[derive(Debug, Clone, Copy, PartialEq)]
pub struct QuatBits {
    pub x: u32,
    pub y: u32,
    pub z: u32,
    pub w: u32,
}

/// An RGBA image, row-major, top-left origin: exactly `4 * width * height`
/// bytes of data.
#[derive(Debug, Clone, PartialEq)]
pub struct Image {
    pub width: u32,
    pub height: u32,
    pub data: Vec<u8>,
}

/// Everything the protocol carries about one eye: a texture cropped from the
/// camera image, the triangulated mesh over it, and the iris measurements
/// (present even when the iris is not visible).
#[derive(Debug, Clone, PartialEq)]
pub struct Eye {
    pub texture: Image,
    pub mesh: Mesh,
    /// Iris center in head-local coordinates, `f32` bit patterns.
    pub iris_center: Vec3Bits,
    /// Mean distance from the iris center to its rim, an `f32` bit pattern.
    pub iris_radius: u32,
}

/// A manually assigned, persistent identity of a tracked person.
#[derive(Debug, Clone, PartialEq)]
pub enum PersistentId {
    /// Identification is still running in the background.
    InProgress,
    /// Persistent identities are disabled or cannot currently be computed.
    Unavailable,
    /// The person is not known to the tracker.
    Unknown,
    /// The person has been identified by this name.
    Available(String),
}

/// Tracking data for a single face currently in view.
#[derive(Debug, Clone, PartialEq)]
pub struct FaceData {
    /// Unique among the faces currently in view; unstable across tracking
    /// loss.
    pub ephemeral_id: u32,
    pub persistent_id: PersistentId,
    /// XY position of the face center in range 0..1 (X right, Y down), `f32`
    /// bit patterns.
    pub head_position: Vec2Bits,
    /// Head rotation quaternion `(x, y, z, w)`, `f32` bit patterns.
    pub head_rotation: QuatBits,
    pub left_eye: Option<Eye>,
    pub right_eye: Option<Eye>,
}

/// The top-level protocol message: a timestamp and the faces in view.
#[derive(Debug, Clone, PartialEq)]
pub struct TrackingMessage {
    /// Microseconds since an unspecified epoch; wraps at `u32::MAX`.
    pub timestamp: u32,
    pub faces: Vec<FaceData>,
}

/// Spec mirror of [`Image`].
pub struct SpecImage {
    pub width: u32,
    pub height: u32,
    pub data: Seq<u8>,
}

/// Spec mirror of [`Mesh`].
pub struct SpecMesh {
    pub vertices: Seq<Vertex>,
    pub indices: Seq<u16>,
}

/// Spec mirror of [`Eye`].
pub struct SpecEye {
    pub texture: SpecImage,
    pub mesh: SpecMesh,
    pub iris_center: Vec3Bits,
    pub iris_radius: u32,
}

/// Spec mirror of [`PersistentId`].
pub enum SpecPersistentId {
    InProgress,
    Unavailable,
    Unknown,
    Available(Seq<char>),
}

/// Spec mirror of [`FaceData`].
pub struct SpecFaceData {
    pub ephemeral_id: u32,
    pub persistent_id: SpecPersistentId,
    pub head_position: Vec2Bits,
    pub head_rotation: QuatBits,
    pub left_eye: Option<SpecEye>,
    pub right_eye: Option<SpecEye>,
}

/// Spec mirror of [`TrackingMessage`].
pub struct SpecTrackingMessage {
    pub timestamp: u32,
    pub faces: Seq<SpecFaceData>,
}

impl View for Image {
    type V = SpecImage;

    open spec fn view(&self) -> SpecImage {
        SpecImage { width: self.width, height: self.height, data: self.data@ }
    }
}

impl View for Mesh {
    type V = SpecMesh;

    open spec fn view(&self) -> SpecMesh {
        SpecMesh { vertices: self.vertices@, indices: self.indices@ }
    }
}

impl View for Eye {
    type V = SpecEye;

    open spec fn view(&self) -> SpecEye {
        SpecEye {
            texture: self.texture@,
            mesh: self.mesh@,
            iris_center: self.iris_center,
            iris_radius: self.iris_radius,
        }
    }
}

impl View for PersistentId {
    type V = SpecPersistentId;

    open spec fn view(&self) -> SpecPersistentId {
        match self {
            PersistentId::InProgress => SpecPersistentId::InProgress,
            PersistentId::Unavailable => SpecPersistentId::Unavailable,
            PersistentId::Unknown => SpecPersistentId::Unknown,
            PersistentId::Available(name) => SpecPersistentId::Available(name@),
        }
    }
}

impl View for FaceData {
    type V = SpecFaceData;

    open spec fn view(&self) -> SpecFaceData {
        SpecFaceData {
            ephemeral_id: self.ephemeral_id,
            persistent_id: self.persistent_id@,
            head_position: self.head_position,
            head_rotation: self.head_rotation,
            left_eye: match self.left_eye {
                Some(e) => Some(e@),
                None => None,
            },
            right_eye: match self.right_eye {
                Some(e) => Some(e@),
                None => None,
            },
        }
    }
}

impl View for TrackingMessage {
    type V = SpecTrackingMessage;

    open spec fn view(&self) -> SpecTrackingMessage {
        SpecTrackingMessage {
            timestamp: self.timestamp,
            faces: self.faces@.map_values(|f: FaceData| f@),
        }
    }
}

/// The image's data length matches its dimensions: 4 bytes (RGBA) per pixel.
pub open spec fn wf_image(i: SpecImage) -> bool {
    &&& i.data.len() == 4 * (i.width as int) * (i.height as int)
    &&& i.data.len() < 0x1_0000_0000_0000_0000
}

/// The mesh is a whole number of triangles and every index points at an
/// existing vertex.
pub open spec fn wf_mesh(m: SpecMesh) -> bool {
    &&& m.indices.len() % 3 == 0
    &&& forall|k: int| 0 <= k < m.indices.len() ==> (m.indices[k] as int) < m.vertices.len()
    &&& m.vertices.len() < 0x1_0000_0000_0000_0000
    &&& m.indices.len() < 0x1_0000_0000_0000_0000
}

/// Both parts of the eye are well-formed.
pub open spec fn wf_eye(e: SpecEye) -> bool {
    wf_image(e.texture) && wf_mesh(e.mesh)
}

/// The identity's name is short enough for its length prefix.
pub open spec fn wf_persistent_id(p: SpecPersistentId) -> bool {
    match p {
        SpecPersistentId::Available(name) => encode_utf8(name).len() < 0x1_0000_0000_0000_0000,
        _ => true,
    }
}

/// Every part of the face that is present is well-formed.
pub open spec fn wf_face(f: SpecFaceData) -> bool {
    &&& wf_persistent_id(f.persistent_id)
    &&& match f.left_eye {
        Some(e) => wf_eye(e),
        None => true,
    }
    &&& match f.right_eye {
        Some(e) => wf_eye(e),
        None => true,
    }
}

/// The structural invariants the protocol promises of every message on the
/// wire.
pub open spec fn wf_message(m: SpecTrackingMessage) -> bool {
    &&& m.faces.len() < 0x1_0000_0000_0000_0000
    &&& forall|k: int| 0 <= k < m.faces.len() ==> wf_face(#[trigger] m.faces[k])
}

} // verus!
