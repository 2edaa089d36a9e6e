//! What is drawn: transforms, models, drawables, lights, and the per-frame
//! view with its list of visible parts.
//!
//! Transforms and scalars are carried as the bit patterns of their
//! single-precision floats; nothing here computes with them.

use vstd::prelude::*;

verus! {

/// The bit pattern of the float `1.0`.
pub const ONE_BITS: u32 = 0x3F80_0000;

/// The bit pattern of the float nearest to a quarter turn, the default field
/// of view.
pub const DEFAULT_FOV_BITS: u32 = 0x3FC9_0FDB;

/// The bit pattern of the float `0.1`, the default near plane.
pub const DEFAULT_NEAR_PLANE_BITS: u32 = 0x3DCC_CCCD;

/// The bit pattern of the float `100.0`, the default far plane.
pub const DEFAULT_FAR_PLANE_BITS: u32 = 0x42C8_0000;

/// Three floats, each as its bit pattern.
#[derive(Clone, Copy, Debug, PartialEq, Eq)]
pub struct Vector3 {
    pub x: u32,
    pub y: u32,
    pub z: u32,
}

/// A four by four matrix of floats, column after column, each as its bit
/// pattern.
#[derive(Clone, Copy, Debug, PartialEq, Eq)]
pub struct Matrix4 {
    pub cells: [u32; 16],
}

impl Matrix4 {
    /// The cells of the identity matrix.
    pub open spec fn identity_cells() -> Seq<u32> {
        Seq::new(
            16,
            |i: int|
                if i % 5 == 0 {
                    ONE_BITS
                } else {
                    0u32
                },
        )
    }

    /// The identity matrix.
    pub fn identity() -> (m: Matrix4)
        ensures
            m.cells@ == Matrix4::identity_cells(),
    {
        let m = Matrix4 {
            cells: [
                ONE_BITS,
                0,
                0,
                0,
                0,
                ONE_BITS,
                0,
                0,
                0,
                0,
                ONE_BITS,
                0,
                0,
                0,
                0,
                ONE_BITS,
            ],
        };
        proof {
            assert(m.cells@ =~= Matrix4::identity_cells());
        }
        m
    }

    /// The matrix with the given cells, column after column.
    pub fn from_cells(cells: [u32; 16]) -> (m: Matrix4)
        ensures
            m.cells == cells,
    {
        Matrix4 { cells }
    }

    /// The first three cells of the last column: where the transform puts
    /// the origin.
    pub open spec fn translation_spec(self) -> Vector3 {
        Vector3 { x: self.cells@[12], y: self.cells@[13], z: self.cells@[14] }
    }

    /// Where the transform puts the origin.
    pub fn translation(&self) -> (position: Vector3)
        ensures
            position == self.translation_spec(),
    {
        Vector3 { x: self.cells[12], y: self.cells[13], z: self.cells[14] }
    }
}

/// A run of indices of a mesh that is drawn with one material.
#[derive(Clone, Copy, Debug, PartialEq, Eq)]
pub struct MeshRange {
    pub start: u32,
    pub count: u32,
}

/// An axis-aligned box, its corners as bit patterns of floats.
#[derive(Clone, Copy, Debug, PartialEq, Eq)]
pub struct BoundingBox {
    pub min: Vector3,
    pub max: Vector3,
}

/// A model as a value: the parts of its mesh, the material key of each
/// part, and the mesh's bounding box where it has one.
pub struct ModelView {
    pub parts: Seq<MeshRange>,
    pub materials: Seq<u64>,
    pub bounding_box: Option<BoundingBox>,
}

impl ModelView {
    /// The model without parts and without a bounding box.
    pub open spec fn empty() -> ModelView {
        ModelView { parts: Seq::empty(), materials: Seq::empty(), bounding_box: None }
    }

    /// Each part has its material.
    pub open spec fn wf(self) -> bool {
        self.materials.len() == self.parts.len()
    }
}

/// A mesh with one material per part.
#[derive(Debug)]
pub struct RendererModel {
    parts: Vec<MeshRange>,
    materials: Vec<u64>,
    bounding_box: Option<BoundingBox>,
}

impl View for RendererModel {
    type V = ModelView;

    closed spec fn view(&self) -> ModelView {
        ModelView {
            parts: self.parts@,
            materials: self.materials@,
            bounding_box: self.bounding_box,
        }
    }
}

impl RendererModel {
    #[verifier::type_invariant]
    spec fn inv(self) -> bool {
        self.materials@.len() == self.parts@.len()
    }

    /// The model with the given parts and materials, if there is one
    /// material for each part.
    pub fn new(
        parts: Vec<MeshRange>,
        materials: Vec<u64>,
        bounding_box: Option<BoundingBox>,
    ) -> (model: Option<RendererModel>)
        ensures
            model is Some <==> parts@.len() == materials@.len(),
            model is Some ==> model->0@ == (ModelView {
                parts: parts@,
                materials: materials@,
                bounding_box,
            }),
    {
        if parts.len() != materials.len() {
            return None;
        }
        Some(RendererModel { parts, materials, bounding_box })
    }

    /// The parts of a model that is held in memory can be counted.
    pub proof fn lemma_fits(self)
        ensures
            self@.parts.len() <= usize::MAX,
    {
        assert(self.parts@.len() <= usize::MAX) by {
            vstd::std_specs::vec::axiom_spec_len(&self.parts);
        }
    }

    /// The model without parts and without a bounding box.
    pub fn empty() -> (model: RendererModel)
        ensures
            model@ == ModelView::empty(),
    {
        RendererModel { parts: Vec::new(), materials: Vec::new(), bounding_box: None }
    }

    /// Number of parts of the mesh.
    pub fn part_count(&self) -> (count: usize)
        ensures
            count == self@.parts.len(),
            self@.wf(),
    {
        proof {
            use_type_invariant(self);
        }
        self.parts.len()
    }

    /// The part with the given index.
    pub fn part(&self, index: usize) -> (part: MeshRange)
        requires
            index < self@.parts.len(),
        ensures
            part == self@.parts[index as int],
    {
        self.parts[index]
    }

    /// The material key of the part with the given index.
    pub fn material(&self, index: usize) -> (material: u64)
        requires
            index < self@.materials.len(),
        ensures
            material == self@.materials[index as int],
    {
        self.materials[index]
    }

    /// The bounding box of the mesh, where it has one.
    pub fn bounding_box(&self) -> (bounding_box: Option<BoundingBox>)
        ensures
            bounding_box == self@.bounding_box,
    {
        self.bounding_box
    }
}

/// A drawable as a value.
pub struct DrawableView {
    pub entity: u64,
    pub transform: Matrix4,
    pub old_transform: Matrix4,
    pub model: ModelView,
    pub receive_shadows: bool,
    pub cast_shadows: bool,
    pub can_move: bool,
}

/// An instance of a model in the scene.
#[derive(Debug)]
pub struct RendererStaticDrawable {
    pub entity: u64,
    pub transform: Matrix4,
    pub old_transform: Matrix4,
    pub model: RendererModel,
    pub receive_shadows: bool,
    pub cast_shadows: bool,
    pub can_move: bool,
}

impl View for RendererStaticDrawable {
    type V = DrawableView;

    open spec fn view(&self) -> DrawableView {
        DrawableView {
            entity: self.entity,
            transform: self.transform,
            old_transform: self.old_transform,
            model: self.model@,
            receive_shadows: self.receive_shadows,
            cast_shadows: self.cast_shadows,
            can_move: self.can_move,
        }
    }
}

/// A light that shines from one point.
#[derive(Clone, Copy, Debug, PartialEq, Eq)]
pub struct PointLight {
    pub entity: u64,
    pub position: Vector3,
    pub intensity: u32,
}

/// One draw call of a frame: a part of a drawable.
#[derive(Clone, Copy, Debug, PartialEq, Eq)]
pub struct DrawablePart {
    pub drawable_index: usize,
    pub part_index: usize,
}

/// The camera of a frame and the parts that it sees.
#[derive(Clone, Debug)]
pub struct FrameView {
    pub camera_transform: Matrix4,
    pub old_camera_transform: Matrix4,
    pub camera_fov: u32,
    pub near_plane: u32,
    pub far_plane: u32,
    pub drawable_parts: Vec<DrawablePart>,
}

impl Default for FrameView {
    /// The view of a camera at the origin that sees nothing yet.
    fn default() -> (view: FrameView)
        ensures
            view.camera_transform.cells@ == Matrix4::identity_cells(),
            view.old_camera_transform.cells@ == Matrix4::identity_cells(),
            view.camera_fov == DEFAULT_FOV_BITS,
            view.near_plane == DEFAULT_NEAR_PLANE_BITS,
            view.far_plane == DEFAULT_FAR_PLANE_BITS,
            view.drawable_parts@.len() == 0,
    {
        FrameView {
            camera_transform: Matrix4::identity(),
            old_camera_transform: Matrix4::identity(),
            camera_fov: DEFAULT_FOV_BITS,
            near_plane: DEFAULT_NEAR_PLANE_BITS,
            far_plane: DEFAULT_FAR_PLANE_BITS,
            drawable_parts: Vec::new(),
        }
    }
}

} // verus!
