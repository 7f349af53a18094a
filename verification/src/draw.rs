//! Drawing bookkeeping shared with the platform layer: draw spaces, render
//! targets, texture arrays, and the vertex indices of line and quad meshes.
use vstd::prelude::*;

verus! {

/// Index of a vertex within a mesh.
pub type VertexIndex = u16;

/// The coordinate space something is drawn in.
#[derive(Debug, Clone, Copy, PartialEq, Eq)]
pub enum DrawSpace {
    World,
    Canvas,
    Debug,
}

/// A texture array that holds the atlas textures.
#[derive(Debug, Clone, PartialEq, Eq, Hash)]
pub struct TextureArrayInfo {
    pub id: u32,
    pub width: u16,
    pub height: u16,
    pub num_textures: u16,
    pub name: String,
}

/// An offscreen render target.
#[derive(Debug, Clone, PartialEq, Eq, Hash)]
pub struct FramebufferInfo {
    pub id: u32,
    pub width: u16,
    pub height: u16,
    pub name: String,
}

impl FramebufferInfo {
    /// A framebuffer description with every field zero or empty.
    pub fn empty() -> (r: FramebufferInfo)
        ensures
            r.id == 0,
            r.width == 0,
            r.height == 0,
            r.name@ == Seq::<char>::empty(),
    {
        FramebufferInfo { id: 0, width: 0, height: 0, name: String::new() }
    }
}

/// Whether a mesh is drawn as lines or as filled triangles.
#[derive(Debug, Copy, Clone, PartialEq, Eq)]
pub enum DrawMode {
    Lines,
    Fill,
}

/// Where drawing goes: the screen or an offscreen framebuffer.
#[derive(Debug, Clone)]
pub enum FramebufferTarget {
    Screen,
    Offscreen(FramebufferInfo),
}

/// The two vertex indices of a line whose vertices start at `first_vertex`.
pub fn line_indices(first_vertex: VertexIndex) -> (r: [VertexIndex; 2])
    requires
        first_vertex + 1 <= u16::MAX,
    ensures
        r@ == seq![first_vertex, (first_vertex + 1) as u16],
{
    let r = [first_vertex, first_vertex + 1];
    assert(r@ =~= seq![first_vertex, (first_vertex + 1) as u16]);
    r
}

/// The six vertex indices of the two triangles (0, 1, 2) and (2, 3, 0) of a
/// quad whose four vertices start at `first_vertex`.
pub fn quad_indices(first_vertex: VertexIndex) -> (r: [VertexIndex; 6])
    requires
        first_vertex + 3 <= u16::MAX,
    ensures
        r@ == seq![
            first_vertex,
            (first_vertex + 1) as u16,
            (first_vertex + 2) as u16,
            (first_vertex + 2) as u16,
            (first_vertex + 3) as u16,
            first_vertex,
        ],
{
    let r = [
        first_vertex,
        first_vertex + 1,
        first_vertex + 2,
        first_vertex + 2,
        first_vertex + 3,
        first_vertex,
    ];
    assert(r@ =~= seq![
        first_vertex,
        (first_vertex + 1) as u16,
        (first_vertex + 2) as u16,
        (first_vertex + 2) as u16,
        (first_vertex + 3) as u16,
        first_vertex,
    ]);
    r
}

/// The six vertex indices of quad number `quad_index` in a buffer that holds
/// four vertices per quad.
pub fn quad_indices_for_quad(quad_index: VertexIndex) -> (r: [VertexIndex; 6])
    requires
        4 * quad_index + 3 <= u16::MAX,
    ensures
        r@ == seq![
            (4 * quad_index) as u16,
            (4 * quad_index + 1) as u16,
            (4 * quad_index + 2) as u16,
            (4 * quad_index + 2) as u16,
            (4 * quad_index + 3) as u16,
            (4 * quad_index) as u16,
        ],
{
    quad_indices(4 * quad_index)
}

} // verus!
