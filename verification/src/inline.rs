//! Inline objects placed on the terminal grid.

use vstd::prelude::*;

verus! {

/// Pixels of an inline image. `H` is the handle of the uploaded texture.
pub struct RasterObject<H> {
    /// Image width in pixels.
    pub width: u32,
    /// Image height in pixels.
    pub height: u32,
    /// RGBA image bytes.
    pub rgba: Vec<u8>,
    /// Texture handle, once the image has been uploaded.
    pub handle: Option<H>,
}

/// An inline object that came from the Kitty graphics protocol. `P` is the
/// handle of its plane mesh.
pub struct KittyInlineObject<H, P> {
    /// Decoded pixels.
    pub raster: RasterObject<H>,
    /// Whether the object is placed by placeholder cells.
    pub uses_placeholders: bool,
    /// Plane mesh, once it has been built.
    pub plane: Option<P>,
}

/// A registered inline object. `R` is the kind of three-dimensional objects.
pub enum InlineObject<H, P, R> {
    /// Image of the Kitty graphics protocol.
    KittyImage(KittyInlineObject<H, P>),
    /// Three-dimensional object.
    RgpObject(R),
}

/// A three-dimensional inline object. `M` is a mesh, `H` the handle of an uploaded
/// mesh and `G` the handle of a scene.
pub enum RgpInlineObject<M, H, G> {
    /// Parts of an OBJ model.
    Obj {
        /// Source meshes.
        meshes: Vec<M>,
        /// Uploaded meshes, with the depth they were extruded by.
        handles: Option<(u32, Vec<H>)>,
    },
    /// A glTF scene.
    Gltf {
        /// Path below the asset root.
        asset_path: String,
        /// Scene handle, once it has been requested.
        handle: Option<G>,
    },
    /// An STL model.
    Stl {
        /// Source mesh.
        mesh: M,
        /// Uploaded mesh.
        handle: Option<H>,
    },
}

/// Whether uploaded meshes were extruded by a depth.
pub open spec fn extruded_by<H>(handles: Option<(u32, Vec<H>)>, depth_key: u32) -> bool {
    handles matches Some(uploaded) && uploaded.0 == depth_key
}

/// Uploaded meshes are used for the depth that they were extruded by and for no
/// other, and nothing is used where nothing was uploaded.
pub proof fn uploads_serve_one_depth<H>(uploaded: Vec<H>, depth_key: u32, other: u32)
    ensures
        extruded_by(Some((depth_key, uploaded)), depth_key),
        other != depth_key ==> !extruded_by(Some((depth_key, uploaded)), other),
        !extruded_by(None::<(u32, Vec<H>)>, other),
{
}

/// Tests whether uploaded meshes can be used for an extrusion depth.
pub fn reuses_handles<H>(handles: &Option<(u32, Vec<H>)>, depth_key: u32) -> (r: bool)
    ensures
        r == (handles matches Some((key, _)) && key == depth_key),
        r == extruded_by(*handles, depth_key),
{
    match handles {
        Some((key, _)) => *key == depth_key,
        None => false,
    }
}

/// Where an inline object sits on the terminal grid. `S` is its style.
pub struct InlineAnchor<S> {
    /// Anchor row.
    pub row: u16,
    /// Anchor column.
    pub col: u16,
    /// Object width in cells.
    pub columns: u32,
    /// Object height in cells.
    pub rows: u32,
    /// Presentation style.
    pub style: S,
}

} // verus!
