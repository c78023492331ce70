//! Finding and naming object assets.

use vstd::prelude::*;
use vstd::slice::slice_subrange;
use vstd::string::*;

use crate::inline::{InlineObject, RgpInlineObject};
use crate::text::{char_lower, chars_of, lower, lowered, same_text, string_of};

verus! {

/// Object file formats.
#[derive(Clone, Copy, PartialEq, Eq, Structural, Debug)]
pub enum ObjectFormat {
    /// Stereolithography.
    Stl,
    /// Wavefront OBJ.
    Obj,
    /// Binary glTF.
    Glb,
    /// Textual glTF.
    Gltf,
}

/// The format with a given lowercase name.
pub open spec fn format_named(name: Seq<char>) -> Option<ObjectFormat> {
    if name == "stl"@ {
        Some(ObjectFormat::Stl)
    } else if name == "obj"@ {
        Some(ObjectFormat::Obj)
    } else if name == "glb"@ {
        Some(ObjectFormat::Glb)
    } else if name == "gltf"@ {
        Some(ObjectFormat::Gltf)
    } else {
        None
    }
}

/// Looks up a format by its lowercase name.
fn named_format(name: &[char]) -> (format: Option<ObjectFormat>)
    ensures
        format == format_named(name@),
{
    if same_text(name, "stl") {
        Some(ObjectFormat::Stl)
    } else if same_text(name, "obj") {
        Some(ObjectFormat::Obj)
    } else if same_text(name, "glb") {
        Some(ObjectFormat::Glb)
    } else if same_text(name, "gltf") {
        Some(ObjectFormat::Gltf)
    } else {
        None
    }
}

/// The format that the extension of a file tells, in whatever case it is written.
pub open spec fn extension_format(extension: Seq<char>) -> Option<ObjectFormat> {
    format_named(lowered(extension))
}

/// Tells the format of a file by its extension, ignoring case.
pub fn file_format(extension: &str) -> (format: Option<ObjectFormat>)
    ensures
        format == format_named(lowered(extension@)),
        format == extension_format(extension@),
{
    let chars: Vec<char> = chars_of(extension);
    let mut name: Vec<char> = Vec::new();
    let mut i: usize = 0;
    while i < chars.len()
        invariant
            i <= chars.len(),
            name.len() == i,
            forall|k: int| 0 <= k < i ==> #[trigger] name[k] == lower(chars[k]),
        decreases chars.len() - i,
    {
        name.push(char_lower(chars[i]));
        i = i + 1;
    }
    assert(name@ =~= lowered(extension@));
    named_format(name.as_slice())
}

/// Tells the format of an inline payload by its name, which is in lowercase.
pub fn payload_format(format: &str) -> (named: Option<ObjectFormat>)
    ensures
        named == format_named(format@),
{
    named_format(chars_of(format).as_slice())
}

/// The extension of scene files.
pub open spec fn scene_extension(format: ObjectFormat) -> Seq<char> {
    if format == ObjectFormat::Gltf {
        "gltf"@
    } else {
        "glb"@
    }
}

/// A character that is safe in file names.
pub open spec fn safe_char(c: char) -> char {
    if 'a' <= c <= 'z' || 'A' <= c <= 'Z' || '0' <= c <= '9' || c == '-' || c == '_' {
        c
    } else {
        '_'
    }
}

/// A text with every unsafe character replaced by an underscore.
pub open spec fn sanitized(text: Seq<char>) -> Seq<char> {
    text.map_values(|c: char| safe_char(c))
}

/// Appends a text with every unsafe character replaced by an underscore.
fn push_sanitized(out: &mut Vec<char>, text: &[char])
    ensures
        final(out)@ == old(out)@ + sanitized(text@),
{
    let mut i: usize = 0;
    assert(old(out)@ + sanitized(text@.take(0)) =~= old(out)@);
    while i < text.len()
        invariant
            i <= text.len(),
            out@ == old(out)@ + sanitized(text@.take(i as int)),
        decreases text.len() - i,
    {
        let c: char = text[i];
        let safe = ('a' <= c && c <= 'z') || ('A' <= c && c <= 'Z') || ('0' <= c && c <= '9') || c
            == '-' || c == '_';
        out.push(
            if safe {
                c
            } else {
                '_'
            },
        );
        assert(sanitized(text@.take(i + 1)) =~= sanitized(text@.take(i as int)).push(
            safe_char(c),
        ));
        assert(out@ =~= old(out)@ + sanitized(text@.take(i + 1)));
        i = i + 1;
    }
    assert(text@.take(i as int) =~= text@);
}

/// Where materialized scenes are kept below the asset root.
#[derive(Clone, Copy, PartialEq, Eq, Structural, Debug)]
pub enum SceneFolder {
    /// Scenes that came from files.
    External,
    /// Scenes that came in payloads.
    Payload,
}

/// The folder of scenes.
pub open spec fn folder_path(folder: SceneFolder) -> Seq<char> {
    if folder == SceneFolder::External {
        "objects/external/"@
    } else {
        "objects/rgp/"@
    }
}

/// The stem of scenes without a name.
pub open spec fn folder_stem(folder: SceneFolder) -> Seq<char> {
    if folder == SceneFolder::External {
        "external"@
    } else {
        "payload"@
    }
}

/// The path of a materialized scene: its folder, its sanitized stem and its
/// extension.
pub open spec fn scene_path_of(
    folder: SceneFolder,
    stem: Option<Seq<char>>,
    format: ObjectFormat,
) -> Seq<char> {
    let name = match stem {
        Some(stem) if stem.len() > 0 => stem,
        _ => folder_stem(folder),
    };
    folder_path(folder) + sanitized(name) + "."@ + scene_extension(format)
}

/// The characters of an optional text.
pub open spec fn optional_text(text: Option<&str>) -> Option<Seq<char>> {
    match text {
        Some(text) => Some(text@),
        None => None,
    }
}

/// Appends a text.
fn push_text(out: &mut Vec<char>, text: &str)
    ensures
        final(out)@ == old(out)@ + text@,
{
    let mut chars: Vec<char> = chars_of(text);
    out.append(&mut chars);
}

/// Names the place of a materialized scene below the asset root.
pub fn scene_path(folder: SceneFolder, stem: Option<&str>, format: ObjectFormat) -> (path: String)
    ensures
        path@ == scene_path_of(folder, optional_text(stem), format),
{
    let mut out: Vec<char> = Vec::new();
    let fallback: &str = match folder {
        SceneFolder::External => {
            push_text(&mut out, "objects/external/");
            "external"
        },
        SceneFolder::Payload => {
            push_text(&mut out, "objects/rgp/");
            "payload"
        },
    };
    assert(out@ =~= folder_path(folder));
    let name: &str = match stem {
        Some(stem) => if stem.is_empty() {
            fallback
        } else {
            stem
        },
        None => fallback,
    };
    push_sanitized(&mut out, chars_of(name).as_slice());
    push_text(&mut out, ".");
    match format {
        ObjectFormat::Gltf => push_text(&mut out, "gltf"),
        _ => push_text(&mut out, "glb"),
    }
    string_of(out.as_slice())
}

/// The name under which a payload is shown: its own, or one that tells its
/// format.
pub open spec fn payload_title(format: Seq<char>, name: Option<Seq<char>>) -> Seq<char> {
    match name {
        Some(name) => name,
        None => match format_named(format) {
            Some(ObjectFormat::Obj) => "payload.obj"@,
            Some(ObjectFormat::Stl) => "payload.stl"@,
            Some(ObjectFormat::Glb) | Some(ObjectFormat::Gltf) => "payload.glb"@,
            None => "payload"@,
        },
    }
}

/// Names a payload.
pub fn payload_display_name<'a>(format: &str, name: Option<&'a str>) -> (title: &'a str)
    ensures
        title@ == payload_title(format@, optional_text(name)),
{
    match name {
        Some(name) => name,
        None => match payload_format(format) {
            Some(ObjectFormat::Obj) => "payload.obj",
            Some(ObjectFormat::Stl) => "payload.stl",
            Some(ObjectFormat::Glb) | Some(ObjectFormat::Gltf) => "payload.glb",
            None => "payload",
        },
    }
}

/// Where an object came from.
#[derive(Clone, Copy, PartialEq, Eq, Structural, Debug)]
pub enum Origin {
    /// From an inline payload.
    Payload,
    /// From the embedded objects.
    Embedded,
}

/// The name of an object, with its origin in front.
pub open spec fn source_title(origin: Origin, name: Seq<char>) -> Seq<char> {
    match origin {
        Origin::Payload => "payload:"@ + name,
        Origin::Embedded => "embedded:"@ + name,
    }
}

/// Objects from payloads are named so, and so are embedded ones.
pub proof fn sources_tell_their_origin(name: Seq<char>)
    ensures
        source_title(Origin::Payload, name) == seq!['p', 'a', 'y', 'l', 'o', 'a', 'd', ':'] + name,
        source_title(Origin::Embedded, name) == seq!['e', 'm', 'b', 'e', 'd', 'd', 'e', 'd', ':']
            + name,
{
    reveal_strlit("payload:");
    reveal_strlit("embedded:");
    assert("payload:"@ =~= seq!['p', 'a', 'y', 'l', 'o', 'a', 'd', ':']);
    assert("embedded:"@ =~= seq!['e', 'm', 'b', 'e', 'd', 'd', 'e', 'd', ':']);
}

/// Names an object after its origin.
pub fn source_name(origin: Origin, name: &str) -> (source: String)
    ensures
        source@ == (if origin == Origin::Payload {
            "payload:"@
        } else {
            "embedded:"@
        }) + name@,
        source@ == source_title(origin, name@),
{
    let mut out: Vec<char> = Vec::new();
    match origin {
        Origin::Payload => push_text(&mut out, "payload:"),
        Origin::Embedded => push_text(&mut out, "embedded:"),
    }
    push_text(&mut out, name);
    assert(Seq::<char>::empty() + "payload:"@ =~= "payload:"@);
    assert(Seq::<char>::empty() + "embedded:"@ =~= "embedded:"@);
    string_of(out.as_slice())
}

/// What is to be done about a scene file below the asset root.
#[derive(Clone, Copy, PartialEq, Eq, Structural, Debug)]
pub enum SceneAsset {
    /// Use it as it is.
    Reuse,
    /// Write it.
    Restore,
    /// Give up: it is missing, and its contents are not at hand.
    Missing,
}

/// What is to be done about a scene file.
pub open spec fn scene_action(exists: bool, contents_at_hand: bool) -> SceneAsset {
    if exists {
        SceneAsset::Reuse
    } else if contents_at_hand {
        SceneAsset::Restore
    } else {
        SceneAsset::Missing
    }
}

/// A scene file is never written where there is one, and is missed exactly where
/// there is none and its contents are not at hand.
pub proof fn scene_files_are_kept(exists: bool, contents_at_hand: bool)
    ensures
        scene_action(exists, contents_at_hand) is Reuse <==> exists,
        scene_action(exists, contents_at_hand) is Restore <==> !exists && contents_at_hand,
        scene_action(exists, contents_at_hand) is Missing <==> !exists && !contents_at_hand,
{
}

/// Decides what is to be done about a scene file: an existing one is kept.
pub fn scene_asset(exists: bool, contents_at_hand: bool) -> (action: SceneAsset)
    ensures
        action == (if exists {
            SceneAsset::Reuse
        } else if contents_at_hand {
            SceneAsset::Restore
        } else {
            SceneAsset::Missing
        }),
        action == scene_action(exists, contents_at_hand),
{
    if exists {
        SceneAsset::Reuse
    } else if contents_at_hand {
        SceneAsset::Restore
    } else {
        SceneAsset::Missing
    }
}

/// Loaded object source. `M` is a mesh.
pub enum ObjectSource<M> {
    /// OBJ mesh parts.
    Obj(Vec<M>),
    /// glTF scene asset path.
    Gltf(String),
    /// STL mesh.
    Stl(M),
}

/// The inline object of a loaded source.
pub open spec fn inline_of<M, H, P, MH, G>(source: ObjectSource<M>) -> InlineObject<
    H,
    P,
    RgpInlineObject<M, MH, G>,
> {
    InlineObject::RgpObject(
        match source {
            ObjectSource::Stl(mesh) => RgpInlineObject::Stl { mesh, handle: None },
            ObjectSource::Obj(meshes) => RgpInlineObject::Obj { meshes, handles: None },
            ObjectSource::Gltf(asset_path) => RgpInlineObject::Gltf { asset_path, handle: None },
        },
    )
}

/// An inline object has what its source had, in the same format, and nothing of it
/// is uploaded yet.
pub proof fn sources_are_kept_inline<M, H, P, MH, G>(source: ObjectSource<M>)
    ensures
        inline_of::<M, H, P, MH, G>(source) matches InlineObject::RgpObject(object) && (
        match source {
            ObjectSource::Stl(parts) => object matches RgpInlineObject::Stl { mesh, handle } && mesh
                == parts && handle is None,
            ObjectSource::Obj(parts) => object matches RgpInlineObject::Obj { meshes, handles }
                && meshes == parts && handles is None,
            ObjectSource::Gltf(path) => object matches RgpInlineObject::Gltf { asset_path, handle }
                && asset_path == path && handle is None,
        }),
{
}

impl<M> ObjectSource<M> {
    /// Makes an inline object of a loaded source, with nothing uploaded yet.
    pub fn into_inline<H, P, MH, G>(self) -> (object: InlineObject<H, P, RgpInlineObject<M, MH, G>>)
        ensures
            object == InlineObject::<H, P, RgpInlineObject<M, MH, G>>::RgpObject(
                match self {
                    ObjectSource::Stl(mesh) => RgpInlineObject::Stl { mesh, handle: None },
                    ObjectSource::Obj(meshes) => RgpInlineObject::Obj { meshes, handles: None },
                    ObjectSource::Gltf(asset_path) => RgpInlineObject::Gltf {
                        asset_path,
                        handle: None,
                    },
                },
            ),
            object == inline_of::<M, H, P, MH, G>(self),
    {
        InlineObject::RgpObject(
            match self {
                ObjectSource::Stl(mesh) => RgpInlineObject::Stl { mesh, handle: None },
                ObjectSource::Obj(meshes) => RgpInlineObject::Obj { meshes, handles: None },
                ObjectSource::Gltf(asset_path) => RgpInlineObject::Gltf {
                    asset_path,
                    handle: None,
                },
            },
        )
    }
}

/// Where an object is loaded from.
#[derive(Clone, Copy, PartialEq, Eq, Structural, Debug)]
pub enum ObjectPlace {
    /// The file that was named.
    File,
    /// An object that is embedded in the program.
    Embedded,
    /// An asset below the asset root.
    Installed,
}

/// Where an object is loaded from.
pub open spec fn object_place(file_exists: bool, embedded: bool) -> ObjectPlace {
    if file_exists {
        ObjectPlace::File
    } else if embedded {
        ObjectPlace::Embedded
    } else {
        ObjectPlace::Installed
    }
}

/// The file that was named comes before the embedded object, and both come before
/// the installed asset.
pub proof fn named_files_come_first(file_exists: bool, embedded: bool)
    ensures
        object_place(true, embedded) is File,
        object_place(false, true) is Embedded,
        object_place(file_exists, embedded) is Installed <==> !file_exists && !embedded,
{
}

/// Decides where an object is loaded from: the named file where it exists, else
/// the embedded object where there is one, else the installed asset.
pub fn object_lookup(file_exists: bool, embedded: bool) -> (place: ObjectPlace)
    ensures
        place == (if file_exists {
            ObjectPlace::File
        } else if embedded {
            ObjectPlace::Embedded
        } else {
            ObjectPlace::Installed
        }),
        place == object_place(file_exists, embedded),
{
    if file_exists {
        return ObjectPlace::File;
    }
    if embedded {
        ObjectPlace::Embedded
    } else {
        ObjectPlace::Installed
    }
}

/// Options that control object source loading.
#[derive(Clone, Copy, PartialEq, Eq, Structural, Debug)]
pub struct ObjectLoadOptions {
    /// Controls whether OBJ meshes are centered and scaled at load time.
    ///
    /// When enabled, each OBJ mesh is centered around its bounding-box center
    /// and scaled by the largest bounding-box axis. Disable this for generated
    /// or assembled OBJ assets whose source coordinates should be preserved.
    pub normalize: bool,
}

impl Default for ObjectLoadOptions {
    fn default() -> (options: Self)
        ensures
            options == (ObjectLoadOptions { normalize: true }),
    {
        ObjectLoadOptions { normalize: true }
    }
}

/// What the cursor model is made of. `M` is a mesh.
pub enum CursorParts<M> {
    /// Meshes.
    Meshes(Vec<M>),
    /// A scene below the asset root.
    Scene(String),
    /// A cube, for want of a model.
    Cube,
}

/// The shape of a cursor model.
#[verifier::ext_equal]
pub enum CursorShape<M> {
    /// Meshes.
    Meshes(Seq<M>),
    /// A scene below the asset root.
    Scene(Seq<char>),
    /// A cube.
    Cube,
}

impl<M> View for CursorParts<M> {
    type V = CursorShape<M>;

    open spec fn view(&self) -> CursorShape<M> {
        match *self {
            CursorParts::Meshes(meshes) => CursorShape::Meshes(meshes@),
            CursorParts::Scene(path) => CursorShape::Scene(path@),
            CursorParts::Cube => CursorShape::Cube,
        }
    }
}

/// The shape of the cursor model that is made of a source.
pub open spec fn cursor_shape<M>(source: Option<ObjectSource<M>>) -> CursorShape<M> {
    match source {
        Some(ObjectSource::Obj(meshes)) => if meshes@.len() == 0 {
            CursorShape::Cube
        } else {
            CursorShape::Meshes(meshes@)
        },
        Some(ObjectSource::Gltf(path)) => CursorShape::Scene(path@),
        Some(ObjectSource::Stl(mesh)) => CursorShape::Meshes(seq![mesh]),
        None => CursorShape::Cube,
    }
}

/// The cursor model is a cube exactly where there is no source or no mesh in it.
/// Otherwise it has the scene, or all the meshes in their order, of its source.
pub proof fn cursors_are_made_of_their_source<M>(source: ObjectSource<M>)
    ensures
        cursor_shape(None::<ObjectSource<M>>) is Cube,
        cursor_shape(Some(source)) is Cube <==> (source matches ObjectSource::Obj(meshes)
            && meshes@.len() == 0),
        source matches ObjectSource::Obj(meshes) ==> meshes@.len() > 0 ==> cursor_shape(
            Some(source),
        ) == CursorShape::Meshes(meshes@),
        source matches ObjectSource::Stl(mesh) ==> cursor_shape(Some(source))
            == CursorShape::Meshes(seq![mesh]),
        source matches ObjectSource::Gltf(path) ==> cursor_shape(Some(source))
            == CursorShape::<M>::Scene(path@),
{
}

/// Decides what the cursor model is made of. A source that could not be loaded,
/// or that has no meshes, is replaced by a cube.
pub fn cursor_parts<M>(source: Option<ObjectSource<M>>) -> (parts: CursorParts<M>)
    ensures
        match (source, parts) {
            (Some(ObjectSource::Obj(meshes)), CursorParts::Meshes(used)) => used == meshes
                && meshes@.len() > 0,
            (Some(ObjectSource::Obj(meshes)), CursorParts::Cube) => meshes@.len() == 0,
            (Some(ObjectSource::Gltf(path)), CursorParts::Scene(used)) => used == path,
            (Some(ObjectSource::Stl(mesh)), CursorParts::Meshes(used)) => used@ == seq![mesh],
            (None, CursorParts::Cube) => true,
            _ => false,
        },
        parts@ == cursor_shape(source),
{
    match source {
        Some(ObjectSource::Obj(meshes)) => if meshes.len() == 0 {
            CursorParts::Cube
        } else {
            CursorParts::Meshes(meshes)
        },
        Some(ObjectSource::Gltf(path)) => CursorParts::Scene(path),
        Some(ObjectSource::Stl(mesh)) => {
            let mut meshes: Vec<M> = Vec::new();
            meshes.push(mesh);
            assert(meshes@ =~= seq![mesh]);
            CursorParts::Meshes(meshes)
        },
        None => CursorParts::Cube,
    }
}

/// Which attributes an OBJ mesh gets besides its positions.
#[derive(Clone, Copy, PartialEq, Eq, Structural, Debug)]
pub struct MeshAttributes {
    /// Vertex colors.
    pub colors: bool,
    /// Normals.
    pub normals: bool,
    /// Texture coordinates.
    pub uvs: bool,
}

/// The attributes that an OBJ mesh gets, from the lengths of its lists of numbers.
pub open spec fn attributes_of(positions: int, colors: int, normals: int, texcoords: int) -> Option<
    MeshAttributes,
> {
    if positions == 0 {
        None
    } else {
        Some(
            MeshAttributes {
                colors: colors > 0 && colors / 3 == positions / 3,
                normals: normals > 0,
                uvs: texcoords > 0 && texcoords / 2 == positions / 3,
            },
        )
    }
}

/// A mesh with vertices, of three coordinates each, gets colors of three components
/// and texture coordinates of two where there are as many as vertices, and not
/// where there are more or fewer. It gets normals where there are any.
pub proof fn attributes_go_by_vertices(vertices: int, colors: int, normals: int, texcoords: int)
    requires
        vertices > 0,
        colors >= 0,
        normals >= 0,
        texcoords >= 0,
    ensures
        attributes_of(0, colors, normals, texcoords) is None,
        attributes_of(3 * vertices, 3 * colors, normals, 2 * texcoords) matches Some(attributes)
            && {
            &&& attributes.colors <==> colors == vertices
            &&& attributes.normals <==> normals != 0
            &&& attributes.uvs <==> texcoords == vertices
        },
{
}

/// Decides which attributes an OBJ mesh gets, from the lengths of its lists of
/// numbers: colors and texture coordinates only where there is one for each
/// position. A mesh without positions is left out.
pub fn mesh_attributes(positions: usize, colors: usize, normals: usize, texcoords: usize) -> (
attributes: Option<MeshAttributes>)
    ensures
        attributes == (if positions == 0 {
            None
        } else {
            Some(
                MeshAttributes {
                    colors: colors > 0 && colors / 3 == positions / 3,
                    normals: normals > 0,
                    uvs: texcoords > 0 && texcoords / 2 == positions / 3,
                },
            )
        }),
        attributes == attributes_of(
            positions as int,
            colors as int,
            normals as int,
            texcoords as int,
        ),
{
    if positions == 0 {
        return None;
    }
    Some(
        MeshAttributes {
            colors: colors != 0 && colors / 3 == positions / 3,
            normals: normals != 0,
            uvs: texcoords != 0 && texcoords / 2 == positions / 3,
        },
    )
}

/// A component of a path.
pub enum PathPart {
    /// A prefix, such as a drive.
    Prefix,
    /// The root directory.
    RootDir,
    /// The current directory.
    CurDir,
    /// The parent directory.
    ParentDir,
    /// A name.
    Normal(String),
}

/// Why a path names no asset.
#[derive(Clone, Copy, PartialEq, Eq, Structural, Debug)]
pub enum AssetPathError {
    /// The path is absolute and outside the asset root.
    OutsideRoot,
    /// The path is not valid UTF-8.
    NotUtf8,
}

/// The name that a component is.
pub open spec fn part_name(part: PathPart) -> Option<Seq<char>> {
    match part {
        PathPart::Normal(name) => Some(name@),
        _ => None,
    }
}

/// The position of the first component named `assets`, or the number of
/// components.
pub open spec fn assets_position(parts: Seq<PathPart>) -> int
    decreases parts.len(),
{
    if parts.len() == 0 {
        0
    } else if part_name(parts.first()) == Some("assets"@) {
        0
    } else {
        1 + assets_position(parts.drop_first())
    }
}

/// The names among some components, joined by slashes.
pub open spec fn joined_names(parts: Seq<PathPart>) -> Option<Seq<char>>
    decreases parts.len(),
{
    if parts.len() == 0 {
        None
    } else {
        match (joined_names(parts.drop_last()), part_name(parts.last())) {
            (Some(before), Some(name)) => Some(before.push('/') + name),
            (None, Some(name)) => Some(name),
            (before, None) => before,
        }
    }
}

/// A text with backslashes replaced by slashes.
pub open spec fn with_slashes(text: Seq<char>) -> Seq<char> {
    text.map_values(
        |c: char|
            if c == '\\' {
                '/'
            } else {
                c
            },
    )
}

/// A text without the prefix that names the asset root.
pub open spec fn below_assets(text: Seq<char>) -> Seq<char> {
    if "assets/"@.len() <= text.len() && text.take("assets/"@.len() as int) == "assets/"@ {
        text.skip("assets/"@.len() as int)
    } else {
        text
    }
}

/// Whether a path is a single component that can be looked for among the
/// objects.
pub open spec fn bare_name(parts: Seq<PathPart>) -> bool {
    parts.len() == 1 && !(parts[0] is Prefix) && !(parts[0] is RootDir)
}

/// The asset path that a path names: what follows a component named `assets`, or
/// else a relative path, which is looked for among the objects where it is a
/// single component.
pub open spec fn asset_path_of(
    parts: Seq<PathPart>,
    absolute: bool,
    text: Option<Seq<char>>,
) -> Result<Seq<char>, AssetPathError> {
    let below = joined_names(parts.skip(assets_position(parts) + 1));
    if assets_position(parts) < parts.len() && below is Some {
        Ok(below->0)
    } else if absolute {
        Err(AssetPathError::OutsideRoot)
    } else {
        match text {
            None => Err(AssetPathError::NotUtf8),
            Some(text) => {
                let candidate = if bare_name(parts) {
                    "objects/"@ + text
                } else {
                    text
                };
                Ok(below_assets(with_slashes(candidate)))
            },
        }
    }
}

proof fn lemma_assets_position(parts: Seq<PathPart>, at: int)
    requires
        0 <= at <= parts.len(),
        forall|i: int| 0 <= i < at ==> part_name(#[trigger] parts[i]) != Some("assets"@),
        at < parts.len() ==> part_name(parts[at]) == Some("assets"@),
    ensures
        assets_position(parts) == at,
    decreases parts.len(),
{
    if at > 0 {
        assert(part_name(parts[0]) != Some("assets"@));
        let rest = parts.drop_first();
        assert forall|i: int| 0 <= i < at - 1 implies part_name(#[trigger] rest[i]) != Some(
            "assets"@,
        ) by {
            assert(rest[i] == parts[i + 1]);
        }
        lemma_assets_position(rest, at - 1);
    }
}

/// Joins the names among the components from a position on.
fn join_names(parts: &[PathPart], from: usize) -> (names: Option<Vec<char>>)
    requires
        from <= parts.len(),
    ensures
        match names {
            Some(names) => joined_names(parts@.skip(from as int)) == Some(names@),
            None => joined_names(parts@.skip(from as int)) is None,
        },
{
    let ghost rest = parts@.skip(from as int);
    let mut out: Option<Vec<char>> = None;
    let mut i: usize = from;
    while i < parts.len()
        invariant
            from <= i <= parts.len(),
            rest == parts@.skip(from as int),
            match out {
                Some(names) => joined_names(rest.take(i - from)) == Some(names@),
                None => joined_names(rest.take(i - from)) is None,
            },
        decreases parts.len() - i,
    {
        assert(rest.take(i - from + 1).drop_last() =~= rest.take(i - from));
        assert(rest.take(i - from + 1).last() == parts@[i as int]);
        if let PathPart::Normal(name) = &parts[i] {
            out = match out {
                Some(mut names) => {
                    names.push('/');
                    push_text(&mut names, name.as_str());
                    Some(names)
                },
                None => Some(chars_of(name.as_str())),
            };
        }
        i = i + 1;
    }
    assert(rest.take(i - from) =~= rest);
    out
}

/// Replaces backslashes by slashes.
fn replace_backslashes(text: &mut Vec<char>)
    ensures
        final(text)@ == with_slashes(old(text)@),
{
    let mut i: usize = 0;
    while i < text.len()
        invariant
            i <= text.len(),
            text.len() == old(text).len(),
            forall|k: int| 0 <= k < i ==> #[trigger] text[k] == with_slashes(old(text)@)[k],
            forall|k: int| i <= k < text.len() ==> #[trigger] text[k] == old(text)[k],
        decreases text.len() - i,
    {
        if text[i] == '\\' {
            text.set(i, '/');
        }
        i = i + 1;
    }
    assert(text@ =~= with_slashes(old(text)@));
}

/// Finds the asset path that a path names. `text` is the whole path, where it is
/// valid UTF-8.
pub fn object_asset_path(parts: &[PathPart], absolute: bool, text: Option<&str>) -> (path: Result<
    String,
    AssetPathError,
>)
    ensures
        match path {
            Ok(path) => asset_path_of(parts@, absolute, optional_text(text)) == Ok::<
                Seq<char>,
                AssetPathError,
            >(path@),
            Err(error) => asset_path_of(parts@, absolute, optional_text(text)) == Err::<
                Seq<char>,
                AssetPathError,
            >(error),
        },
{
    let mut at: usize = 0;
    while at < parts.len() && !is_assets(&parts[at])
        invariant
            at <= parts.len(),
            forall|i: int| 0 <= i < at ==> part_name(#[trigger] parts@[i]) != Some("assets"@),
        decreases parts.len() - at,
    {
        at = at + 1;
    }
    proof {
        lemma_assets_position(parts@, at as int);
    }
    if at < parts.len() {
        if let Some(names) = join_names(parts, at + 1) {
            return Ok(string_of(names.as_slice()));
        }
    }
    if absolute {
        return Err(AssetPathError::OutsideRoot);
    }
    let text: &str = match text {
        Some(text) => text,
        None => return Err(AssetPathError::NotUtf8),
    };
    let mut candidate: Vec<char> = Vec::new();
    let bare = parts.len() == 1 && !matches!(parts[0], PathPart::Prefix | PathPart::RootDir);
    if bare {
        push_text(&mut candidate, "objects/");
    }
    push_text(&mut candidate, text);
    assert(Seq::<char>::empty() + text@ =~= text@);
    assert(Seq::<char>::empty() + "objects/"@ =~= "objects/"@);
    replace_backslashes(&mut candidate);
    Ok(string_of(strip_assets(candidate.as_slice())))
}

/// Tests whether a component is the name of the asset root.
fn is_assets(part: &PathPart) -> (r: bool)
    ensures
        r == (part_name(*part) == Some("assets"@)),
{
    match part {
        PathPart::Normal(name) => same_text(chars_of(name.as_str()).as_slice(), "assets"),
        _ => false,
    }
}

/// Removes the prefix that names the asset root.
fn strip_assets(text: &[char]) -> (rest: &[char])
    ensures
        rest@ == below_assets(text@),
{
    proof {
        reveal_strlit("assets/");
    }
    if text.len() >= 7 && same_text(slice_subrange(text, 0, 7), "assets/") {
        slice_subrange(text, 7, text.len())
    } else {
        text
    }
}

/// Sanitized names stay below their folder: they hold neither separators nor
/// dots, whatever the source was named.
pub proof fn sanitized_names_stay_in_place(text: Seq<char>)
    ensures
        sanitized(text).len() == text.len(),
        !sanitized(text).contains('/'),
        !sanitized(text).contains('\\'),
        !sanitized(text).contains('.'),
        sanitized(sanitized(text)) == sanitized(text),
{
    assert forall|i: int| 0 <= i < text.len() implies {
        &&& #[trigger] sanitized(text)[i] != '/'
        &&& sanitized(text)[i] != '\\'
        &&& sanitized(text)[i] != '.'
        &&& safe_char(sanitized(text)[i]) == sanitized(text)[i]
    } by {}
    assert(sanitized(sanitized(text)) =~= sanitized(text));
}

/// What follows a component named `assets` is found the same way whatever stands
/// before it, in absolute paths too.
pub proof fn assets_component_decides(
    before: Seq<PathPart>,
    other: Seq<PathPart>,
    root: PathPart,
    after: Seq<PathPart>,
    text: Option<Seq<char>>,
    other_text: Option<Seq<char>>,
)
    requires
        part_name(root) == Some("assets"@),
        joined_names(after) is Some,
        forall|i: int| 0 <= i < before.len() ==> part_name(#[trigger] before[i]) != Some("assets"@),
        forall|i: int| 0 <= i < other.len() ==> part_name(#[trigger] other[i]) != Some("assets"@),
    ensures
        asset_path_of(before.push(root) + after, true, text) == asset_path_of(
            other.push(root) + after,
            false,
            other_text,
        ),
{
    let left = before.push(root) + after;
    let right = other.push(root) + after;
    assert forall|i: int| 0 <= i < before.len() implies part_name(#[trigger] left[i]) != Some(
        "assets"@,
    ) by {
        assert(left[i] == before[i]);
    }
    assert forall|i: int| 0 <= i < other.len() implies part_name(#[trigger] right[i]) != Some(
        "assets"@,
    ) by {
        assert(right[i] == other[i]);
    }
    lemma_assets_position(left, before.len() as int);
    lemma_assets_position(right, other.len() as int);
    assert(left.skip(before.len() as int + 1) =~= after);
    assert(right.skip(other.len() as int + 1) =~= after);
}

proof fn lemma_format_names()
    ensures
        "stl"@ == seq!['s', 't', 'l'],
        "obj"@ == seq!['o', 'b', 'j'],
        "glb"@ == seq!['g', 'l', 'b'],
        "gltf"@ == seq!['g', 'l', 't', 'f'],
{
    reveal_strlit("stl");
    reveal_strlit("obj");
    reveal_strlit("glb");
    reveal_strlit("gltf");
    assert("stl"@ =~= seq!['s', 't', 'l']);
    assert("obj"@ =~= seq!['o', 'b', 'j']);
    assert("glb"@ =~= seq!['g', 'l', 'b']);
    assert("gltf"@ =~= seq!['g', 'l', 't', 'f']);
}

/// Each format has one name, and no other name is that of a format.
pub proof fn formats_have_one_name(name: Seq<char>)
    ensures
        format_named(name) == Some(ObjectFormat::Stl) <==> name == seq!['s', 't', 'l'],
        format_named(name) == Some(ObjectFormat::Obj) <==> name == seq!['o', 'b', 'j'],
        format_named(name) == Some(ObjectFormat::Glb) <==> name == seq!['g', 'l', 'b'],
        format_named(name) == Some(ObjectFormat::Gltf) <==> name == seq!['g', 'l', 't', 'f'],
{
    lemma_format_names();
    assert(seq!['s', 't', 'l'][0] == 's');
    assert(seq!['o', 'b', 'j'][0] == 'o');
    assert(seq!['g', 'l', 'b'][0] == 'g');
    assert(seq!['g', 'l', 'b'].len() == 3);
    assert(seq!['g', 'l', 't', 'f'].len() == 4);
}

/// The format that an extension tells does not depend on the case of its letters.
pub proof fn extensions_ignore_case(extension: Seq<char>, other: Seq<char>)
    requires
        extension.len() == other.len(),
        forall|i: int|
            0 <= i < extension.len() ==> lower(#[trigger] extension[i]) == lower(other[i]),
    ensures
        extension_format(extension) == extension_format(other),
        (forall|i: int| 0 <= i < extension.len() ==> lower(#[trigger] extension[i]) == extension[i])
            ==> extension_format(extension) == format_named(extension),
{
    assert(lowered(extension) =~= lowered(other));
    if forall|i: int| 0 <= i < extension.len() ==> lower(#[trigger] extension[i]) == extension[i] {
        assert(lowered(extension) =~= extension);
    }
}

proof fn lemma_safe_char(c: char)
    ensures
        ({
            let n = c as u32;
            if 97 <= n <= 122 || 65 <= n <= 90 || 48 <= n <= 57 || n == 45 || n == 95 {
                safe_char(c) == c
            } else {
                safe_char(c) == '_'
            }
        }),
{
}

/// In a sanitized text the ASCII letters and digits, the hyphens and the underscores
/// stay as they are, and every other character is an underscore.
pub proof fn plain_names_are_kept(text: Seq<char>, i: int)
    requires
        0 <= i < text.len(),
    ensures
        ({
            let n = text[i] as u32;
            if 97 <= n <= 122 || 65 <= n <= 90 || 48 <= n <= 57 || n == 45 || n == 95 {
                sanitized(text)[i] == text[i]
            } else {
                sanitized(text)[i] == '_'
            }
        }),
{
    lemma_safe_char(text[i]);
}

/// A scene is kept under its sanitized name, or under a common one where it has
/// none, in the folder of its kind. Textual scenes have an extension of their own.
pub proof fn scenes_are_kept_in_their_folder(stem: Seq<char>, format: ObjectFormat)
    requires
        stem.len() > 0,
    ensures
        ({
            let extension = if format is Gltf {
                ".gltf"@
            } else {
                ".glb"@
            };
            &&& scene_path_of(SceneFolder::External, Some(stem), format) == "objects/external/"@
                + sanitized(stem) + extension
            &&& scene_path_of(SceneFolder::Payload, Some(stem), format) == "objects/rgp/"@
                + sanitized(stem) + extension
            &&& scene_path_of(SceneFolder::External, None, format)
                == "objects/external/external"@ + extension
            &&& scene_path_of(SceneFolder::Payload, None, format) == "objects/rgp/payload"@
                + extension
            &&& scene_path_of(SceneFolder::External, Some(Seq::empty()), format) == scene_path_of(
                SceneFolder::External,
                None,
                format,
            )
            &&& scene_path_of(SceneFolder::Payload, Some(Seq::empty()), format) == scene_path_of(
                SceneFolder::Payload,
                None,
                format,
            )
        }),
{
    reveal_strlit("objects/external/");
    reveal_strlit("objects/rgp/");
    reveal_strlit("external");
    reveal_strlit("payload");
    reveal_strlit("objects/external/external");
    reveal_strlit("objects/rgp/payload");
    reveal_strlit(".");
    reveal_strlit("gltf");
    reveal_strlit("glb");
    reveal_strlit(".gltf");
    reveal_strlit(".glb");
    assert(".gltf"@ =~= "."@ + "gltf"@);
    assert(".glb"@ =~= "."@ + "glb"@);
    let extension = scene_extension(format);
    assert(sanitized("external"@) =~= "external"@);
    assert(sanitized("payload"@) =~= "payload"@);
    assert("objects/external/external"@ =~= "objects/external/"@ + "external"@);
    assert("objects/rgp/payload"@ =~= "objects/rgp/"@ + "payload"@);
    assert("objects/external/"@ + sanitized(stem) + "."@ + extension =~= "objects/external/"@
        + sanitized(stem) + ("."@ + extension));
    assert("objects/rgp/"@ + sanitized(stem) + "."@ + extension =~= "objects/rgp/"@ + sanitized(
        stem,
    ) + ("."@ + extension));
    assert("objects/external/external"@ + ("."@ + extension) =~= "objects/external/"@
        + sanitized("external"@) + "."@ + extension);
    assert("objects/rgp/payload"@ + ("."@ + extension) =~= "objects/rgp/"@ + sanitized(
        "payload"@,
    ) + "."@ + extension);
}

/// A payload is shown under its own name, whatever its format is. Without one its
/// title tells its format, where it has one.
pub proof fn payloads_have_titles(format: Seq<char>, name: Seq<char>)
    ensures
        payload_title(format, Some(name)) == name,
        format == seq!['o', 'b', 'j'] ==> payload_title(format, None) == "payload.obj"@,
        format == seq!['s', 't', 'l'] ==> payload_title(format, None) == "payload.stl"@,
        format == seq!['g', 'l', 'b'] ==> payload_title(format, None) == "payload.glb"@,
        format == seq!['g', 'l', 't', 'f'] ==> payload_title(format, None) == "payload.glb"@,
        format_named(format) is None ==> payload_title(format, None) == "payload"@,
{
    formats_have_one_name(format);
}

/// The names of path components are joined by slashes in their order; components
/// without a name leave no trace.
pub proof fn names_are_joined_by_slashes(parts: Seq<PathPart>, part: PathPart)
    ensures
        joined_names(Seq::empty()) is None,
        part_name(part) is None ==> joined_names(parts.push(part)) == joined_names(parts),
        part_name(part) matches Some(name) ==> joined_names(parts.push(part)) == Some(
            match joined_names(parts) {
                Some(before) => before + seq!['/'] + name,
                None => name,
            },
        ),
        part_name(part) is Some <==> part is Normal,
        part matches PathPart::Normal(name) ==> part_name(part) == Some(name@),
{
    assert(parts.push(part).drop_last() =~= parts);
    if joined_names(parts) is Some {
        assert(joined_names(parts)->0.push('/') =~= joined_names(parts)->0 + seq!['/']);
    }
}

/// What follows the first component named `assets` is the asset path, in absolute
/// paths too.
pub proof fn paths_below_assets_are_found(
    before: Seq<PathPart>,
    root: PathPart,
    after: Seq<PathPart>,
    absolute: bool,
    text: Option<Seq<char>>,
)
    requires
        part_name(root) == Some(seq!['a', 's', 's', 'e', 't', 's']),
        joined_names(after) is Some,
        forall|i: int|
            0 <= i < before.len() ==> part_name(#[trigger] before[i]) != Some(
                seq!['a', 's', 's', 'e', 't', 's'],
            ),
    ensures
        asset_path_of(before.push(root) + after, absolute, text) == Ok::<
            Seq<char>,
            AssetPathError,
        >(joined_names(after)->0),
{
    reveal_strlit("assets");
    assert("assets"@ =~= seq!['a', 's', 's', 'e', 't', 's']);
    let whole = before.push(root) + after;
    assert forall|i: int| 0 <= i < before.len() implies part_name(#[trigger] whole[i]) != Some(
        "assets"@,
    ) by {
        assert(whole[i] == before[i]);
    }
    lemma_assets_position(whole, before.len() as int);
    assert(whole.skip(before.len() as int + 1) =~= after);
}

/// Without a component named `assets`, an absolute path is refused as such, and a
/// relative one exactly where it is no valid text. A single name is looked for
/// among the objects; any other relative path is taken as it is, with slashes for
/// backslashes.
pub proof fn other_paths_are_taken_by_kind(parts: Seq<PathPart>, text: Seq<char>)
    requires
        forall|i: int|
            0 <= i < parts.len() ==> part_name(#[trigger] parts[i]) != Some(
                seq!['a', 's', 's', 'e', 't', 's'],
            ),
    ensures
        asset_path_of(parts, true, Some(text)) == Err::<Seq<char>, AssetPathError>(
            AssetPathError::OutsideRoot,
        ),
        asset_path_of(parts, true, None) == Err::<Seq<char>, AssetPathError>(
            AssetPathError::OutsideRoot,
        ),
        asset_path_of(parts, false, None) == Err::<Seq<char>, AssetPathError>(
            AssetPathError::NotUtf8,
        ),
        parts.len() == 1 && parts[0] is Normal ==> asset_path_of(parts, false, Some(text)) == Ok::<
            Seq<char>,
            AssetPathError,
        >("objects/"@ + with_slashes(text)),
        parts.len() > 1 && !(seq!['a', 's', 's', 'e', 't', 's', '/'].is_prefix_of(
            with_slashes(text),
        )) ==> asset_path_of(parts, false, Some(text)) == Ok::<Seq<char>, AssetPathError>(
            with_slashes(text),
        ),
{
    reveal_strlit("assets");
    reveal_strlit("assets/");
    reveal_strlit("objects/");
    assert("assets"@ =~= seq!['a', 's', 's', 'e', 't', 's']);
    assert("assets/"@ =~= seq!['a', 's', 's', 'e', 't', 's', '/']);
    lemma_assets_position(parts, parts.len() as int);
    let named = with_slashes("objects/"@ + text);
    assert(named =~= "objects/"@ + with_slashes(text));
    assert(named.take(7)[0] == 'o');
    assert("assets/"@[0] == 'a');
    let slashed = with_slashes(text);
    if slashed.len() >= 7 {
        assert(slashed.take(7) == slashed.subrange(0, 7));
    }
}

/// A backslash is written as a slash, and every other character as it is.
pub proof fn backslashes_become_slashes(text: Seq<char>, i: int)
    requires
        0 <= i < text.len(),
    ensures
        with_slashes(text).len() == text.len(),
        text[i] == '\\' ==> with_slashes(text)[i] == '/',
        text[i] != '\\' ==> with_slashes(text)[i] == text[i],
{
}

/// The prefix that names the asset root is taken off once.
pub proof fn root_prefixes_are_taken_off(text: Seq<char>)
    ensures
        below_assets(seq!['a', 's', 's', 'e', 't', 's', '/'] + text) == text,
        !(seq!['a', 's', 's', 'e', 't', 's', '/'].is_prefix_of(text)) ==> below_assets(text) == text,
{
    reveal_strlit("assets/");
    let prefix = seq!['a', 's', 's', 'e', 't', 's', '/'];
    assert("assets/"@ =~= prefix);
    assert((prefix + text).take(7) =~= prefix);
    assert((prefix + text).skip(7) =~= text);
    if text.len() >= 7 {
        assert(text.take(7) == text.subrange(0, 7));
    }
}

/// The shape of a cursor model is that of its parts.
pub proof fn cursor_parts_have_their_shape<M>(parts: CursorParts<M>)
    ensures
        parts is Cube <==> parts@ is Cube,
        parts matches CursorParts::Meshes(meshes) ==> parts@ == CursorShape::Meshes(meshes@),
        parts matches CursorParts::Scene(path) ==> parts@ == CursorShape::<M>::Scene(path@),
{
}

/// An optional text has the characters of its text.
pub proof fn optional_texts_have_their_characters(text: &str)
    ensures
        optional_text(Some(text)) == Some(text@),
        optional_text(None) is None,
{
}

} // verus!
