use ratty::inline::{reuses_handles, InlineObject, RgpInlineObject};
use ratty::model::{
    cursor_parts, file_format, mesh_attributes, object_asset_path, object_lookup,
    payload_display_name, payload_format, scene_asset, scene_path, source_name, AssetPathError, CursorParts,
    MeshAttributes, ObjectFormat, ObjectLoadOptions, ObjectPlace, ObjectSource, Origin, PathPart, SceneAsset,
    SceneFolder,
};

fn normal(name: &str) -> PathPart {
    PathPart::Normal(name.to_owned())
}

#[test]
fn formats_are_told_by_extension() {
    assert_eq!(file_format("STL"), Some(ObjectFormat::Stl));
    assert_eq!(file_format("obj"), Some(ObjectFormat::Obj));
    assert_eq!(file_format("Glb"), Some(ObjectFormat::Glb));
    assert_eq!(file_format("gltf"), Some(ObjectFormat::Gltf));
    assert_eq!(file_format(""), None);
    assert_eq!(file_format("png"), None);
    assert_eq!(payload_format("obj"), Some(ObjectFormat::Obj));
    assert_eq!(payload_format("OBJ"), None);
}

#[test]
fn scene_paths_are_sanitized() {
    assert_eq!(
        scene_path(SceneFolder::External, Some("my scene.v2"), ObjectFormat::Glb),
        "objects/external/my_scene_v2.glb"
    );
    assert_eq!(
        scene_path(SceneFolder::Payload, Some("Rät-9_x"), ObjectFormat::Gltf),
        "objects/rgp/R_t-9_x.gltf"
    );
    assert_eq!(
        scene_path(SceneFolder::External, None, ObjectFormat::Gltf),
        "objects/external/external.gltf"
    );
    assert_eq!(
        scene_path(SceneFolder::Payload, Some(""), ObjectFormat::Glb),
        "objects/rgp/payload.glb"
    );
    assert_eq!(
        scene_path(SceneFolder::Payload, Some("../up\\x"), ObjectFormat::Glb),
        "objects/rgp/___up_x.glb"
    );
}

#[test]
fn payloads_are_named_after_their_format() {
    assert_eq!(payload_display_name("obj", Some("rat")), "rat");
    assert_eq!(payload_display_name("obj", None), "payload.obj");
    assert_eq!(payload_display_name("stl", None), "payload.stl");
    assert_eq!(payload_display_name("glb", None), "payload.glb");
    assert_eq!(payload_display_name("gltf", None), "payload.glb");
    assert_eq!(payload_display_name("other", None), "payload");
    assert_eq!(source_name(Origin::Payload, "rat"), "payload:rat");
    assert_eq!(source_name(Origin::Embedded, "rat.obj"), "embedded:rat.obj");
}

#[test]
fn scene_files_are_restored_when_missing() {
    assert_eq!(scene_asset(true, true), SceneAsset::Reuse);
    assert_eq!(scene_asset(true, false), SceneAsset::Reuse);
    assert_eq!(scene_asset(false, true), SceneAsset::Restore);
    assert_eq!(scene_asset(false, false), SceneAsset::Missing);
}

#[test]
fn asset_paths_follow_the_assets_component() {
    let parts = [
        PathPart::RootDir,
        normal("home"),
        normal("assets"),
        normal("objects"),
        PathPart::ParentDir,
        normal("rat.obj"),
    ];
    assert_eq!(
        object_asset_path(&parts, true, Some("/home/assets/objects/../rat.obj")),
        Ok("objects/rat.obj".to_owned())
    );
}

#[test]
fn absolute_paths_outside_the_root_are_refused() {
    let parts = [PathPart::RootDir, normal("tmp"), normal("rat.obj")];
    assert_eq!(
        object_asset_path(&parts, true, Some("/tmp/rat.obj")),
        Err(AssetPathError::OutsideRoot)
    );
    let parts = [PathPart::RootDir, normal("assets")];
    assert_eq!(
        object_asset_path(&parts, true, Some("/assets")),
        Err(AssetPathError::OutsideRoot)
    );
}

#[test]
fn relative_paths_are_looked_for_among_the_objects() {
    assert_eq!(
        object_asset_path(&[normal("rat.obj")], false, Some("rat.obj")),
        Ok("objects/rat.obj".to_owned())
    );
    assert_eq!(
        object_asset_path(&[normal("assets")], false, Some("assets")),
        Ok("objects/assets".to_owned())
    );
    assert_eq!(
        object_asset_path(&[normal("my"), normal("rat.obj")], false, Some("my\\rat.obj")),
        Ok("my/rat.obj".to_owned())
    );
    assert_eq!(
        object_asset_path(&[normal("assets"), PathPart::ParentDir], false, Some("assets/..")),
        Ok("..".to_owned())
    );
    assert_eq!(object_asset_path(&[], false, Some("")), Ok("".to_owned()));
    assert_eq!(
        object_asset_path(&[normal("rat")], false, None),
        Err(AssetPathError::NotUtf8)
    );
    assert_eq!(
        object_asset_path(&[PathPart::Prefix], false, Some("C:")),
        Ok("C:".to_owned())
    );
    assert_eq!(
        object_asset_path(&[PathPart::CurDir], false, Some(".")),
        Ok("objects/.".to_owned())
    );
}

#[test]
fn cursor_models_fall_back_to_a_cube() {
    assert!(matches!(cursor_parts::<u8>(None), CursorParts::Cube));
    assert!(matches!(
        cursor_parts::<u8>(Some(ObjectSource::Obj(Vec::new()))),
        CursorParts::Cube
    ));
    match cursor_parts(Some(ObjectSource::Obj(vec![1, 2]))) {
        CursorParts::Meshes(meshes) => assert_eq!(meshes, vec![1, 2]),
        _ => panic!("unexpected parts"),
    }
    match cursor_parts(Some(ObjectSource::Stl(3))) {
        CursorParts::Meshes(meshes) => assert_eq!(meshes, vec![3]),
        _ => panic!("unexpected parts"),
    }
    match cursor_parts::<u8>(Some(ObjectSource::Gltf("a.glb".to_owned()))) {
        CursorParts::Scene(path) => assert_eq!(path, "a.glb"),
        _ => panic!("unexpected parts"),
    }
}

#[test]
fn mesh_attributes_need_one_value_per_position() {
    assert_eq!(mesh_attributes(0, 3, 3, 2), None);
    assert_eq!(
        mesh_attributes(9, 9, 9, 6),
        Some(MeshAttributes { colors: true, normals: true, uvs: true })
    );
    assert_eq!(
        mesh_attributes(9, 6, 3, 4),
        Some(MeshAttributes { colors: false, normals: true, uvs: false })
    );
    assert_eq!(
        mesh_attributes(9, 0, 0, 0),
        Some(MeshAttributes { colors: false, normals: false, uvs: false })
    );
}

#[test]
fn sources_become_inline_objects() {
    let object: InlineObject<(), (), RgpInlineObject<u8, u8, u8>> =
        ObjectSource::Obj(vec![4]).into_inline();
    assert!(matches!(
        object,
        InlineObject::RgpObject(RgpInlineObject::Obj { handles: None, .. })
    ));
    let object: InlineObject<(), (), RgpInlineObject<u8, u8, u8>> =
        ObjectSource::Gltf("x".to_owned()).into_inline();
    assert!(matches!(
        object,
        InlineObject::RgpObject(RgpInlineObject::Gltf { handle: None, .. })
    ));
    let object: InlineObject<(), (), RgpInlineObject<u8, u8, u8>> =
        ObjectSource::Stl(9).into_inline();
    assert!(matches!(
        object,
        InlineObject::RgpObject(RgpInlineObject::Stl { mesh: 9, handle: None })
    ));
    assert!(ObjectLoadOptions::default().normalize);
}

#[test]
fn uploaded_meshes_are_reused_for_the_same_depth() {
    assert!(reuses_handles(&Some((3, vec![1])), 3));
    assert!(!reuses_handles(&Some((3, vec![1])), 4));
    assert!(!reuses_handles::<u8>(&None, 0));
}

#[test]
fn files_go_before_embedded_objects_and_assets() {
    assert_eq!(object_lookup(true, true), ObjectPlace::File);
    assert_eq!(object_lookup(true, false), ObjectPlace::File);
    assert_eq!(object_lookup(false, true), ObjectPlace::Embedded);
    assert_eq!(object_lookup(false, false), ObjectPlace::Installed);
}
