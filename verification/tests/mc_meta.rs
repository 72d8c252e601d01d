use mc_renderer::error::{ErrorKind, ResolveError};
use mc_renderer::mc_meta::{
    textures_to_pack, McMetaAssetContents, McMetaAssetLoader, TextureAnimationFrameInfo,
    TextureAnimationInfo,
};

#[test]
fn loader_knows_its_extension() {
    let loader = McMetaAssetLoader::default();
    assert_eq!(loader.extension(), "mcmeta");
    assert!(loader.accepts("minecraft/textures/block/water_still.png.mcmeta"));
    assert!(loader.accepts(".mcmeta"));
    assert!(!loader.accepts("minecraft/textures/block/water_still.png"));
    assert!(!loader.accepts("mcmeta"));
    assert!(!loader.accepts(""));
}

#[test]
fn sidecar_names_its_texture() {
    let loader = McMetaAssetLoader;
    assert_eq!(
        loader.texture_path("minecraft/textures/block/lava_flow.png.mcmeta"),
        "minecraft/textures/block/lava_flow.png"
    );
    assert_eq!(loader.texture_path("a.mcmeta"), "a");
    assert_eq!(loader.texture_path("plain.png"), "plain.png");
}

#[test]
fn load_keeps_the_contents() {
    let contents = McMetaAssetContents {
        animation: TextureAnimationInfo {
            interpolate: true,
            width: 16,
            height: 16,
            frametime: 2,
            frames: vec![
                TextureAnimationFrameInfo::Index(0),
                TextureAnimationFrameInfo::WithDelay { index: 1, time: 5 },
            ],
        },
    };
    let asset = McMetaAssetLoader.load("block/fire_0.png.mcmeta", contents.clone());
    assert_eq!(asset.contents, contents);
    assert_eq!(asset.texture, "block/fire_0.png");
}

#[test]
fn defaults_are_empty() {
    let info = TextureAnimationInfo::default();
    assert!(!info.interpolate);
    assert_eq!((info.width, info.height, info.frametime), (0, 0, 0));
    assert!(info.frames.is_empty());
    assert_eq!(McMetaAssetContents::default().animation, info);
}

#[test]
fn sidecars_are_not_packed_but_their_textures_are() {
    let paths: Vec<String> = [
        "minecraft/textures/block/stone.png",
        "minecraft/textures/block/water_still.png.mcmeta",
        "minecraft/textures/block/water_still.png",
        "minecraft/textures/block/dirt.png",
        "minecraft/textures/block/lava_still.png.mcmeta",
    ]
    .iter()
    .map(|s| s.to_string())
    .collect();
    assert_eq!(
        textures_to_pack(&paths),
        vec![
            "minecraft/textures/block/stone.png",
            "minecraft/textures/block/water_still.png",
            "minecraft/textures/block/dirt.png",
        ]
    );
    assert!(textures_to_pack(&vec![]).is_empty());
}

#[test]
fn error_message_names_kind_and_subject() {
    assert_eq!(ResolveError::new(ErrorKind::NotFound, "block/dirt").message(), "not found: block/dirt");
    assert_eq!(ResolveError::new(ErrorKind::Cycle, "a").message(), "cycle: a");
    assert_eq!(ResolveError::new(ErrorKind::Parse, "").message(), "parse error: ");
}
