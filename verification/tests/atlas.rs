use mc_renderer::atlas::{
    create_texture_atlas, strip_all_prefix, texture_path_of, tile_has_transparency, AtlasUv,
    PixelRect, TextureAtlas, TextureDetails,
};
use mc_renderer::error::ErrorKind;

fn image(width: u32, height: u32, alpha: u8) -> Vec<u8> {
    let mut pixels = Vec::new();
    for _ in 0..(width * height) {
        pixels.extend_from_slice(&[10, 20, 30, alpha]);
    }
    pixels
}

fn set_alpha(pixels: &mut Vec<u8>, width: u32, x: u32, y: u32, alpha: u8) {
    let at = ((y * width + x) * 4 + 3) as usize;
    pixels[at] = alpha;
}

fn rect(min_x: u32, min_y: u32, max_x: u32, max_y: u32) -> PixelRect {
    PixelRect { min_x, min_y, max_x, max_y }
}

fn two_tiles(pixels: &Vec<u8>) -> TextureAtlas {
    let names = vec![
        "minecraft/textures/block/stone.png".to_string(),
        "minecraft/textures/block/glass.png".to_string(),
    ];
    let rects = vec![rect(0, 0, 16, 16), rect(16, 0, 32, 16)];
    create_texture_atlas(&names, &rects, 32, 16, pixels).unwrap()
}

#[test]
fn partial_alpha_flags_the_tile() {
    for alpha in [1u8, 2, 127, 128, 253, 254] {
        let mut pixels = image(32, 16, 255);
        set_alpha(&mut pixels, 32, 20, 7, alpha);
        let r = rect(16, 0, 32, 16);
        assert!(tile_has_transparency(&pixels, 32, 16, r));
        assert!(!tile_has_transparency(&pixels, 32, 16, rect(0, 0, 16, 16)));
    }
}

#[test]
fn opaque_tile_is_not_flagged() {
    let pixels = image(32, 16, 255);
    assert!(!tile_has_transparency(&pixels, 32, 16, rect(0, 0, 32, 16)));
}

#[test]
fn fully_transparent_pixels_do_not_flag() {
    let mut pixels = image(16, 16, 255);
    set_alpha(&mut pixels, 16, 3, 3, 0);
    set_alpha(&mut pixels, 16, 15, 15, 0);
    assert!(!tile_has_transparency(&pixels, 16, 16, rect(0, 0, 16, 16)));
    assert!(!tile_has_transparency(&image(16, 16, 0), 16, 16, rect(0, 0, 16, 16)));
}

#[test]
fn pixels_on_the_far_edge_belong_to_the_next_tile() {
    let mut pixels = image(32, 16, 255);
    set_alpha(&mut pixels, 32, 16, 0, 100);
    assert!(!tile_has_transparency(&pixels, 32, 16, rect(0, 0, 16, 16)));
    assert!(tile_has_transparency(&pixels, 32, 16, rect(16, 0, 32, 16)));
    set_alpha(&mut pixels, 32, 15, 15, 100);
    assert!(tile_has_transparency(&pixels, 32, 16, rect(0, 0, 16, 16)));
    assert!(!tile_has_transparency(&pixels, 32, 16, rect(5, 5, 5, 5)));
}

#[test]
fn atlas_records_tiles_and_flags() {
    let mut pixels = image(32, 16, 255);
    set_alpha(&mut pixels, 32, 31, 15, 200);
    let atlas = two_tiles(&pixels);
    assert_eq!((atlas.width(), atlas.height(), atlas.len()), (32, 16, 2));
    let stone = atlas.get_tex_details("block/stone").unwrap();
    assert_eq!(
        stone,
        TextureDetails {
            rect: rect(0, 0, 16, 16),
            atlas_width: 32,
            atlas_height: 16,
            has_transparency: false,
        }
    );
    let glass = atlas.get_tex_details("minecraft:block/glass").unwrap();
    assert_eq!(glass.rect, rect(16, 0, 32, 16));
    assert!(glass.has_transparency);
}

#[test]
fn lookup_strips_namespace_and_folder() {
    assert_eq!(texture_path_of("minecraft:block/stone"), "minecraft/textures/block/stone.png");
    assert_eq!(texture_path_of("block/stone"), "minecraft/textures/block/stone.png");
    assert_eq!(texture_path_of("stone"), "minecraft/textures/block/stone.png");
    assert_eq!(
        texture_path_of("minecraft:minecraft:block/block/stone"),
        "minecraft/textures/block/stone.png"
    );
    assert_eq!(texture_path_of("block/minecraft:x"), "minecraft/textures/block/minecraft:x.png");
    assert_eq!(strip_all_prefix("aaab", "a"), "b");
    assert_eq!(strip_all_prefix("aaab", ""), "aaab");
    assert_eq!(strip_all_prefix("abab", "ab"), "");
}

#[test]
fn texture_that_was_never_packed_is_not_found() {
    let atlas = two_tiles(&image(32, 16, 255));
    let err = atlas.get_tex_details("block/dirt").unwrap_err();
    assert_eq!(err.kind, ErrorKind::NotFound);
    assert_eq!(err.subject, "minecraft/textures/block/dirt.png");
}

#[test]
fn first_tile_of_a_name_is_found() {
    let names = vec!["minecraft/textures/block/a.png".to_string(); 2];
    let rects = vec![rect(0, 0, 1, 1), rect(1, 0, 2, 1)];
    let atlas = create_texture_atlas(&names, &rects, 2, 1, &image(2, 1, 255)).unwrap();
    assert_eq!(atlas.get_tex_details("a").unwrap().rect, rect(0, 0, 1, 1));
}

#[test]
fn layout_that_does_not_fit_is_refused() {
    let names = vec!["a".to_string()];
    let pixels = image(4, 4, 255);
    let bad = [
        create_texture_atlas(&names, &vec![rect(0, 0, 5, 4)], 4, 4, &pixels),
        create_texture_atlas(&names, &vec![rect(0, 0, 4, 5)], 4, 4, &pixels),
        create_texture_atlas(&names, &vec![rect(3, 0, 2, 4)], 4, 4, &pixels),
        create_texture_atlas(&names, &vec![], 4, 4, &pixels),
        create_texture_atlas(&names, &vec![rect(0, 0, 4, 4)], 4, 5, &pixels),
        create_texture_atlas(&names, &vec![rect(0, 0, 1, 1)], 0x100_0001, 1, &pixels),
    ];
    for r in bad {
        let err = r.unwrap_err();
        assert_eq!(err.kind, ErrorKind::Parse);
        assert_eq!(err.subject, "texture atlas layout");
    }
    assert!(create_texture_atlas(&names, &vec![rect(0, 0, 4, 4)], 4, 4, &pixels).is_ok());
    assert!(create_texture_atlas(&vec![], &vec![], 0, 0, &vec![]).is_ok());
}

#[test]
fn atlas_uvs_interpolate_across_the_tile() {
    let d = TextureDetails {
        rect: rect(16, 32, 32, 48),
        atlas_width: 64,
        atlas_height: 64,
        has_transparency: false,
    };
    assert_eq!(d.get_atlas_uvs(0, 0), AtlasUv { u: 16 * 65536, v: 32 * 65536 });
    assert_eq!(d.get_atlas_uvs(65536, 65536), AtlasUv { u: 32 * 65536, v: 48 * 65536 });
    assert_eq!(d.get_atlas_uvs(32768, 16384), AtlasUv { u: 24 * 65536, v: 36 * 65536 });
    assert_eq!(d.get_atlas_uvs(-65536, 131072), AtlasUv { u: 0, v: 64 * 65536 });
    let uv = d.get_atlas_uvs(32768, 16384);
    let u = uv.u as f32 / (65536.0 * d.atlas_width as f32);
    let v = uv.v as f32 / (65536.0 * d.atlas_height as f32);
    assert!((u - 0.375).abs() < 1e-6);
    assert!((v - 0.5625).abs() < 1e-6);
}
