use mc_renderer::atlas::{create_texture_atlas, AtlasUv, PixelRect, TextureAtlas};
use mc_renderer::error::ErrorKind;
use mc_renderer::geometry::{Axis, Point};
use mc_renderer::mesh::{
    corner_of, create_mesh_for_block, element_mesh, face_in_order, normal_of, place_mesh,
    resolve_face_texture, rotate_uv_with_orig, turn_steps_of, UvLock,
};
use mc_renderer::model::{
    BlockFace, BlockModel, BlockModels, Element, ElementFace, ElementFaces, ElementRotation,
    ModelPoint, ProcessedModel, UvRect,
};
use mc_renderer::table::StringMap;
use mc_renderer::tint::Tint;

const U: i32 = 4096;
const ONE: i64 = 65536;

fn atlas() -> TextureAtlas {
    let names = vec![
        "minecraft/textures/block/stone.png".to_string(),
        "minecraft/textures/block/glass.png".to_string(),
    ];
    let rects = vec![
        PixelRect { min_x: 0, min_y: 0, max_x: 16, max_y: 16 },
        PixelRect { min_x: 16, min_y: 0, max_x: 32, max_y: 16 },
    ];
    let mut pixels = Vec::new();
    for i in 0..(32 * 16) {
        let x = i % 32;
        pixels.extend_from_slice(&[0, 0, 0, if x >= 16 { 128 } else { 255 }]);
    }
    create_texture_atlas(&names, &rects, 32, 16, &pixels).unwrap()
}

fn textures() -> StringMap {
    let mut t = StringMap::new();
    t.insert("all", "block/stone");
    t.insert("pane", "minecraft:block/glass");
    t.insert("lost", "block/unpacked");
    t
}

fn face(texture: &str) -> Option<ElementFace> {
    Some(ElementFace { uv: None, texture: texture.to_string() })
}

fn no_rotation() -> ElementRotation {
    ElementRotation { origin: ModelPoint { x: 0, y: 0, z: 0 }, axis: Axis::X, steps: 0 }
}

fn cube(texture: &str) -> Element {
    Element {
        from: ModelPoint { x: 0, y: 0, z: 0 },
        to: ModelPoint { x: 16 * U, y: 16 * U, z: 16 * U },
        faces: ElementFaces {
            down: face(texture),
            up: face(texture),
            north: face(texture),
            south: face(texture),
            west: face(texture),
            east: face(texture),
        },
        rotation: no_rotation(),
    }
}

fn slab_top_only() -> Element {
    let mut faces = ElementFaces::none();
    faces.up = face("#all");
    Element {
        from: ModelPoint { x: 0, y: 0, z: 0 },
        to: ModelPoint { x: 16 * U, y: 8 * U, z: 16 * U },
        faces,
        rotation: no_rotation(),
    }
}

fn free() -> UvLock {
    UvLock { x_steps: 0, y_steps: 0 }
}

fn p(x: i64, y: i64, z: i64) -> Point {
    Point { x, y, z }
}

fn model(elements: Vec<Element>, x_turns: u8, y_turns: u8, uv_lock: bool) -> ProcessedModel {
    ProcessedModel { x_turns, y_turns, uv_lock, textures: textures(), elements }
}

fn block_models(block: &str, models: Vec<ProcessedModel>, tint: Option<Tint>) -> BlockModels {
    let mut all = BlockModels::new();
    all.push(BlockModel { block: block.to_string(), models, tint });
    all
}

#[test]
fn full_cube_has_six_quads() {
    let mesh = element_mesh(&cube("#all"), &atlas(), &textures(), free()).unwrap();
    assert_eq!(mesh.positions.len(), 24);
    assert_eq!(mesh.normals.len(), 24);
    assert_eq!(mesh.uvs.len(), 24);
    assert_eq!(mesh.indices.len(), 36);
    assert!(!mesh.has_transparency);
    assert_eq!(mesh.offset, p(32768, 32768, 32768));
    for quad in 0..6u32 {
        let b = quad * 4;
        let at = (quad * 6) as usize;
        assert_eq!(&mesh.indices[at..at + 6], &[b, b + 1, b + 2, b + 2, b + 3, b]);
    }
}

#[test]
fn faces_come_in_a_fixed_order_with_their_normals() {
    let mesh = element_mesh(&cube("#all"), &atlas(), &textures(), free()).unwrap();
    let normals = [
        p(0, 16384, 0),
        p(0, -16384, 0),
        p(16384, 0, 0),
        p(-16384, 0, 0),
        p(0, 0, 16384),
        p(0, 0, -16384),
    ];
    for (quad, n) in normals.iter().enumerate() {
        for k in 0..4 {
            assert_eq!(mesh.normals[quad * 4 + k], *n);
        }
        assert_eq!(normal_of(face_in_order(quad)), *n);
    }
    assert_eq!(face_in_order(0), BlockFace::Up);
    assert_eq!(face_in_order(1), BlockFace::Down);
    assert_eq!(face_in_order(2), BlockFace::East);
    assert_eq!(face_in_order(3), BlockFace::West);
    assert_eq!(face_in_order(4), BlockFace::South);
    assert_eq!(face_in_order(5), BlockFace::North);
}

#[test]
fn top_face_winding_and_default_uvs() {
    let mesh = element_mesh(&slab_top_only(), &atlas(), &textures(), free()).unwrap();
    let h = 8 * U as i64;
    assert_eq!(mesh.positions, vec![p(ONE, h, 0), p(0, h, 0), p(0, h, ONE), p(ONE, h, ONE)]);
    assert_eq!(
        mesh.uvs,
        vec![
            AtlasUv { u: 16 * ONE, v: 0 },
            AtlasUv { u: 0, v: 0 },
            AtlasUv { u: 0, v: 16 * ONE },
            AtlasUv { u: 16 * ONE, v: 16 * ONE },
        ]
    );
    assert_eq!(mesh.indices, vec![0, 1, 2, 2, 3, 0]);
    assert_eq!(mesh.offset, p(32768, 16384, 32768));
}

#[test]
fn every_face_uses_its_own_corners() {
    let e = Element {
        from: ModelPoint { x: 1, y: 2, z: 3 },
        to: ModelPoint { x: 11, y: 12, z: 13 },
        ..cube("#all")
    };
    let mesh = element_mesh(&e, &atlas(), &textures(), free()).unwrap();
    let want = vec![
        // up
        p(11, 12, 3), p(1, 12, 3), p(1, 12, 13), p(11, 12, 13),
        // down
        p(11, 2, 13), p(1, 2, 13), p(1, 2, 3), p(11, 2, 3),
        // east
        p(11, 2, 3), p(11, 12, 3), p(11, 12, 13), p(11, 2, 13),
        // west
        p(1, 2, 13), p(1, 12, 13), p(1, 12, 3), p(1, 2, 3),
        // south
        p(1, 2, 13), p(11, 2, 13), p(11, 12, 13), p(1, 12, 13),
        // north
        p(1, 12, 3), p(11, 12, 3), p(11, 2, 3), p(1, 2, 3),
    ];
    assert_eq!(mesh.positions, want);
    let corners: Vec<(u8, u8)> = (0..4).map(|k| {
        let c = corner_of(BlockFace::East, k);
        (c.u, c.v)
    }).collect();
    assert_eq!(corners, vec![(1, 1), (1, 0), (0, 0), (0, 1)]);
    assert_eq!(mesh.offset, p(6, 7, 8));
}

#[test]
fn explicit_uv_rectangle_remaps_the_corners() {
    let mut e = slab_top_only();
    e.faces.up = Some(ElementFace {
        uv: Some(UvRect { x1: 4 * U, y1: 0, x2: 12 * U, y2: 16 * U }),
        texture: "#pane".to_string(),
    });
    let mesh = element_mesh(&e, &atlas(), &textures(), free()).unwrap();
    assert_eq!(
        mesh.uvs,
        vec![
            AtlasUv { u: (16 + 12) * ONE, v: 0 },
            AtlasUv { u: (16 + 4) * ONE, v: 0 },
            AtlasUv { u: (16 + 4) * ONE, v: 16 * ONE },
            AtlasUv { u: (16 + 12) * ONE, v: 16 * ONE },
        ]
    );
    assert!(mesh.has_transparency);
}

#[test]
fn swapped_uv_rectangle_flips_the_texture() {
    let mut e = slab_top_only();
    e.faces.up = Some(ElementFace {
        uv: Some(UvRect { x1: 16 * U, y1: 0, x2: 0, y2: 16 * U }),
        texture: "#all".to_string(),
    });
    let mesh = element_mesh(&e, &atlas(), &textures(), free()).unwrap();
    assert_eq!(mesh.uvs[0], AtlasUv { u: 0, v: 0 });
    assert_eq!(mesh.uvs[1], AtlasUv { u: 16 * ONE, v: 0 });
}

#[test]
fn face_with_an_unresolved_texture_is_skipped() {
    let mut e = cube("#all");
    e.faces.east = face("#nowhere");
    e.faces.west = face("block/stone");
    e.faces.north = None;
    let mesh = element_mesh(&e, &atlas(), &textures(), free()).unwrap();
    assert_eq!(mesh.positions.len(), 12);
    assert_eq!(mesh.indices, vec![0, 1, 2, 2, 3, 0, 4, 5, 6, 6, 7, 4, 8, 9, 10, 10, 11, 8]);
    assert_eq!(mesh.normals[8], p(0, 0, 16384));
    let t = textures();
    assert_eq!(resolve_face_texture(e.faces.up.as_ref().unwrap(), &t), Some("block/stone"));
    assert_eq!(resolve_face_texture(e.faces.east.as_ref().unwrap(), &t), None);
    assert_eq!(resolve_face_texture(e.faces.west.as_ref().unwrap(), &t), None);
}

#[test]
fn element_without_faces_gives_an_empty_mesh() {
    let mut e = cube("#all");
    e.faces = ElementFaces::none();
    let mesh = element_mesh(&e, &atlas(), &textures(), free()).unwrap();
    assert!(mesh.positions.is_empty() && mesh.indices.is_empty() && mesh.uvs.is_empty());
    assert!(!mesh.has_transparency);
}

#[test]
fn one_transparent_tile_marks_the_whole_element() {
    let mut e = cube("#all");
    e.faces.north = face("#pane");
    let mesh = element_mesh(&e, &atlas(), &textures(), free()).unwrap();
    assert!(mesh.has_transparency);
    assert_eq!(mesh.positions.len(), 24);
}

#[test]
fn texture_missing_from_the_atlas_is_not_found() {
    let mut e = cube("#all");
    e.faces.south = face("#lost");
    let err = element_mesh(&e, &atlas(), &textures(), free()).unwrap_err();
    assert_eq!(err.kind, ErrorKind::NotFound);
    assert_eq!(err.subject, "minecraft/textures/block/unpacked.png");
}

#[test]
fn uv_lock_turns_texture_coordinates_and_keeps_positions() {
    let e = slab_top_only();
    let locked = element_mesh(
        &e,
        &atlas(),
        &textures(),
        UvLock { x_steps: 0, y_steps: turn_steps_of(1) },
    )
    .unwrap();
    let unlocked = element_mesh(&e, &atlas(), &textures(), free()).unwrap();
    assert_eq!(locked.positions, unlocked.positions);
    assert_eq!(locked.normals, unlocked.normals);
    assert_eq!(locked.indices, unlocked.indices);
    assert_eq!(locked.offset, unlocked.offset);
    // (u, v) becomes (1 - v, u): the corners (1,0) (0,0) (0,1) (1,1)
    // become (1,1) (1,0) (0,0) (0,1).
    assert_eq!(
        locked.uvs,
        vec![
            AtlasUv { u: 16 * ONE, v: 16 * ONE },
            AtlasUv { u: 16 * ONE, v: 0 },
            AtlasUv { u: 0, v: 0 },
            AtlasUv { u: 0, v: 16 * ONE },
        ]
    );
}

#[test]
fn uv_lock_uses_x_steps_on_side_faces() {
    let mut e = cube("#all");
    e.faces.up = None;
    e.faces.down = None;
    let by_y = element_mesh(&e, &atlas(), &textures(), UvLock { x_steps: 0, y_steps: 4 }).unwrap();
    let by_x = element_mesh(&e, &atlas(), &textures(), UvLock { x_steps: 4, y_steps: 0 }).unwrap();
    let plain = element_mesh(&e, &atlas(), &textures(), free()).unwrap();
    assert_eq!(by_y.uvs, plain.uvs);
    assert!(by_x.uvs != plain.uvs);
    assert_eq!(by_x.positions, plain.positions);
}

#[test]
fn rotate_uv_about_the_centre() {
    assert_eq!(rotate_uv_with_orig(12, (32768, 32768), (65536, 0)), (65536, 65536));
    assert_eq!(rotate_uv_with_orig(4, (32768, 32768), (65536, 0)), (0, 0));
    assert_eq!(rotate_uv_with_orig(8, (32768, 32768), (65536, 0)), (0, 65536));
    assert_eq!(rotate_uv_with_orig(0, (32768, 32768), (1234, 5678)), (1234, 5678));
    assert_eq!(rotate_uv_with_orig(16, (32768, 32768), (1234, 5678)), (1234, 5678));
}

#[test]
fn turn_steps_count_backwards() {
    assert_eq!(turn_steps_of(0), 0);
    assert_eq!(turn_steps_of(1), 12);
    assert_eq!(turn_steps_of(2), 8);
    assert_eq!(turn_steps_of(3), 4);
    assert_eq!(turn_steps_of(4), 0);
    assert_eq!(turn_steps_of(7), 4);
}

#[test]
fn block_without_rotation_is_recentred() {
    let models = block_models("minecraft:slab", vec![model(vec![slab_top_only()], 0, 0, false)], None);
    let (meshes, tint) = create_mesh_for_block("minecraft:slab", &atlas(), &models).unwrap();
    assert_eq!(tint, None);
    assert_eq!(meshes.len(), 1);
    let m = &meshes[0];
    assert_eq!(m.offset, p(32768, 16384, 32768));
    assert_eq!(
        m.positions,
        vec![
            p(32768, 16384, -32768),
            p(-32768, 16384, -32768),
            p(-32768, 16384, 32768),
            p(32768, 16384, 32768),
        ]
    );
    assert_eq!(m.normals, vec![p(0, 16384, 0); 4]);
}

#[test]
fn model_turn_about_y_moves_positions_and_normals() {
    let mut e = cube("#all");
    e.faces = ElementFaces::none();
    e.faces.east = face("#all");
    e.to = ModelPoint { x: 16 * U, y: 16 * U, z: 8 * U };
    let models = block_models("b", vec![model(vec![e], 0, 1, false)], None);
    let (meshes, _) = create_mesh_for_block("b", &atlas(), &models).unwrap();
    let m = &meshes[0];
    // A turn by -90 degrees about Y takes (dx, dy, dz) from the centre to
    // (-dz, dy, dx): the east face looks south afterwards.
    assert_eq!(m.normals, vec![p(0, 0, 16384); 4]);
    // midpoint (8, 8, 4) units goes to (12, 8, 8) units
    assert_eq!(m.offset, p(12 * 4096, 8 * 4096, 8 * 4096));
    // first east corner (16, 0, 0) units goes to (16, 0, 16) units
    assert_eq!(m.positions[0], p(4 * 4096, -8 * 4096, 8 * 4096));
}

#[test]
fn model_turn_about_x_comes_before_the_turn_about_y() {
    let mut e = cube("#all");
    e.faces = ElementFaces::none();
    e.faces.up = face("#all");
    let models = block_models("b", vec![model(vec![e], 1, 1, false)], None);
    let (meshes, _) = create_mesh_for_block("b", &atlas(), &models).unwrap();
    // -90 degrees about X takes the up normal to north (0, 0, -1);
    // -90 degrees about Y then takes north to east (1, 0, 0).
    assert_eq!(meshes[0].normals[0], p(16384, 0, 0));
}

#[test]
fn element_rotation_by_a_quarter_about_y() {
    let raw = element_mesh(&slab_top_only(), &atlas(), &textures(), free()).unwrap();
    let rot = ElementRotation {
        origin: ModelPoint { x: 8 * U, y: 8 * U, z: 8 * U },
        axis: Axis::Y,
        steps: 4,
    };
    let placed = place_mesh(raw.clone(), &rot, 0, 0);
    // (dx, dy, dz) goes to (dz, dy, -dx) about the origin
    let moved: Vec<Point> = raw
        .positions
        .iter()
        .map(|v| p(32768 + (v.z - 32768), v.y, 32768 - (v.x - 32768)))
        .collect();
    let offset = p(32768, 16384, 32768);
    assert_eq!(placed.offset, offset);
    for (got, want) in placed.positions.iter().zip(moved.iter()) {
        assert_eq!(*got, p(want.x - offset.x, want.y - offset.y, want.z - offset.z));
    }
    assert_eq!(placed.uvs, raw.uvs);
    assert_eq!(placed.indices, raw.indices);
}

#[test]
fn element_rotation_by_45_degrees_stays_close_to_the_exact_value() {
    let mut e = slab_top_only();
    e.rotation = ElementRotation {
        origin: ModelPoint { x: 8 * U, y: 8 * U, z: 8 * U },
        axis: Axis::Y,
        steps: 2,
    };
    let models = block_models("b", vec![model(vec![e], 0, 0, false)], None);
    let (meshes, _) = create_mesh_for_block("b", &atlas(), &models).unwrap();
    let m = &meshes[0];
    let (s, c) = (45.0f64.to_radians().sin(), 45.0f64.to_radians().cos());
    // first corner is (16, 8, 0) units: (8, 0, -8) from the origin
    let (dx, dz) = (8.0 * 4096.0, -8.0 * 4096.0);
    let x = dx * c + dz * s + 32768.0;
    let z = -dx * s + dz * c + 32768.0;
    let got = m.positions[0];
    assert!(((got.x + m.offset.x) as f64 - x).abs() < 4.0);
    assert!(((got.z + m.offset.z) as f64 - z).abs() < 4.0);
    assert_eq!(got.y + m.offset.y, 8 * 4096);
    let n = m.normals[0];
    assert_eq!(n, p(0, 16384, 0));
}

#[test]
fn uv_lock_on_a_turned_model_leaves_positions_alone() {
    let locked = block_models("b", vec![model(vec![slab_top_only()], 0, 1, true)], None);
    let unlocked = block_models("b", vec![model(vec![slab_top_only()], 0, 1, false)], None);
    let (a, _) = create_mesh_for_block("b", &atlas(), &locked).unwrap();
    let (b, _) = create_mesh_for_block("b", &atlas(), &unlocked).unwrap();
    assert_eq!(a[0].positions, b[0].positions);
    assert_eq!(a[0].normals, b[0].normals);
    assert_eq!(a[0].offset, b[0].offset);
    let turned: Vec<AtlasUv> = b[0]
        .uvs
        .iter()
        .map(|uv| AtlasUv { u: 16 * ONE - uv.v, v: uv.u })
        .collect();
    assert_eq!(a[0].uvs, turned);
}

#[test]
fn every_element_of_every_model_gets_a_mesh() {
    let models = block_models(
        "b",
        vec![
            model(vec![slab_top_only(), cube("#all")], 0, 0, false),
            model(vec![], 0, 0, false),
            model(vec![cube("#pane")], 0, 2, false),
        ],
        Some(Tint { r: 1, g: 2, b: 3 }),
    );
    let (meshes, tint) = create_mesh_for_block("b", &atlas(), &models).unwrap();
    assert_eq!(tint, Some(Tint { r: 1, g: 2, b: 3 }));
    let sizes: Vec<usize> = meshes.iter().map(|m| m.positions.len()).collect();
    assert_eq!(sizes, vec![4, 24, 24]);
    let flags: Vec<bool> = meshes.iter().map(|m| m.has_transparency).collect();
    assert_eq!(flags, vec![false, false, true]);
}

#[test]
fn unknown_block_has_no_mesh() {
    let models = block_models("b", vec![], None);
    let err = create_mesh_for_block("c", &atlas(), &models).unwrap_err();
    assert_eq!(err.kind, ErrorKind::NotFound);
    assert_eq!(err.subject, "c");
    assert_eq!(create_mesh_for_block("b", &atlas(), &models).unwrap().0.len(), 0);
}

#[test]
fn failure_in_a_later_model_fails_the_block() {
    let mut broken = cube("#all");
    broken.faces.down = face("#lost");
    let models = block_models(
        "b",
        vec![model(vec![cube("#all")], 0, 0, false), model(vec![broken], 0, 0, false)],
        None,
    );
    let err = create_mesh_for_block("b", &atlas(), &models).unwrap_err();
    assert_eq!(err.kind, ErrorKind::NotFound);
}

#[test]
fn building_twice_gives_identical_geometry() {
    let mut e = cube("#all");
    e.rotation = ElementRotation {
        origin: ModelPoint { x: 3 * U, y: 5 * U, z: 7 * U },
        axis: Axis::Z,
        steps: 1,
    };
    let models = block_models("b", vec![model(vec![e, slab_top_only()], 3, 1, true)], None);
    let first = create_mesh_for_block("b", &atlas(), &models).unwrap();
    let second = create_mesh_for_block("b", &atlas(), &models).unwrap();
    assert_eq!(first, second);
}

#[test]
fn midpoint_rounds_down_to_a_tick() {
    let mut e = cube("#all");
    e.from = ModelPoint { x: 0, y: 5, z: -5 };
    e.to = ModelPoint { x: 5, y: 0, z: 0 };
    let mesh = element_mesh(&e, &atlas(), &textures(), free()).unwrap();
    assert_eq!(mesh.offset, p(2, 2, -3));
    e.from = ModelPoint { x: i32::MIN, y: i32::MAX, z: -1 };
    e.to = ModelPoint { x: i32::MAX, y: i32::MIN, z: -2 };
    let mesh = element_mesh(&e, &atlas(), &textures(), free()).unwrap();
    assert_eq!(mesh.offset, p(-1, -1, -2));
}

#[test]
fn extreme_coordinates_are_placed_without_overflow() {
    let mut e = cube("#all");
    e.from = ModelPoint { x: i32::MIN, y: i32::MIN, z: i32::MIN };
    e.to = ModelPoint { x: i32::MAX, y: i32::MAX, z: i32::MAX };
    e.rotation = ElementRotation {
        origin: ModelPoint { x: i32::MAX, y: i32::MIN, z: i32::MAX },
        axis: Axis::Z,
        steps: 3,
    };
    e.faces.up = Some(ElementFace {
        uv: Some(UvRect { x1: i32::MIN, y1: i32::MAX, x2: i32::MAX, y2: i32::MIN }),
        texture: "#pane".to_string(),
    });
    let models = block_models("b", vec![model(vec![e], 3, 2, true)], None);
    let (meshes, _) = create_mesh_for_block("b", &atlas(), &models).unwrap();
    assert_eq!(meshes[0].positions.len(), 24);
}
