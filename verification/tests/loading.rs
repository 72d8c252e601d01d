use mc_renderer::assets::AssetPack;
use mc_renderer::blockstate::MultipartCase;
use mc_renderer::grid::Blocks;
use mc_renderer::loading::{distinct_blocks, next_missing, AssetRequest};
use mc_renderer::model::{ModelDefinition, ModelProperties};
use mc_renderer::resolve::get_block_models_for;

fn reference(model: &str) -> ModelProperties {
    ModelProperties { model: model.to_string(), x: 0, y: 0, uv_lock: false, weight: 1 }
}

fn case(models: &[&str]) -> MultipartCase {
    MultipartCase { when: None, apply: models.iter().map(|m| reference(m)).collect() }
}

fn model(parent: Option<&str>) -> ModelDefinition {
    ModelDefinition { parent: parent.map(|p| p.to_string()), textures: None, elements: None }
}

fn names(list: &[&str]) -> Vec<String> {
    list.iter().map(|s| s.to_string()).collect()
}

#[test]
fn distinct_blocks_keep_first_seen_order() {
    let grid = Blocks::new((1, 2, 3), names(&["a", "b", "a", "c[x=1]", "b", "c[x=2]"])).unwrap();
    assert_eq!(distinct_blocks(&grid), names(&["a", "b", "c[x=1]", "c[x=2]"]));
    let empty = Blocks::new((0, 0, 0), vec![]).unwrap();
    assert!(distinct_blocks(&empty).is_empty());
}

#[test]
fn missing_description_is_asked_for_first() {
    let pack = AssetPack::new();
    assert_eq!(
        next_missing(&pack, &names(&["minecraft:stone[a=b]", "minecraft:dirt"])),
        Some(AssetRequest::BlockStates("minecraft:stone".to_string()))
    );
    assert_eq!(next_missing(&pack, &vec![]), None);
}

#[test]
fn missing_models_are_asked_for_along_the_chain() {
    let mut pack = AssetPack::new();
    pack.add_blockstates("stone", vec![case(&["block/stone", "block/unused"]), case(&["block/extra"])]);
    let wanted = names(&["stone"]);
    assert_eq!(next_missing(&pack, &wanted), Some(AssetRequest::Model("block/stone".to_string())));
    pack.add_model("block/stone", model(Some("block/cube")));
    assert_eq!(next_missing(&pack, &wanted), Some(AssetRequest::Model("block/cube".to_string())));
    pack.add_model("block/cube", model(Some("builtin/none")));
    assert_eq!(next_missing(&pack, &wanted), Some(AssetRequest::Model("block/extra".to_string())));
    pack.add_model("block/extra", model(None));
    assert_eq!(next_missing(&pack, &wanted), None);
}

#[test]
fn broken_block_states_miss_nothing() {
    let mut pack = AssetPack::new();
    pack.add_blockstates("stone", vec![case(&["loop"])]);
    pack.add_model("loop", model(Some("loop")));
    assert_eq!(next_missing(&pack, &names(&["stone[oops]", "stone"])), None);
}

#[test]
fn loading_until_nothing_is_missing_makes_resolution_succeed() {
    let disk_states = |name: &str| match name {
        "a" => Some(vec![case(&["m1"])]),
        "b" => Some(vec![case(&["m2"]), case(&["m1"])]),
        _ => None,
    };
    let disk_models = |name: &str| match name {
        "m1" => Some(model(Some("base"))),
        "m2" => Some(model(Some("m1"))),
        "base" => Some(model(None)),
        _ => None,
    };
    let grid = Blocks::new((2, 1, 2), names(&["a", "b[k=v]", "a", "b"])).unwrap();
    let wanted = distinct_blocks(&grid);
    let mut pack = AssetPack::new();
    let mut loads = 0;
    while let Some(request) = next_missing(&pack, &wanted) {
        loads += 1;
        assert!(loads <= 5);
        match request {
            AssetRequest::BlockStates(name) => {
                pack.add_blockstates(&name, disk_states(&name).unwrap())
            }
            AssetRequest::Model(name) => pack.add_model(&name, disk_models(&name).unwrap()),
        }
    }
    assert_eq!(loads, 5);
    let models = get_block_models_for(&pack, &grid).unwrap();
    assert_eq!(models.len(), 3);
}
