use mc_renderer::table::StringMap;
use mc_renderer::tint::{
    classify_tint, get_tint_for_block, parse_power, power_wire_tint, Tint, TintKind, TINT_ONE,
};

fn props(power: &str) -> StringMap {
    let mut m = StringMap::new();
    m.insert("power", power);
    m
}

fn channel(v: u16) -> f32 {
    v as f32 / TINT_ONE as f32
}

#[test]
fn tint_without_power() {
    let t = get_tint_for_block("minecraft:redstone_wire", &props("0"), 0);
    assert_eq!(t, Tint { r: 675, g: 0, b: 0 });
    assert!((channel(t.r) - 0.3).abs() < 1e-6);
}

#[test]
fn tint_at_full_power() {
    let t = get_tint_for_block("minecraft:redstone_wire", &props("15"), 0);
    assert_eq!(t, Tint { r: 2250, g: 450, b: 0 });
    assert!((channel(t.r) - 1.0).abs() < 1e-6);
    assert!((channel(t.g) - 0.2).abs() < 1e-6);
    assert_eq!(channel(t.b), 0.0);
}

#[test]
fn tint_follows_the_curve_at_every_power() {
    for p in 0u8..=15 {
        let t = power_wire_tint(p);
        let f = p as f32 / 15.0;
        let r = f * 0.6 + if f > 0.0 { 0.4 } else { 0.3 };
        let g = (f * f * 0.7 - 0.5).clamp(0.0, 1.0);
        let b = (f * f * 0.6 - 0.7).clamp(0.0, 1.0);
        assert!((channel(t.r) - r).abs() < 1e-4);
        assert!((channel(t.g) - g).abs() < 1e-4);
        assert!((channel(t.b) - b).abs() < 1e-4);
    }
}

#[test]
fn tint_exact_values_in_between() {
    assert_eq!(power_wire_tint(8), Tint { r: 1620, g: 0, b: 0 });
    assert_eq!(power_wire_tint(13), Tint { r: 2070, g: 58, b: 0 });
    assert_eq!(power_wire_tint(14), Tint { r: 2160, g: 247, b: 0 });
    assert_eq!(power_wire_tint(1), Tint { r: 990, g: 0, b: 0 });
}

#[test]
fn missing_or_unreadable_power_is_zero() {
    let empty = StringMap::new();
    let dark = Tint { r: 675, g: 0, b: 0 };
    assert_eq!(get_tint_for_block("minecraft:redstone_wire", &empty, 0), dark);
    assert_eq!(get_tint_for_block("minecraft:redstone_wire", &props("high"), 0), dark);
    assert_eq!(get_tint_for_block("minecraft:redstone_wire", &props(""), 0), dark);
    assert_eq!(get_tint_for_block("minecraft:redstone_wire", &props("16"), 0), dark);
    assert_eq!(get_tint_for_block("minecraft:redstone_wire", &props("-1"), 0), dark);
}

#[test]
fn parse_power_reads_digits() {
    assert_eq!(parse_power("0"), 0);
    assert_eq!(parse_power("7"), 7);
    assert_eq!(parse_power("15"), 15);
    assert_eq!(parse_power("007"), 7);
    assert_eq!(parse_power("16"), 0);
    assert_eq!(parse_power("99999999999999999999"), 0);
    assert_eq!(parse_power("1.5"), 0);
    assert_eq!(parse_power("x"), 0);
}

#[test]
fn unsupported_tint_is_white() {
    let white = Tint { r: 2250, g: 2250, b: 2250 };
    assert_eq!(get_tint_for_block("minecraft:grass_block", &props("15"), 0), white);
    assert_eq!(get_tint_for_block("minecraft:redstone_wire", &props("15"), 1), white);
    assert_eq!(classify_tint("minecraft:redstone_wire", 0), TintKind::PowerWire);
    assert_eq!(classify_tint("minecraft:redstone_wire", 2), TintKind::Unsupported);
    assert_eq!(classify_tint("minecraft:oak_leaves", 0), TintKind::Unsupported);
}
