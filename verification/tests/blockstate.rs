use mc_renderer::blockstate::{
    condition_applies, decode_props, parse_block_state, trim_end_matches, when_applies, Condition,
    MultipartCase, Requirement, StateValue, WhenClause,
};
use mc_renderer::error::ErrorKind;
use mc_renderer::table::StringMap;

fn props(pairs: &[(&str, &str)]) -> StringMap {
    let mut m = StringMap::new();
    for (k, v) in pairs {
        m.insert(k, v);
    }
    m
}

fn text(state: &str, value: &str) -> Requirement {
    Requirement { state: state.to_string(), value: StateValue::Text(value.to_string()) }
}

fn flag(state: &str, value: bool) -> Requirement {
    Requirement { state: state.to_string(), value: StateValue::Bool(value) }
}

#[test]
fn parse_name_and_properties() {
    let key = parse_block_state("minecraft:redstone_wire[east=side,power=7]").unwrap();
    assert_eq!(key.name, "minecraft:redstone_wire");
    assert_eq!(key.props.len(), 2);
    assert_eq!(key.props.get("east"), Some("side"));
    assert_eq!(key.props.get("power"), Some("7"));
    assert_eq!(key.props.get("west"), None);
}

#[test]
fn parse_without_properties() {
    let key = parse_block_state("minecraft:stone").unwrap();
    assert_eq!(key.name, "minecraft:stone");
    assert_eq!(key.props.len(), 0);
    let key = parse_block_state("minecraft:stone[]").unwrap();
    assert_eq!(key.name, "minecraft:stone");
    assert_eq!(key.props.len(), 0);
}

#[test]
fn parse_splits_at_the_first_bracket_and_strips_closing_ones() {
    let key = parse_block_state("a[k=v]]]").unwrap();
    assert_eq!(key.name, "a");
    assert_eq!(key.props.get("k"), Some("v"));
    let key = parse_block_state("a[k=[v]").unwrap();
    assert_eq!(key.props.get("k"), Some("[v"));
}

#[test]
fn pair_without_equals_is_a_parse_error() {
    let err = parse_block_state("minecraft:lever[powered]").unwrap_err();
    assert_eq!(err.kind, ErrorKind::Parse);
    assert_eq!(err.subject, "powered");
    let err = decode_props("a=1,,b=2").unwrap_err();
    assert_eq!(err.kind, ErrorKind::Parse);
    assert_eq!(err.subject, "");
    let err = decode_props("a=1,").unwrap_err();
    assert_eq!(err.kind, ErrorKind::Parse);
}

#[test]
fn decode_props_splits_at_the_first_equals() {
    let m = decode_props("a=b=c,d=").unwrap();
    assert_eq!(m.get("a"), Some("b=c"));
    assert_eq!(m.get("d"), Some(""));
    assert_eq!(decode_props("").unwrap().len(), 0);
}

#[test]
fn later_property_replaces_earlier() {
    let m = decode_props("a=1,a=2").unwrap();
    assert_eq!(m.get("a"), Some("2"));
}

#[test]
fn trim_end_matches_strips_the_whole_run() {
    assert_eq!(trim_end_matches("abc]]", ']'), "abc");
    assert_eq!(trim_end_matches("]]", ']'), "");
    assert_eq!(trim_end_matches("a]b", ']'), "a]b");
}

#[test]
fn predicate_with_alternatives() {
    let condition = Condition { and: vec![text("power", "0|1|2")] };
    assert!(condition_applies(&condition, &props(&[("power", "1")])));
    assert!(condition_applies(&condition, &props(&[("power", "0")])));
    assert!(condition_applies(&condition, &props(&[("power", "2")])));
    assert!(!condition_applies(&condition, &props(&[("power", "5")])));
    assert!(!condition_applies(&condition, &props(&[("power", "12")])));
    assert!(!condition_applies(&condition, &props(&[("power", "")])));
}

#[test]
fn empty_predicate_always_matches() {
    let condition = Condition { and: vec![] };
    assert!(condition_applies(&condition, &props(&[])));
    assert!(condition_applies(&condition, &props(&[("power", "5")])));
    let case = MultipartCase { when: None, apply: vec![] };
    assert!(case.applies(&props(&[("anything", "at all")])));
}

#[test]
fn every_requirement_must_hold() {
    let condition = Condition { and: vec![text("north", "side|up"), text("east", "side|up")] };
    assert!(condition_applies(&condition, &props(&[("north", "up"), ("east", "side")])));
    assert!(!condition_applies(&condition, &props(&[("north", "up"), ("east", "none")])));
}

#[test]
fn missing_property_fails_its_requirement() {
    let condition = Condition { and: vec![text("north", "side")] };
    assert!(!condition_applies(&condition, &props(&[("east", "side")])));
}

#[test]
fn boolean_requirement_matches_its_text() {
    let on = Condition { and: vec![flag("powered", true)] };
    assert!(condition_applies(&on, &props(&[("powered", "true")])));
    assert!(!condition_applies(&on, &props(&[("powered", "false")])));
    assert!(!condition_applies(&on, &props(&[("powered", "yes")])));
    let off = Condition { and: vec![flag("powered", false)] };
    assert!(condition_applies(&off, &props(&[("powered", "false")])));
}

#[test]
fn actual_value_with_alternatives_matches_a_piece() {
    let condition = Condition { and: vec![text("shape", "straight")] };
    assert!(condition_applies(&condition, &props(&[("shape", "straight|curved")])));
    assert!(!condition_applies(&condition, &props(&[("shape", "curved|bent")])));
}

#[test]
fn or_clause_needs_one_condition() {
    let clause = WhenClause::Or(vec![
        Condition { and: vec![text("north", "side")] },
        Condition { and: vec![text("south", "side")] },
    ]);
    assert!(when_applies(&clause, &props(&[("north", "none"), ("south", "side")])));
    assert!(!when_applies(&clause, &props(&[("north", "none"), ("south", "none")])));
    assert!(!when_applies(&WhenClause::Or(vec![]), &props(&[])));
    let single = WhenClause::Single(Condition { and: vec![text("north", "side")] });
    assert!(when_applies(&single, &props(&[("north", "side")])));
}
