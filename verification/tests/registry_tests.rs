use tile_editor::error::EditorError;
use tile_editor::registry::{cycle_index, has_distinct_names, IconRegistry};

type Registry = IconRegistry<Vec<u8>, u32>;

fn icons(names: &[&str]) -> Vec<(String, Vec<u8>)> {
    names.iter().enumerate().map(|(i, n)| (n.to_string(), vec![i as u8; 3])).collect()
}

fn abc() -> Registry {
    let mut registry = Registry::new();
    registry.load(icons(&["a.png", "b.png", "c.png"]));
    registry
}

#[test]
fn new_registry_is_empty() {
    let registry = Registry::new();
    assert_eq!(registry.len(), 0);
    assert_eq!(registry.selected(), None);
    assert_eq!(registry.default_icon(), None);
    assert_eq!(registry.selected_name(), None);
    assert_eq!(registry.default_name(), None);
    assert!(registry.asset(0).is_none());
    assert!(registry.default_asset().is_none());
}

#[test]
fn load_keeps_the_order_and_empties_the_cache_slots() {
    let registry = abc();
    assert_eq!(registry.len(), 3);
    for (i, n) in ["a.png", "b.png", "c.png"].iter().enumerate() {
        let asset = registry.asset(i).unwrap();
        assert_eq!(asset.name, *n);
        assert_eq!(asset.image, vec![i as u8; 3]);
        assert_eq!(asset.cache, None);
    }
    assert!(registry.asset(3).is_none());
}

#[test]
fn load_selects_the_first_asset() {
    let registry = abc();
    assert_eq!(registry.selected(), Some(0));
    assert_eq!(registry.default_icon(), Some(0));
    assert_eq!(registry.selected_name(), Some("a.png"));
    assert_eq!(registry.default_name(), Some("a.png"));
    assert_eq!(registry.default_asset().unwrap().name, "a.png");
}

#[test]
fn load_again_resets_both_choices() {
    let mut registry = abc();
    assert!(registry.select_by_name("c.png"));
    assert!(registry.set_default_by_name("b.png"));
    registry.set_cache(0, Some(7));
    registry.load(icons(&["x.png", "c.png"]));
    assert_eq!(registry.len(), 2);
    assert_eq!(registry.selected_name(), Some("x.png"));
    assert_eq!(registry.default_name(), Some("x.png"));
    assert_eq!(registry.asset(0).unwrap().cache, None);
    assert_eq!(registry.asset(1).unwrap().cache, None);
}

#[test]
fn load_of_nothing_selects_nothing() {
    let mut registry = abc();
    registry.load(Vec::new());
    assert_eq!(registry.len(), 0);
    assert_eq!(registry.selected_name(), None);
    assert_eq!(registry.default_name(), None);
}

#[test]
fn cycle_selected_back_from_the_first_wraps_to_the_last() {
    let mut registry = abc();
    assert_eq!(registry.selected_name(), Some("a.png"));
    registry.cycle_selected(-1);
    assert_eq!(registry.selected_name(), Some("c.png"));
    assert_eq!(registry.default_name(), Some("a.png"));
}

#[test]
fn cycle_selected_forward_visits_each_asset_and_wraps() {
    let mut registry = abc();
    registry.cycle_selected(1);
    assert_eq!(registry.selected(), Some(1));
    registry.cycle_selected(1);
    assert_eq!(registry.selected(), Some(2));
    registry.cycle_selected(1);
    assert_eq!(registry.selected(), Some(0));
    registry.cycle_selected(-1);
    assert_eq!(registry.selected(), Some(2));
    registry.cycle_selected(-1);
    assert_eq!(registry.selected(), Some(1));
}

#[test]
fn cycle_default_moves_the_default_only() {
    let mut registry = abc();
    registry.cycle_default(1);
    assert_eq!(registry.default_name(), Some("b.png"));
    assert_eq!(registry.selected_name(), Some("a.png"));
    registry.cycle_default(-2);
    assert_eq!(registry.default_name(), Some("c.png"));
    registry.cycle_default(0);
    assert_eq!(registry.default_name(), Some("c.png"));
}

#[test]
fn cycling_an_empty_registry_changes_nothing() {
    let mut registry = Registry::new();
    registry.cycle_selected(1);
    registry.cycle_selected(-1);
    registry.cycle_default(5);
    assert_eq!(registry.selected(), None);
    assert_eq!(registry.default_icon(), None);
    assert_eq!(registry.selected_name(), None);
    assert_eq!(registry.len(), 0);
}

#[test]
fn cycle_index_is_the_remainder_that_is_never_negative() {
    assert_eq!(cycle_index(0, 1, 3), 1);
    assert_eq!(cycle_index(2, 1, 3), 0);
    assert_eq!(cycle_index(0, -1, 3), 2);
    assert_eq!(cycle_index(1, 0, 3), 1);
    assert_eq!(cycle_index(1, 7, 3), 2);
    assert_eq!(cycle_index(1, -7, 3), 0);
    assert_eq!(cycle_index(2, 3, 3), 2);
    assert_eq!(cycle_index(2, -3, 3), 2);
    assert_eq!(cycle_index(0, 5, 1), 0);
    assert_eq!(cycle_index(0, -5, 1), 0);
    assert_eq!(cycle_index(0, i64::MAX, 3), 1);
    assert_eq!(cycle_index(0, i64::MIN, 3), 1);
    assert_eq!(cycle_index(2, i64::MAX, 3), 0);
    assert_eq!(cycle_index(2, i64::MIN, 3), 0);
    assert_eq!(cycle_index(4, i64::MIN, 10), 6);
    assert_eq!(cycle_index(4, i64::MAX, 10), 1);
}

#[test]
fn select_by_name_finds_the_asset_or_changes_nothing() {
    let mut registry = abc();
    assert!(registry.select_by_name("b.png"));
    assert_eq!(registry.selected(), Some(1));
    assert_eq!(registry.default_icon(), Some(0));
    assert!(!registry.select_by_name("missing.png"));
    assert_eq!(registry.selected(), Some(1));
    assert!(!registry.select_by_name(""));
    assert!(!registry.select_by_name("b.pn"));
    assert_eq!(registry.selected_name(), Some("b.png"));
}

#[test]
fn set_default_by_name_finds_the_asset_or_changes_nothing() {
    let mut registry = abc();
    assert!(registry.set_default_by_name("c.png"));
    assert_eq!(registry.default_icon(), Some(2));
    assert_eq!(registry.selected(), Some(0));
    assert!(!registry.set_default_by_name("missing.png"));
    assert_eq!(registry.default_name(), Some("c.png"));
    assert_eq!(registry.default_asset().unwrap().image, vec![2u8; 3]);
}

#[test]
fn select_by_name_on_an_empty_registry_fails() {
    let mut registry = Registry::new();
    assert!(!registry.select_by_name("a.png"));
    assert!(!registry.set_default_by_name("a.png"));
    assert_eq!(registry.selected(), None);
}

#[test]
fn index_of_gives_the_place_in_load_order() {
    let registry = abc();
    assert_eq!(registry.index_of("a.png"), Ok(0));
    assert_eq!(registry.index_of("b.png"), Ok(1));
    assert_eq!(registry.index_of("c.png"), Ok(2));
    assert_eq!(registry.index_of("d.png"), Err(EditorError::NotFound));
}

#[test]
fn resolve_finds_an_asset_by_its_name() {
    let registry = abc();
    let asset = registry.resolve("b.png").unwrap();
    assert_eq!(asset.name, "b.png");
    assert_eq!(asset.image, vec![1u8; 3]);
    assert!(registry.resolve("tree.png").is_none());
}

#[test]
fn set_cache_fills_one_slot() {
    let mut registry = abc();
    assert!(registry.set_cache(1, Some(42)));
    assert_eq!(registry.asset(0).unwrap().cache, None);
    assert_eq!(registry.asset(1).unwrap().cache, Some(42));
    assert_eq!(registry.asset(2).unwrap().cache, None);
    assert_eq!(registry.resolve("b.png").unwrap().cache, Some(42));
    assert!(registry.set_cache(1, None));
    assert_eq!(registry.asset(1).unwrap().cache, None);
    assert!(!registry.set_cache(3, Some(1)));
    assert_eq!(registry.len(), 3);
    assert_eq!(registry.selected_name(), Some("a.png"));
}

#[test]
fn has_distinct_names_finds_a_repeated_name() {
    assert!(has_distinct_names(&icons(&[])));
    assert!(has_distinct_names(&icons(&["a"])));
    assert!(has_distinct_names(&icons(&["a", "b", "c"])));
    assert!(!has_distinct_names(&icons(&["a", "a"])));
    assert!(!has_distinct_names(&icons(&["a", "b", "a"])));
    assert!(!has_distinct_names(&icons(&["a", "b", "c", "b"])));
}

#[test]
fn icon_for_a_named_cell_is_the_asset_of_that_name() {
    let mut registry = abc();
    registry.set_default_by_name("c.png");
    let name = "b.png".to_string();
    assert_eq!(registry.icon_for(Some(&name)).unwrap().name, "b.png");
}

#[test]
fn icon_for_an_unset_cell_is_the_default_asset() {
    let mut registry = abc();
    assert_eq!(registry.icon_for(None).unwrap().name, "a.png");
    registry.set_default_by_name("c.png");
    assert_eq!(registry.icon_for(None).unwrap().name, "c.png");
}

#[test]
fn icon_for_a_stale_name_is_the_default_asset() {
    let mut registry = abc();
    registry.cycle_default(1);
    let name = "gone.png".to_string();
    assert_eq!(registry.icon_for(Some(&name)).unwrap().name, "b.png");
}

#[test]
fn icon_for_in_an_empty_registry_is_nothing() {
    let registry = Registry::new();
    let name = "a.png".to_string();
    assert!(registry.icon_for(Some(&name)).is_none());
    assert!(registry.icon_for(None).is_none());
}
