use tile_editor::cell::CellMap;
use tile_editor::editing::HoveringBlock;
use tile_editor::keys::{key_text, parse_key};
use tile_editor::level::Level;
use tile_editor::persistence::{
    deserialize, load_level, save_text, serialize, strings_of, LoadError, SerdeMapContainer,
    LEVEL_PATH,
};
use tile_editor::tiles::Material;

fn sorted_entries(map: &CellMap<Material>) -> Vec<((i32, i32), Material)> {
    let mut all: Vec<((i32, i32), Material)> =
        map.cells().into_iter().map(|c| (c, *map.get(c).unwrap())).collect();
    all.sort();
    all
}

fn load_error(text: &str) -> Option<LoadError> {
    match SerdeMapContainer::from_json(text) {
        Ok(_) => None,
        Err(e) => Some(e),
    }
}

#[test]
fn key_text_is_two_decimal_integers() {
    assert_eq!(key_text((0, 0)), "0,0");
    assert_eq!(key_text((-1, 3)), "-1,3");
    assert_eq!(key_text((12, -340)), "12,-340");
    assert_eq!(key_text((i32::MAX, i32::MIN)), "2147483647,-2147483648");
    assert_eq!(key_text((100, 1000000)), "100,1000000");
}

#[test]
fn key_text_is_what_the_formatter_writes() {
    for cell in [(0, 0), (7, -7), (-10, 10), (99, 100), (i32::MIN, i32::MAX), (-2147483647, 1)] {
        assert_eq!(key_text(cell), format!("{},{}", cell.0, cell.1));
    }
}

#[test]
fn parse_key_reads_what_key_text_writes() {
    for cell in [(0, 0), (-1, 3), (i32::MAX, i32::MIN), (i32::MIN, i32::MAX), (10, -10), (-9, 109)] {
        assert_eq!(parse_key(&key_text(cell)), Some(cell));
    }
}

#[test]
fn parse_key_accepts_signs_and_leading_zeros() {
    assert_eq!(parse_key("+1,2"), Some((1, 2)));
    assert_eq!(parse_key("-0,+0"), Some((0, 0)));
    assert_eq!(parse_key("007,-0010"), Some((7, -10)));
    assert_eq!(parse_key("00000000000000000002147483647,1"), Some((i32::MAX, 1)));
    assert_eq!(parse_key("-2147483648,2147483647"), Some((i32::MIN, i32::MAX)));
}

#[test]
fn parse_key_rejects_malformed_keys() {
    for key in [
        "", ",", "1", "1,", ",1", "1,2,3", "a,b", "1, 2", " 1,2", "1,2 ", "1.0,2", "1;2", "-,1",
        "+,1", "1,-", "--1,2", "2147483648,0", "0,-2147483649", "99999999999999999999,0", "1,2,",
        "\u{0661},2",
    ] {
        assert_eq!(parse_key(key), None, "{:?}", key);
    }
}

#[test]
fn parse_key_agrees_with_the_standard_integer_parser() {
    for left in ["0", "-5", "+5", "", "-", "12a", "2147483647", "2147483648", "-2147483648", "-2147483649", "0005"] {
        for right in ["1", "-1", "x", ""] {
            let key = format!("{},{}", left, right);
            let expected = match (left.parse::<i32>(), right.parse::<i32>()) {
                (Ok(x), Ok(y)) => Some((x, y)),
                _ => None,
            };
            assert_eq!(parse_key(&key), expected, "{:?}", key);
        }
    }
}

#[test]
fn serialize_lists_each_cell_with_its_material() {
    let mut map: CellMap<Material> = CellMap::new();
    map.insert((0, 0), Material::GRASS_GREEN);
    map.insert((-1, 3), Material::GOLD);
    let mut entries = serialize(&map);
    entries.sort();
    assert_eq!(
        entries,
        vec![
            ("-1,3".to_string(), "GOLD".to_string()),
            ("0,0".to_string(), "GRASS_GREEN".to_string()),
        ]
    );
    assert!(serialize(&CellMap::new()).is_empty());
}

#[test]
fn deserialize_reads_what_serialize_writes() {
    let mut map: CellMap<Material> = CellMap::new();
    map.insert((5, 5), Material::WOOD);
    map.insert((-5, 5), Material::STEEL);
    map.insert((5, -5), Material::BRONZE);
    let back = deserialize(&serialize(&map)).ok().unwrap();
    assert_eq!(sorted_entries(&back), sorted_entries(&map));
}

#[test]
fn deserialize_reports_the_first_bad_entry() {
    let good = ("1,1".to_string(), "BRICK".to_string());
    let bad_key = ("1;1".to_string(), "BRICK".to_string());
    let bad_name = ("2,2".to_string(), "LAVA".to_string());
    assert_eq!(deserialize(&vec![good.clone(), bad_key.clone(), bad_name.clone()]).err(), Some(LoadError::InvalidKey));
    assert_eq!(deserialize(&vec![good.clone(), bad_name.clone(), bad_key.clone()]).err(), Some(LoadError::UnknownMaterial));
    assert_eq!(deserialize(&vec![("x".to_string(), "LAVA".to_string())]).err(), Some(LoadError::InvalidKey));
    assert!(deserialize(&vec![good]).is_ok());
}

#[test]
fn deserialize_lets_the_later_entry_win() {
    let entries = vec![
        ("+1,2".to_string(), "BRICK".to_string()),
        ("1,2".to_string(), "GOLD".to_string()),
    ];
    let map = deserialize(&entries).ok().unwrap();
    assert_eq!(sorted_entries(&map), vec![((1, 2), Material::GOLD)]);
}

#[test]
fn saved_text_is_a_json_object_with_the_field_map() {
    let mut map: CellMap<Material> = CellMap::new();
    assert_eq!(save_text(&map), "{\"map\":{}}");
    map.insert((0, 0), Material::GRASS_GREEN);
    map.insert((-1, 3), Material::GOLD);
    assert_eq!(save_text(&map), "{\"map\":{\"-1,3\":\"GOLD\",\"0,0\":\"GRASS_GREEN\"}}");
    let container = SerdeMapContainer { map };
    assert_eq!(container.to_json(), "{\"map\":{\"-1,3\":\"GOLD\",\"0,0\":\"GRASS_GREEN\"}}");
}

#[test]
fn saved_text_is_valid_json() {
    let mut map: CellMap<Material> = CellMap::new();
    map.insert((3, 4), Material::BRICK);
    let value: serde_json::Value = serde_json::from_str(&save_text(&map)).unwrap();
    assert_eq!(value["map"]["3,4"].as_str(), Some("BRICK"));
    assert_eq!(value.as_object().unwrap().len(), 1);
    assert_eq!(value["map"].as_object().unwrap().len(), 1);
}

#[test]
fn saved_grid_is_loaded_back_exactly() {
    let mut level = Level::new();
    level.insert((0, 0), Some(Material::GRASS_GREEN));
    level.insert((-1, 3), Some(Material::GOLD));
    let text = save_text(&level.material_map);
    let container = SerdeMapContainer::from_json(&text).ok().unwrap();
    assert_eq!(
        sorted_entries(&container.map),
        vec![((-1, 3), Material::GOLD), ((0, 0), Material::GRASS_GREEN)]
    );
    assert_eq!(container.map.cells().len(), 2);
}

#[test]
fn every_material_survives_saving_and_loading() {
    let mut map: CellMap<Material> = CellMap::new();
    let all = [
        Material::GRASS_GREEN,
        Material::GRASS_ORANGE,
        Material::GRASS_PINK,
        Material::WOOD,
        Material::STEEL,
        Material::BRONZE,
        Material::GOLD,
        Material::BRICK,
    ];
    for (i, material) in all.into_iter().enumerate() {
        map.insert((i as i32 * 1000 - 3000, -(i as i32)), material);
    }
    map.insert((i32::MIN, i32::MAX), Material::BRICK);
    let back = SerdeMapContainer::from_json(&save_text(&map)).ok().unwrap();
    assert_eq!(sorted_entries(&back.map), sorted_entries(&map));
}

#[test]
fn from_json_accepts_whitespace_and_any_entry_order() {
    let text = "{ \"map\" : {\n \"2,1\": \"WOOD\",\n \"-7,0\": \"BRICK\" }\n}";
    let container = SerdeMapContainer::from_json(text).ok().unwrap();
    assert_eq!(
        sorted_entries(&container.map),
        vec![((-7, 0), Material::BRICK), ((2, 1), Material::WOOD)]
    );
}

#[test]
fn from_json_reports_each_kind_of_error() {
    assert_eq!(load_error(""), Some(LoadError::Syntax));
    assert_eq!(load_error("not json"), Some(LoadError::Syntax));
    assert_eq!(load_error("[]"), Some(LoadError::Syntax));
    assert_eq!(load_error("{\"map\":{\"0,0\":3}}"), Some(LoadError::Syntax));
    assert_eq!(load_error("{\"map\":{\"0,0\":\"WOOD\"}} x"), Some(LoadError::Syntax));
    assert_eq!(load_error("{}"), Some(LoadError::MissingMap));
    assert_eq!(load_error("{\"grid\":{\"0,0\":\"WOOD\"}}"), Some(LoadError::MissingMap));
    assert_eq!(load_error("{\"map\":{\"0\":\"WOOD\"}}"), Some(LoadError::InvalidKey));
    assert_eq!(load_error("{\"map\":{\"0,0,0\":\"WOOD\"}}"), Some(LoadError::InvalidKey));
    assert_eq!(load_error("{\"map\":{\"0, 0\":\"WOOD\"}}"), Some(LoadError::InvalidKey));
    assert_eq!(load_error("{\"map\":{\"0,0\":\"wood\"}}"), Some(LoadError::UnknownMaterial));
    assert_eq!(load_error("{\"map\":{}}"), None);
}

#[test]
fn load_level_takes_the_saved_grid_and_queues_every_tile() {
    let mut level = Level::new();
    let mut block = HoveringBlock::default();
    load_level(
        &mut level,
        &mut block,
        Some("{\"map\":{\"0,0\":\"GRASS_GREEN\",\"-1,3\":\"GOLD\"}}"),
    );
    assert_eq!(
        sorted_entries(&level.material_map),
        vec![((-1, 3), Material::GOLD), ((0, 0), Material::GRASS_GREEN)]
    );
    let mut spawn = level.level_spawn_queue.cells();
    spawn.sort();
    assert_eq!(spawn, vec![(-1, 3), (0, 0)]);
    let mut update = level.texture_update_queue.cells();
    update.sort();
    assert_eq!(update, vec![(-1, 3), (0, 0)]);
    assert!(level.level_despawn_queue.is_empty());
    assert_eq!(block.original_material, Some(Material::GRASS_GREEN));
    assert_eq!(block.hovering, (0, 0));
    assert_eq!(block.selected_material, Some(Material::GRASS_GREEN));
}

#[test]
fn load_level_starts_empty_without_a_usable_file() {
    for json in [None, Some("{ broken"), Some("{\"map\":{\"1\":\"WOOD\"}}"), Some("{}")] {
        let mut level = Level::new();
        let mut block = HoveringBlock::default();
        block.original_material = Some(Material::BRICK);
        load_level(&mut level, &mut block, json);
        assert!(level.material_map.is_empty());
        assert!(level.level_spawn_queue.is_empty());
        assert!(level.texture_update_queue.is_empty());
        assert_eq!(block.original_material, None);
    }
}

#[test]
fn load_level_keeps_the_grid_when_the_file_is_unusable() {
    let mut level = Level::new();
    let mut block = HoveringBlock::default();
    level.material_map.insert((8, 8), Material::STEEL);
    level.entity_map.insert((8, 8), 3);
    level.material_map.insert((9, 8), Material::STEEL);
    load_level(&mut level, &mut block, Some("[1,2,3]"));
    assert_eq!(
        sorted_entries(&level.material_map),
        vec![((8, 8), Material::STEEL), ((9, 8), Material::STEEL)]
    );
    assert_eq!(level.level_spawn_queue.cells(), vec![(9, 8)]);
    let mut update = level.texture_update_queue.cells();
    update.sort();
    assert_eq!(update, vec![(8, 8), (9, 8)]);
}

#[test]
fn level_is_saved_under_the_assets_directory() {
    assert_eq!(LEVEL_PATH, "assets/level.json");
}

#[test]
fn from_json_passes_over_other_fields() {
    let text = "{\"version\":2,\"map\":{\"0,0\":\"WOOD\"},\"notes\":[\"a\",{\"b\":null}],\"x\":{\"1\":1}}";
    let container = SerdeMapContainer::from_json(text).ok().unwrap();
    assert_eq!(sorted_entries(&container.map), vec![((0, 0), Material::WOOD)]);
}

#[test]
fn from_json_wants_an_object_of_strings_under_map() {
    assert_eq!(load_error("{\"map\":[1]}"), Some(LoadError::Syntax));
    assert_eq!(load_error("{\"map\":\"0,0\"}"), Some(LoadError::Syntax));
    assert_eq!(load_error("{\"map\":null}"), Some(LoadError::Syntax));
    assert_eq!(load_error("{\"map\":{\"0,0\":null}}"), Some(LoadError::Syntax));
    assert_eq!(load_error("{\"map\":{\"0,0\":{\"WOOD\":null}}}"), Some(LoadError::Syntax));
    assert_eq!(
        load_error("{\"map\":{\"bad key\":\"WOOD\",\"0,0\":7}}"),
        Some(LoadError::Syntax)
    );
}

#[test]
fn from_json_reads_escaped_names() {
    let text = "{\"m\\u0061p\":{\"0\\u002c0\":\"G\\u004fLD\"}}";
    let container = SerdeMapContainer::from_json(text).ok().unwrap();
    assert_eq!(sorted_entries(&container.map), vec![((0, 0), Material::GOLD)]);
}

#[test]
fn from_json_takes_the_last_of_a_repeated_field() {
    let text = "{\"map\":{\"0,0\":\"WOOD\"},\"map\":{\"1,1\":\"GOLD\",\"1,1\":\"BRICK\"}}";
    let container = SerdeMapContainer::from_json(text).ok().unwrap();
    assert_eq!(sorted_entries(&container.map), vec![((1, 1), Material::BRICK)]);
}

#[test]
fn from_fields_reads_the_field_map_only() {
    let entry = |k: &str, v: &str| (k.to_string(), Some(v.to_string()));
    let fields = vec![
        ("grid".to_string(), Some(vec![entry("9,9", "GOLD")])),
        ("map".to_string(), Some(vec![entry("1,2", "STEEL"), entry("-3,4", "BRICK")])),
        ("other".to_string(), None),
    ];
    let container = SerdeMapContainer::from_fields(&fields).ok().unwrap();
    assert_eq!(
        sorted_entries(&container.map),
        vec![((-3, 4), Material::BRICK), ((1, 2), Material::STEEL)]
    );
    assert_eq!(
        SerdeMapContainer::from_fields(&vec![("map".to_string(), None)]).err(),
        Some(LoadError::Syntax)
    );
    assert_eq!(
        SerdeMapContainer::from_fields(&vec![("grid".to_string(), Some(vec![]))]).err(),
        Some(LoadError::MissingMap)
    );
    assert_eq!(SerdeMapContainer::from_fields(&vec![]).err(), Some(LoadError::MissingMap));
}

#[test]
fn strings_of_wants_every_value_to_be_a_string() {
    let values = vec![
        ("a".to_string(), Some("1".to_string())),
        ("b".to_string(), Some("2".to_string())),
    ];
    assert_eq!(
        strings_of(&values),
        Some(vec![("a".to_string(), "1".to_string()), ("b".to_string(), "2".to_string())])
    );
    let mixed = vec![("a".to_string(), Some("1".to_string())), ("b".to_string(), None)];
    assert_eq!(strings_of(&mixed), None);
    assert_eq!(strings_of(&vec![]), Some(vec![]));
}
