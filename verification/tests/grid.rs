use tile_editor::cell::{CellMap, CellSet};
use tile_editor::level::Level;
use tile_editor::tiles::{
    has_texture, texture_file_name, texture_keys, Column, Material, Row,
};

const ALL_MATERIALS: [Material; 8] = [
    Material::GRASS_GREEN,
    Material::GRASS_ORANGE,
    Material::GRASS_PINK,
    Material::WOOD,
    Material::STEEL,
    Material::BRONZE,
    Material::GOLD,
    Material::BRICK,
];

#[test]
fn new_level_is_empty() {
    let level = Level::new();
    assert!(level.material_map.is_empty());
    assert!(level.entity_map.is_empty());
    assert!(level.level_spawn_queue.is_empty());
    assert!(level.level_despawn_queue.is_empty());
    assert!(level.texture_update_queue.is_empty());
    assert_eq!(level.material((0, 0)), None);
    assert_eq!(level.entity((0, 0)), None);
}

#[test]
fn insert_on_fresh_cell_queues_spawn_and_texture_update() {
    let mut level = Level::new();
    level.insert((3, -4), Some(Material::BRICK));
    assert_eq!(level.material((3, -4)), Some(Material::BRICK));
    assert!(level.level_spawn_queue.contains((3, -4)));
    assert!(level.texture_update_queue.contains((3, -4)));
    assert!(level.level_despawn_queue.is_empty());
    assert_eq!(level.material_map.cells(), vec![(3, -4)]);
}

#[test]
fn insert_on_cell_with_visual_queues_only_texture_update() {
    let mut level = Level::new();
    level.entity_map.insert((1, 1), 77);
    level.insert((1, 1), Some(Material::STEEL));
    assert!(!level.level_spawn_queue.contains((1, 1)));
    assert!(level.texture_update_queue.contains((1, 1)));
    assert_eq!(level.entity((1, 1)), Some(77));
}

#[test]
fn insert_overwrites_silently() {
    let mut level = Level::new();
    level.insert((0, 0), Some(Material::GRASS_GREEN));
    level.insert((0, 0), Some(Material::GOLD));
    assert_eq!(level.material((0, 0)), Some(Material::GOLD));
    assert_eq!(level.material_map.cells().len(), 1);
}

#[test]
fn insert_none_removes() {
    let mut level = Level::new();
    level.insert((2, 2), Some(Material::WOOD));
    level.insert((2, 2), None);
    assert_eq!(level.material((2, 2)), None);
    assert!(level.level_despawn_queue.contains((2, 2)));
}

#[test]
fn remove_twice_is_remove_once() {
    let mut once = Level::new();
    once.insert((5, 6), Some(Material::BRONZE));
    once.insert((7, 8), Some(Material::BRICK));
    once.remove((5, 6));
    let mut twice = Level::new();
    twice.insert((5, 6), Some(Material::BRONZE));
    twice.insert((7, 8), Some(Material::BRICK));
    twice.remove((5, 6));
    twice.remove((5, 6));
    assert_eq!(once.material((5, 6)), twice.material((5, 6)));
    assert_eq!(once.material((7, 8)), twice.material((7, 8)));
    assert_eq!(once.material_map.cells(), twice.material_map.cells());
    assert_eq!(once.level_despawn_queue.cells(), twice.level_despawn_queue.cells());
    assert_eq!(twice.level_despawn_queue.cells(), vec![(5, 6)]);
}

#[test]
fn remove_of_empty_cell_only_queues_despawn() {
    let mut level = Level::new();
    level.remove((9, 9));
    assert!(level.material_map.is_empty());
    assert!(level.level_despawn_queue.contains((9, 9)));
    assert!(level.level_spawn_queue.is_empty());
    assert!(level.texture_update_queue.is_empty());
}

#[test]
fn insert_then_remove_leaves_cell_empty() {
    for material in ALL_MATERIALS {
        let mut level = Level::new();
        level.insert((-3, 12), Some(material));
        level.remove((-3, 12));
        assert_eq!(level.material((-3, 12)), None);
        assert_eq!(level.material_map.get((-3, 12)), None);
    }
}

#[test]
fn horizontal_run_of_three_full_size_tiles() {
    let mut level = Level::new();
    level.insert((0, 0), Some(Material::GRASS_GREEN));
    level.insert((1, 0), Some(Material::GRASS_GREEN));
    level.insert((2, 0), Some(Material::GRASS_GREEN));
    assert_eq!(level.get_column((0, 0)), Column::LEFT);
    assert_eq!(level.get_column((1, 0)), Column::MIDDLE);
    assert_eq!(level.get_column((2, 0)), Column::RIGHT);
    assert_eq!(level.get_row((0, 0)), Row::CENTER);
    assert_eq!(level.get_row((1, 0)), Row::CENTER);
    assert_eq!(level.get_row((2, 0)), Row::CENTER);
}

#[test]
fn vertical_run_of_three_full_size_tiles() {
    let mut level = Level::new();
    level.insert((4, 0), Some(Material::BRICK));
    level.insert((4, 1), Some(Material::BRICK));
    level.insert((4, 2), Some(Material::BRICK));
    assert_eq!(level.get_row((4, 0)), Row::BOTTOM);
    assert_eq!(level.get_row((4, 1)), Row::CENTER);
    assert_eq!(level.get_row((4, 2)), Row::TOP);
    assert_eq!(level.get_column((4, 1)), Column::MIDDLE);
}

#[test]
fn isolated_full_size_tile_is_center_middle() {
    for material in [
        Material::GRASS_GREEN,
        Material::GRASS_ORANGE,
        Material::GRASS_PINK,
        Material::BRICK,
    ] {
        let mut level = Level::new();
        level.insert((10, -10), Some(material));
        assert_eq!(level.get_row((10, -10)), Row::CENTER);
        assert_eq!(level.get_column((10, -10)), Column::MIDDLE);
    }
}

#[test]
fn neighbours_of_another_material_do_not_match() {
    let mut level = Level::new();
    level.insert((0, 0), Some(Material::GRASS_GREEN));
    level.insert((1, 0), Some(Material::GRASS_PINK));
    level.insert((0, 1), Some(Material::BRICK));
    level.insert((-1, 0), Some(Material::GRASS_ORANGE));
    level.insert((0, -1), Some(Material::WOOD));
    assert_eq!(level.get_row((0, 0)), Row::CENTER);
    assert_eq!(level.get_column((0, 0)), Column::MIDDLE);
}

#[test]
fn two_stacked_small_tiles() {
    let mut level = Level::new();
    level.insert((0, 0), Some(Material::WOOD));
    level.insert((0, 1), Some(Material::WOOD));
    assert_eq!(level.get_row((0, 1)), Row::TOP);
    assert_eq!(level.get_row((0, 0)), Row::BOTTOM);
}

#[test]
fn two_small_tiles_side_by_side() {
    let mut level = Level::new();
    level.insert((0, 0), Some(Material::GOLD));
    level.insert((1, 0), Some(Material::GOLD));
    assert_eq!(level.get_column((0, 0)), Column::LEFT);
    assert_eq!(level.get_column((1, 0)), Column::RIGHT);
}

#[test]
fn isolated_small_tile_is_bottom_right() {
    let mut level = Level::new();
    level.insert((0, 0), Some(Material::STEEL));
    assert_eq!(level.get_row((0, 0)), Row::BOTTOM);
    assert_eq!(level.get_column((0, 0)), Column::RIGHT);
}

#[test]
fn column_of_four_small_tiles_alternates() {
    let mut level = Level::new();
    for y in 0..4 {
        level.insert((0, y), Some(Material::BRONZE));
    }
    assert_eq!(level.get_row((0, 3)), Row::TOP);
    assert_eq!(level.get_row((0, 2)), Row::BOTTOM);
    assert_eq!(level.get_row((0, 1)), Row::TOP);
    assert_eq!(level.get_row((0, 0)), Row::BOTTOM);
}

#[test]
fn small_tile_takes_its_row_from_any_tile_above() {
    let mut level = Level::new();
    level.insert((0, 0), Some(Material::WOOD));
    level.insert((0, 1), Some(Material::GRASS_GREEN));
    level.insert((0, 2), Some(Material::GRASS_GREEN));
    assert_eq!(level.get_row((0, 1)), Row::BOTTOM);
    assert_eq!(level.get_row((0, 0)), Row::TOP);
}

#[test]
fn empty_cell_resolves_to_top_left() {
    let mut level = Level::new();
    assert_eq!(level.get_row((0, 0)), Row::TOP);
    assert_eq!(level.get_column((0, 0)), Column::LEFT);
    level.insert((0, 1), Some(Material::BRICK));
    level.insert((1, 0), Some(Material::BRICK));
    assert_eq!(level.get_row((0, 0)), Row::TOP);
    assert_eq!(level.get_column((0, 0)), Column::LEFT);
}

#[test]
fn variants_at_the_rim_of_the_grid() {
    let mut level = Level::new();
    level.insert((i32::MAX, i32::MAX), Some(Material::GRASS_GREEN));
    level.insert((i32::MIN, i32::MIN), Some(Material::GRASS_GREEN));
    level.insert((i32::MIN, i32::MAX), Some(Material::WOOD));
    assert_eq!(level.get_row((i32::MAX, i32::MAX)), Row::CENTER);
    assert_eq!(level.get_column((i32::MAX, i32::MAX)), Column::MIDDLE);
    assert_eq!(level.get_row((i32::MIN, i32::MIN)), Row::CENTER);
    assert_eq!(level.get_column((i32::MIN, i32::MIN)), Column::MIDDLE);
    assert_eq!(level.get_row((i32::MIN, i32::MAX)), Row::BOTTOM);
    assert_eq!(level.get_column((i32::MIN, i32::MAX)), Column::RIGHT);
}

#[test]
fn small_materials_are_wood_steel_bronze_gold() {
    let small: Vec<Material> = ALL_MATERIALS.into_iter().filter(|m| m.is_small()).collect();
    assert_eq!(
        small,
        vec![Material::WOOD, Material::STEEL, Material::BRONZE, Material::GOLD]
    );
}

#[test]
fn texture_table_has_nine_or_four_entries_per_material() {
    for material in ALL_MATERIALS {
        let mut count = 0;
        for row in [Row::TOP, Row::CENTER, Row::BOTTOM] {
            for column in [Column::LEFT, Column::MIDDLE, Column::RIGHT] {
                if has_texture(material, row, column) {
                    count += 1;
                }
            }
        }
        assert_eq!(count, if material.is_small() { 4 } else { 9 });
    }
    assert!(has_texture(Material::WOOD, Row::TOP, Column::RIGHT));
    assert!(!has_texture(Material::WOOD, Row::CENTER, Column::RIGHT));
    assert!(!has_texture(Material::GOLD, Row::BOTTOM, Column::MIDDLE));
    assert!(has_texture(Material::BRICK, Row::CENTER, Column::MIDDLE));
}

#[test]
fn every_placed_tile_resolves_to_a_textured_variant() {
    let mut level = Level::new();
    let mut n = 0;
    for x in -3..4 {
        for y in -3..4 {
            if (x * 7 + y * 3) % 4 != 0 {
                level.insert((x, y), Some(ALL_MATERIALS[n % 8]));
            }
            n += 5;
        }
    }
    for cell in level.material_map.cells() {
        let material = level.material(cell).unwrap();
        assert!(has_texture(material, level.get_row(cell), level.get_column(cell)));
    }
}

#[test]
fn material_names_round_trip() {
    let names = [
        "GRASS_GREEN",
        "GRASS_ORANGE",
        "GRASS_PINK",
        "WOOD",
        "STEEL",
        "BRONZE",
        "GOLD",
        "BRICK",
    ];
    for (material, name) in ALL_MATERIALS.into_iter().zip(names) {
        assert_eq!(material.name(), name);
        assert_eq!(Material::from_name(&name.to_string()), Some(material));
    }
    assert_eq!(Material::from_name(&"grass_green".to_string()), None);
    assert_eq!(Material::from_name(&"".to_string()), None);
    assert_eq!(Material::from_name(&"GOLD ".to_string()), None);
}

#[test]
fn material_cycle_order() {
    let order = [
        Some(Material::GRASS_GREEN),
        Some(Material::GRASS_ORANGE),
        Some(Material::GRASS_PINK),
        Some(Material::WOOD),
        Some(Material::STEEL),
        Some(Material::BRONZE),
        Some(Material::BRICK),
        Some(Material::GOLD),
        None,
    ];
    for i in 0..order.len() {
        assert_eq!(Material::next(order[i]), order[(i + 1) % order.len()]);
    }
}

#[test]
fn cell_map_keeps_distinct_cells_apart() {
    let mut map: CellMap<u32> = CellMap::new();
    map.insert((0, 1), 1);
    map.insert((1, 0), 2);
    map.insert((-1, 0), 3);
    map.insert((0, -1), 4);
    map.insert((i32::MIN, i32::MAX), 5);
    map.insert((i32::MAX, i32::MIN), 6);
    assert_eq!(map.get((0, 1)), Some(&1));
    assert_eq!(map.get((1, 0)), Some(&2));
    assert_eq!(map.get((-1, 0)), Some(&3));
    assert_eq!(map.get((0, -1)), Some(&4));
    assert_eq!(map.get((i32::MIN, i32::MAX)), Some(&5));
    assert_eq!(map.get((i32::MAX, i32::MIN)), Some(&6));
    assert_eq!(map.get((0, 0)), None);
    let mut cells = map.cells();
    cells.sort();
    assert_eq!(
        cells,
        vec![(i32::MIN, i32::MAX), (-1, 0), (0, -1), (0, 1), (1, 0), (i32::MAX, i32::MIN)]
    );
    map.remove((1, 0));
    assert!(!map.contains_key((1, 0)));
    assert!(map.contains_key((0, 1)));
    assert_eq!(map.keys_among(&vec![(0, 1), (1, 0), (5, 5), (0, -1)]), vec![(0, 1), (0, -1)]);
    map.remove_all(&vec![(0, 1), (0, -1), (8, 8)]);
    let mut rest = map.cells();
    rest.sort();
    assert_eq!(rest, vec![(i32::MIN, i32::MAX), (-1, 0), (i32::MAX, i32::MIN)]);
}

#[test]
fn cell_set_holds_each_cell_once() {
    let mut set = CellSet::new();
    assert!(set.is_empty());
    set.insert((2, -2));
    set.insert((2, -2));
    set.insert((-2, 2));
    assert!(set.contains((2, -2)));
    assert!(!set.contains((2, 2)));
    let mut cells = set.cells();
    cells.sort();
    assert_eq!(cells, vec![(-2, 2), (2, -2)]);
    set.remove((2, -2));
    assert_eq!(set.cells(), vec![(-2, 2)]);
    set.clear();
    assert!(set.is_empty());
}

#[test]
fn texture_keys_list_the_whole_table_in_order() {
    let keys = texture_keys();
    assert_eq!(keys.len(), 4 * 9 + 4 * 4);
    assert_eq!(keys[0], (Material::GRASS_GREEN, Row::TOP, Column::LEFT));
    assert_eq!(keys[1], (Material::GRASS_GREEN, Row::CENTER, Column::LEFT));
    assert_eq!(keys[3], (Material::GRASS_GREEN, Row::TOP, Column::MIDDLE));
    assert_eq!(keys[27], (Material::WOOD, Row::TOP, Column::LEFT));
    assert_eq!(keys[28], (Material::WOOD, Row::BOTTOM, Column::LEFT));
    assert_eq!(keys[29], (Material::WOOD, Row::TOP, Column::RIGHT));
    assert_eq!(keys[30], (Material::WOOD, Row::BOTTOM, Column::RIGHT));
    assert_eq!(keys[31], (Material::STEEL, Row::TOP, Column::LEFT));
    assert_eq!(keys[keys.len() - 1], (Material::BRICK, Row::BOTTOM, Column::RIGHT));
    for material in ALL_MATERIALS {
        for row in [Row::TOP, Row::CENTER, Row::BOTTOM] {
            for column in [Column::LEFT, Column::MIDDLE, Column::RIGHT] {
                let listed = keys.iter().filter(|k| **k == (material, row, column)).count();
                assert_eq!(listed, if has_texture(material, row, column) { 1 } else { 0 });
            }
        }
    }
}

#[test]
fn lists_of_variants_are_complete() {
    assert_eq!(Material::all(), ALL_MATERIALS.to_vec());
    assert_eq!(Row::all(), vec![Row::TOP, Row::CENTER, Row::BOTTOM]);
    assert_eq!(Column::all(), vec![Column::LEFT, Column::MIDDLE, Column::RIGHT]);
}

#[test]
fn variant_names_are_their_identifiers() {
    assert_eq!(Row::TOP.name(), "TOP");
    assert_eq!(Row::CENTER.name(), "CENTER");
    assert_eq!(Row::BOTTOM.name(), "BOTTOM");
    assert_eq!(Column::LEFT.name(), "LEFT");
    assert_eq!(Column::MIDDLE.name(), "MIDDLE");
    assert_eq!(Column::RIGHT.name(), "RIGHT");
}

#[test]
fn texture_files_are_named_after_material_row_and_column() {
    assert_eq!(
        texture_file_name(Material::GRASS_GREEN, Row::TOP, Column::LEFT),
        "GRASS_GREEN_TOP_LEFT.png"
    );
    assert_eq!(
        texture_file_name(Material::BRICK, Row::CENTER, Column::MIDDLE),
        "BRICK_CENTER_MIDDLE.png"
    );
    assert_eq!(
        texture_file_name(Material::GOLD, Row::BOTTOM, Column::RIGHT),
        "GOLD_BOTTOM_RIGHT.png"
    );
}
