use nalgebra_glm::vec3;
use tile_scene::instances::instance_data;
use tile_scene::scene::Scene;
use tile_scene::tiles::{
    rows_reversed, seed_layer, tile_index, tile_indices, Layers, TileMap, TileSet,
};
use tile_scene::transform::Transform;

fn map_of(width: u32, height: u32, layers: Vec<Layers>) -> TileMap {
    TileMap {
        size: (width, height),
        tile_size: (16, 8),
        layers,
        tileset: TileSet { image: vec![], columns: 4, tile_count: 16, image_size: (16, 8) },
    }
}

fn tile_layer(data: Vec<i32>) -> Layers {
    Layers::TileLayer { id: 1, name: "ground".to_string(), visible: true, data }
}

#[test]
fn tile_numbers_become_sprite_indices() {
    assert_eq!(tile_index(0), -1);
    assert_eq!(tile_index(1), 0);
    assert_eq!(tile_index(221), 220);
    assert_eq!(tile_index((1i64 << 32) + 5), 4);
    assert_eq!(tile_index(0x8000_0001), i32::MIN);
    assert_eq!(tile_indices(&vec![1, 0, 17, 0xffff_ffff]), vec![0, -1, 16, -2]);
    assert!(tile_indices(&vec![]).is_empty());
}

#[test]
fn rows_are_reversed() {
    let data = vec![1, 2, 3, 4, 5, 6, 7, 8, 9, 10, 11, 12];
    assert_eq!(rows_reversed(&data, 3, 4), vec![10, 11, 12, 7, 8, 9, 4, 5, 6, 1, 2, 3]);
    assert_eq!(rows_reversed(&data, 4, 3), vec![9, 10, 11, 12, 5, 6, 7, 8, 1, 2, 3, 4]);
    assert_eq!(rows_reversed(&data, 12, 1), data);
    assert_eq!(rows_reversed(&data, 1, 3), vec![3, 2, 1]);
    assert!(rows_reversed(&data, 5, 0).is_empty());
}

#[test]
fn seedable_layers_are_told_apart() {
    let map = map_of(3, 2, vec![tile_layer(vec![1, 2, 3, 4, 5, 6]), tile_layer(vec![1, 2, 3])]);
    assert!(map.can_seed(0));
    assert!(!map.can_seed(1));
    assert!(!map.can_seed(2));
    let empty = map_of(0, 2, vec![tile_layer(vec![])]);
    assert!(!empty.can_seed(0));
    let no_rows = map_of(2, 0, vec![tile_layer(vec![])]);
    assert!(no_rows.can_seed(0));
    let objects = map_of(
        0,
        2,
        vec![Layers::ObjectGroup { id: 2, name: "things".to_string(), visible: true, objects: vec![] }],
    );
    assert!(objects.can_seed(0));
    let wide = map_of(0x100_0001, 1, vec![]);
    assert!(!wide.can_seed(0));
    let mut coarse = map_of(50_000, 1, vec![tile_layer(vec![0; 50_000])]);
    assert!(coarse.can_seed(0));
    // large cells are no hindrance, as long as a side is held exactly
    coarse.tile_size = (30_000, 1);
    assert!(coarse.can_seed(0));
    coarse.tile_size = (0x100_0000, 0x100_0000);
    assert!(coarse.can_seed(0));
    coarse.tile_size = (0x100_0001, 1);
    assert!(!coarse.can_seed(0));
    coarse.tile_size = (1, 0x100_0001);
    assert!(!coarse.can_seed(0));
    let widest = map_of(
        0x100_0000,
        64,
        vec![Layers::ObjectGroup { id: 2, name: "things".to_string(), visible: true, objects: vec![] }],
    );
    assert!(widest.can_seed(0));
    let tall = map_of(1, 50_000, vec![tile_layer(vec![0; 50_000])]);
    assert!(!tall.can_seed(0));
}

#[test]
fn a_tile_layer_seeds_one_entity_per_cell_column_by_column() {
    // the top row of the file is 10 11 12, the bottom row 20 21 22
    let map = map_of(3, 2, vec![tile_layer(vec![10, 11, 12, 20, 21, 22])]);
    let mut scene = Scene::new();
    let hero = scene.add(Transform::new());
    let ids = seed_layer(&mut scene, &map, 0);
    assert_eq!(ids, vec![1, 2, 3, 4, 5, 6]);
    assert_eq!(scene.slot_count(), 7);
    assert!(scene.is_alive(hero));
    let expected = [
        (0.0, 0.0, 20, "0"),
        (0.0, 16.0, 10, "2"),
        (32.0, 0.0, 21, "1"),
        (32.0, 16.0, 11, "3"),
        (64.0, 0.0, 22, "2"),
        (64.0, 16.0, 12, "4"),
    ];
    for (k, (x, y, sprite, label)) in expected.iter().enumerate() {
        let node = scene.get(ids[k]).unwrap();
        assert_eq!(node.position, vec3(*x, *y, 0.0));
        assert_eq!(node.rotation, vec3(0.0, 0.0, 0.0));
        assert_eq!(node.scale, vec3(1.0, 1.0, 1.0));
        assert_eq!(node.index, *sprite);
        assert_eq!(node.flip_x, 1);
        assert_eq!(node.label.as_deref(), Some(*label));
        assert_eq!(node.matrix, nalgebra_glm::translation(&vec3(*x, *y, 0.0)));
        assert_eq!(scene.parent_of(ids[k]), None);
    }
    let records = instance_data(&scene, &ids);
    assert_eq!(records.len(), 6);
    assert_eq!(records[3].index, 11);
}

#[test]
fn labels_are_written_in_decimal() {
    let map = map_of(1, 12, vec![tile_layer(vec![0; 12])]);
    let mut scene = Scene::new();
    let ids = seed_layer(&mut scene, &map, 0);
    assert_eq!(scene.get(ids[11]).unwrap().label.as_deref(), Some("132"));
    assert_eq!(scene.get(ids[1]).unwrap().label.as_deref(), Some("12"));
    assert_eq!(scene.get(ids[0]).unwrap().label.as_deref(), Some("0"));
}

#[test]
fn a_layer_without_tiles_seeds_plain_entities() {
    let map = map_of(
        2,
        2,
        vec![Layers::ObjectGroup { id: 2, name: "things".to_string(), visible: true, objects: vec![] }],
    );
    let mut scene = Scene::new();
    let ids = seed_layer(&mut scene, &map, 0);
    assert_eq!(ids.len(), 4);
    for id in ids.iter() {
        let node = scene.get(*id).unwrap();
        assert_eq!(node.index, 0);
        assert_eq!(node.flip_x, 0);
    }
    assert_eq!(scene.get(ids[3]).unwrap().position, vec3(32.0, 16.0, 0.0));
}

#[test]
fn an_empty_map_seeds_nothing() {
    let map = map_of(4, 0, vec![tile_layer(vec![])]);
    let mut scene = Scene::new();
    let ids = seed_layer(&mut scene, &map, 0);
    assert!(ids.is_empty());
    assert_eq!(scene.slot_count(), 0);
}

#[test]
fn far_cells_are_placed_as_far_as_numbers_reach() {
    let mut map = map_of(66, 2, vec![tile_layer((0..132).collect())]);
    map.tile_size = (0x100_0000, 0x80_0000);
    assert!(map.can_seed(0));
    let mut scene = Scene::new();
    let ids = seed_layer(&mut scene, &map, 0);
    assert_eq!(ids.len(), 132);
    for x in 0..66u32 {
        for y in 0..2u32 {
            let node = scene.get(ids[(x * 2 + y) as usize]).unwrap();
            let at = vec3(
                x as f32 * map.tile_size.0 as f32 * 2.0,
                y as f32 * map.tile_size.1 as f32 * 2.0,
                0.0,
            );
            assert_eq!(node.position, at);
            assert_eq!(node.index, ((1 - y) * 66 + x) as i32);
            assert_eq!(node.flip_x, 1);
        }
    }
    // beyond what 32 bits count
    assert_eq!(scene.get(ids[64 * 2]).unwrap().position.x, 2147483648.0);
    assert_eq!(scene.get(ids[65 * 2 + 1]).unwrap().position, vec3(2181038080.0, 16777216.0, 0.0));
}
