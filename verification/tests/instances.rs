use nalgebra_glm::vec3;
use tile_scene::instances::instance_data;
use tile_scene::scene::Scene;
use tile_scene::transform::{Transform, TransformRaw};

fn words(records: &[TransformRaw]) -> Vec<u32> {
    let mut out = Vec::new();
    for r in records {
        for value in r.transform.iter() {
            out.push(value.to_bits());
        }
        out.push(r.index as u32);
        out.push(r.flip_x as u32);
    }
    out
}

fn group_of(scene: &mut Scene, count: usize) -> Vec<usize> {
    let mut ids = Vec::new();
    for k in 0..count {
        let id = scene.add(Transform::new());
        Transform::translate(scene, id, &vec3(k as f32, 2.0 * k as f32, 0.0));
        Transform::rotate(scene, id, &vec3(0.0, 0.0, 10.0 * k as f32));
        scene.set_index(id, 100 + k as i32);
        scene.set_flip_x(id, (k % 2) as i32);
        ids.push(id);
    }
    ids
}

#[test]
fn one_record_per_member_in_order() {
    let mut scene = Scene::new();
    let ids = group_of(&mut scene, 5);
    let order = vec![ids[3], ids[0], ids[4], ids[0]];
    let records = instance_data(&scene, &order);
    assert_eq!(records.len(), 4);
    for (k, id) in order.iter().enumerate() {
        let node = scene.get(*id).unwrap();
        assert_eq!(records[k].transform, node.matrix);
        assert_eq!(records[k].index, node.index);
        assert_eq!(records[k].flip_x, node.flip_x);
    }
    assert_eq!(records[0].index, 103);
    assert_eq!(records[1].flip_x, 0);
    assert!(instance_data(&scene, &vec![]).is_empty());
}

#[test]
fn flattening_twice_gives_the_same_bytes() {
    let mut scene = Scene::new();
    let ids = group_of(&mut scene, 10);
    let first = instance_data(&scene, &ids);
    let second = instance_data(&scene, &ids);
    assert_eq!(first.len(), 10);
    assert_eq!(second.len(), 10);
    assert_eq!(words(&first), words(&second));
    Transform::translate(&mut scene, ids[4], &vec3(1.0, 1.0, 1.0));
    let third = instance_data(&scene, &ids);
    assert_ne!(words(&first), words(&third));
}

#[test]
fn destroyed_members_are_passed_over() {
    let mut scene = Scene::new();
    let ids = group_of(&mut scene, 4);
    scene.destroy(ids[1]);
    let mut group = ids.clone();
    group.push(99);
    let records = instance_data(&scene, &group);
    assert_eq!(records.len(), 3);
    assert_eq!(records[0].index, 100);
    assert_eq!(records[1].index, 102);
    assert_eq!(records[2].index, 103);
}

#[test]
fn records_follow_the_parent() {
    let mut scene = Scene::new();
    let ids = group_of(&mut scene, 2);
    Transform::parent(&mut scene, ids[0], ids[1]);
    Transform::translate(&mut scene, ids[0], &vec3(50.0, 0.0, 0.0));
    let records = instance_data(&scene, &ids);
    assert_eq!(records[1].transform, records[0].transform * scene.local_matrix(ids[1]).unwrap());
}
