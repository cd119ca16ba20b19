use bespoke_engine::culling::{culled, Camera, Mat4};
use bespoke_engine::model::{calculate_bounding_box, concat_raw, InstanceTrait, ModelVertex, ToRaw};

#[test]
fn instance_records_concatenate_in_order() {
    let instances: Vec<u32> = vec![1, 2];
    assert_eq!(concat_raw(&instances), vec![1, 0, 0, 0, 2, 0, 0, 0]);
    let empty: Vec<u32> = vec![];
    assert_eq!(concat_raw(&empty), Vec::<u8>::new());
}

#[test]
fn a_transform_is_its_own_instance_transform() {
    let mut entries = [[0i64; 4]; 4];
    entries[3][0] = 9;
    let m = Mat4 { entries };
    assert_eq!(m.instance_transform().entries, m.entries);
}

fn vertex(x: i64, y: i64, z: i64) -> ModelVertex {
    ModelVertex {
        position: [x, y, z],
    }
}

#[test]
fn coplanar_quad_yields_flat_box() {
    let vertices = vec![
        vertex(1, 1, 0),
        vertex(1, -1, 0),
        vertex(-1, 1, 0),
        vertex(-1, -1, 0),
    ];
    let aabb = calculate_bounding_box(&vertices);
    assert_eq!(aabb.dimensions, [1, 1, 0]);
}

#[test]
fn empty_mesh_yields_zero_box() {
    let vertices: Vec<ModelVertex> = vec![];
    let aabb = calculate_bounding_box(&vertices);
    assert_eq!(aabb.dimensions, [0, 0, 0]);
}

#[test]
fn box_takes_largest_absolute_coordinate_per_axis() {
    let vertices = vec![vertex(-5, 3, -2), vertex(4, -1, 1)];
    let aabb = calculate_bounding_box(&vertices);
    assert_eq!(aabb.dimensions, [5, 3, 2]);
}

#[test]
fn computed_box_feeds_the_frustum_test() {
    let vertices = vec![vertex(1, 1, 0), vertex(-1, -1, 0)];
    let aabb = calculate_bounding_box(&vertices);
    let mut entries = [[0i64; 4]; 4];
    entries[0][0] = 1;
    entries[1][1] = 1;
    entries[2][2] = 1;
    entries[3][3] = 1;
    let identity = Mat4 { entries };
    let camera = Camera {
        view_proj: identity,
        znear: -10,
        zfar: 10,
    };
    assert!(!culled(&aabb, &identity, &camera));
}

#[test]
fn u32_raw_record_is_little_endian() {
    let value: u32 = 0x01020304;
    assert_eq!(value.to_raw(), vec![4, 3, 2, 1]);
}
