use bespoke_engine::binding::{Binding, Resource};
use bespoke_engine::culling::{
    assemble_culling_source, culled, cull_instances, dispatch_groups, surviving_count_from_bytes,
    Camera, CullingCompute, Mat4, AABB,
};

fn identity() -> Mat4 {
    let mut entries = [[0i64; 4]; 4];
    entries[0][0] = 1;
    entries[1][1] = 1;
    entries[2][2] = 1;
    entries[3][3] = 1;
    Mat4 { entries }
}

fn translation_z(tz: i64) -> Mat4 {
    let mut m = identity();
    m.entries[3][2] = tz;
    m
}

fn wide_camera() -> Camera {
    Camera {
        view_proj: identity(),
        znear: -100,
        zfar: 100,
    }
}

#[test]
fn box_inside_the_frustum_is_not_culled() {
    let aabb = AABB {
        dimensions: [1, 1, 0],
    };
    assert!(!culled(&aabb, &identity(), &wide_camera()));
}

#[test]
fn box_fully_behind_the_far_plane_is_culled() {
    let aabb = AABB {
        dimensions: [1, 1, 1],
    };
    // Every corner sits near depth 1000, past the far plane at 100.
    assert!(culled(&aabb, &translation_z(1000), &wide_camera()));
}

#[test]
fn degenerate_projection_culls_everything() {
    let aabb = AABB {
        dimensions: [1, 1, 1],
    };
    let camera = Camera {
        view_proj: Mat4 {
            entries: [[0; 4]; 4],
        },
        znear: 0,
        zfar: 0,
    };
    // The homogeneous w of every corner is zero, so no corner passes.
    assert!(culled(&aabb, &identity(), &camera));
}

#[test]
fn one_visible_corner_keeps_the_instance() {
    let aabb = AABB {
        dimensions: [200, 0, 0],
    };
    // Shifted right by its own half-extent, the box has corners at x = 0
    // and x = 400: the x = 400 corners are far outside the unit square,
    // but the x = 0 corners pass, and one passing corner is enough.
    let mut t = identity();
    t.entries[3][0] = 200;
    assert!(!culled(&aabb, &t, &wide_camera()));
}

#[test]
fn cull_instances_counts_survivors() {
    let aabb = AABB {
        dimensions: [1, 1, 1],
    };
    let camera = wide_camera();
    let instances = vec![identity(), translation_z(1000), identity()];
    let (survivors, count) = cull_instances(&instances, &aabb, &camera);
    assert_eq!(count, 2);
    assert_eq!(survivors.len(), 2);
    assert!(count as usize <= instances.len());
}

#[test]
fn cull_instances_keeps_everything_when_all_visible() {
    let aabb = AABB {
        dimensions: [1, 1, 1],
    };
    let camera = wide_camera();
    let instances = vec![identity(), identity(), identity(), identity()];
    let (survivors, count) = cull_instances(&instances, &aabb, &camera);
    assert_eq!(count as usize, instances.len());
    assert_eq!(survivors.len(), instances.len());
}

#[test]
fn dispatch_grid_covers_the_instance_count() {
    assert_eq!(dispatch_groups(0), [0, 0, 1]);
    assert_eq!(dispatch_groups(1), [1, 1, 1]);
    assert_eq!(dispatch_groups(65534), [65534, 1, 1]);
    assert_eq!(dispatch_groups(65535), [65535, 1, 1]);
    assert_eq!(dispatch_groups(65536), [65535, 2, 1]);
    assert_eq!(dispatch_groups(200000), [65535, 4, 1]);
}

#[test]
fn survivor_count_reads_the_counter_little_endian() {
    assert_eq!(surviving_count_from_bytes(&vec![1, 0, 0, 0]), 1);
    assert_eq!(surviving_count_from_bytes(&vec![0x39, 0x30, 0, 0]), 12345);
}

#[test]
fn zero_box_has_no_extent() {
    let zero = AABB::zero();
    assert_eq!(zero.dimensions, [0, 0, 0]);
}

#[test]
fn preparing_a_run_rewrites_both_uniforms() {
    let mut culling = CullingCompute::new();
    assert_eq!(culling.num_instances_uniform.value, 0);
    let aabb = AABB {
        dimensions: [3, 4, 5],
    };
    let groups = dispatch_groups(7);
    let prepared = culling.prepare_run(7, &aabb);
    assert_eq!(prepared, groups);
    assert_eq!(prepared, [7, 1, 1]);
    assert_eq!(culling.num_instances_uniform.value, 7);
    assert_eq!(culling.bounding_box_uniform.value, aabb);
    // Each uniform was rebuilt once: fresh buffers of the new generation.
    assert_eq!(culling.num_instances_uniform.generation, 1);
    assert_eq!(culling.num_instances_uniform.buffers.len(), 1);
    assert_eq!(culling.num_instances_uniform.buffers[0].generation, 1);
    assert_eq!(
        &culling.num_instances_uniform.buffers[0].contents[0..4],
        &[7, 0, 0, 0]
    );
    assert_eq!(culling.bounding_box_uniform.buffers.len(), 1);
    assert_eq!(
        &culling.bounding_box_uniform.buffers[0].contents[0..12],
        &[3, 0, 0, 0, 4, 0, 0, 0, 5, 0, 0, 0]
    );
}

#[test]
fn culling_source_substitutes_the_instance_matrix() {
    let source = assemble_culling_source(
        "struct Instance { transform: mat4x4f }",
        "let m = instances[i].***INSTANCE_MATRIX***;\nlet n = ***INSTANCE_MATRIX***;",
        "transform",
    );
    assert_eq!(
        source,
        "struct Instance { transform: mat4x4f }\nlet m = instances[i].transform;\nlet n = transform;"
    );
}

#[test]
fn culling_source_without_markers_is_concatenation() {
    let source = assemble_culling_source("struct I {}", "fn main() {}", "transform");
    assert_eq!(source, "struct I {}\nfn main() {}");
}

#[test]
fn aabb_uniform_bytes_are_padded_to_stride() {
    let aabb = AABB {
        dimensions: [1, 2, 3],
    };
    let resources = aabb.create_resources();
    assert_eq!(resources.len(), 1);
    match &resources[0] {
        Resource::Simple(bytes) => {
            assert_eq!(bytes.len(), 16);
            assert_eq!(&bytes[0..12], &[1, 0, 0, 0, 2, 0, 0, 0, 3, 0, 0, 0]);
            assert_eq!(&bytes[12..], &[0, 0, 0, 0]);
        }
        Resource::Bespoke(_) => panic!("a bounding box owns no external resource"),
    }
}
