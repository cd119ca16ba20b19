use bespoke_engine::binding::{
    bind_resources, create_layout, create_layout_from_entries, pad_to_stride, simple_layout_entry,
    Binding, BindingKind, BoundResource, LayoutEntry, Resource, Uniform, UniformBinding, WgslType,
    STAGE_ALL, STAGE_COMPUTE, STAGE_FRAGMENT, STAGE_VERTEX,
};
use bespoke_engine::texture::{DepthTexture, StorageTexture, StorageTexture3D, Texture, Texture3D};

#[test]
fn uniform_getters_expose_the_container() {
    let binding = UniformBinding::new("Counter".to_string(), 4u32, None);
    assert_eq!(Uniform::label(&binding), "Counter");
    assert_eq!(Uniform::layout(&binding).entries.len(), 1);
    assert_eq!(Uniform::binding(&binding).entries.len(), 1);
    assert_eq!(Uniform::shader_type(&binding).wgsl_types, vec!["u32"]);
}

#[test]
fn pad_keeps_contents_and_reaches_stride() {
    let padded = pad_to_stride(vec![1u8, 2, 3, 4]);
    assert_eq!(padded.len(), 16);
    assert_eq!(&padded[0..4], &[1, 2, 3, 4]);
    assert!(padded[4..].iter().all(|b| *b == 0));
}

#[test]
fn pad_lengths_are_multiples_of_16() {
    assert_eq!(pad_to_stride(vec![0u8; 4]).len(), 16);
    assert_eq!(pad_to_stride(vec![0u8; 8]).len(), 16);
    assert_eq!(pad_to_stride(vec![0u8; 12]).len(), 16);
    assert_eq!(pad_to_stride(vec![0u8; 16]).len(), 32);
    assert_eq!(pad_to_stride(vec![0u8; 20]).len(), 32);
    assert_eq!(pad_to_stride(vec![0u8; 64]).len(), 80);
}

#[test]
fn pad_leaves_tiny_blobs_alone() {
    assert_eq!(pad_to_stride(vec![]).len(), 0);
    assert_eq!(pad_to_stride(vec![7u8]).len(), 1);
}

#[test]
fn u32_resources_match_layout() {
    let value: u32 = 5;
    let resources = value.create_resources();
    let layout = <u32 as Binding>::layout(None);
    assert_eq!(resources.len(), layout.len());
    assert_eq!(resources.len(), 1);
    match &resources[0] {
        Resource::Simple(bytes) => {
            assert_eq!(bytes.len(), 16);
            assert_eq!(&bytes[0..4], &[5, 0, 0, 0]);
            assert!(bytes[4..].iter().all(|b| *b == 0));
        }
        Resource::Bespoke(_) => panic!("a plain value owns no external resource"),
    }
}

#[test]
fn u32_layout_override_changes_kind_not_count() {
    let plain = <u32 as Binding>::layout(None);
    assert_eq!(plain.len(), 1);
    assert_eq!(plain[0].ty, BindingKind::UniformBuffer);
    assert_eq!(plain[0].binding, 0);
    assert_eq!(plain[0].visibility, STAGE_ALL);
    let overridden = <u32 as Binding>::layout(Some(BindingKind::StorageBuffer {
        read_only: true,
    }));
    assert_eq!(overridden.len(), 1);
    assert_eq!(
        overridden[0].ty,
        BindingKind::StorageBuffer { read_only: true }
    );
}

#[test]
fn texture_resources_are_view_then_sampler() {
    let texture = Texture {
        view_handle: 11,
        sampler_handle: 22,
    };
    let resources = texture.create_resources();
    let layout = <Texture as Binding>::layout(None);
    assert_eq!(resources.len(), layout.len());
    assert_eq!(resources.len(), 2);
    match resources[0] {
        Resource::Bespoke(handle) => assert_eq!(handle, 11),
        _ => panic!("slot 0 of a texture is its view"),
    }
    match resources[1] {
        Resource::Bespoke(handle) => assert_eq!(handle, 22),
        _ => panic!("slot 1 of a texture is its sampler"),
    }
    assert_eq!(layout[0].ty, BindingKind::Texture);
    assert_eq!(layout[1].ty, BindingKind::Sampler { filtering: true });
    let shader_type = <Texture as Binding>::shader_type();
    assert_eq!(shader_type.var_types.len(), 2);
    assert_eq!(shader_type.wgsl_types, vec!["texture_2d<f32>", "sampler"]);
}

#[test]
fn depth_texture_samples_depth_with_a_filtering_sampler() {
    let depth = DepthTexture {
        view_handle: 1,
        sampler_handle: 2,
    };
    let resources = depth.create_resources();
    let layout = <DepthTexture as Binding>::layout(None);
    assert_eq!(resources.len(), layout.len());
    assert_eq!(layout[0].ty, BindingKind::DepthTexture);
    assert_eq!(layout[1].ty, BindingKind::Sampler { filtering: true });
    let shader_type = <DepthTexture as Binding>::shader_type();
    assert_eq!(shader_type.wgsl_types, vec!["texture_depth_2d", "sampler"]);
}

#[test]
fn storage_texture_binds_its_view_alone() {
    let texture = Texture {
        view_handle: 5,
        sampler_handle: 6,
    };
    let storage = StorageTexture::from_texture(texture);
    assert_eq!(storage.view(), 5);
    let resources = storage.create_resources();
    let layout = <StorageTexture as Binding>::layout(None);
    assert_eq!(resources.len(), layout.len());
    assert_eq!(resources.len(), 1);
    match resources[0] {
        Resource::Bespoke(handle) => assert_eq!(handle, 5),
        _ => panic!("a storage texture owns no buffer"),
    }
    assert_eq!(layout[0].ty, BindingKind::StorageTexture { three_d: false });
    let back = storage.to_texture();
    assert_eq!(back.view_handle, 5);
    assert_eq!(back.sampler_handle, 6);
    let shader_type = <StorageTexture as Binding>::shader_type();
    assert_eq!(
        shader_type.wgsl_types,
        vec!["texture_storage_2d<rgba32float, read_write>"]
    );
}

#[test]
fn three_d_textures_declare_their_dimension() {
    let texture = Texture {
        view_handle: 9,
        sampler_handle: 10,
    };
    let volume = Texture3D { texture };
    let layout = <Texture3D as Binding>::layout(None);
    assert_eq!(volume.create_resources().len(), layout.len());
    assert_eq!(layout[0].ty, BindingKind::Texture3D);
    assert_eq!(layout[1].ty, BindingKind::Sampler { filtering: false });
    assert_eq!(
        <Texture3D as Binding>::shader_type().wgsl_types,
        vec!["texture_3d<f32>", "sampler"]
    );
    let storage = StorageTexture3D::from_texture(texture);
    let storage_layout = <StorageTexture3D as Binding>::layout(None);
    assert_eq!(storage.create_resources().len(), storage_layout.len());
    assert_eq!(
        storage_layout[0].ty,
        BindingKind::StorageTexture { three_d: true }
    );
    assert_eq!(
        <StorageTexture3D as Binding>::shader_type().wgsl_types,
        vec!["texture_storage_3d<rgba32float, read_write>"]
    );
}

#[test]
fn replacing_twice_leaves_one_buffer_set_per_slot() {
    let mut binding = UniformBinding::new("Counter".to_string(), 1u32, None);
    assert_eq!(binding.generation, 0);
    assert_eq!(binding.buffers.len(), 1);
    binding.set_data(2u32);
    binding.set_data(3u32);
    assert_eq!(binding.generation, 2);
    assert_eq!(binding.value, 3);
    // Exactly one live buffer per Simple slot, built for the latest value.
    assert_eq!(binding.buffers.len(), 1);
    assert_eq!(binding.buffers[0].slot, 0);
    assert_eq!(binding.buffers[0].generation, 2);
    assert_eq!(&binding.buffers[0].contents[0..4], &[3, 0, 0, 0]);
    // The bind group references only the latest buffers.
    assert_eq!(binding.binding.entries.len(), 1);
    assert_eq!(binding.binding.entries[0].binding, 0);
    assert_eq!(
        binding.binding.entries[0].resource,
        BoundResource::Buffer {
            slot: 0,
            generation: 2
        }
    );
}

#[test]
fn container_keeps_label_and_layout_across_replacement() {
    let mut binding = UniformBinding::new("Counter".to_string(), 1u32, None);
    let layout_before = binding.layout.clone();
    binding.set_data(9u32);
    assert_eq!(binding.label, "Counter");
    assert_eq!(binding.layout, layout_before);
    assert_eq!(binding.shader_type.var_types, vec!["<uniform>"]);
    assert_eq!(binding.shader_type.wgsl_types, vec!["u32"]);
}

#[test]
fn bind_resources_orders_bespoke_before_buffers() {
    let texture = Texture {
        view_handle: 7,
        sampler_handle: 8,
    };
    let group = bind_resources(&texture);
    assert_eq!(group.entries.len(), 2);
    assert_eq!(group.entries[0].binding, 0);
    assert_eq!(group.entries[0].resource, BoundResource::Bespoke(7));
    assert_eq!(group.entries[1].binding, 1);
    assert_eq!(group.entries[1].resource, BoundResource::Bespoke(8));
}

#[test]
fn layout_constructors_keep_entries() {
    let layout = create_layout::<u32>();
    assert_eq!(layout.entries.len(), 1);
    let rebuilt = create_layout_from_entries(layout.entries.clone());
    assert_eq!(rebuilt.entries, layout.entries);
}

#[test]
fn simple_layout_entry_is_a_uniform_slot() {
    let entry: LayoutEntry = simple_layout_entry(3);
    assert_eq!(entry.binding, 3);
    assert_eq!(entry.visibility, STAGE_VERTEX | STAGE_FRAGMENT | STAGE_COMPUTE);
    assert_eq!(entry.ty, BindingKind::UniformBuffer);
}

#[test]
fn wgsl_names_are_the_shader_spellings() {
    assert_eq!(<u32 as WgslType>::wgsl_name(), "u32");
    assert_eq!(<i32 as WgslType>::wgsl_name(), "i32");
    assert_eq!(<u64 as WgslType>::wgsl_name(), "u64");
    assert_eq!(<i64 as WgslType>::wgsl_name(), "i64");
}
