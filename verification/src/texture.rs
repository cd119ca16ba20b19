//! Texture-like bindables: values whose GPU resources are externally owned
//! objects rather than freshly written buffers.
//!
//! The image data itself lives with the device; binding reflection only
//! orders the view and sampler handles into slots and fixes the layout
//! entries and shader declarations that go with them.

use vstd::prelude::*;

use crate::binding::{
    Binding, BindingKind, LayoutEntry, Resource, ResourceModel, STAGE_COMPUTE, STAGE_FRAGMENT,
    STAGE_VERTEX,
};
use crate::shader::{ShaderType, ShaderTypeView};

verus! {

/// A sampled texture as the binding reflection sees it: the handles of its
/// externally owned image view and sampler, bound with the view in slot 0
/// and the sampler in slot 1, always in that order.
#[derive(Clone, Copy, Debug)]
pub struct Texture {
    pub view_handle: u64,
    pub sampler_handle: u64,
}

/// The two layout entries of a sampled texture: the filterable image in
/// slot 0, visible everywhere, and its sampler in slot 1, visible to the
/// fragment and compute stages.
pub open spec fn spec_texture_layout() -> Seq<LayoutEntry> {
    seq![
        LayoutEntry {
            binding: 0,
            visibility: STAGE_VERTEX | STAGE_FRAGMENT | STAGE_COMPUTE,
            ty: BindingKind::Texture,
        },
        LayoutEntry {
            binding: 1,
            visibility: STAGE_FRAGMENT | STAGE_COMPUTE,
            ty: BindingKind::Sampler { filtering: true },
        },
    ]
}

impl Binding for Texture {
    /// A layout override does not apply to texture slots: the entries are
    /// fixed.
    open spec fn spec_layout(ty: Option<BindingKind>) -> Seq<LayoutEntry> {
        spec_texture_layout()
    }

    open spec fn spec_resources(&self) -> Seq<ResourceModel> {
        seq![
            ResourceModel::Bespoke(self.view_handle),
            ResourceModel::Bespoke(self.sampler_handle),
        ]
    }

    open spec fn spec_shader_type() -> ShaderTypeView {
        ShaderTypeView {
            var_types: seq![""@, ""@],
            wgsl_types: seq!["texture_2d<f32>"@, "sampler"@],
        }
    }

    proof fn law_slots_agree(&self) {
    }

    fn layout(ty: Option<BindingKind>) -> (r: Vec<LayoutEntry>) {
        let mut v: Vec<LayoutEntry> = Vec::new();
        v.push(
            LayoutEntry {
                binding: 0,
                visibility: STAGE_VERTEX | STAGE_FRAGMENT | STAGE_COMPUTE,
                ty: BindingKind::Texture,
            },
        );
        v.push(
            LayoutEntry {
                binding: 1,
                visibility: STAGE_FRAGMENT | STAGE_COMPUTE,
                ty: BindingKind::Sampler { filtering: true },
            },
        );
        assert(v@ =~= spec_texture_layout());
        v
    }

    fn create_resources(&self) -> (r: Vec<Resource>) {
        let mut v: Vec<Resource> = Vec::new();
        v.push(Resource::Bespoke(self.view_handle));
        v.push(Resource::Bespoke(self.sampler_handle));
        v
    }

    fn shader_type() -> (r: ShaderType) {
        let r = two_slot_shader_type("texture_2d<f32>");
        assert(r@.var_types =~= Self::spec_shader_type().var_types);
        assert(r@.wgsl_types =~= Self::spec_shader_type().wgsl_types);
        r
    }
}

/// The shader metadata of a two-slot texture binding: no qualifier on
/// either slot, the given image type in slot 0 and a sampler in slot 1.
fn two_slot_shader_type(image_type: &str) -> (r: ShaderType)
    ensures
        r@.var_types =~= seq![""@, ""@],
        r@.wgsl_types =~= seq![image_type@, "sampler"@],
{
    let mut var_types: Vec<String> = Vec::new();
    var_types.push(String::from_str(""));
    var_types.push(String::from_str(""));
    let mut wgsl_types: Vec<String> = Vec::new();
    wgsl_types.push(String::from_str(image_type));
    wgsl_types.push(String::from_str("sampler"));
    ShaderType { var_types, wgsl_types }
}

/// A depth texture bound for sampling: depth image in slot 0, filtering
/// sampler in slot 1, both visible to the fragment and compute stages.
#[derive(Clone, Copy, Debug)]
pub struct DepthTexture {
    pub view_handle: u64,
    pub sampler_handle: u64,
}

/// The two layout entries of a depth texture.
pub open spec fn spec_depth_texture_layout() -> Seq<LayoutEntry> {
    seq![
        LayoutEntry {
            binding: 0,
            visibility: STAGE_FRAGMENT | STAGE_COMPUTE,
            ty: BindingKind::DepthTexture,
        },
        LayoutEntry {
            binding: 1,
            visibility: STAGE_FRAGMENT | STAGE_COMPUTE,
            ty: BindingKind::Sampler { filtering: true },
        },
    ]
}

impl Binding for DepthTexture {
    open spec fn spec_layout(ty: Option<BindingKind>) -> Seq<LayoutEntry> {
        spec_depth_texture_layout()
    }

    open spec fn spec_resources(&self) -> Seq<ResourceModel> {
        seq![
            ResourceModel::Bespoke(self.view_handle),
            ResourceModel::Bespoke(self.sampler_handle),
        ]
    }

    open spec fn spec_shader_type() -> ShaderTypeView {
        ShaderTypeView {
            var_types: seq![""@, ""@],
            wgsl_types: seq!["texture_depth_2d"@, "sampler"@],
        }
    }

    proof fn law_slots_agree(&self) {
    }

    fn layout(ty: Option<BindingKind>) -> (r: Vec<LayoutEntry>) {
        let mut v: Vec<LayoutEntry> = Vec::new();
        v.push(
            LayoutEntry {
                binding: 0,
                visibility: STAGE_FRAGMENT | STAGE_COMPUTE,
                ty: BindingKind::DepthTexture,
            },
        );
        v.push(
            LayoutEntry {
                binding: 1,
                visibility: STAGE_FRAGMENT | STAGE_COMPUTE,
                ty: BindingKind::Sampler { filtering: true },
            },
        );
        assert(v@ =~= spec_depth_texture_layout());
        v
    }

    fn create_resources(&self) -> (r: Vec<Resource>) {
        let mut v: Vec<Resource> = Vec::new();
        v.push(Resource::Bespoke(self.view_handle));
        v.push(Resource::Bespoke(self.sampler_handle));
        v
    }

    fn shader_type() -> (r: ShaderType) {
        let r = two_slot_shader_type("texture_depth_2d");
        assert(r@.var_types =~= Self::spec_shader_type().var_types);
        assert(r@.wgsl_types =~= Self::spec_shader_type().wgsl_types);
        r
    }
}

/// A texture bound for storage access: its view alone, read-write, in one
/// slot.
#[derive(Clone, Copy, Debug)]
pub struct StorageTexture {
    texture: Texture,
}

impl StorageTexture {
    /// The texture this storage view was made from.
    pub closed spec fn spec_texture(self) -> Texture {
        self.texture
    }

    pub fn from_texture(texture: Texture) -> (r: Self)
        ensures
            r.spec_texture() == texture,
    {
        Self { texture }
    }

    pub fn to_texture(self) -> (r: Texture)
        ensures
            r == self.spec_texture(),
    {
        self.texture
    }

    /// The handle of the bound view.
    pub fn view(&self) -> (r: u64)
        ensures
            r == self.spec_texture().view_handle,
    {
        self.texture.view_handle
    }
}

/// The single layout entry of a storage texture.
pub open spec fn spec_storage_texture_layout(three_d: bool) -> Seq<LayoutEntry> {
    seq![
        LayoutEntry {
            binding: 0,
            visibility: STAGE_FRAGMENT | STAGE_COMPUTE,
            ty: BindingKind::StorageTexture { three_d },
        },
    ]
}

impl Binding for StorageTexture {
    open spec fn spec_layout(ty: Option<BindingKind>) -> Seq<LayoutEntry> {
        spec_storage_texture_layout(false)
    }

    open spec fn spec_resources(&self) -> Seq<ResourceModel> {
        seq![ResourceModel::Bespoke(self.spec_texture().view_handle)]
    }

    open spec fn spec_shader_type() -> ShaderTypeView {
        ShaderTypeView {
            var_types: seq![""@],
            wgsl_types: seq!["texture_storage_2d<rgba32float, read_write>"@],
        }
    }

    proof fn law_slots_agree(&self) {
    }

    fn layout(ty: Option<BindingKind>) -> (r: Vec<LayoutEntry>) {
        let mut v: Vec<LayoutEntry> = Vec::new();
        v.push(
            LayoutEntry {
                binding: 0,
                visibility: STAGE_FRAGMENT | STAGE_COMPUTE,
                ty: BindingKind::StorageTexture { three_d: false },
            },
        );
        assert(v@ =~= spec_storage_texture_layout(false));
        v
    }

    fn create_resources(&self) -> (r: Vec<Resource>) {
        let mut v: Vec<Resource> = Vec::new();
        v.push(Resource::Bespoke(self.texture.view_handle));
        v
    }

    fn shader_type() -> (r: ShaderType) {
        let mut var_types: Vec<String> = Vec::new();
        var_types.push(String::from_str(""));
        let mut wgsl_types: Vec<String> = Vec::new();
        wgsl_types.push(String::from_str("texture_storage_2d<rgba32float, read_write>"));
        let r = ShaderType { var_types, wgsl_types };
        assert(r@.var_types =~= Self::spec_shader_type().var_types);
        assert(r@.wgsl_types =~= Self::spec_shader_type().wgsl_types);
        r
    }
}

/// A three-dimensional texture bound for storage access.
#[derive(Clone, Copy, Debug)]
pub struct StorageTexture3D {
    pub texture: Texture,
}

impl StorageTexture3D {
    pub fn from_texture(texture: Texture) -> (r: Self)
        ensures
            r.texture == texture,
    {
        Self { texture }
    }

    pub fn to_texture(self) -> (r: Texture)
        ensures
            r == self.texture,
    {
        self.texture
    }
}

impl Binding for StorageTexture3D {
    open spec fn spec_layout(ty: Option<BindingKind>) -> Seq<LayoutEntry> {
        spec_storage_texture_layout(true)
    }

    open spec fn spec_resources(&self) -> Seq<ResourceModel> {
        seq![ResourceModel::Bespoke(self.texture.view_handle)]
    }

    open spec fn spec_shader_type() -> ShaderTypeView {
        ShaderTypeView {
            var_types: seq![""@],
            wgsl_types: seq!["texture_storage_3d<rgba32float, read_write>"@],
        }
    }

    proof fn law_slots_agree(&self) {
    }

    fn layout(ty: Option<BindingKind>) -> (r: Vec<LayoutEntry>) {
        let mut v: Vec<LayoutEntry> = Vec::new();
        v.push(
            LayoutEntry {
                binding: 0,
                visibility: STAGE_FRAGMENT | STAGE_COMPUTE,
                ty: BindingKind::StorageTexture { three_d: true },
            },
        );
        assert(v@ =~= spec_storage_texture_layout(true));
        v
    }

    fn create_resources(&self) -> (r: Vec<Resource>) {
        let mut v: Vec<Resource> = Vec::new();
        v.push(Resource::Bespoke(self.texture.view_handle));
        v
    }

    fn shader_type() -> (r: ShaderType) {
        let mut var_types: Vec<String> = Vec::new();
        var_types.push(String::from_str(""));
        let mut wgsl_types: Vec<String> = Vec::new();
        wgsl_types.push(String::from_str("texture_storage_3d<rgba32float, read_write>"));
        let r = ShaderType { var_types, wgsl_types };
        assert(r@.var_types =~= Self::spec_shader_type().var_types);
        assert(r@.wgsl_types =~= Self::spec_shader_type().wgsl_types);
        r
    }
}

/// A three-dimensional sampled texture: non-filterable image in slot 0,
/// non-filtering sampler in slot 1.
#[derive(Clone, Copy, Debug)]
pub struct Texture3D {
    pub texture: Texture,
}

/// The two layout entries of a three-dimensional sampled texture.
pub open spec fn spec_texture_3d_layout() -> Seq<LayoutEntry> {
    seq![
        LayoutEntry {
            binding: 0,
            visibility: STAGE_VERTEX | STAGE_FRAGMENT | STAGE_COMPUTE,
            ty: BindingKind::Texture3D,
        },
        LayoutEntry {
            binding: 1,
            visibility: STAGE_FRAGMENT | STAGE_COMPUTE,
            ty: BindingKind::Sampler { filtering: false },
        },
    ]
}

impl Binding for Texture3D {
    open spec fn spec_layout(ty: Option<BindingKind>) -> Seq<LayoutEntry> {
        spec_texture_3d_layout()
    }

    open spec fn spec_resources(&self) -> Seq<ResourceModel> {
        seq![
            ResourceModel::Bespoke(self.texture.view_handle),
            ResourceModel::Bespoke(self.texture.sampler_handle),
        ]
    }

    open spec fn spec_shader_type() -> ShaderTypeView {
        ShaderTypeView {
            var_types: seq![""@, ""@],
            wgsl_types: seq!["texture_3d<f32>"@, "sampler"@],
        }
    }

    proof fn law_slots_agree(&self) {
    }

    fn layout(ty: Option<BindingKind>) -> (r: Vec<LayoutEntry>) {
        let mut v: Vec<LayoutEntry> = Vec::new();
        v.push(
            LayoutEntry {
                binding: 0,
                visibility: STAGE_VERTEX | STAGE_FRAGMENT | STAGE_COMPUTE,
                ty: BindingKind::Texture3D,
            },
        );
        v.push(
            LayoutEntry {
                binding: 1,
                visibility: STAGE_FRAGMENT | STAGE_COMPUTE,
                ty: BindingKind::Sampler { filtering: false },
            },
        );
        assert(v@ =~= spec_texture_3d_layout());
        v
    }

    fn create_resources(&self) -> (r: Vec<Resource>) {
        let mut v: Vec<Resource> = Vec::new();
        v.push(Resource::Bespoke(self.texture.view_handle));
        v.push(Resource::Bespoke(self.texture.sampler_handle));
        v
    }

    fn shader_type() -> (r: ShaderType) {
        let r = two_slot_shader_type("texture_3d<f32>");
        assert(r@.var_types =~= Self::spec_shader_type().var_types);
        assert(r@.wgsl_types =~= Self::spec_shader_type().wgsl_types);
        r
    }
}

} // verus!
