//! Resource-binding reflection: how a typed value is presented to the GPU.
//!
//! A bindable value is described by an ordered list of [`Resource`]s (raw
//! byte blobs for new buffers, or handles to externally owned views and
//! samplers), a matching list of [`LayoutEntry`]s, and a [`ShaderType`].
//! The [`UniformBinding`] container owns the per-slot buffer records and the
//! bind-group plan for one value, and rebuilds both when the value is
//! replaced.  The host layer executes these plans against the real device;
//! this module fixes exactly which buffers exist, what they contain, and
//! what the bind group references.

use vstd::prelude::*;

use crate::shader::{ShaderType, ShaderTypeView};

verus! {

/// Shader stage bit for vertex shaders.
pub const STAGE_VERTEX: u32 = 1;

/// Shader stage bit for fragment shaders.
pub const STAGE_FRAGMENT: u32 = 2;

/// Shader stage bit for compute shaders.
pub const STAGE_COMPUTE: u32 = 4;

/// All shader stages.
pub const STAGE_ALL: u32 = 7;

/// The kind of GPU object a binding slot expects.
#[derive(Clone, Copy, PartialEq, Eq, Structural, Debug)]
pub enum BindingKind {
    UniformBuffer,
    StorageBuffer { read_only: bool },
    Texture,
    DepthTexture,
    Texture3D,
    Sampler { filtering: bool },
    StorageTexture { three_d: bool },
}

/// One entry of a bind-group layout: slot index, visible stages, and the
/// kind of object bound there.
#[derive(Clone, Copy, PartialEq, Eq, Structural, Debug)]
pub struct LayoutEntry {
    pub binding: u32,
    pub visibility: u32,
    pub ty: BindingKind,
}

/// A bind-group layout: the ordered entries it was created from.
#[derive(Clone, PartialEq, Eq, Debug)]
pub struct BindGroupLayout {
    pub entries: Vec<LayoutEntry>,
}

/// One GPU resource backing one slot of a bindable value.
///
/// `Simple` carries the raw bytes a fresh buffer is to be filled with;
/// `Bespoke` carries the handle of an externally owned object (a texture
/// view or sampler) used as-is.
#[derive(Clone, Debug)]
pub enum Resource {
    Simple(Vec<u8>),
    Bespoke(u64),
}

/// Mathematical view of a [`Resource`].
pub enum ResourceModel {
    Simple(Seq<u8>),
    Bespoke(u64),
}

impl View for Resource {
    type V = ResourceModel;

    open spec fn view(&self) -> ResourceModel {
        match self {
            Resource::Simple(bytes) => ResourceModel::Simple(bytes@),
            Resource::Bespoke(handle) => ResourceModel::Bespoke(*handle),
        }
    }
}

/// Number of zero bytes appended to a blob of `n` bytes before upload.
pub open spec fn spec_pad_len(n: int) -> nat {
    if n / 4 != 0 {
        ((4 - ((n / 4) % 4)) * 4) as nat
    } else {
        0
    }
}

/// A blob of `s` bytes as it is written into its buffer: right-padded with
/// zeros to the upload stride.
pub open spec fn spec_padded(s: Seq<u8>) -> Seq<u8> {
    s + Seq::new(spec_pad_len(s.len() as int), |j: int| 0u8)
}

/// Pads a raw byte blob for GPU upload, exactly as a uniform slot expects
/// it: a blob of `4 * k` bytes (`k > 0`) grows to the next strictly larger
/// multiple of 16 bytes; blobs shorter than 4 bytes are returned unchanged.
pub fn pad_to_stride(bytes: Vec<u8>) -> (r: Vec<u8>)
    ensures
        r@ == spec_padded(bytes@),
{
    let ghost orig = bytes@;
    let n: usize = bytes.len();
    let mut out = bytes;
    if n / 4 != 0 {
        let pad: usize = (4 - ((n / 4) % 4)) * 4;
        let mut i: usize = 0;
        while i < pad
            invariant
                i <= pad,
                pad == spec_pad_len(orig.len() as int),
                out@ == orig + Seq::new(i as nat, |j: int| 0u8),
            decreases pad - i,
        {
            out.push(0u8);
            assert(out@ =~= orig + Seq::new((i + 1) as nat, |j: int| 0u8));
            i = i + 1;
        }
    } else {
        assert(out@ =~= orig + Seq::new(0, |j: int| 0u8));
    }
    out
}

/// A blob whose length is a multiple of 4 bytes is padded to a length that
/// is a multiple of 16 bytes.
pub proof fn lemma_padded_len_multiple_of_16(n: int)
    requires
        n >= 0,
        n % 4 == 0,
    ensures
        (n + spec_pad_len(n)) % 16 == 0,
{
    vstd::arithmetic::div_mod::lemma_fundamental_div_mod(n, 4);
    let k = n / 4;
    assert(n == 4 * k);
    if k != 0 {
        vstd::arithmetic::div_mod::lemma_fundamental_div_mod(k, 4);
        assert(k == 4 * (k / 4) + k % 4);
        let m = k / 4;
        assert(n + spec_pad_len(n) == 4 * k + (4 - k % 4) * 4);
        assert(4 * k == 16 * m + 4 * (k % 4)) by (nonlinear_arith)
            requires
                k == 4 * m + k % 4,
        ;
        assert(n + spec_pad_len(n) == 16 * m + 16);
        assert(16 * m + 16 == (m + 1) * 16) by (nonlinear_arith);
        vstd::arithmetic::div_mod::lemma_mod_multiples_basic(m + 1, 16);
    }
}

/// Law: the padded form of a blob of whole 4-byte words has a length that
/// is a multiple of 16 bytes, as the upload stride requires.
pub proof fn lemma_padded_multiple_of_16(s: Seq<u8>)
    requires
        s.len() % 4 == 0,
    ensures
        spec_padded(s).len() % 16 == 0,
{
    lemma_padded_len_multiple_of_16(s.len() as int);
}

/// A bindable value: something that can be turned into an ordered list of
/// GPU resources with a matching layout and shader-side declaration.
pub trait Binding: Sized {
    /// The layout entries declared for this type, one per resource slot.
    spec fn spec_layout(ty: Option<BindingKind>) -> Seq<LayoutEntry>;

    /// The resources produced for this value, one per slot.
    spec fn spec_resources(&self) -> Seq<ResourceModel>;

    /// The per-slot shader declaration metadata of this type.
    spec fn spec_shader_type() -> ShaderTypeView;

    /// Law: resources, layout entries and shader-type rows agree in count,
    /// a layout override never changes the slot count, and slot indices fit
    /// the device's 32-bit binding numbers.
    proof fn law_slots_agree(&self)
        ensures
            Self::spec_layout(None).len() <= u32::MAX,
            self.spec_resources().len() == Self::spec_layout(None).len(),
            Self::spec_shader_type().var_types.len() == Self::spec_layout(None).len(),
            Self::spec_shader_type().wgsl_types.len() == Self::spec_layout(None).len(),
            forall|ty: Option<BindingKind>|
                (#[trigger] Self::spec_layout(ty)).len() == Self::spec_layout(None).len(),
    ;

    fn layout(ty: Option<BindingKind>) -> (r: Vec<LayoutEntry>)
        ensures
            r@ == Self::spec_layout(ty),
    ;

    fn create_resources(&self) -> (r: Vec<Resource>)
        ensures
            r@.len() == self.spec_resources().len(),
            forall|i: int| 0 <= i < r@.len() ==> r@[i]@ == self.spec_resources()[i],
    ;

    fn shader_type() -> (r: ShaderType)
        ensures
            r@.var_types == Self::spec_shader_type().var_types,
            r@.wgsl_types == Self::spec_shader_type().wgsl_types,
    ;
}

/// Law: for any bindable value, the list of resources produced for it has
/// exactly as many entries as the layout produced for its type.
pub proof fn lemma_resources_match_layout<B: Binding>(value: &B)
    ensures
        value.spec_resources().len() == B::spec_layout(None).len(),
{
    value.law_slots_agree();
}

/// A layout entry for a plain uniform-buffer slot visible to all stages.
pub fn simple_layout_entry(binding: u32) -> (r: LayoutEntry)
    ensures
        r == (LayoutEntry {
            binding,
            visibility: STAGE_VERTEX | STAGE_FRAGMENT | STAGE_COMPUTE,
            ty: BindingKind::UniformBuffer,
        }),
{
    LayoutEntry {
        binding,
        visibility: STAGE_VERTEX | STAGE_FRAGMENT | STAGE_COMPUTE,
        ty: BindingKind::UniformBuffer,
    }
}

/// The bind-group layout of a bindable type, from its default entries.
pub fn create_layout<B: Binding>() -> (r: BindGroupLayout)
    ensures
        r.entries@ == B::spec_layout(None),
{
    BindGroupLayout { entries: B::layout(None) }
}

/// A bind-group layout from explicitly given entries.
pub fn create_layout_from_entries(entries: Vec<LayoutEntry>) -> (r: BindGroupLayout)
    ensures
        r.entries@ == entries@,
{
    BindGroupLayout { entries }
}

/// A buffer record owned by a binding container: which slot it backs, the
/// generation of the value it was built for, and the bytes it holds.
#[derive(Clone, Debug)]
pub struct BufferSlot {
    pub slot: u32,
    pub generation: u64,
    pub contents: Vec<u8>,
}

/// Mathematical view of a [`BufferSlot`].
pub struct BufferSlotModel {
    pub slot: u32,
    pub generation: u64,
    pub contents: Seq<u8>,
}

impl View for BufferSlot {
    type V = BufferSlotModel;

    open spec fn view(&self) -> BufferSlotModel {
        BufferSlotModel { slot: self.slot, generation: self.generation, contents: self.contents@ }
    }
}

/// What one bind-group entry references: a container-owned buffer (by slot
/// and generation) or an externally owned object (by handle).
#[derive(Clone, Copy, PartialEq, Eq, Structural, Debug)]
pub enum BoundResource {
    Buffer { slot: u32, generation: u64 },
    Bespoke(u64),
}

/// One entry of a bind group: the slot index and what is bound there.
#[derive(Clone, Copy, PartialEq, Eq, Structural, Debug)]
pub struct BindGroupEntry {
    pub binding: u32,
    pub resource: BoundResource,
}

/// A bind group: the ordered entries the device is asked to bind.
#[derive(Clone, PartialEq, Eq, Debug)]
pub struct BindGroup {
    pub entries: Vec<BindGroupEntry>,
}

/// The buffer records built for a resource list at generation `g`: one
/// record per `Simple` slot, in slot order.
pub open spec fn spec_buffers_of(rs: Seq<ResourceModel>, g: u64) -> Seq<BufferSlotModel>
    decreases rs.len(),
{
    if rs.len() == 0 {
        Seq::empty()
    } else {
        spec_buffers_of(rs.drop_last(), g) + match rs.last() {
            ResourceModel::Simple(bytes) => seq![
                BufferSlotModel {
                    slot: (rs.len() - 1) as u32,
                    generation: g,
                    contents: bytes,
                },
            ],
            ResourceModel::Bespoke(_) => Seq::empty(),
        }
    }
}

/// The bind-group entries for the externally owned resources of a list, in
/// slot order.
pub open spec fn spec_bespoke_entries_of(rs: Seq<ResourceModel>) -> Seq<BindGroupEntry>
    decreases rs.len(),
{
    if rs.len() == 0 {
        Seq::empty()
    } else {
        spec_bespoke_entries_of(rs.drop_last()) + match rs.last() {
            ResourceModel::Simple(_) => Seq::empty(),
            ResourceModel::Bespoke(handle) => seq![
                BindGroupEntry {
                    binding: (rs.len() - 1) as u32,
                    resource: BoundResource::Bespoke(handle),
                },
            ],
        }
    }
}

/// The bind-group entries for the container-owned buffers of a list at
/// generation `g`, in slot order.
pub open spec fn spec_buffer_entries_of(rs: Seq<ResourceModel>, g: u64) -> Seq<BindGroupEntry>
    decreases rs.len(),
{
    if rs.len() == 0 {
        Seq::empty()
    } else {
        spec_buffer_entries_of(rs.drop_last(), g) + match rs.last() {
            ResourceModel::Simple(_) => seq![
                BindGroupEntry {
                    binding: (rs.len() - 1) as u32,
                    resource: BoundResource::Buffer {
                        slot: (rs.len() - 1) as u32,
                        generation: g,
                    },
                },
            ],
            ResourceModel::Bespoke(_) => Seq::empty(),
        }
    }
}

/// The full bind-group plan for a resource list at generation `g`: the
/// externally owned entries first, then the buffer entries, each group in
/// slot order.
pub open spec fn spec_bind_group_of(rs: Seq<ResourceModel>, g: u64) -> Seq<BindGroupEntry> {
    spec_bespoke_entries_of(rs) + spec_buffer_entries_of(rs, g)
}

impl DeepView for Resource {
    type V = ResourceModel;

    open spec fn deep_view(&self) -> ResourceModel {
        self.view()
    }
}

impl DeepView for BufferSlot {
    type V = BufferSlotModel;

    open spec fn deep_view(&self) -> BufferSlotModel {
        self.view()
    }
}

/// An owned copy of a byte vector.
fn copy_bytes(bytes: &Vec<u8>) -> (r: Vec<u8>)
    ensures
        r@ == bytes@,
{
    let mut out: Vec<u8> = Vec::new();
    let mut i: usize = 0;
    while i < bytes.len()
        invariant
            i <= bytes@.len(),
            out@ == bytes@.subrange(0, i as int),
        decreases bytes@.len() - i,
    {
        out.push(bytes[i]);
        assert(out@ =~= bytes@.subrange(0, i + 1 as int));
        i = i + 1;
    }
    assert(out@ =~= bytes@);
    out
}

/// Builds the buffer records and the bind-group plan for a resource list at
/// the given generation: one fresh buffer per `Simple` slot, the externally
/// owned entries first and the buffer entries after them, all in slot order.
fn build_plan(resources: &Vec<Resource>, generation: u64) -> (r: (Vec<BufferSlot>, BindGroup))
    requires
        resources@.len() <= u32::MAX,
    ensures
        r.0.deep_view() == spec_buffers_of(resources.deep_view(), generation),
        r.1.entries@ == spec_bind_group_of(resources.deep_view(), generation),
{
    let ghost rsv = resources.deep_view();
    let mut buffers: Vec<BufferSlot> = Vec::new();
    let mut bespoke_entries: Vec<BindGroupEntry> = Vec::new();
    let mut buffer_entries: Vec<BindGroupEntry> = Vec::new();
    let mut i: usize = 0;
    while i < resources.len()
        invariant
            i <= resources@.len(),
            resources@.len() <= u32::MAX,
            rsv == resources.deep_view(),
            rsv.len() == resources@.len(),
            forall|j: int| 0 <= j < rsv.len() ==> rsv[j] == resources@[j]@,
            buffers.deep_view() == spec_buffers_of(rsv.take(i as int), generation),
            bespoke_entries@ == spec_bespoke_entries_of(rsv.take(i as int)),
            buffer_entries@ == spec_buffer_entries_of(rsv.take(i as int), generation),
        decreases resources@.len() - i,
    {
        proof {
            assert(rsv.take(i + 1).drop_last() =~= rsv.take(i as int));
            assert(rsv.take(i + 1).last() == rsv[i as int]);
        }
        match &resources[i] {
            Resource::Simple(bytes) => {
                buffers.push(
                    BufferSlot { slot: i as u32, generation, contents: copy_bytes(bytes) },
                );
                buffer_entries.push(
                    BindGroupEntry {
                        binding: i as u32,
                        resource: BoundResource::Buffer { slot: i as u32, generation },
                    },
                );
            },
            Resource::Bespoke(handle) => {
                bespoke_entries.push(
                    BindGroupEntry { binding: i as u32, resource: BoundResource::Bespoke(*handle) },
                );
            },
        }
        proof {
            assert(buffers.deep_view() =~= spec_buffers_of(rsv.take(i + 1), generation));
            assert(bespoke_entries@ =~= spec_bespoke_entries_of(rsv.take(i + 1)));
            assert(buffer_entries@ =~= spec_buffer_entries_of(rsv.take(i + 1), generation));
        }
        i = i + 1;
    }
    proof {
        assert(rsv.take(rsv.len() as int) =~= rsv);
    }
    let mut entries = bespoke_entries;
    let mut k: usize = 0;
    let ghost n_bespoke = entries@.len();
    while k < buffer_entries.len()
        invariant
            k <= buffer_entries@.len(),
            buffer_entries@ == spec_buffer_entries_of(rsv, generation),
            entries@ == spec_bespoke_entries_of(rsv) + buffer_entries@.take(k as int),
        decreases buffer_entries@.len() - k,
    {
        entries.push(buffer_entries[k]);
        assert(entries@ =~= spec_bespoke_entries_of(rsv) + buffer_entries@.take(k + 1 as int));
        k = k + 1;
    }
    assert(entries@ =~= spec_bind_group_of(rsv, generation));
    (buffers, BindGroup { entries })
}

/// A container owning the GPU-side presentation of one typed value: the
/// per-slot buffer records for its `Simple` resources, the bind-group plan
/// referencing them, the fixed layout, and the value itself.
///
/// `generation` counts how many times the value has been replaced; every
/// buffer record and every buffer reference in the bind group carries the
/// generation it was built for, so well-formedness states that nothing
/// stale survives a replacement.
pub struct UniformBinding<B: Binding> {
    pub layout: BindGroupLayout,
    pub binding: BindGroup,
    pub buffers: Vec<BufferSlot>,
    pub label: String,
    pub shader_type: ShaderType,
    pub value: B,
    pub generation: u64,
}

impl<B: Binding> UniformBinding<B> {
    /// The container's buffers and bind group were all built from the
    /// current value at the current generation, and the shader metadata is
    /// the type's own.
    pub open spec fn wf(self) -> bool {
        &&& self.buffers.deep_view() == spec_buffers_of(
            self.value.spec_resources(),
            self.generation,
        )
        &&& self.binding.entries@ == spec_bind_group_of(
            self.value.spec_resources(),
            self.generation,
        )
        &&& self.shader_type@.var_types == B::spec_shader_type().var_types
        &&& self.shader_type@.wgsl_types == B::spec_shader_type().wgsl_types
        &&& exists|ty: Option<BindingKind>| self.layout.entries@ == B::spec_layout(ty)
    }

    /// The buffer records and bind-group plan for a value at a given
    /// generation.
    pub fn create_bind_group(value: &B, generation: u64) -> (r: (Vec<BufferSlot>, BindGroup))
        ensures
            r.0.deep_view() == spec_buffers_of(value.spec_resources(), generation),
            r.1.entries@ == spec_bind_group_of(value.spec_resources(), generation),
    {
        proof {
            value.law_slots_agree();
        }
        let resources = value.create_resources();
        proof {
            assert(resources.deep_view() =~= value.spec_resources());
        }
        build_plan(&resources, generation)
    }

    /// A new container for `value`, with the layout built once from the
    /// type (slot 0's kind replaced by `ty` when one is given), the buffers
    /// and bind group built from the value at generation 0.
    pub fn new(label: String, value: B, ty: Option<BindingKind>) -> (r: Self)
        ensures
            r.wf(),
            r.generation == 0,
            r.value == value,
            r.label@ == label@,
            r.layout.entries@ == B::spec_layout(ty),
    {
        let layout = BindGroupLayout { entries: B::layout(ty) };
        let (buffers, binding) = Self::create_bind_group(&value, 0);
        let shader_type = B::shader_type();
        UniformBinding { layout, binding, buffers, label, shader_type, value, generation: 0 }
    }

    /// Replaces the contained value: every buffer and the bind group are
    /// rebuilt from the new value at the next generation, and nothing of
    /// the previous generation remains; the layout is kept as created.
    pub fn set_data(&mut self, value: B)
        requires
            old(self).wf(),
            old(self).generation < u64::MAX,
        ensures
            final(self).wf(),
            final(self).generation == old(self).generation + 1,
            final(self).value == value,
            final(self).layout == old(self).layout,
            final(self).label == old(self).label,
            final(self).shader_type == old(self).shader_type,
    {
        let generation = self.generation + 1;
        let (buffers, binding) = Self::create_bind_group(&value, generation);
        self.value = value;
        self.buffers = buffers;
        self.binding = binding;
        self.generation = generation;
    }
}

/// A one-shot bind-group plan for a value, without retaining the buffer
/// records: the plan a fresh binding of the value would use.
pub fn bind_resources<B: Binding>(value: &B) -> (r: BindGroup)
    ensures
        r.entries@ == spec_bind_group_of(value.spec_resources(), 0),
{
    let (_buffers, group) = UniformBinding::<B>::create_bind_group(value, 0);
    group
}

/// Every buffer record built for a resource list carries the generation it
/// was built at, backs a `Simple` slot of the list with exactly that slot's
/// bytes, and the records come in strictly increasing slot order, so no
/// slot owns two buffers.
pub proof fn lemma_buffers_exact(rs: Seq<ResourceModel>, g: u64)
    requires
        rs.len() <= u32::MAX,
    ensures
        forall|j: int|
            0 <= j < spec_buffers_of(rs, g).len() ==> {
                let b = #[trigger] spec_buffers_of(rs, g)[j];
                &&& b.generation == g
                &&& 0 <= b.slot < rs.len()
                &&& rs[b.slot as int] matches ResourceModel::Simple(bytes) && b.contents == bytes
            },
        forall|j1: int, j2: int|
            0 <= j1 < j2 < spec_buffers_of(rs, g).len() ==> spec_buffers_of(rs, g)[j1].slot
                < spec_buffers_of(rs, g)[j2].slot,
        forall|s: int|
            0 <= s < rs.len() && rs[s] is Simple ==> exists|j: int|
                0 <= j < spec_buffers_of(rs, g).len() && (#[trigger] spec_buffers_of(rs, g)[j]).slot
                    == s,
    decreases rs.len(),
{
    if rs.len() > 0 {
        lemma_buffers_exact(rs.drop_last(), g);
        assert(forall|j: int|
            0 <= j < rs.len() - 1 ==> rs.drop_last()[j] == rs[j]);
        let prefix = spec_buffers_of(rs.drop_last(), g);
        assert forall|s: int|
            0 <= s < rs.len() && rs[s] is Simple implies exists|j: int|
            0 <= j < spec_buffers_of(rs, g).len() && (#[trigger] spec_buffers_of(rs, g)[j]).slot
                == s by {
            if s < rs.len() - 1 {
                let j = choose|j: int|
                    0 <= j < prefix.len() && (#[trigger] prefix[j]).slot == s;
                assert(spec_buffers_of(rs, g)[j].slot == s);
            } else {
                assert(spec_buffers_of(rs, g)[spec_buffers_of(rs, g).len() - 1].slot == s);
            }
        }
    }
}

/// Every bind-group entry built for a resource list either references an
/// externally owned handle of the list or a buffer of exactly the
/// generation the group was built at: nothing stale is referenced.
pub proof fn lemma_bind_group_references_generation(rs: Seq<ResourceModel>, g: u64)
    ensures
        forall|i: int|
            0 <= i < spec_bind_group_of(rs, g).len() ==> match (
            #[trigger] spec_bind_group_of(rs, g)[i]).resource {
                BoundResource::Buffer { slot, generation } => generation == g,
                BoundResource::Bespoke(_) => true,
            },
{
    lemma_bespoke_entries_bespoke(rs);
    lemma_buffer_entries_generation(rs, g);
}

proof fn lemma_bespoke_entries_bespoke(rs: Seq<ResourceModel>)
    ensures
        forall|i: int|
            0 <= i < spec_bespoke_entries_of(rs).len() ==> (
            #[trigger] spec_bespoke_entries_of(rs)[i]).resource is Bespoke,
    decreases rs.len(),
{
    if rs.len() > 0 {
        lemma_bespoke_entries_bespoke(rs.drop_last());
    }
}

proof fn lemma_buffer_entries_generation(rs: Seq<ResourceModel>, g: u64)
    ensures
        forall|i: int|
            0 <= i < spec_buffer_entries_of(rs, g).len() ==> ((
            #[trigger] spec_buffer_entries_of(rs, g)[i]).resource matches BoundResource::Buffer {
                slot,
                generation,
            } && generation == g),
    decreases rs.len(),
{
    if rs.len() > 0 {
        lemma_buffer_entries_generation(rs.drop_last(), g);
    }
}

/// Law: the bind group of a well-formed container references only buffers
/// of the container's current generation, so a replaced value's buffers are
/// never reachable from the group that survives the replacement.
pub proof fn lemma_bind_group_current<B: Binding>(u: &UniformBinding<B>)
    requires
        u.wf(),
    ensures
        forall|i: int|
            0 <= i < u.binding.entries@.len() ==> match (
            #[trigger] u.binding.entries@[i]).resource {
                BoundResource::Buffer { slot, generation } => generation == u.generation,
                BoundResource::Bespoke(_) => true,
            },
{
    lemma_bind_group_references_generation(u.value.spec_resources(), u.generation);
}

/// What a shader build needs from any binding container, whatever value
/// type it holds: its layout, its current bind group, its label and its
/// shader-side metadata.
pub trait Uniform {
    /// The layout this container was created with.
    spec fn spec_uniform_layout(&self) -> BindGroupLayout;

    /// The container's current bind group.
    spec fn spec_uniform_binding(&self) -> BindGroup;

    /// The container's label.
    spec fn spec_uniform_label(&self) -> Seq<char>;

    /// The container's shader-side metadata.
    spec fn spec_uniform_shader_type(&self) -> ShaderTypeView;

    fn layout(&self) -> (r: &BindGroupLayout)
        ensures
            *r == self.spec_uniform_layout(),
    ;

    fn binding(&self) -> (r: &BindGroup)
        ensures
            *r == self.spec_uniform_binding(),
    ;

    fn label(&self) -> (r: &String)
        ensures
            r@ == self.spec_uniform_label(),
    ;

    fn shader_type(&self) -> (r: &ShaderType)
        ensures
            r@.var_types == self.spec_uniform_shader_type().var_types,
            r@.wgsl_types == self.spec_uniform_shader_type().wgsl_types,
    ;
}

impl<B: Binding> Uniform for UniformBinding<B> {
    open spec fn spec_uniform_layout(&self) -> BindGroupLayout {
        self.layout
    }

    open spec fn spec_uniform_binding(&self) -> BindGroup {
        self.binding
    }

    open spec fn spec_uniform_label(&self) -> Seq<char> {
        self.label@
    }

    open spec fn spec_uniform_shader_type(&self) -> ShaderTypeView {
        self.shader_type@
    }

    fn layout(&self) -> (r: &BindGroupLayout) {
        &self.layout
    }

    fn binding(&self) -> (r: &BindGroup) {
        &self.binding
    }

    fn label(&self) -> (r: &String) {
        &self.label
    }

    fn shader_type(&self) -> (r: &ShaderType) {
        &self.shader_type
    }
}

/// A type with a fixed name in shader source.
pub trait WgslType {
    /// The shader-side name of this type.
    spec fn spec_wgsl_name() -> Seq<char>;

    fn wgsl_name() -> (r: String)
        ensures
            r@ == Self::spec_wgsl_name(),
    ;
}

impl WgslType for u32 {
    open spec fn spec_wgsl_name() -> Seq<char> {
        "u32"@
    }

    fn wgsl_name() -> (r: String) {
        String::from_str("u32")
    }
}

impl WgslType for i32 {
    open spec fn spec_wgsl_name() -> Seq<char> {
        "i32"@
    }

    fn wgsl_name() -> (r: String) {
        String::from_str("i32")
    }
}

impl WgslType for u64 {
    open spec fn spec_wgsl_name() -> Seq<char> {
        "u64"@
    }

    fn wgsl_name() -> (r: String) {
        String::from_str("u64")
    }
}

impl WgslType for i64 {
    open spec fn spec_wgsl_name() -> Seq<char> {
        "i64"@
    }

    fn wgsl_name() -> (r: String) {
        String::from_str("i64")
    }
}

/// The layout of a plain-old-data uniform value: one slot, visible to all
/// stages, a uniform buffer unless overridden.
pub open spec fn spec_pod_layout(ty: Option<BindingKind>) -> Seq<LayoutEntry> {
    seq![
        LayoutEntry {
            binding: 0,
            visibility: STAGE_ALL,
            ty: match ty {
                Option::Some(k) => k,
                Option::None => BindingKind::UniformBuffer,
            },
        },
    ]
}

impl Binding for u32 {
    open spec fn spec_layout(ty: Option<BindingKind>) -> Seq<LayoutEntry> {
        spec_pod_layout(ty)
    }

    open spec fn spec_resources(&self) -> Seq<ResourceModel> {
        seq![ResourceModel::Simple(spec_padded(vstd::bytes::spec_u32_to_le_bytes(*self)))]
    }

    open spec fn spec_shader_type() -> ShaderTypeView {
        ShaderTypeView { var_types: seq!["<uniform>"@], wgsl_types: seq!["u32"@] }
    }

    proof fn law_slots_agree(&self) {
        vstd::bytes::lemma_auto_spec_u32_to_from_le_bytes();
    }

    fn layout(ty: Option<BindingKind>) -> (r: Vec<LayoutEntry>) {
        let entry = LayoutEntry {
            binding: 0,
            visibility: STAGE_ALL,
            ty: match ty {
                Option::Some(k) => k,
                Option::None => BindingKind::UniformBuffer,
            },
        };
        let mut v: Vec<LayoutEntry> = Vec::new();
        v.push(entry);
        assert(v@ =~= spec_pod_layout(ty));
        v
    }

    fn create_resources(&self) -> (r: Vec<Resource>) {
        let bytes = vstd::bytes::u32_to_le_bytes(*self);
        let padded = pad_to_stride(bytes);
        let mut v: Vec<Resource> = Vec::new();
        v.push(Resource::Simple(padded));
        v
    }

    fn shader_type() -> (r: ShaderType) {
        let mut var_types: Vec<String> = Vec::new();
        var_types.push(String::from_str("<uniform>"));
        let mut wgsl_types: Vec<String> = Vec::new();
        wgsl_types.push(u32::wgsl_name());
        let r = ShaderType { var_types, wgsl_types };
        assert(r@.var_types =~= Self::spec_shader_type().var_types);
        assert(r@.wgsl_types =~= Self::spec_shader_type().wgsl_types);
        r
    }
}

} // verus!
