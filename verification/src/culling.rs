//! Visibility culling: a conservative CPU bounding-box/frustum test, the
//! host-side reference semantics of the GPU instance filter, and the state
//! the GPU culling pass rewrites before each dispatch.
//!
//! Geometry is measured in fixed-point units: coordinates, matrix entries
//! and box half-extents are integers no larger than `COORD_BOUND` in
//! magnitude, and the near/far bounds are compared in the same units as the
//! transformed depth.  All arithmetic is exact.

use vstd::prelude::*;

use crate::binding::{
    pad_to_stride, spec_padded, spec_pod_layout, Binding, BindingKind, LayoutEntry, Resource,
    ResourceModel, UniformBinding, WgslType, STAGE_ALL,
};
use crate::shader::{ShaderType, ShaderTypeView};

verus! {

/// Magnitude bound on coordinates, half-extents and matrix entries.
pub const COORD_BOUND: i64 = 0x8000_0000;

/// Whether a fixed-point value is within the library's coordinate range.
pub open spec fn spec_fits(x: int) -> bool {
    -(COORD_BOUND as int) <= x <= COORD_BOUND as int
}

/// A column-major 4-by-4 fixed-point matrix: `entries[c][r]` is column `c`,
/// row `r`.
#[derive(Clone, Copy, Debug)]
pub struct Mat4 {
    pub entries: [[i64; 4]; 4],
}

impl Mat4 {
    /// All entries are within the coordinate range.
    pub open spec fn fits(self) -> bool {
        forall|c: int, r: int|
            0 <= c < 4 && 0 <= r < 4 ==> spec_fits(#[trigger] self.entries[c][r] as int)
    }
}

/// A symmetric axis-aligned bounding box: half-extents per axis, centered
/// at the mesh's local origin.  Half-extents are never negative.
#[derive(Clone, Copy, PartialEq, Eq, Debug)]
pub struct AABB {
    pub dimensions: [u32; 3],
}

impl AABB {
    /// The half-extents are within the coordinate range.
    pub open spec fn wf(self) -> bool {
        forall|a: int| 0 <= a < 3 ==> (#[trigger] self.dimensions[a] as int) <= COORD_BOUND as int
    }

    /// The zero-size box.
    pub fn zero() -> (r: AABB)
        ensures
            r.dimensions[0] == 0,
            r.dimensions[1] == 0,
            r.dimensions[2] == 0,
            r.wf(),
    {
        AABB { dimensions: [0, 0, 0] }
    }
}

/// The camera as the culling test reads it: the view-projection matrix and
/// the near/far depth bounds, in the units of the transformed depth.
#[derive(Clone, Copy, Debug)]
pub struct Camera {
    pub view_proj: Mat4,
    pub znear: i64,
    pub zfar: i64,
}

impl Camera {
    /// The matrix entries are within the coordinate range.
    pub open spec fn fits(self) -> bool {
        self.view_proj.fits()
    }
}

/// A matrix applied to a homogeneous 4-vector.
pub open spec fn spec_mat_apply(m: Mat4, v: (int, int, int, int)) -> (int, int, int, int) {
    (
        m.entries[0][0] * v.0 + m.entries[1][0] * v.1 + m.entries[2][0] * v.2 + m.entries[3][0]
            * v.3,
        m.entries[0][1] * v.0 + m.entries[1][1] * v.1 + m.entries[2][1] * v.2 + m.entries[3][1]
            * v.3,
        m.entries[0][2] * v.0 + m.entries[1][2] * v.1 + m.entries[2][2] * v.2 + m.entries[3][2]
            * v.3,
        m.entries[0][3] * v.0 + m.entries[1][3] * v.1 + m.entries[2][3] * v.2 + m.entries[3][3]
            * v.3,
    )
}

/// Corner `k` of the box, `0 <= k < 8`: each half-extent taken with a
/// positive or negative sign.
pub open spec fn spec_corner(aabb: AABB, k: int) -> (int, int, int) {
    let dx = aabb.dimensions[0] as int;
    let dy = aabb.dimensions[1] as int;
    let dz = aabb.dimensions[2] as int;
    (
        if k < 4 {
            dx
        } else {
            -dx
        },
        if k % 4 < 2 {
            dy
        } else {
            -dy
        },
        if k % 2 == 0 {
            dz
        } else {
            -dz
        },
    )
}

/// Whether the perspective-divided coordinate `x / w` lies in `[-1, 1]`.
/// A zero `w` admits nothing, as the division admits nothing then.
pub open spec fn spec_in_unit(x: int, w: int) -> bool {
    if w > 0 {
        -w <= x && x <= w
    } else if w < 0 {
        w <= x && x <= -w
    } else {
        false
    }
}

/// The clip-space position of a local point: transformed by the instance
/// matrix, then by the camera's view-projection matrix.
pub open spec fn spec_clip(camera: Camera, t: Mat4, c: (int, int, int)) -> (int, int, int, int) {
    spec_mat_apply(camera.view_proj, spec_mat_apply(t, (c.0, c.1, c.2, 1)))
}

/// Whether a corner passes all three screen tests: `x` and `y` inside the
/// unit square after perspective divide, and the transformed depth between
/// the camera's near and far bounds.
pub open spec fn spec_corner_visible(camera: Camera, t: Mat4, c: (int, int, int)) -> bool {
    let clip = spec_clip(camera, t, c);
    spec_in_unit(clip.0, clip.3) && spec_in_unit(clip.1, clip.3) && camera.znear <= clip.2
        && clip.2 <= camera.zfar
}

/// Whether an instance of the box is culled: it is discarded only when all
/// eight corners fail the screen tests.
pub open spec fn spec_culled(aabb: AABB, t: Mat4, camera: Camera) -> bool {
    forall|k: int| 0 <= k < 8 ==> !spec_corner_visible(camera, t, spec_corner(aabb, k))
}

proof fn lemma_mul_bound(a: int, b: int, ab: int, bb: int)
    by (nonlinear_arith)
    requires
        -ab <= a <= ab,
        -bb <= b <= bb,
        0 <= ab,
        0 <= bb,
    ensures
        -(ab * bb) <= a * b <= ab * bb,
{
}

/// One row of a matrix application: the dot product of four matrix entries
/// with a homogeneous vector, computed exactly in wide integers.
fn dot4(
    e0: i64,
    e1: i64,
    e2: i64,
    e3: i64,
    v: (i128, i128, i128, i128),
    Ghost(vb): Ghost<int>,
) -> (r: i128)
    requires
        spec_fits(e0 as int),
        spec_fits(e1 as int),
        spec_fits(e2 as int),
        spec_fits(e3 as int),
        0 <= vb <= 0x10000000000000000,
        -vb <= v.0 as int <= vb,
        -vb <= v.1 as int <= vb,
        -vb <= v.2 as int <= vb,
        -vb <= v.3 as int <= vb,
    ensures
        r as int == e0 * v.0 + e1 * v.1 + e2 * v.2 + e3 * v.3,
        -(0x2_0000_0000 * vb) <= r as int <= 0x2_0000_0000 * vb,
{
    proof {
        lemma_mul_bound(e0 as int, v.0 as int, 0x8000_0000, vb);
        lemma_mul_bound(e1 as int, v.1 as int, 0x8000_0000, vb);
        lemma_mul_bound(e2 as int, v.2 as int, 0x8000_0000, vb);
        lemma_mul_bound(e3 as int, v.3 as int, 0x8000_0000, vb);
        lemma_mul_bound(0x8000_0000, vb, 0x8000_0000, 0x10000000000000000);
        assert(0x2_0000_0000 * vb == 4 * (0x8000_0000 * vb)) by (nonlinear_arith);
    }
    let p0: i128 = (e0 as i128) * v.0;
    let p1: i128 = (e1 as i128) * v.1;
    let p2: i128 = (e2 as i128) * v.2;
    let p3: i128 = (e3 as i128) * v.3;
    p0 + p1 + p2 + p3
}

/// A matrix applied to a homogeneous wide-integer vector, exactly.
fn mat_apply(m: &Mat4, v: (i128, i128, i128, i128), Ghost(vb): Ghost<int>) -> (r: (
    i128,
    i128,
    i128,
    i128,
))
    requires
        m.fits(),
        0 <= vb <= 0x10000000000000000,
        -vb <= v.0 as int <= vb,
        -vb <= v.1 as int <= vb,
        -vb <= v.2 as int <= vb,
        -vb <= v.3 as int <= vb,
    ensures
        (r.0 as int, r.1 as int, r.2 as int, r.3 as int) == spec_mat_apply(
            *m,
            (v.0 as int, v.1 as int, v.2 as int, v.3 as int),
        ),
        -(0x2_0000_0000 * vb) <= r.0 as int <= 0x2_0000_0000 * vb,
        -(0x2_0000_0000 * vb) <= r.1 as int <= 0x2_0000_0000 * vb,
        -(0x2_0000_0000 * vb) <= r.2 as int <= 0x2_0000_0000 * vb,
        -(0x2_0000_0000 * vb) <= r.3 as int <= 0x2_0000_0000 * vb,
{
    let r0 = dot4(
        m.entries[0][0],
        m.entries[1][0],
        m.entries[2][0],
        m.entries[3][0],
        v,
        Ghost(vb),
    );
    let r1 = dot4(
        m.entries[0][1],
        m.entries[1][1],
        m.entries[2][1],
        m.entries[3][1],
        v,
        Ghost(vb),
    );
    let r2 = dot4(
        m.entries[0][2],
        m.entries[1][2],
        m.entries[2][2],
        m.entries[3][2],
        v,
        Ghost(vb),
    );
    let r3 = dot4(
        m.entries[0][3],
        m.entries[1][3],
        m.entries[2][3],
        m.entries[3][3],
        v,
        Ghost(vb),
    );
    (r0, r1, r2, r3)
}

/// The conservative CPU frustum test: the instance is culled exactly when
/// all eight corners of its bounding box fail the screen tests.  A box
/// with any corner inside the frustum is never culled, so the test may
/// draw too much but never discards visible geometry.
pub fn culled(bounding_box: &AABB, instance_transform: &Mat4, camera: &Camera) -> (r: bool)
    requires
        bounding_box.wf(),
        instance_transform.fits(),
        camera.fits(),
    ensures
        r == spec_culled(*bounding_box, *instance_transform, *camera),
{
    let mut k: u32 = 0;
    while k < 8
        invariant
            k <= 8,
            bounding_box.wf(),
            instance_transform.fits(),
            camera.fits(),
            forall|j: int|
                0 <= j < k ==> !spec_corner_visible(
                    *camera,
                    *instance_transform,
                    spec_corner(*bounding_box, j),
                ),
        decreases 8 - k,
    {
        let dx = bounding_box.dimensions[0] as i64;
        let dy = bounding_box.dimensions[1] as i64;
        let dz = bounding_box.dimensions[2] as i64;
        let cx: i64 = if k < 4 {
            dx
        } else {
            -dx
        };
        let cy: i64 = if k % 4 < 2 {
            dy
        } else {
            -dy
        };
        let cz: i64 = if k % 2 == 0 {
            dz
        } else {
            -dz
        };
        assert((cx as int, cy as int, cz as int) == spec_corner(*bounding_box, k as int));
        let world = mat_apply(
            instance_transform,
            (cx as i128, cy as i128, cz as i128, 1i128),
            Ghost(0x8000_0000int),
        );
        let clip = mat_apply(&camera.view_proj, world, Ghost(0x10000000000000000int));
        let w = clip.3;
        let in_x: bool = if w > 0 {
            -w <= clip.0 && clip.0 <= w
        } else if w < 0 {
            w <= clip.0 && clip.0 <= -w
        } else {
            false
        };
        let in_y: bool = if w > 0 {
            -w <= clip.1 && clip.1 <= w
        } else if w < 0 {
            w <= clip.1 && clip.1 <= -w
        } else {
            false
        };
        let in_depth: bool = (camera.znear as i128) <= clip.2 && clip.2 <= (camera.zfar as i128);
        if in_x && in_y && in_depth {
            assert(spec_corner_visible(
                *camera,
                *instance_transform,
                spec_corner(*bounding_box, k as int),
            ));
            return false;
        }
        assert(!spec_corner_visible(
            *camera,
            *instance_transform,
            spec_corner(*bounding_box, k as int),
        ));
        k = k + 1;
    }
    true
}

/// Law: a box with every corner inside the frustum is not culled; the test
/// never discards geometry the camera can see.
pub proof fn lemma_culling_conservative_inside(aabb: AABB, t: Mat4, camera: Camera)
    requires
        forall|k: int| 0 <= k < 8 ==> spec_corner_visible(camera, t, spec_corner(aabb, k)),
    ensures
        !spec_culled(aabb, t, camera),
{
    assert(spec_corner_visible(camera, t, spec_corner(aabb, 0)));
}

/// Law: a box whose every corner lies beyond the far plane is culled.
pub proof fn lemma_culled_behind_far(aabb: AABB, t: Mat4, camera: Camera)
    requires
        forall|k: int|
            0 <= k < 8 ==> spec_clip(camera, t, spec_corner(aabb, k)).2 > camera.zfar,
    ensures
        spec_culled(aabb, t, camera),
{
    assert forall|k: int| 0 <= k < 8 implies !spec_corner_visible(
        camera,
        t,
        spec_corner(aabb, k),
    ) by {
        assert(spec_clip(camera, t, spec_corner(aabb, k)).2 > camera.zfar);
    }
}

/// The instances of a batch that survive the frustum test, in order.
pub open spec fn spec_cull_filter(s: Seq<Mat4>, aabb: AABB, camera: Camera) -> Seq<Mat4>
    decreases s.len(),
{
    if s.len() == 0 {
        Seq::empty()
    } else {
        spec_cull_filter(s.drop_last(), aabb, camera) + if !spec_culled(aabb, s.last(), camera) {
            seq![s.last()]
        } else {
            Seq::<Mat4>::empty()
        }
    }
}

/// The survivors of a batch are never more numerous than the batch.
pub proof fn lemma_cull_filter_len(s: Seq<Mat4>, aabb: AABB, camera: Camera)
    ensures
        spec_cull_filter(s, aabb, camera).len() <= s.len(),
    decreases s.len(),
{
    if s.len() > 0 {
        lemma_cull_filter_len(s.drop_last(), aabb, camera);
    }
}

/// When no instance of the batch is culled, the survivors are the batch.
pub proof fn lemma_cull_filter_all_visible(s: Seq<Mat4>, aabb: AABB, camera: Camera)
    requires
        forall|i: int| 0 <= i < s.len() ==> !spec_culled(aabb, #[trigger] s[i], camera),
    ensures
        spec_cull_filter(s, aabb, camera) == s,
    decreases s.len(),
{
    if s.len() > 0 {
        assert(forall|i: int|
            0 <= i < s.len() - 1 ==> s.drop_last()[i] == s[i]);
        lemma_cull_filter_all_visible(s.drop_last(), aabb, camera);
        assert(spec_cull_filter(s, aabb, camera) =~= s);
    } else {
        assert(spec_cull_filter(s, aabb, camera) =~= s);
    }
}

/// The reference semantics of the GPU culling pass: keep exactly the
/// instances whose boxes pass the corner test, and report how many there
/// are.  The returned count never exceeds the instance count, and equals
/// it when the frustum contains every instance's box.
pub fn cull_instances(instances: &Vec<Mat4>, bounding_box: &AABB, camera: &Camera) -> (r: (
    Vec<Mat4>,
    u32,
))
    requires
        bounding_box.wf(),
        camera.fits(),
        forall|i: int| 0 <= i < instances@.len() ==> (#[trigger] instances@[i]).fits(),
        instances@.len() <= u32::MAX,
    ensures
        r.0@ == spec_cull_filter(instances@, *bounding_box, *camera),
        r.1 as int == r.0@.len(),
        r.1 as int <= instances@.len(),
        (forall|i: int|
            0 <= i < instances@.len() ==> !spec_culled(
                *bounding_box,
                #[trigger] instances@[i],
                *camera,
            )) ==> r.1 as int == instances@.len(),
{
    let mut out: Vec<Mat4> = Vec::new();
    let mut i: usize = 0;
    while i < instances.len()
        invariant
            i <= instances@.len(),
            instances@.len() <= u32::MAX,
            bounding_box.wf(),
            camera.fits(),
            forall|j: int| 0 <= j < instances@.len() ==> (#[trigger] instances@[j]).fits(),
            out@ == spec_cull_filter(instances@.take(i as int), *bounding_box, *camera),
            out@.len() <= i,
        decreases instances@.len() - i,
    {
        proof {
            assert(instances@.take(i + 1).drop_last() =~= instances@.take(i as int));
            assert(instances@.take(i + 1).last() == instances@[i as int]);
        }
        if !culled(bounding_box, &instances[i], camera) {
            out.push(instances[i]);
        }
        i = i + 1;
    }
    proof {
        assert(instances@.take(instances@.len() as int) =~= instances@);
        if forall|j: int|
            0 <= j < instances@.len() ==> !spec_culled(
                *bounding_box,
                #[trigger] instances@[j],
                *camera,
            ) {
            lemma_cull_filter_all_visible(instances@, *bounding_box, *camera);
        }
    }
    let count: u32 = out.len() as u32;
    (out, count)
}

/// The compute-dispatch grid that covers `num_instances` threads without
/// any dimension exceeding the device's per-dimension limit of 65535.
pub fn dispatch_groups(num_instances: u32) -> (r: [u32; 3])
    requires
        num_instances <= 0xFFFE0001u32,
    ensures
        r[0] == if num_instances < 65535 {
            num_instances as int
        } else {
            65535
        },
        r[1] as int == (num_instances + 65534) / 65535,
        r[2] == 1,
        r[0] <= 65535,
        r[1] <= 65535,
        num_instances > 0 ==> r[0] * r[1] >= num_instances,
{
    let x: u32 = if num_instances < 65535 {
        num_instances
    } else {
        65535
    };
    let y: u32 = (num_instances + 65534) / 65535;
    proof {
        let n = num_instances as int;
        vstd::arithmetic::div_mod::lemma_fundamental_div_mod(n + 65534, 65535);
        let q = (n + 65534) / 65535;
        let rm = (n + 65534) % 65535;
        assert(n + 65534 == 65535 * q + rm);
        assert(0 <= rm < 65535) by {
            vstd::arithmetic::div_mod::lemma_mod_bound(n + 65534, 65535);
        }
        assert(q <= 65535) by {
            if q > 65535 {
                assert(65535 * q >= 65535 * 65536) by (nonlinear_arith)
                    requires
                        q >= 65536,
                ;
            }
        }
        if n > 0 {
            if n < 65535 {
                assert(q >= 1);
                assert(n * q >= n) by (nonlinear_arith)
                    requires
                        q >= 1,
                        n >= 0,
                ;
            } else {
                assert(65535 * q >= n);
            }
        }
    }
    [x, y, 1]
}

impl WgslType for AABB {
    open spec fn spec_wgsl_name() -> Seq<char> {
        "AABB"@
    }

    fn wgsl_name() -> (r: String) {
        String::from_str("AABB")
    }
}

/// The raw bytes of a bounding box as its uniform buffer holds them before
/// padding: the three half-extents, each little-endian.
pub open spec fn spec_aabb_bytes(aabb: AABB) -> Seq<u8> {
    vstd::bytes::spec_u32_to_le_bytes(aabb.dimensions[0]) + vstd::bytes::spec_u32_to_le_bytes(
        aabb.dimensions[1],
    ) + vstd::bytes::spec_u32_to_le_bytes(aabb.dimensions[2])
}

impl Binding for AABB {
    open spec fn spec_layout(ty: Option<BindingKind>) -> Seq<LayoutEntry> {
        spec_pod_layout(ty)
    }

    open spec fn spec_resources(&self) -> Seq<ResourceModel> {
        seq![ResourceModel::Simple(spec_padded(spec_aabb_bytes(*self)))]
    }

    open spec fn spec_shader_type() -> ShaderTypeView {
        ShaderTypeView { var_types: seq!["<uniform>"@], wgsl_types: seq!["AABB"@] }
    }

    proof fn law_slots_agree(&self) {
        vstd::bytes::lemma_auto_spec_u32_to_from_le_bytes();
    }

    fn layout(ty: Option<BindingKind>) -> (r: Vec<LayoutEntry>) {
        let entry = LayoutEntry {
            binding: 0,
            visibility: STAGE_ALL,
            ty: match ty {
                Option::Some(k) => k,
                Option::None => BindingKind::UniformBuffer,
            },
        };
        let mut v: Vec<LayoutEntry> = Vec::new();
        v.push(entry);
        assert(v@ =~= spec_pod_layout(ty));
        v
    }

    fn create_resources(&self) -> (r: Vec<Resource>) {
        let mut bytes = vstd::bytes::u32_to_le_bytes(self.dimensions[0]);
        let mut b1 = vstd::bytes::u32_to_le_bytes(self.dimensions[1]);
        let mut b2 = vstd::bytes::u32_to_le_bytes(self.dimensions[2]);
        bytes.append(&mut b1);
        bytes.append(&mut b2);
        assert(bytes@ =~= spec_aabb_bytes(*self));
        let padded = pad_to_stride(bytes);
        let mut v: Vec<Resource> = Vec::new();
        v.push(Resource::Simple(padded));
        v
    }

    fn shader_type() -> (r: ShaderType) {
        let mut var_types: Vec<String> = Vec::new();
        var_types.push(String::from_str("<uniform>"));
        let mut wgsl_types: Vec<String> = Vec::new();
        wgsl_types.push(AABB::wgsl_name());
        let r = ShaderType { var_types, wgsl_types };
        assert(r@.var_types =~= Self::spec_shader_type().var_types);
        assert(r@.wgsl_types =~= Self::spec_shader_type().wgsl_types);
        r
    }
}

/// Whether `pat` occurs in `s` at position `i`.
pub open spec fn spec_match_at(s: Seq<char>, pat: Seq<char>, i: int) -> bool {
    0 <= i && i + pat.len() <= s.len() && s.subrange(i, i + pat.len()) == pat
}

/// The first position at or after `from` where `pat` occurs in `s`.
pub open spec fn spec_find_sub(s: Seq<char>, pat: Seq<char>, from: int) -> Option<int>
    decreases s.len() - from,
    when 0 <= from <= s.len() && pat.len() > 0
{
    if from + pat.len() > s.len() {
        None
    } else if s.subrange(from, from + pat.len()) == pat {
        Some(from)
    } else {
        spec_find_sub(s, pat, from + 1)
    }
}

/// What `spec_find_sub` returns: a match position at or after `from`, or
/// nothing when the pattern does not occur there.
pub proof fn lemma_find_sub_props(s: Seq<char>, pat: Seq<char>, from: int)
    requires
        0 <= from <= s.len(),
        pat.len() > 0,
    ensures
        match spec_find_sub(s, pat, from) {
            Some(i) => from <= i && spec_match_at(s, pat, i),
            None => true,
        },
    decreases s.len() - from,
{
    if from + pat.len() <= s.len() && s.subrange(from, from + pat.len()) != pat {
        lemma_find_sub_props(s, pat, from + 1);
    }
}

/// Every non-overlapping occurrence of `pat` in `s`, scanned left to
/// right, replaced by `rep`; for an empty pattern, `s` itself.
pub open spec fn spec_replace_all(s: Seq<char>, pat: Seq<char>, rep: Seq<char>) -> Seq<char>
    decreases s.len(),
    when pat.len() > 0
    via spec_replace_all_decreases
{
    match spec_find_sub(s, pat, 0) {
        None => s,
        Some(i) => s.subrange(0, i) + rep + spec_replace_all(
            s.skip(i + pat.len()),
            pat,
            rep,
        ),
    }
}

#[via_fn]
proof fn spec_replace_all_decreases(s: Seq<char>, pat: Seq<char>, rep: Seq<char>) {
    lemma_find_sub_props(s, pat, 0);
}

/// Relies on str::replace: every non-overlapping occurrence of the
/// pattern, scanned left to right, is replaced by the given text.
#[verifier::external_body]
fn replace_all(s: &str, pat: &str, rep: &str) -> (r: String)
    requires
        pat@.len() > 0,
    ensures
        r@ == spec_replace_all(s@, pat@, rep@),
{
    s.replace(pat, rep)
}

/// The source of the culling compute shader for one instance layout: the
/// caller's instance struct definition prepended to the shader template,
/// with every instance-matrix marker in the text replaced by the field
/// path that holds an instance's transform.
pub fn assemble_culling_source(
    instance_struct_definition: &str,
    template: &str,
    instance_matrix_identifier: &str,
) -> (r: String)
    ensures
        r@ == spec_replace_all(
            instance_struct_definition@ + "\n"@ + template@,
            "***INSTANCE_MATRIX***"@,
            instance_matrix_identifier@,
        ),
{
    let mut text = String::from_str(instance_struct_definition);
    text.append("\n");
    text.append(template);
    proof {
        reveal_strlit("***INSTANCE_MATRIX***");
    }
    replace_all(text.as_str(), "***INSTANCE_MATRIX***", instance_matrix_identifier)
}

/// The survivor count as the 4-byte counter buffer reports it after a
/// readback.
pub fn surviving_count_from_bytes(bytes: &Vec<u8>) -> (r: u32)
    requires
        bytes@.len() == 4,
    ensures
        r == vstd::bytes::spec_u32_from_le_bytes(bytes@),
{
    vstd::bytes::u32_from_le_bytes(bytes.as_slice())
}

/// The mutable state of the GPU culling pass: the two uniform containers
/// that are rewritten before every dispatch, holding the current instance
/// count and the current bounding box.  The compute pipeline itself is a
/// device object owned by the host layer.
pub struct CullingCompute {
    pub num_instances_uniform: UniformBinding<u32>,
    pub bounding_box_uniform: UniformBinding<AABB>,
}

impl CullingCompute {
    /// Both uniform containers are well formed.
    pub open spec fn wf(self) -> bool {
        &&& self.num_instances_uniform.wf()
        &&& self.bounding_box_uniform.wf()
    }

    /// Fresh culling state: an instance count of zero and a zero-size box.
    pub fn new() -> (r: Self)
        ensures
            r.wf(),
            r.num_instances_uniform.value == 0u32,
            r.bounding_box_uniform.value.dimensions[0] == 0,
            r.bounding_box_uniform.value.dimensions[1] == 0,
            r.bounding_box_uniform.value.dimensions[2] == 0,
    {
        let num_instances_uniform = UniformBinding::new(
            String::from_str("Num Instances"),
            0u32,
            None,
        );
        let bounding_box_uniform = UniformBinding::new(
            String::from_str("Num Instances"),
            AABB::zero(),
            None,
        );
        CullingCompute { num_instances_uniform, bounding_box_uniform }
    }

    /// Prepares one dispatch of the culling pass: rewrites the bounding-box
    /// and instance-count uniforms for the new batch and returns the
    /// workgroup grid that covers it.  The host layer then binds the input
    /// and output buffers, dispatches this grid, and reads the survivor
    /// counter back.
    pub fn prepare_run(&mut self, num_instances: u32, bounding_box: &AABB) -> (groups: [u32; 3])
        requires
            old(self).wf(),
            old(self).num_instances_uniform.generation < u64::MAX,
            old(self).bounding_box_uniform.generation < u64::MAX,
            num_instances <= 0xFFFE0001u32,
        ensures
            final(self).wf(),
            final(self).num_instances_uniform.value == num_instances,
            final(self).bounding_box_uniform.value == *bounding_box,
            final(self).num_instances_uniform.generation == old(
                self,
            ).num_instances_uniform.generation + 1,
            final(self).bounding_box_uniform.generation == old(
                self,
            ).bounding_box_uniform.generation + 1,
            groups[2] == 1,
            groups[0] <= 65535,
            groups[1] <= 65535,
            num_instances > 0 ==> groups[0] * groups[1] >= num_instances,
    {
        self.bounding_box_uniform.set_data(*bounding_box);
        self.num_instances_uniform.set_data(num_instances);
        dispatch_groups(num_instances)
    }
}

} // verus!
