//! Mesh-level helpers: vertex positions, raw byte records, and the
//! bounding box computed from a mesh's vertices.

use vstd::prelude::*;

use crate::culling::{spec_fits, Mat4, AABB};

verus! {

/// A vertex with a fixed-point position.
pub trait VertexTrait {
    /// The vertex position.
    spec fn spec_pos(&self) -> (int, int, int);

    fn pos(&self) -> (r: (i64, i64, i64))
        ensures
            (r.0 as int, r.1 as int, r.2 as int) == self.spec_pos(),
    ;
}

/// A mesh vertex: its position in the mesh's local space.
#[derive(Clone, Copy, Debug)]
pub struct ModelVertex {
    pub position: [i64; 3],
}

impl VertexTrait for ModelVertex {
    open spec fn spec_pos(&self) -> (int, int, int) {
        (self.position[0] as int, self.position[1] as int, self.position[2] as int)
    }

    fn pos(&self) -> (r: (i64, i64, i64)) {
        (self.position[0], self.position[1], self.position[2])
    }
}

/// A per-instance record with a transform: what the culling test reads of
/// an instance.
pub trait InstanceTrait {
    /// The instance's transform.
    spec fn spec_instance_transform(&self) -> Mat4;

    fn instance_transform(&self) -> (r: Mat4)
        ensures
            r == self.spec_instance_transform(),
    ;
}

impl InstanceTrait for Mat4 {
    open spec fn spec_instance_transform(&self) -> Mat4 {
        *self
    }

    fn instance_transform(&self) -> (r: Mat4) {
        *self
    }
}

/// A value with a raw byte record, as it is written into a vertex or
/// instance buffer.
pub trait ToRaw {
    /// The byte record of this value.
    spec fn spec_raw(&self) -> Seq<u8>;

    fn to_raw(&self) -> (r: Vec<u8>)
        ensures
            r@ == self.spec_raw(),
    ;
}

impl ToRaw for u32 {
    open spec fn spec_raw(&self) -> Seq<u8> {
        vstd::bytes::spec_u32_to_le_bytes(*self)
    }

    fn to_raw(&self) -> (r: Vec<u8>) {
        vstd::bytes::u32_to_le_bytes(*self)
    }
}

/// The contents of a vertex or instance buffer: the byte records of the
/// items, back to back, in order.
pub open spec fn spec_concat_raw<T: ToRaw>(items: Seq<T>) -> Seq<u8>
    decreases items.len(),
{
    if items.len() == 0 {
        Seq::empty()
    } else {
        spec_concat_raw(items.drop_last()) + items.last().spec_raw()
    }
}

/// Concatenates the byte records of a batch of items, as a vertex or
/// instance buffer is filled: the batch's length is the authoritative
/// item count for the buffer built from the result.
pub fn concat_raw<T: ToRaw>(items: &Vec<T>) -> (r: Vec<u8>)
    ensures
        r@ == spec_concat_raw(items@),
{
    let mut out: Vec<u8> = Vec::new();
    let mut i: usize = 0;
    while i < items.len()
        invariant
            i <= items@.len(),
            out@ == spec_concat_raw(items@.take(i as int)),
        decreases items@.len() - i,
    {
        proof {
            assert(items@.take(i + 1).drop_last() =~= items@.take(i as int));
            assert(items@.take(i + 1).last() == items@[i as int]);
        }
        let mut record = items[i].to_raw();
        out.append(&mut record);
        i = i + 1;
    }
    proof {
        assert(items@.take(items@.len() as int) =~= items@);
    }
    out
}

/// The absolute value.
pub open spec fn spec_abs(x: int) -> int {
    if x < 0 {
        -x
    } else {
        x
    }
}

/// One coordinate of a position, by axis index.
pub open spec fn spec_axis(p: (int, int, int), axis: int) -> int {
    if axis == 0 {
        p.0
    } else if axis == 1 {
        p.1
    } else {
        p.2
    }
}

/// The largest absolute coordinate along an axis over a list of positions;
/// zero for an empty list.
pub open spec fn spec_max_abs(ps: Seq<(int, int, int)>, axis: int) -> int
    decreases ps.len(),
{
    if ps.len() == 0 {
        0
    } else {
        let rest = spec_max_abs(ps.drop_last(), axis);
        let c = spec_abs(spec_axis(ps.last(), axis));
        if c > rest {
            c
        } else {
            rest
        }
    }
}

/// The symmetric bounding box of a mesh: per axis, the largest absolute
/// coordinate over all vertex positions.  Recomputed whenever the vertex
/// data changes; never negative.
pub fn calculate_bounding_box<V: VertexTrait>(vertices: &Vec<V>) -> (r: AABB)
    requires
        forall|i: int|
            0 <= i < vertices@.len() ==> {
                let p = (#[trigger] vertices@[i]).spec_pos();
                spec_fits(p.0) && spec_fits(p.1) && spec_fits(p.2)
            },
    ensures
        ({
            let ps = Seq::new(vertices@.len(), |i: int| vertices@[i].spec_pos());
            &&& r.dimensions[0] as int == spec_max_abs(ps, 0)
            &&& r.dimensions[1] as int == spec_max_abs(ps, 1)
            &&& r.dimensions[2] as int == spec_max_abs(ps, 2)
        }),
        r.wf(),
{
    let ghost ps = Seq::new(vertices@.len(), |i: int| vertices@[i].spec_pos());
    let mut bx: u32 = 0;
    let mut by: u32 = 0;
    let mut bz: u32 = 0;
    let mut i: usize = 0;
    while i < vertices.len()
        invariant
            i <= vertices@.len(),
            ps == Seq::new(vertices@.len(), |j: int| vertices@[j].spec_pos()),
            forall|j: int|
                0 <= j < vertices@.len() ==> {
                    let p = (#[trigger] vertices@[j]).spec_pos();
                    spec_fits(p.0) && spec_fits(p.1) && spec_fits(p.2)
                },
            bx as int == spec_max_abs(ps.take(i as int), 0),
            by as int == spec_max_abs(ps.take(i as int), 1),
            bz as int == spec_max_abs(ps.take(i as int), 2),
            bx <= 0x8000_0000u32,
            by <= 0x8000_0000u32,
            bz <= 0x8000_0000u32,
        decreases vertices@.len() - i,
    {
        proof {
            assert(ps.take(i + 1).drop_last() =~= ps.take(i as int));
            assert(ps.take(i + 1).last() == ps[i as int]);
            assert(ps[i as int] == vertices@[i as int].spec_pos());
        }
        let p = vertices[i].pos();
        let ax: i64 = if p.0 < 0 {
            -p.0
        } else {
            p.0
        };
        let ay: i64 = if p.1 < 0 {
            -p.1
        } else {
            p.1
        };
        let az: i64 = if p.2 < 0 {
            -p.2
        } else {
            p.2
        };
        if ax > bx as i64 {
            bx = ax as u32;
        }
        if ay > by as i64 {
            by = ay as u32;
        }
        if az > bz as i64 {
            bz = az as u32;
        }
        i = i + 1;
    }
    proof {
        assert(ps.take(ps.len() as int) =~= ps);
    }
    AABB { dimensions: [bx, by, bz] }
}

} // verus!
