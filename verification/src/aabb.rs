//! Axis-aligned bounding boxes on an integer grid.

use vstd::prelude::*;

verus! {

/// An axis-aligned bounding box in `D` dimensions, given by its minimum and
/// maximum corners, on an integer grid.
///
/// The minimum corner is never above the maximum corner along any axis.
#[derive(Clone, Copy, Debug)]
pub struct Aabb<const D: usize> {
    min: [i64; D],
    max: [i64; D],
}

/// `x` divided by two, rounded towards zero.
pub open spec fn half_toward_zero(x: int) -> int {
    if x >= 0 {
        x / 2
    } else {
        -((-x) / 2)
    }
}

impl<const D: usize> Aabb<D> {
    /// The minimum corner.
    pub closed spec fn spec_min(&self) -> Seq<i64> {
        self.min@
    }

    /// The maximum corner.
    pub closed spec fn spec_max(&self) -> Seq<i64> {
        self.max@
    }

    /// The minimum corner is never above the maximum corner.
    pub open spec fn wf(&self) -> bool {
        &&& self.spec_min().len() == D
        &&& self.spec_max().len() == D
        &&& forall|i: int| 0 <= i < D ==> self.spec_min()[i] <= self.spec_max()[i]
    }

    /// Every box is well formed.
    #[verifier::type_invariant]
    spec fn inv(self) -> bool {
        self.wf()
    }

    /// The smallest box containing both points.
    pub fn new(p0: [i64; D], p1: [i64; D]) -> (b: Self)
        ensures
            b.wf(),
            forall|i: int|
                0 <= i < D ==> b.spec_min()[i] == if p0@[i] <= p1@[i] {
                    p0@[i]
                } else {
                    p1@[i]
                } && b.spec_max()[i] == if p0@[i] <= p1@[i] {
                    p1@[i]
                } else {
                    p0@[i]
                },
    {
        let mut min = p0;
        let mut max = p1;
        let mut i: usize = 0;
        while i < D
            invariant
                0 <= i <= D,
                min@.len() == D,
                max@.len() == D,
                forall|j: int|
                    0 <= j < i ==> min@[j] == if p0@[j] <= p1@[j] {
                        p0@[j]
                    } else {
                        p1@[j]
                    } && max@[j] == if p0@[j] <= p1@[j] {
                        p1@[j]
                    } else {
                        p0@[j]
                    },
                forall|j: int| i <= j < D ==> min@[j] == p0@[j] && max@[j] == p1@[j],
            decreases D - i,
        {
            let a = p0[i];
            let b = p1[i];
            if a <= b {
                min[i] = a;
                max[i] = b;
            } else {
                min[i] = b;
                max[i] = a;
            }
            i = i + 1;
        }
        Self { min, max }
    }

    /// The box holding the single point `pos`.
    pub fn point(pos: [i64; D]) -> (b: Self)
        ensures
            b.wf(),
            b.spec_min() == pos@,
            b.spec_max() == pos@,
    {
        Self { min: pos, max: pos }
    }

    /// The minimum corner.
    pub fn min(&self) -> (m: [i64; D])
        ensures
            m@ == self.spec_min(),
    {
        self.min
    }

    /// The maximum corner.
    pub fn max(&self) -> (m: [i64; D])
        ensures
            m@ == self.spec_max(),
    {
        self.max
    }

    /// The extent along each axis: maximum minus minimum.
    pub fn dimensions(&self) -> (d: [i64; D])
        requires
            forall|i: int| 0 <= i < D ==> self.spec_max()[i] - self.spec_min()[i] <= i64::MAX,
        ensures
            d@.len() == D,
            forall|i: int| 0 <= i < D ==> d@[i] == self.spec_max()[i] - self.spec_min()[i],
            forall|i: int| 0 <= i < D ==> d@[i] >= 0,
    {
        proof {
            use_type_invariant(self);
        }
        let mut d = self.max;
        let mut i: usize = 0;
        while i < D
            invariant
                0 <= i <= D,
                d@.len() == D,
                self.wf(),
                forall|j: int| 0 <= j < D ==> self.spec_max()[j] - self.spec_min()[j] <= i64::MAX,
                forall|j: int| 0 <= j < i ==> d@[j] == self.spec_max()[j] - self.spec_min()[j],
            decreases D - i,
        {
            d[i] = self.max[i] - self.min[i];
            i = i + 1;
        }
        d
    }

    /// Moves this box by the vector `v`.
    pub fn translate(&self, v: [i64; D]) -> (b: Self)
        requires
            forall|i: int|
                0 <= i < D ==> i64::MIN <= self.spec_min()[i] + v@[i] && self.spec_max()[i] + v@[i]
                    <= i64::MAX,
        ensures
            b.wf(),
            forall|i: int|
                0 <= i < D ==> b.spec_min()[i] == self.spec_min()[i] + v@[i] && b.spec_max()[i]
                    == self.spec_max()[i] + v@[i],
    {
        proof {
            use_type_invariant(self);
        }
        let mut min = self.min;
        let mut max = self.max;
        let mut i: usize = 0;
        while i < D
            invariant
                0 <= i <= D,
                min@.len() == D,
                max@.len() == D,
                self.wf(),
                forall|j: int|
                    0 <= j < D ==> i64::MIN <= self.spec_min()[j] + v@[j] && self.spec_max()[j]
                        + v@[j] <= i64::MAX,
                forall|j: int|
                    0 <= j < i ==> min@[j] == self.spec_min()[j] + v@[j] && max@[j]
                        == self.spec_max()[j] + v@[j],
                forall|j: int| i <= j < D ==> min@[j] == self.spec_min()[j] && max@[j] == self.spec_max()[j],
            decreases D - i,
        {
            min[i] = self.min[i] + v[i];
            max[i] = self.max[i] + v[i];
            i = i + 1;
        }
        Self { min, max }
    }

    /// The smallest box completely encompassing both boxes.
    pub fn union(&self, other: Self) -> (b: Self)
        ensures
            b.wf(),
            forall|i: int|
                0 <= i < D ==> b.spec_min()[i] == if self.spec_min()[i] <= other.spec_min()[i] {
                    self.spec_min()[i]
                } else {
                    other.spec_min()[i]
                } && b.spec_max()[i] == if self.spec_max()[i] >= other.spec_max()[i] {
                    self.spec_max()[i]
                } else {
                    other.spec_max()[i]
                },
    {
        proof {
            use_type_invariant(self);
            use_type_invariant(&other);
        }
        let mut min = self.min;
        let mut max = self.max;
        let mut i: usize = 0;
        while i < D
            invariant
                0 <= i <= D,
                min@.len() == D,
                max@.len() == D,
                self.wf(),
                other.wf(),
                forall|j: int|
                    0 <= j < i ==> min@[j] == if self.spec_min()[j] <= other.spec_min()[j] {
                        self.spec_min()[j]
                    } else {
                        other.spec_min()[j]
                    } && max@[j] == if self.spec_max()[j] >= other.spec_max()[j] {
                        self.spec_max()[j]
                    } else {
                        other.spec_max()[j]
                    },
                forall|j: int| i <= j < D ==> min@[j] == self.spec_min()[j] && max@[j] == self.spec_max()[j],
            decreases D - i,
        {
            if other.min[i] < self.min[i] {
                min[i] = other.min[i];
            }
            if other.max[i] > self.max[i] {
                max[i] = other.max[i];
            }
            i = i + 1;
        }
        Self { min, max }
    }

    /// Whether the two boxes overlap, touching faces included.
    pub fn collides_with_aabb(&self, other: &Self) -> (c: bool)
        ensures
            c == forall|i: int|
                0 <= i < D ==> self.spec_min()[i] <= other.spec_max()[i] && self.spec_max()[i]
                    >= other.spec_min()[i],
    {
        proof {
            use_type_invariant(self);
            use_type_invariant(other);
        }
        let mut i: usize = 0;
        while i < D
            invariant
                0 <= i <= D,
                self.wf(),
                other.wf(),
                forall|j: int|
                    0 <= j < i ==> self.spec_min()[j] <= other.spec_max()[j] && self.spec_max()[j]
                        >= other.spec_min()[j],
            decreases D - i,
        {
            if !(self.min[i] <= other.max[i] && self.max[i] >= other.min[i]) {
                return false;
            }
            i = i + 1;
        }
        true
    }

    /// The center of the box along each axis: half the sum of the corners,
    /// rounded towards zero.
    pub fn center(&self) -> (c: [i64; D])
        requires
            forall|i: int|
                0 <= i < D ==> i64::MIN <= #[trigger] self.spec_min()[i] + self.spec_max()[i] <= i64::MAX,
        ensures
            c@.len() == D,
            forall|i: int|
                0 <= i < D ==> c@[i] == half_toward_zero(self.spec_min()[i] + self.spec_max()[i]),
    {
        proof {
            use_type_invariant(self);
        }
        let mut c = self.min;
        let mut i: usize = 0;
        while i < D
            invariant
                0 <= i <= D,
                c@.len() == D,
                self.wf(),
                forall|j: int|
                    0 <= j < D ==> i64::MIN <= #[trigger] self.spec_min()[j] + self.spec_max()[j] <= i64::MAX,
                forall|j: int|
                    0 <= j < i ==> c@[j] == half_toward_zero(self.spec_min()[j] + self.spec_max()[j]),
            decreases D - i,
        {
            let s = self.min[i] + self.max[i];
            c[i] = s / 2;
            i = i + 1;
        }
        c
    }
}

impl Aabb<3> {
    /// The surface area: twice the sum of the areas of three faces.
    pub fn surface_area(&self) -> (a: i64)
        requires
            forall|i: int| 0 <= i < 3 ==> self.spec_max()[i] - self.spec_min()[i] <= i64::MAX,
            ({
                let dx = self.spec_max()[0] - self.spec_min()[0];
                let dy = self.spec_max()[1] - self.spec_min()[1];
                let dz = self.spec_max()[2] - self.spec_min()[2];
                (dx * dy + dy * dz + dz * dx) * 2 <= i64::MAX
            }),
        ensures
            ({
                let dx = self.spec_max()[0] - self.spec_min()[0];
                let dy = self.spec_max()[1] - self.spec_min()[1];
                let dz = self.spec_max()[2] - self.spec_min()[2];
                a == (dx * dy + dy * dz + dz * dx) * 2
            }),
    {
        let d = self.dimensions();
        let (dx, dy, dz) = (d[0], d[1], d[2]);
        assert(0 <= dx * dy && 0 <= dy * dz && 0 <= dz * dx) by (nonlinear_arith)
            requires
                dx >= 0,
                dy >= 0,
                dz >= 0,
        ;
        (dx * dy + dy * dz + dz * dx) * 2
    }
}

/// The union of two boxes contains both, and two boxes always collide with
/// their union; a box collides with itself.
pub proof fn aabb_union_laws<const D: usize>(a: Aabb<D>, b: Aabb<D>, u: Aabb<D>)
    requires
        a.wf(),
        b.wf(),
        u.wf(),
        forall|i: int|
            0 <= i < D ==> u.spec_min()[i] == if a.spec_min()[i] <= b.spec_min()[i] {
                a.spec_min()[i]
            } else {
                b.spec_min()[i]
            } && u.spec_max()[i] == if a.spec_max()[i] >= b.spec_max()[i] {
                a.spec_max()[i]
            } else {
                b.spec_max()[i]
            },
    ensures
        forall|i: int|
            0 <= i < D ==> u.spec_min()[i] <= a.spec_min()[i] && a.spec_max()[i] <= u.spec_max()[i],
        forall|i: int|
            0 <= i < D ==> u.spec_min()[i] <= b.spec_min()[i] && b.spec_max()[i] <= u.spec_max()[i],
        forall|i: int|
            0 <= i < D ==> a.spec_min()[i] <= u.spec_max()[i] && a.spec_max()[i] >= u.spec_min()[i],
        forall|i: int|
            0 <= i < D ==> a.spec_min()[i] <= a.spec_max()[i] && a.spec_max()[i] >= a.spec_min()[i],
{
}

} // verus!
