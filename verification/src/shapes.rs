//! Shapes put together from others.
use vstd::prelude::*;
use vstd::std_specs::ops::{SubSpec, NegSpec};
use core::ops::Neg;
use crate::group::Group;
use crate::math::{Vector, negated};
use crate::quad::Quad;
use crate::scalar::{Scalar, total, lawful, small, lesser, greater, lesser_spec, greater_spec};

verus! {

/// A side of a box: the corner of a patch and its two edges.
pub struct Side<T> {
    pub q: Seq<T>,
    pub u: Seq<T>,
    pub v: Seq<T>,
}

/// The six sides of the box between the corners `a` and `b`, given in any
/// order: front, right, back, left, top and bottom, each with its edges in
/// the order that makes its normal point out of the box.
pub open spec fn sides<T: Scalar>(a: Seq<T>, b: Seq<T>) -> Seq<Side<T>> {
    let min = seq![lesser_spec(a[0], b[0]), lesser_spec(a[1], b[1]), lesser_spec(a[2], b[2])];
    let max = seq![greater_spec(a[0], b[0]), greater_spec(a[1], b[1]), greater_spec(a[2], b[2])];
    let none = small::<T>(0);
    let dx = seq![max[0].sub_spec(min[0]), none, none];
    let dy = seq![none, max[1].sub_spec(min[1]), none];
    let dz = seq![none, none, max[2].sub_spec(min[2])];
    seq![
        Side { q: seq![min[0], min[1], max[2]], u: dx, v: dy },
        Side { q: seq![max[0], min[1], max[2]], u: negated(dz), v: dy },
        Side { q: seq![max[0], min[1], min[2]], u: negated(dx), v: dy },
        Side { q: seq![min[0], min[1], min[2]], u: dz, v: dy },
        Side { q: seq![min[0], max[1], max[2]], u: dx, v: negated(dz) },
        Side { q: seq![min[0], min[1], min[2]], u: dx, v: dz },
    ]
}

/// The box between the corners `a` and `b`, as a group of six patches, all
/// of the material `mat`. `length` gives the length of a vector.
pub fn make_box<T: Scalar, M: Copy, F: Fn(&Vector<T, 3>) -> T>(
    a: Vector<T, 3>,
    b: Vector<T, 3>,
    mat: M,
    length: &F,
) -> (g: Group<T, Quad<T, M>>)
    requires
        total::<T>(),
        forall|n: &Vector<T, 3>| call_requires(*length, (n,)),
    ensures
        g.shapes().len() == 6,
        forall|k: int| 0 <= k < 6 ==> (#[trigger] g.shapes()[k]).material() == mat,
        lawful::<T>() ==> forall|k: int|
            0 <= k < 6 ==> (#[trigger] g.shapes()[k]).corner() == sides(a@, b@)[k].q
                && g.shapes()[k].edges() == (sides(a@, b@)[k].u, sides(a@, b@)[k].v),
{
    let min = Vector::<T, 3>::new(lesser(a.x(), b.x()), lesser(a.y(), b.y()), lesser(a.z(), b.z()));
    let max = Vector::<T, 3>::new(
        greater(a.x(), b.x()),
        greater(a.y(), b.y()),
        greater(a.z(), b.z()),
    );
    let none: T = T::from(0u8);
    let dx = Vector::<T, 3>::new(max.x() - min.x(), none, none);
    let dy = Vector::<T, 3>::new(none, max.y() - min.y(), none);
    let dz = Vector::<T, 3>::new(none, none, max.z() - min.z());
    let front = Quad::new(Vector::<T, 3>::new(min.x(), min.y(), max.z()), dx, dy, mat, length);
    let right = Quad::new(Vector::<T, 3>::new(max.x(), min.y(), max.z()), dz.neg(), dy, mat, length);
    let back = Quad::new(Vector::<T, 3>::new(max.x(), min.y(), min.z()), dx.neg(), dy, mat, length);
    let left = Quad::new(Vector::<T, 3>::new(min.x(), min.y(), min.z()), dz, dy, mat, length);
    let top = Quad::new(Vector::<T, 3>::new(min.x(), max.y(), max.z()), dx, dz.neg(), mat, length);
    let bottom = Quad::new(Vector::<T, 3>::new(min.x(), min.y(), min.z()), dx, dz, mat, length);
    let mut list: Vec<Quad<T, M>> = Vec::new();
    list.push(front);
    list.push(right);
    list.push(back);
    list.push(left);
    list.push(top);
    list.push(bottom);
    Group::new(list)
}

} // verus!
