//! Static shapes: each rank is a marker type carrying its per-axis extents
//! as const parameters, consumed by the core as a plain extent list.

use vstd::prelude::*;

verus! {

/// A statically known shape: a flattened list of per-axis extents.
pub trait Shape {
    /// The extent list, for use in specifications.
    spec fn shape_spec() -> Seq<usize>;

    /// The extent list.
    fn shape() -> (r: Vec<usize>)
        ensures
            r@ =~= Self::shape_spec(),
    ;
}

/// A rank-1 shape.
pub struct R1<const A: usize>;

/// A rank-2 shape.
pub struct R2<const A: usize, const B: usize>;

/// A rank-3 shape.
pub struct R3<const A: usize, const B: usize, const C: usize>;

/// A rank-4 shape.
pub struct R4<const A: usize, const B: usize, const C: usize, const D: usize>;

/// A rank-5 shape.
pub struct R5<const A: usize, const B: usize, const C: usize, const D: usize, const E: usize>;

/// A rank-6 shape.
pub struct R6<
    const A: usize,
    const B: usize,
    const C: usize,
    const D: usize,
    const E: usize,
    const F: usize,
>;

impl<const A: usize> Shape for R1<A> {
    open spec fn shape_spec() -> Seq<usize> {
        seq![A]
    }

    fn shape() -> Vec<usize> {
        vec![A]
    }
}

impl<const A: usize, const B: usize> Shape for R2<A, B> {
    open spec fn shape_spec() -> Seq<usize> {
        seq![A, B]
    }

    fn shape() -> Vec<usize> {
        vec![A, B]
    }
}

impl<const A: usize, const B: usize, const C: usize> Shape for R3<A, B, C> {
    open spec fn shape_spec() -> Seq<usize> {
        seq![A, B, C]
    }

    fn shape() -> Vec<usize> {
        vec![A, B, C]
    }
}

impl<const A: usize, const B: usize, const C: usize, const D: usize> Shape for R4<A, B, C, D> {
    open spec fn shape_spec() -> Seq<usize> {
        seq![A, B, C, D]
    }

    fn shape() -> Vec<usize> {
        vec![A, B, C, D]
    }
}

impl<const A: usize, const B: usize, const C: usize, const D: usize, const E: usize> Shape for R5<
    A,
    B,
    C,
    D,
    E,
> {
    open spec fn shape_spec() -> Seq<usize> {
        seq![A, B, C, D, E]
    }

    fn shape() -> Vec<usize> {
        vec![A, B, C, D, E]
    }
}

impl<
    const A: usize,
    const B: usize,
    const C: usize,
    const D: usize,
    const E: usize,
    const F: usize,
> Shape for R6<A, B, C, D, E, F> {
    open spec fn shape_spec() -> Seq<usize> {
        seq![A, B, C, D, E, F]
    }

    fn shape() -> Vec<usize> {
        vec![A, B, C, D, E, F]
    }
}

} // verus!
