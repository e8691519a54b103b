//! Concrete tensors and the public compile/run contract. A tensor owns the
//! flat row-major values of one shape; casting maps each element through the
//! element-type conversion contract.

use core::marker::PhantomData;
use vstd::prelude::*;

use crate::cpu_storage::CpuDevice;
use crate::device::{CompiledGraph, Cpu, Dev};
use crate::dtype::{CastFrom, DType};
use crate::error::Error;
use crate::eval::{aranges_exact, deps_before, eval_node, graph_ok, numel};
use crate::graph::{Graph, GraphNode};
use crate::scheduler::topo_order;
use crate::shape::Shape;
use crate::validate::lemma_deps_before_schedulable;

verus! {

/// A computed tensor: flat row-major storage of a statically known shape.
pub struct Tensor<S: Shape, T: DType, D: Dev> {
    data: Vec<T>,
    marker: PhantomData<(S, D)>,
}

impl<S: Shape, T: DType, D: Dev> Tensor<S, T, D> {
    /// The stored values, for use in specifications.
    pub closed spec fn view_data(&self) -> Seq<T> {
        self.data@
    }

    /// Wrap a finished buffer as a tensor.
    pub(crate) fn from_data(data: Vec<T>) -> (r: Self)
        ensures
            r.view_data() =~= data@,
    {
        Tensor { data, marker: PhantomData }
    }

    /// The tensor's values, flat and row-major.
    pub fn data(&self) -> (r: &Vec<T>)
        ensures
            r@ =~= self.view_data(),
    {
        &self.data
    }

    /// Convert every element to another element type. Conversion is total,
    /// so this always succeeds; the `Result` mirrors the compile/run
    /// contract's shape.
    pub fn cast<U: DType + CastFrom<T>>(&self) -> (r: Result<Tensor<S, U, D>, Error>)
        ensures
            r is Ok,
            match r {
                Ok(t) => {
                    &&& t.view_data().len() == self.view_data().len()
                    &&& forall|i: int|
                        0 <= i < self.view_data().len() ==> t.view_data()[i] == U::cast_spec(
                            self.view_data()[i],
                        )
                },
                Err(_) => false,
            },
    {
        let n = self.data.len();
        let mut out: Vec<U> = Vec::new();
        let mut i: usize = 0;
        while i < n
            invariant
                i <= n,
                n == self.data@.len(),
                out@.len() == i,
                forall|j: int| 0 <= j < i ==> out@[j] == U::cast_spec(self.data@[j]),
            decreases n - i,
        {
            out.push(U::cast_from(self.data[i]));
            i = i + 1;
        }
        Ok(Tensor { data: out, marker: PhantomData })
    }
}

/// Whether two extent lists are equal.
pub(crate) fn shapes_equal(a: &Vec<usize>, b: &Vec<usize>) -> (r: bool)
    ensures
        r == (a@ =~= b@),
{
    if a.len() != b.len() {
        return false;
    }
    let n = a.len();
    let mut i: usize = 0;
    while i < n
        invariant
            i <= n,
            n == a@.len(),
            b@.len() == n,
            forall|j: int| 0 <= j < i ==> a@[j] == b@[j],
        decreases n - i,
    {
        if a[i] != b[i] {
            return false;
        }
        i = i + 1;
    }
    true
}

impl<T: DType> Graph<T> {
    /// Compile this graph for the host CPU: validate it, check that the
    /// last node produces the declared static shape, and store the node
    /// list with its schedule as the artifact. Succeeds exactly when the
    /// graph is well formed and its result node has shape `S`.
    pub fn compile<S: Shape>(self) -> (r: Result<CompiledGraph<S, T, Cpu>, Error>)
        ensures
            r is Ok <==> graph_ok(self.nodes_spec()) && self.nodes_spec().len() > 0
                && self.nodes_spec().last().shape@ =~= S::shape_spec(),
            match r {
                Ok(cg) => cg matches CompiledGraph::Cpu { nodes, order, .. } && nodes@
                    =~= self.nodes_spec() && crate::scheduler::valid_order(
                    self.nodes_spec(),
                    order@,
                ),
                Err(_) => true,
            },
    {
        let nodes = self.into_ops();
        match crate::validate::check_graph(&nodes) {
            Ok(_) => {},
            Err(e) => {
                return Err(e);
            },
        }
        let n = nodes.len();
        let declared = S::shape();
        if !shapes_equal(&nodes[n - 1].shape, &declared) {
            return Err(Error::ShapeMismatch { node: n - 1 });
        }
        proof {
            lemma_deps_before_schedulable(nodes@);
        }
        let order = match topo_order(&nodes) {
            Ok(order) => order,
            Err(_) => vstd::pervasive::unreached(),
        };
        Ok(CompiledGraph::Cpu { nodes, order, marker: PhantomData })
    }
}

impl<S: Shape, T: DType> CompiledGraph<S, T, Cpu> {
    /// Run the compiled plan on the host CPU, producing the result node's
    /// tensor. Succeeds exactly when every `Arange` node fills its declared
    /// element count (everything else was pinned down at compile time).
    pub fn run(&self) -> (r: Result<Tensor<S, T, Cpu>, Error>)
        ensures
            match self {
                CompiledGraph::Cpu { nodes, .. } => {
                    &&& (r is Ok <==> graph_ok(nodes@) && aranges_exact(nodes@))
                    &&& match r {
                        Ok(t) => {
                            &&& t.view_data().len() == numel(nodes@[nodes@.len() - 1].shape@)
                            &&& forall|i: int|
                                0 <= i < t.view_data().len() ==> t.view_data()[i] == eval_node(
                                    nodes@,
                                    nodes@.len() - 1,
                                    i,
                                )
                        },
                        Err(_) => true,
                    }
                },
                _ => r is Err,
            },
    {
        match self {
            CompiledGraph::Cpu { nodes, .. } => {
                let dev = CpuDevice;
                match dev.compile_and_run_graph(nodes) {
                    Ok(storage) => Ok(Tensor::from_data(storage.0)),
                    Err(e) => Err(e),
                }
            },
            _ => Err(Error::Unsupported { node: 0 }),
        }
    }
}

} // verus!
