use constensor_core::{
    BinaryOpType, CompiledGraph, Cpu, Cuda, CudaDevice, DType, Error, Graph, GraphTensor, Wgpu,
    WgpuDevice, WgpuKernelCall, R1, R2, R3,
};

#[derive(Clone, Copy, Debug, PartialEq)]
struct F32(f32);

impl DType for F32 {
    fn zero() -> F32 {
        F32(0.0)
    }
    fn one() -> F32 {
        F32(1.0)
    }
    fn add(a: F32, b: F32) -> F32 {
        F32(a.0 + b.0)
    }
    fn sub(a: F32, b: F32) -> F32 {
        F32(a.0 - b.0)
    }
    fn mul(a: F32, b: F32) -> F32 {
        F32(a.0 * b.0)
    }
    fn div(a: F32, b: F32) -> F32 {
        F32(a.0 / b.0)
    }
    fn neg(a: F32) -> F32 {
        F32(-a.0)
    }
    fn sqrt(a: F32) -> F32 {
        F32(a.0.sqrt())
    }
    fn lt(a: F32, b: F32) -> bool {
        a.0 < b.0
    }
    fn from_count(n: usize) -> F32 {
        F32(n as f32)
    }
    fn name() -> String {
        "f32".to_string()
    }
    fn c_name() -> String {
        "float".to_string()
    }
    fn c_dep() -> Option<String> {
        None
    }
    fn literal(a: F32) -> String {
        format!("{:?}", a.0)
    }
}

// Compiling the same graph twice produces identical kernel records: same
// sources, same cache keys, same order.
#[test]
fn jit_compile_deterministic() {
    let dev = CudaDevice;
    let c1: CompiledGraph<R2<3, 4>, F32, Cuda> = dev.compile(make_jit_nodes()).unwrap();
    let c2: CompiledGraph<R2<3, 4>, F32, Cuda> = dev.compile(make_jit_nodes()).unwrap();
    let k1 = match c1 {
        CompiledGraph::Jit { kernels, .. } => kernels,
        _ => panic!("expected a JIT artifact"),
    };
    let k2 = match c2 {
        CompiledGraph::Jit { kernels, .. } => kernels,
        _ => panic!("expected a JIT artifact"),
    };
    assert_eq!(k1.len(), 1);
    assert_eq!(k2.len(), 1);
    assert_eq!(k1[0].key, k2[0].key);
    assert_eq!(k1[0].source, k2[0].source);
    assert_eq!(k1[0].order, k2[0].order);
    assert_eq!(k1[0].shape, k2[0].shape);
}

fn make_jit_nodes() -> Vec<constensor_core::GraphNode<F32>> {
    let mut graph = Graph::empty();
    let x = GraphTensor::<R2<3, 4>, F32, Cuda>::fill(&mut graph, F32(1.0));
    let y = GraphTensor::<R2<3, 4>, F32, Cuda>::fill(&mut graph, F32(2.5));
    let _res = x.binary_op(&mut graph, y, BinaryOpType::Add);
    graph.into_ops()
}

// Adjacent same-shape nodes fuse into one kernel whose record points at the
// group's final node; the generated source inlines both constants.
#[test]
fn jit_groups_same_shape_run() {
    let dev = CudaDevice;
    let compiled: CompiledGraph<R2<3, 4>, F32, Cuda> = dev.compile(make_jit_nodes()).unwrap();
    let kernels = match compiled {
        CompiledGraph::Jit { kernels, .. } => kernels,
        _ => panic!("expected a JIT artifact"),
    };
    assert_eq!(kernels.len(), 1);
    assert_eq!(kernels[0].order, 2);
    assert_eq!(kernels[0].shape, vec![3, 4]);
    let src = &kernels[0].source;
    assert!(src.contains("__device__"));
    assert!(src.contains("T v1 = 1.0;"));
    assert!(src.contains("T v2 = 2.5;"));
    assert!(src.contains("buf[i] = ((v1) + (v2));"));
    let idx = dev.result_kernel_index(&kernels).unwrap();
    assert_eq!(idx, 0);
}

// A matrix product cannot be inlined into an elementwise kernel and is
// refused rather than skipped.
#[test]
fn jit_rejects_matmul() {
    let mut graph = Graph::empty();
    let l = GraphTensor::<R3<1, 2, 3>, F32, Cuda>::ones(&mut graph);
    let r = GraphTensor::<R3<1, 3, 2>, F32, Cuda>::ones(&mut graph);
    let _res = l.matmul(&mut graph, r);
    let dev = CudaDevice;
    let compiled: Result<CompiledGraph<R3<1, 2, 2>, F32, Cuda>, _> =
        dev.compile(graph.into_ops());
    assert!(matches!(compiled, Err(Error::Unsupported { .. })));
}

// Sequence and negation nodes inline into the generated source, with
// negative constants rendered in full.
#[test]
fn jit_renders_arange_and_neg() {
    let mut graph = Graph::empty();
    let x = GraphTensor::<R1<4>, i32, Cuda>::arange(&mut graph, -3, 5);
    let _res = x.neg(&mut graph);
    let dev = CudaDevice;
    let compiled: CompiledGraph<R1<4>, i32, Cuda> = dev.compile(graph.into_ops()).unwrap();
    let kernels = match compiled {
        CompiledGraph::Jit { kernels, .. } => kernels,
        _ => panic!("expected a JIT artifact"),
    };
    assert_eq!(kernels.len(), 1);
    let src = &kernels[0].source;
    assert!(src.contains("T v1 = static_cast<T>(i) * static_cast<T>(2) + static_cast<T>(-3);"));
    assert!(src.contains("buf[i] = (-(v1));"));
    assert!(src.contains("int32_t"));
}

// The portable-kernel plan launches one parametric kernel per scheduled
// node, binding buffers by node index, with the grid sized at the fixed
// lane width.
#[test]
fn wgpu_plan_fill_binary() {
    let mut graph = Graph::empty();
    let x = GraphTensor::<R1<10>, i32, Wgpu>::fill(&mut graph, 5);
    let y = GraphTensor::<R1<10>, i32, Wgpu>::fill(&mut graph, 7);
    let _res = x.binary_op(&mut graph, y, BinaryOpType::Add);
    let dev = WgpuDevice;
    let compiled: CompiledGraph<R1<10>, i32, Wgpu> = dev.compile(graph.into_ops()).unwrap();
    let calls = dev.run_graph(&compiled).unwrap();
    assert_eq!(calls.len(), 3);
    match calls[0] {
        WgpuKernelCall::Fill { out, value, numel, lanes, blocks } => {
            assert_eq!(out, 0);
            assert_eq!(value, 5);
            assert_eq!(numel, 10);
            assert_eq!(lanes, 4);
            assert_eq!(blocks, 3);
        },
        _ => panic!("expected a fill launch"),
    }
    match calls[2] {
        WgpuKernelCall::Binary { out, l, r, operator, numel, .. } => {
            assert_eq!(out, 2);
            assert_eq!(l, 0);
            assert_eq!(r, 1);
            assert_eq!(operator, BinaryOpType::Add);
            assert_eq!(numel, 10);
        },
        _ => panic!("expected a binary launch"),
    }
}

// Node kinds beyond fill and elementwise binary fail closed in the minimal
// portable-kernel contract.
#[test]
fn wgpu_rejects_unary() {
    let mut graph = Graph::empty();
    let x = GraphTensor::<R1<4>, i32, Wgpu>::fill(&mut graph, 5);
    let _res = x.sqrt(&mut graph);
    let dev = WgpuDevice;
    let compiled: CompiledGraph<R1<4>, i32, Wgpu> = dev.compile(graph.into_ops()).unwrap();
    assert!(matches!(
        dev.run_graph(&compiled),
        Err(Error::Unsupported { node: 1 })
    ));
}

// Elementwise results are independent of scheduling: running the same
// compiled plan twice yields identical output bit patterns.
#[test]
fn rerun_is_deterministic() {
    let mut graph = Graph::empty();
    let x = GraphTensor::<R2<8, 8>, i32, Cpu>::fill(&mut graph, 3);
    let y = GraphTensor::<R2<8, 8>, i32, Cpu>::fill(&mut graph, 9);
    let _res = x.binary_op(&mut graph, y, BinaryOpType::Mul);
    let compiled: CompiledGraph<R2<8, 8>, i32, Cpu> = graph.compile().unwrap();
    let first = compiled.run().unwrap();
    let second = compiled.run().unwrap();
    assert_eq!(first.data(), second.data());
    assert_eq!(first.data().clone(), vec![27; 64]);
}

// The unary kernel runs data-parallel; its output equals the sequential
// meaning element by element.
#[test]
fn parallel_unary_matches_meaning() {
    let mut graph = Graph::empty();
    let x = GraphTensor::<R1<1000>, i32, Cpu>::arange(&mut graph, 0, 1000);
    let res = x.neg(&mut graph);
    let tensor = res.to_tensor(&graph).unwrap();
    let data = tensor.data();
    for i in 0..1000 {
        assert_eq!(data[i], -(i as i32));
    }
}
