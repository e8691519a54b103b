use constensor_core::{
    fuse_mul_add, mark_inplace, optimize, BinaryOpType, CastFrom, Cpu, CpuDevice, DType, Graph,
    GraphTensor, Op, R1, R2, R3,
};

#[derive(Clone, Copy, Debug, PartialEq)]
struct F32(f32);

impl DType for F32 {
    fn zero() -> F32 {
        F32(0.0)
    }
    fn one() -> F32 {
        F32(1.0)
    }
    fn add(a: F32, b: F32) -> F32 {
        F32(a.0 + b.0)
    }
    fn sub(a: F32, b: F32) -> F32 {
        F32(a.0 - b.0)
    }
    fn mul(a: F32, b: F32) -> F32 {
        F32(a.0 * b.0)
    }
    fn div(a: F32, b: F32) -> F32 {
        F32(a.0 / b.0)
    }
    fn neg(a: F32) -> F32 {
        F32(-a.0)
    }
    fn sqrt(a: F32) -> F32 {
        F32(a.0.sqrt())
    }
    fn lt(a: F32, b: F32) -> bool {
        a.0 < b.0
    }
    fn from_count(n: usize) -> F32 {
        F32(n as f32)
    }
    fn name() -> String {
        "f32".to_string()
    }
    fn c_name() -> String {
        "float".to_string()
    }
    fn c_dep() -> Option<String> {
        None
    }
    fn literal(a: F32) -> String {
        format!("{:?}", a.0)
    }
}

impl CastFrom<F32> for i32 {
    fn cast_from(s: F32) -> i32 {
        s.0 as i32
    }
}

// Fill(1.0) + Fill(2.0) over a 3x4 tensor: every element is 3.0.
#[test]
fn scenario_fill_add() {
    let mut graph = Graph::empty();
    let x = GraphTensor::<R2<3, 4>, F32, Cpu>::fill(&mut graph, F32(1.0));
    let y = GraphTensor::<R2<3, 4>, F32, Cpu>::fill(&mut graph, F32(2.0));
    let res = x.binary_op(&mut graph, y, BinaryOpType::Add);
    let tensor = res.to_tensor(&graph).unwrap();
    assert_eq!(tensor.data().clone(), vec![F32(3.0); 12]);
}

// Arange(start=0, step=1, stop=4) over declared length 4: [0, 1, 2, 3].
#[test]
fn scenario_arange_exact() {
    let mut graph = Graph::empty();
    let x = GraphTensor::<R1<4>, i32, Cpu>::arange(&mut graph, 0, 4);
    let tensor = x.to_tensor(&graph).unwrap();
    assert_eq!(tensor.data().clone(), vec![0, 1, 2, 3]);
}

// Fill(1.0) + -Fill(2.0), then Fill(4.0) divided by that sum: -4.0.
#[test]
fn scenario_add_neg_div() {
    let mut graph = Graph::empty();
    let x = GraphTensor::<R2<3, 4>, F32, Cpu>::fill(&mut graph, F32(1.0));
    let y = GraphTensor::<R2<3, 4>, F32, Cpu>::fill(&mut graph, F32(2.0));
    let z = GraphTensor::<R2<3, 4>, F32, Cpu>::fill(&mut graph, F32(4.0));
    let ny = y.neg(&mut graph);
    let c = x.binary_op(&mut graph, ny, BinaryOpType::Add);
    let res = z.binary_op(&mut graph, c, BinaryOpType::Div);
    let tensor = res.to_tensor(&graph).unwrap();
    assert_eq!(tensor.data().clone(), vec![F32(-4.0); 12]);
}

// MatMul of 1x2x3 ones by 1x3x2 ones accumulated (alpha=1, beta=1) into a
// 1x2x2 ones tensor: every element is 4.0.
#[test]
fn scenario_matmul_accumulate() {
    let mut graph = Graph::empty();
    let l = GraphTensor::<R3<1, 2, 3>, F32, Cpu>::ones(&mut graph);
    let r = GraphTensor::<R3<1, 3, 2>, F32, Cpu>::ones(&mut graph);
    let o = GraphTensor::<R3<1, 2, 2>, F32, Cpu>::ones(&mut graph);
    let res = l.matmul_axpby(&mut graph, r, o, F32(1.0), F32(1.0));
    let tensor = res.to_tensor(&graph).unwrap();
    assert_eq!(tensor.data().clone(), vec![F32(4.0); 4]);
}

// Casting a tensor of 1.9 to a 32-bit integer truncates toward zero.
#[test]
fn scenario_cast_truncates() {
    let mut graph = Graph::empty();
    let x = GraphTensor::<R1<3>, F32, Cpu>::fill(&mut graph, F32(1.9));
    let tensor = x.to_tensor(&graph).unwrap();
    let casted = tensor.cast::<i32>().unwrap();
    assert_eq!(casted.data().clone(), vec![1; 3]);
}

// Rewriting multiply-then-add into a fused node never changes the result.
#[test]
fn fused_rewrite_matches_baseline() {
    let mut graph = Graph::empty();
    let a = GraphTensor::<R2<2, 2>, i32, Cpu>::fill(&mut graph, 2);
    let b = GraphTensor::<R2<2, 2>, i32, Cpu>::fill(&mut graph, 3);
    let m = a.binary_op(&mut graph, b, BinaryOpType::Mul);
    let c = GraphTensor::<R2<2, 2>, i32, Cpu>::fill(&mut graph, 4);
    let _out = m.binary_op(&mut graph, c, BinaryOpType::Add);
    let mut nodes = graph.into_ops();

    let dev = CpuDevice;
    let baseline = dev.compile_and_run_graph(&nodes).unwrap();
    assert_eq!(baseline.0, vec![10; 4]);

    fuse_mul_add(&mut nodes);
    assert!(matches!(nodes[4].op, Op::FusedMulAdd { .. }));
    let fused = dev.compile_and_run_graph(&nodes).unwrap();
    assert_eq!(fused.0, baseline.0);
}

// Marking single-consumer operands in-place never changes the result.
#[test]
fn inplace_rewrite_matches_baseline() {
    let mut graph = Graph::empty();
    let x = GraphTensor::<R2<3, 4>, F32, Cpu>::fill(&mut graph, F32(1.5));
    let y = GraphTensor::<R2<3, 4>, F32, Cpu>::fill(&mut graph, F32(2.5));
    let s = x.binary_op(&mut graph, y, BinaryOpType::Add);
    let z = GraphTensor::<R2<3, 4>, F32, Cpu>::fill(&mut graph, F32(8.0));
    let _res = z.binary_op(&mut graph, s, BinaryOpType::Div);
    let mut nodes = graph.into_ops();

    let dev = CpuDevice;
    let baseline = dev.compile_and_run_graph(&nodes).unwrap();
    assert_eq!(baseline.0, vec![F32(2.0); 12]);

    mark_inplace(&mut nodes);
    assert!(matches!(nodes[2].op, Op::InplaceBinaryOp { .. }));
    assert!(matches!(nodes[4].op, Op::InplaceBinaryOp { .. }));
    let rewritten = dev.compile_and_run_graph(&nodes).unwrap();
    assert_eq!(rewritten.0, baseline.0);
}

// The whole pass: fusion plus in-place marking, against the baseline.
#[test]
fn optimize_matches_baseline() {
    let mut graph = Graph::empty();
    let a = GraphTensor::<R1<6>, i32, Cpu>::fill(&mut graph, 7);
    let b = GraphTensor::<R1<6>, i32, Cpu>::arange(&mut graph, 0, 6);
    let m = a.binary_op(&mut graph, b, BinaryOpType::Mul);
    let c = GraphTensor::<R1<6>, i32, Cpu>::fill(&mut graph, 1);
    let f = m.binary_op(&mut graph, c, BinaryOpType::Add);
    let d = GraphTensor::<R1<6>, i32, Cpu>::fill(&mut graph, 2);
    let _res = f.binary_op(&mut graph, d, BinaryOpType::Mul);
    let mut nodes = graph.into_ops();

    let dev = CpuDevice;
    let baseline = dev.compile_and_run_graph(&nodes).unwrap();
    assert_eq!(baseline.0, vec![2, 16, 30, 44, 58, 72]);

    optimize(&mut nodes);
    let rewritten = dev.compile_and_run_graph(&nodes).unwrap();
    assert_eq!(rewritten.0, baseline.0);
}
