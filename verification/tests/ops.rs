use constensor_core::{
    BinaryOpType, Cpu, DType, Graph, GraphTensor, GraphTensorId, Op, Tensor, R1, R2, R3,
};

#[derive(Clone, Copy, Debug, PartialEq)]
struct F32(f32);

impl DType for F32 {
    fn zero() -> F32 {
        F32(0.0)
    }
    fn one() -> F32 {
        F32(1.0)
    }
    fn add(a: F32, b: F32) -> F32 {
        F32(a.0 + b.0)
    }
    fn sub(a: F32, b: F32) -> F32 {
        F32(a.0 - b.0)
    }
    fn mul(a: F32, b: F32) -> F32 {
        F32(a.0 * b.0)
    }
    fn div(a: F32, b: F32) -> F32 {
        F32(a.0 / b.0)
    }
    fn neg(a: F32) -> F32 {
        F32(-a.0)
    }
    fn sqrt(a: F32) -> F32 {
        F32(a.0.sqrt())
    }
    fn lt(a: F32, b: F32) -> bool {
        a.0 < b.0
    }
    fn from_count(n: usize) -> F32 {
        F32(n as f32)
    }
    fn name() -> String {
        "f32".to_string()
    }
    fn c_name() -> String {
        "float".to_string()
    }
    fn c_dep() -> Option<String> {
        None
    }
    fn literal(a: F32) -> String {
        format!("{:?}", a.0)
    }
}

#[test]
fn fill_int() {
    let mut graph = Graph::empty();
    let gt = GraphTensor::<R2<3, 4>, i32, Cpu>::fill(&mut graph, 0);
    let tensor = gt.to_tensor(&graph).unwrap();
    assert_eq!(tensor.data().clone(), vec![0; 12]);
}

#[test]
fn add_div_int() {
    let mut graph = Graph::empty();
    let x = GraphTensor::<R2<3, 4>, i32, Cpu>::fill(&mut graph, 1);
    let y = GraphTensor::<R2<3, 4>, i32, Cpu>::fill(&mut graph, 2);
    let z = GraphTensor::<R2<3, 4>, i32, Cpu>::fill(&mut graph, 4);
    let c = x.binary_op(&mut graph, y, BinaryOpType::Add);
    let res = z.binary_op(&mut graph, c, BinaryOpType::Div);
    let tensor = res.to_tensor(&graph).unwrap();
    assert_eq!(tensor.data().clone(), vec![1; 12]);
}

#[test]
fn add_div_float() {
    let mut graph = Graph::empty();
    let x = GraphTensor::<R2<3, 4>, F32, Cpu>::fill(&mut graph, F32(1.0));
    let y = GraphTensor::<R2<3, 4>, F32, Cpu>::fill(&mut graph, F32(2.0));
    let z = GraphTensor::<R2<3, 4>, F32, Cpu>::fill(&mut graph, F32(4.0));
    let c = x.binary_op(&mut graph, y, BinaryOpType::Add);
    let res = z.binary_op(&mut graph, c, BinaryOpType::Div);
    let tensor = res.to_tensor(&graph).unwrap();
    assert_eq!(tensor.data().clone(), vec![F32(1.3333334); 12]);
}

#[test]
fn arange_float() {
    let mut graph = Graph::empty();
    let x = GraphTensor::<R1<4>, F32, Cpu>::fill(&mut graph, F32(1.0));
    let y = GraphTensor::<R1<4>, F32, Cpu>::arange(&mut graph, F32(0.0), F32(1.0));
    let res = x.binary_op(&mut graph, y, BinaryOpType::Add);
    let tensor = res.to_tensor(&graph).unwrap();
    assert_eq!(
        tensor.data().clone(),
        vec![F32(1.0), F32(1.25), F32(1.5), F32(1.75)]
    );
}

#[test]
fn sqrt_float() {
    let mut graph = Graph::empty();
    let x = GraphTensor::<R2<3, 4>, F32, Cpu>::fill(&mut graph, F32(4.0));
    let res = x.sqrt(&mut graph);
    let tensor = res.to_tensor(&graph).unwrap();
    assert_eq!(tensor.data().clone(), vec![F32(2.0); 12]);
}

// The integer square root truncates: sqrt(5) is 2.
#[test]
fn sqrt_int() {
    let mut graph = Graph::empty();
    let x = GraphTensor::<R2<3, 4>, i32, Cpu>::fill(&mut graph, 5);
    let res = x.sqrt(&mut graph);
    let tensor = res.to_tensor(&graph).unwrap();
    assert_eq!(tensor.data().clone(), vec![2; 12]);
}

// The square root of a negative integer reads as zero.
#[test]
fn sqrt_negative_int() {
    let mut graph = Graph::empty();
    let x = GraphTensor::<R2<2, 2>, i32, Cpu>::fill(&mut graph, -9);
    let res = x.sqrt(&mut graph);
    let tensor = res.to_tensor(&graph).unwrap();
    assert_eq!(tensor.data().clone(), vec![0; 4]);
}

// Integer division is total: dividing by zero yields zero.
#[test]
fn div_by_zero_yields_zero() {
    let mut graph = Graph::empty();
    let x = GraphTensor::<R1<4>, i32, Cpu>::fill(&mut graph, 9);
    let z = GraphTensor::<R1<4>, i32, Cpu>::zeros(&mut graph);
    let res = x.binary_op(&mut graph, z, BinaryOpType::Div);
    let tensor = res.to_tensor(&graph).unwrap();
    assert_eq!(tensor.data().clone(), vec![0; 4]);
}

// Integer arithmetic wraps rather than aborting.
#[test]
fn add_wraps() {
    let mut graph = Graph::empty();
    let x = GraphTensor::<R1<2>, i32, Cpu>::fill(&mut graph, i32::MAX);
    let o = GraphTensor::<R1<2>, i32, Cpu>::ones(&mut graph);
    let res = x.binary_op(&mut graph, o, BinaryOpType::Add);
    let tensor = res.to_tensor(&graph).unwrap();
    assert_eq!(tensor.data().clone(), vec![i32::MIN; 2]);
}

#[test]
fn to_tensor_unsigned_u32() {
    let mut graph = Graph::empty();
    let x = GraphTensor::<R1<6>, u32, Cpu>::fill(&mut graph, 10);
    let y = GraphTensor::<R1<6>, u32, Cpu>::fill(&mut graph, 4);
    let res = x.binary_op(&mut graph, y, BinaryOpType::Sub);
    let tensor = res.to_tensor_unsigned(&graph).unwrap();
    assert_eq!(tensor.data().clone(), vec![6; 6]);
}

// Plain batched matrix multiplication: ones (1x2x3) by ones (1x3x2) is 3
// everywhere.
#[test]
fn matmul_int() {
    let mut graph = Graph::empty();
    let l = GraphTensor::<R3<1, 2, 3>, i64, Cpu>::ones(&mut graph);
    let r = GraphTensor::<R3<1, 3, 2>, i64, Cpu>::ones(&mut graph);
    let res = l.matmul(&mut graph, r);
    let tensor = res.to_tensor(&graph).unwrap();
    assert_eq!(tensor.data().clone(), vec![3; 4]);
}

// Batched matrix multiplication with two batches and unequal extents.
#[test]
fn matmul_batched() {
    let mut graph = Graph::empty();
    let a = GraphTensor::<R3<2, 1, 3>, i32, Cpu>::fill(&mut graph, 2);
    let b = GraphTensor::<R3<2, 3, 2>, i32, Cpu>::fill(&mut graph, 3);
    let res = a.matmul(&mut graph, b);
    let tensor = res.to_tensor(&graph).unwrap();
    assert_eq!(tensor.data().clone(), vec![18; 4]);
}

// An arithmetic sequence with a negative start.
#[test]
fn arange_negative_start() {
    let mut graph = Graph::empty();
    let x = GraphTensor::<R1<4>, i32, Cpu>::arange(&mut graph, -3, 5);
    let tensor = x.to_tensor(&graph).unwrap();
    assert_eq!(tensor.data().clone(), vec![-3, -1, 1, 3]);
}

// The library's own element conversions: widening is exact, narrowing
// saturates at the bounds.
#[test]
fn cast_between_int_types() {
    let mut graph = Graph::empty();
    let x = GraphTensor::<R1<3>, i32, Cpu>::fill(&mut graph, -41);
    let tensor = x.to_tensor(&graph).unwrap();
    let wide: Tensor<R1<3>, i64, Cpu> = tensor.cast().unwrap();
    assert_eq!(wide.data().clone(), vec![-41_i64; 3]);

    let mut g2 = Graph::empty();
    let y = GraphTensor::<R1<2>, i64, Cpu>::fill(&mut g2, i64::MAX);
    let t2 = y.to_tensor(&g2).unwrap();
    let narrow: Tensor<R1<2>, i32, Cpu> = t2.cast().unwrap();
    assert_eq!(narrow.data().clone(), vec![i32::MAX; 2]);

    let mut g3 = Graph::empty();
    let z = GraphTensor::<R1<2>, u8, Cpu>::fill(&mut g3, 200);
    let t3 = z.to_tensor(&g3).unwrap();
    let up: Tensor<R1<2>, u32, Cpu> = t3.cast().unwrap();
    assert_eq!(up.data().clone(), vec![200_u32; 2]);
}

// Fused multiply-add built directly in the graph.
#[test]
fn fused_mul_add_node() {
    let mut graph: Graph<i32> = Graph::empty();
    graph.add_op(Op::Fill { v: 3 }, vec![4]);
    graph.add_op(Op::Fill { v: 5 }, vec![4]);
    graph.add_op(Op::Fill { v: 1 }, vec![4]);
    graph.add_op(
        Op::FusedMulAdd {
            a_id: GraphTensorId(0),
            b_id: GraphTensorId(1),
            c_id: GraphTensorId(2),
        },
        vec![4],
    );
    let compiled = graph.compile::<R1<4>>().unwrap();
    let tensor = compiled.run().unwrap();
    assert_eq!(tensor.data().clone(), vec![16; 4]);
}
