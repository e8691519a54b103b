use constensor_core::{CastFrom, CompiledGraph, Cpu, DType, Graph, GraphTensor, R1, R2, R3};

#[derive(Clone, Copy, Debug, PartialEq)]
struct F32(f32);

#[derive(Clone, Copy, Debug, PartialEq)]
struct F64(f64);

impl DType for F32 {
    fn zero() -> F32 {
        F32(0.0)
    }
    fn one() -> F32 {
        F32(1.0)
    }
    fn add(a: F32, b: F32) -> F32 {
        F32(a.0 + b.0)
    }
    fn sub(a: F32, b: F32) -> F32 {
        F32(a.0 - b.0)
    }
    fn mul(a: F32, b: F32) -> F32 {
        F32(a.0 * b.0)
    }
    fn div(a: F32, b: F32) -> F32 {
        F32(a.0 / b.0)
    }
    fn neg(a: F32) -> F32 {
        F32(-a.0)
    }
    fn sqrt(a: F32) -> F32 {
        F32(a.0.sqrt())
    }
    fn lt(a: F32, b: F32) -> bool {
        a.0 < b.0
    }
    fn from_count(n: usize) -> F32 {
        F32(n as f32)
    }
    fn name() -> String {
        "f32".to_string()
    }
    fn c_name() -> String {
        "float".to_string()
    }
    fn c_dep() -> Option<String> {
        None
    }
    fn literal(a: F32) -> String {
        format!("{:?}", a.0)
    }
}

impl DType for F64 {
    fn zero() -> F64 {
        F64(0.0)
    }
    fn one() -> F64 {
        F64(1.0)
    }
    fn add(a: F64, b: F64) -> F64 {
        F64(a.0 + b.0)
    }
    fn sub(a: F64, b: F64) -> F64 {
        F64(a.0 - b.0)
    }
    fn mul(a: F64, b: F64) -> F64 {
        F64(a.0 * b.0)
    }
    fn div(a: F64, b: F64) -> F64 {
        F64(a.0 / b.0)
    }
    fn neg(a: F64) -> F64 {
        F64(-a.0)
    }
    fn sqrt(a: F64) -> F64 {
        F64(a.0.sqrt())
    }
    fn lt(a: F64, b: F64) -> bool {
        a.0 < b.0
    }
    fn from_count(n: usize) -> F64 {
        F64(n as f64)
    }
    fn name() -> String {
        "f64".to_string()
    }
    fn c_name() -> String {
        "double".to_string()
    }
    fn c_dep() -> Option<String> {
        None
    }
    fn literal(a: F64) -> String {
        format!("{:?}", a.0)
    }
}

impl CastFrom<F32> for F64 {
    fn cast_from(s: F32) -> F64 {
        F64(s.0 as f64)
    }
}

impl CastFrom<F64> for F32 {
    fn cast_from(s: F64) -> F32 {
        F32(s.0 as f32)
    }
}

impl CastFrom<i32> for F32 {
    fn cast_from(s: i32) -> F32 {
        F32(s as f32)
    }
}

impl CastFrom<F32> for i32 {
    fn cast_from(s: F32) -> i32 {
        s.0 as i32
    }
}

// Test casting a 1D tensor from f32 to f64
#[test]
fn cast_f32_to_f64_1d() {
    let mut graph = Graph::empty();
    let _x = GraphTensor::<R1<4>, F32, Cpu>::fill(&mut graph, F32(1.5));
    let compiled: CompiledGraph<R1<4>, F32, Cpu> = graph.compile().unwrap();
    let tensor = compiled.run().unwrap();
    let casted = tensor.cast::<F64>().unwrap();
    let data = casted.data().clone();
    assert_eq!(data, vec![F64(1.5_f64); 4]);
}

// Test casting a 2D tensor from f64 to f32
#[test]
fn cast_f64_to_f32_2d() {
    let mut graph = Graph::empty();
    let _x = GraphTensor::<R2<2, 3>, F64, Cpu>::fill(&mut graph, F64(2.75));
    let compiled: CompiledGraph<R2<2, 3>, F64, Cpu> = graph.compile().unwrap();
    let tensor = compiled.run().unwrap();
    let casted = tensor.cast::<F32>().unwrap();
    let data: Vec<Vec<F32>> = casted.data().chunks(3).map(|row| row.to_vec()).collect();
    assert_eq!(data, vec![vec![F32(2.75_f32); 3]; 2]);
}

// Test casting a 3D tensor from i32 to f32
#[test]
fn cast_i32_to_f32_3d() {
    let mut graph = Graph::empty();
    let _x = GraphTensor::<R3<1, 2, 3>, i32, Cpu>::fill(&mut graph, 7);
    let compiled: CompiledGraph<R3<1, 2, 3>, i32, Cpu> = graph.compile().unwrap();
    let tensor = compiled.run().unwrap();
    let casted = tensor.cast::<F32>().unwrap();
    let data: Vec<Vec<Vec<F32>>> = casted
        .data()
        .chunks(6)
        .map(|plane| plane.chunks(3).map(|row| row.to_vec()).collect())
        .collect();
    let expected = vec![vec![vec![F32(7.0_f32); 3]; 2]; 1];
    assert_eq!(data, expected);
}

// Test casting from f32 to i32 truncates toward zero
#[test]
fn cast_f32_to_i32_truncate() {
    let mut graph = Graph::empty();
    let _x = GraphTensor::<R1<3>, F32, Cpu>::fill(&mut graph, F32(1.9));
    let compiled: CompiledGraph<R1<3>, F32, Cpu> = graph.compile().unwrap();
    let tensor = compiled.run().unwrap();
    let casted = tensor.cast::<i32>().unwrap();
    let data = casted.data().clone();
    assert_eq!(data, vec![1_i32; 3]);
}
