use constensor_core::{
    topo_order, BinaryOpType, Cpu, Error, Graph, GraphNode, GraphTensor, GraphTensorId, Op, R1,
};

fn node(op: Op<i32>, shape: Vec<usize>, id: usize) -> GraphNode<i32> {
    GraphNode { id: GraphTensorId(id), op, shape }
}

// A diamond of dependencies schedules with every operand before its consumer.
#[test]
fn topo_order_diamond() {
    let nodes = vec![
        node(Op::Fill { v: 1 }, vec![4], 0),
        node(Op::Fill { v: 2 }, vec![4], 1),
        node(
            Op::BinaryOp {
                l_id: GraphTensorId(0),
                r_id: GraphTensorId(1),
                operator: BinaryOpType::Add,
            },
            vec![4],
            2,
        ),
        node(
            Op::BinaryOp {
                l_id: GraphTensorId(2),
                r_id: GraphTensorId(0),
                operator: BinaryOpType::Mul,
            },
            vec![4],
            3,
        ),
    ];
    let order = topo_order(&nodes).unwrap();
    assert_eq!(order.len(), 4);
    // a permutation of all indices
    let mut seen = vec![false; 4];
    for &v in &order {
        assert!(v < 4);
        assert!(!seen[v]);
        seen[v] = true;
    }
    // operands precede consumers
    let pos = |x: usize| order.iter().position(|&v| v == x).unwrap();
    assert!(pos(0) < pos(2));
    assert!(pos(1) < pos(2));
    assert!(pos(2) < pos(3));
    assert!(pos(0) < pos(3));
}

// A node consuming its own output is reported as a cycle, never as a
// partial order.
#[test]
fn topo_order_reports_self_cycle() {
    let nodes = vec![
        node(
            Op::BinaryOp {
                l_id: GraphTensorId(0),
                r_id: GraphTensorId(0),
                operator: BinaryOpType::Add,
            },
            vec![1],
            0,
        ),
    ];
    assert!(matches!(topo_order(&nodes), Err(Error::Cycle)));
}

// Two nodes consuming each other are reported as a cycle.
#[test]
fn topo_order_reports_mutual_cycle() {
    let nodes = vec![
        node(
            Op::UnaryOp {
                v_id: GraphTensorId(1),
                operator: constensor_core::UnaryOpType::Neg,
            },
            vec![1],
            0,
        ),
        node(
            Op::UnaryOp {
                v_id: GraphTensorId(0),
                operator: constensor_core::UnaryOpType::Neg,
            },
            vec![1],
            1,
        ),
    ];
    assert!(matches!(topo_order(&nodes), Err(Error::Cycle)));
}

// An operand id that names no node is reported as a missing operand.
#[test]
fn topo_order_reports_missing_operand() {
    let nodes = vec![
        node(Op::Fill { v: 1 }, vec![1], 0),
        node(
            Op::UnaryOp {
                v_id: GraphTensorId(7),
                operator: constensor_core::UnaryOpType::Neg,
            },
            vec![1],
            1,
        ),
    ];
    assert!(matches!(
        topo_order(&nodes),
        Err(Error::MissingOperand { node: 1, operand: 7 })
    ));
}

// The compile pipeline rejects a cyclic graph rather than running it.
#[test]
fn compile_rejects_cycle() {
    let mut graph: Graph<i32> = Graph::empty();
    graph.add_op(
        Op::BinaryOp {
            l_id: GraphTensorId(0),
            r_id: GraphTensorId(0),
            operator: BinaryOpType::Add,
        },
        vec![2],
    );
    let compiled = graph.compile::<R1<2>>();
    assert!(matches!(compiled, Err(Error::Cycle)));
}

// An arithmetic sequence that cannot reach its declared element count is a
// fatal shape violation at run time.
#[test]
fn run_reports_arange_mismatch() {
    let mut graph = Graph::empty();
    // step computes to (4 - 0) / 8 == 0 in integer arithmetic, so the
    // sequence never advances and can never fill 8 slots.
    let x = GraphTensor::<R1<8>, i32, Cpu>::arange(&mut graph, 0, 4);
    let result = x.to_tensor(&graph);
    assert!(matches!(result, Err(Error::ShapeMismatch { node: 0 })));
}

// An empty graph has no result to compute.
#[test]
fn compile_rejects_empty_graph() {
    let graph: Graph<i32> = Graph::empty();
    let compiled = graph.compile::<R1<1>>();
    assert!(matches!(compiled, Err(Error::EmptyGraph)));
}
