//! A statically shaped tensor computation library: callers build a symbolic
//! graph of operations, the graph is compiled into a backend-specific
//! execution plan, and the plan is run to produce concrete numeric results.

mod cpu_storage;
mod cuda_backend;
mod device;
mod dtype;
mod error;
mod eval;
mod gemm;
mod graph;
mod graphtensor;
mod optimizer;
mod scheduler;
mod shape;
mod tensor;
mod text;
mod validate;
mod wgpu_backend;

pub use cpu_storage::BufferPool;
pub use cpu_storage::CpuDevice;
pub use cpu_storage::CpuStorage;
pub use cuda_backend::handle_node;
pub use cuda_backend::lemma_jit_compile_deterministic;
pub use cuda_backend::CudaCompiledKernel;
pub use cuda_backend::CudaDevice;
pub use device::CompiledGraph;
pub use device::Cpu;
pub use device::Cuda;
pub use device::Dev;
pub use device::Wgpu;
pub use dtype::CastFrom;
pub use dtype::DType;
pub use error::Error;
pub use eval::aranges_exact;
pub use eval::eval_node;
pub use eval::graph_ok;
pub use eval::numel;
pub use graph::BinaryOpType;
pub use graph::Graph;
pub use graph::GraphNode;
pub use graph::GraphTensorId;
pub use graph::Op;
pub use graph::UnaryOpType;
pub use cpu_storage::lemma_run_deterministic;
pub use graphtensor::GraphTensor;
pub use optimizer::fuse_mul_add;
pub use optimizer::mark_inplace;
pub use optimizer::optimize;
pub use optimizer::rewrite_invariant;
pub use scheduler::deps_in_range;
pub use scheduler::deps_precede;
pub use scheduler::is_permutation;
pub use scheduler::schedulable;
pub use scheduler::topo_order;
pub use scheduler::valid_order;
pub use shape::Shape;
pub use shape::R1;
pub use shape::R2;
pub use shape::R3;
pub use shape::R4;
pub use shape::R5;
pub use shape::R6;
pub use tensor::Tensor;
pub use validate::check_graph;
pub use wgpu_backend::WgpuDevice;
pub use wgpu_backend::WgpuKernelCall;
pub use wgpu_backend::WgpuStorage;
