//! Host-side logic of a CUDA compute backend.

pub mod attn;
pub mod attn_opts;
pub mod attn_tree;
pub mod backend;
pub mod cache;
pub mod decode;
pub mod delta_meaning;
pub mod deltanet;
pub mod dequant;
pub mod device_cache;
pub mod dispatch;
pub mod driver;
pub mod equivalence;
pub mod error;
pub mod flags;
pub mod graph;
pub mod host_decode;
pub mod keys;
pub mod kv_cache;
pub mod launch;
pub mod layer;
pub mod layer_ops;
pub mod lengths;
pub mod matmul;
pub mod meaning;
pub mod moe;
pub mod oxide_kernels;
pub mod packed;
pub mod pipeline;
pub mod prefill;
pub mod profile;
pub mod program;
pub mod q4k_batched;
pub mod q4k_direct;
pub mod q4k_mmvq;
pub mod q5k_direct;
pub mod q6k_mmvq;
pub mod q8_0_direct;
pub mod quant_matvec;
pub mod qwen35_block;
pub mod qwen35_iso3;
pub mod qwen35_kv;
pub mod sampling;
pub mod spec_graph;
pub mod text;
