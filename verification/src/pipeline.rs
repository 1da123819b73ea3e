//! The decode step as a pipeline over fixed buffers, fit to be captured in a graph.
//!
//! Every operation writes into a buffer that outlives the step, every projection reads
//! a packed input, and nothing may fail without failing the step.

use vstd::prelude::*;

use crate::decode::{attn_call, attn_call_for, scale_ops, push_scale};
use crate::error::CudaInitError;
use crate::layer::{
    max_int, max_usize, Activation, CallDims, FullPipelineLayer, LayerDims, NormRef, QuantFormat,
    QuantWeight, ONE_BITS,
};
use crate::program::{
    emit, lemma_regroup, AttnKind, Buf, DeviceOp, Route, Routes, WeightRef,
};

verus! {

/// Sizes that the fixed buffers were made for.
#[derive(Clone, Copy, Debug, PartialEq, Eq, Structural)]
pub struct DecodeScratchShape {
    pub hidden: usize,
    pub q_dim: usize,
    pub kv_dim: usize,
    pub inter: usize,
    pub head_dim: usize,
}

impl DecodeScratchShape {
    /// Whether buffers of one shape can be used for the other.
    pub fn matches(&self, other: &DecodeScratchShape) -> (r: bool)
        ensures
            r == (*self == *other),
            r <==> self.hidden == other.hidden && self.q_dim == other.q_dim && self.kv_dim
                == other.kv_dim && self.inter == other.inter && self.head_dim == other.head_dim,
    {
        self.hidden == other.hidden && self.q_dim == other.q_dim && self.kv_dim == other.kv_dim
            && self.inter == other.inter && self.head_dim == other.head_dim
    }
}

/// The route of a projection from a packed input, if the format has one.
pub open spec fn packed_only(format: QuantFormat) -> Option<Route> {
    match format {
        QuantFormat::Q4_K => Some(Route::Q4kMmvq),
        QuantFormat::Q6_K => Some(Route::Q6kMmvq),
        _ => None,
    }
}

fn packed_route(format: QuantFormat) -> (r: Option<Route>)
    ensures
        r == packed_only(format),
{
    match format {
        QuantFormat::Q4_K => Some(Route::Q4kMmvq),
        QuantFormat::Q6_K => Some(Route::Q6kMmvq),
        _ => None,
    }
}

/// The route of a projection from a packed input. A format without one is refused.
pub fn proj_q8_1_into(format: QuantFormat) -> (r: Result<Route, CudaInitError>)
    ensures
        r is Ok == packed_only(format) is Some,
        r matches Ok(route) ==> packed_only(format) == Some(route),
        r matches Err(e) ==> e.says("decode_graph proj: unsupported format "@ + format.text()),
        r is Ok <==> format == QuantFormat::Q4_K || format == QuantFormat::Q6_K,
        format == QuantFormat::Q4_K ==> r == Ok::<Route, CudaInitError>(Route::Q4kMmvq),
        format == QuantFormat::Q6_K ==> r == Ok::<Route, CudaInitError>(Route::Q6kMmvq),
{
    match packed_route(format) {
        Some(route) => Ok(route),
        None => {
            let mut s: String = "decode_graph proj: unsupported format ".to_owned();
            s.append(format.name());
            Err(CudaInitError::DriverMissing(s))
        },
    }
}

/// Caches of packed weights on the device.
#[derive(Clone, Copy, Debug, PartialEq, Eq, Structural)]
pub enum PackedCache {
    Q4k,
    Q6k,
}

/// The cache that holds a weight of a captured pipeline. A format without one is refused.
pub fn arc_qweight(format: QuantFormat) -> (r: Result<PackedCache, CudaInitError>)
    ensures
        r is Ok == (format == QuantFormat::Q4_K || format == QuantFormat::Q6_K),
        r matches Ok(c) ==> c == if format == QuantFormat::Q4_K {
            PackedCache::Q4k
        } else {
            PackedCache::Q6k
        },
        r matches Err(e) ==> e.says("decode_graph: unsupported quant format "@ + format.text()),
{
    match format {
        QuantFormat::Q4_K => Ok(PackedCache::Q4k),
        QuantFormat::Q6_K => Ok(PackedCache::Q6k),
        _ => {
            let mut s: String = "decode_graph: unsupported quant format ".to_owned();
            s.append(format.name());
            Err(CudaInitError::DriverMissing(s))
        },
    }
}

/// Heads and widths that a captured pipeline uses for all its layers.
pub open spec fn graph_head_dim(call: CallDims, first: FullPipelineLayer) -> int {
    max_int(call.head_dim_for(first), 1)
}

pub open spec fn graph_q_heads(call: CallDims, first: FullPipelineLayer) -> int {
    max_int(call.q_heads_for(first), 1)
}

pub open spec fn graph_kv_heads(call: CallDims, first: FullPipelineLayer) -> int {
    max_int(call.kv_heads_for(first), 1)
}

pub open spec fn graph_widths_fit(call: CallDims, first: FullPipelineLayer) -> bool {
    &&& graph_q_heads(call, first) * graph_head_dim(call, first) <= usize::MAX
    &&& graph_kv_heads(call, first) * graph_head_dim(call, first) <= usize::MAX
}

pub open spec fn graph_dims(call: CallDims, first: FullPipelineLayer) -> LayerDims {
    LayerDims {
        head_dim: graph_head_dim(call, first) as usize,
        num_q_heads: graph_q_heads(call, first) as usize,
        num_kv_heads: graph_kv_heads(call, first) as usize,
        q_dim: (graph_q_heads(call, first) * graph_head_dim(call, first)) as usize,
        kv_dim: (graph_kv_heads(call, first) * graph_head_dim(call, first)) as usize,
    }
}

pub fn graph_layer_dims(call: &CallDims, first: &FullPipelineLayer) -> (d: LayerDims)
    requires
        graph_widths_fit(*call, *first),
    ensures
        d == graph_dims(*call, *first),
        d.q_dim == d.num_q_heads * d.head_dim,
        d.kv_dim == d.num_kv_heads * d.head_dim,
        d.head_dim >= 1 && d.head_dim >= first.head_dim && d.head_dim >= call.head_dim,
        d.num_q_heads >= 1 && d.num_q_heads >= first.num_q_heads && d.num_q_heads
            >= call.num_q_heads,
        d.num_kv_heads >= 1 && d.num_kv_heads >= first.num_kv_heads && d.num_kv_heads
            >= call.num_kv_heads,
        d.head_dim == 1 || d.head_dim == first.head_dim || d.head_dim == call.head_dim,
        d.num_q_heads == 1 || d.num_q_heads == first.num_q_heads || d.num_q_heads
            == call.num_q_heads,
        d.num_kv_heads == 1 || d.num_kv_heads == first.num_kv_heads || d.num_kv_heads
            == call.num_kv_heads,
{
    let head_dim: usize = max_usize(max_usize(first.head_dim, call.head_dim), 1);
    let num_q_heads: usize = max_usize(max_usize(first.num_q_heads, call.num_q_heads), 1);
    let num_kv_heads: usize = max_usize(max_usize(first.num_kv_heads, call.num_kv_heads), 1);
    LayerDims {
        head_dim,
        num_q_heads,
        num_kv_heads,
        q_dim: num_q_heads * head_dim,
        kv_dim: num_kv_heads * head_dim,
    }
}

/// Projection of a packed row.
pub open spec fn packed_project(
    weight: WeightRef,
    w: QuantWeight,
    src: Buf,
    packed_src: Buf,
    dst: Buf,
    rows: usize,
    cols: usize,
) -> DeviceOp {
    DeviceOp::Project {
        weight,
        format: w.format,
        src,
        packed_src: Some(packed_src),
        dst,
        rows_in: 1,
        rows,
        cols,
        routes: Routes { packed: packed_only(w.format), direct: None, gemm: None },
        attempts: 1,
    }
}

fn project_packed(
    weight: WeightRef,
    w: &QuantWeight,
    src: Buf,
    packed_src: Buf,
    dst: Buf,
    rows: usize,
    cols: usize,
) -> (op: DeviceOp)
    ensures
        op == packed_project(weight, *w, src, packed_src, dst, rows, cols),
{
    DeviceOp::Project {
        weight,
        format: w.format,
        src,
        packed_src: Some(packed_src),
        dst,
        rows_in: 1,
        rows,
        cols,
        routes: Routes { packed: packed_route(w.format), direct: None, gemm: None },
        attempts: 1,
    }
}

/// Packing that must not fail.
pub open spec fn must_pack(src: Buf, dst: Buf, n: usize) -> DeviceOp {
    DeviceOp::QuantizeQ8 { src, dst, n, optional: false }
}

/// The scalar that the last step of a layer multiplies by.
pub open spec fn layer_scale(l: FullPipelineLayer) -> u32 {
    if l.scaled() {
        l.layer_scalar_bits
    } else {
        ONE_BITS
    }
}

/// The residual step behind attention.
pub open spec fn fused_attn_residual(l: FullPipelineLayer, hidden: usize) -> Seq<DeviceOp> {
    if l.has_post_norms {
        seq![
            DeviceOp::NormAdd {
                src: Buf::AttnDelta,
                norm: NormRef::PostAttn,
                dim: hidden,
                scale_bits: ONE_BITS,
            },
        ]
    } else {
        seq![DeviceOp::Add { src: Buf::AttnDelta, len: hidden }]
    }
}

/// The residual step behind the feed-forward part, with the layer's scalar.
pub open spec fn fused_ffn_residual(l: FullPipelineLayer, hidden: usize) -> Seq<DeviceOp> {
    if l.has_post_norms {
        seq![
            DeviceOp::NormAdd {
                src: Buf::FfnDelta,
                norm: l.ffn_post_norm(),
                dim: hidden,
                scale_bits: layer_scale(l),
            },
        ]
    } else {
        seq![DeviceOp::Add { src: Buf::FfnDelta, len: hidden }] + scale_ops(l, hidden)
    }
}

/// The attention half of a pipeline layer.
pub open spec fn pipeline_attn_ops(
    call: CallDims,
    d: LayerDims,
    l: FullPipelineLayer,
    max_seq: usize,
) -> Seq<DeviceOp> {
    let hidden = call.hidden;
    seq![
        DeviceOp::RmsNorm {
            src: Buf::H,
            dst: Buf::HAttn,
            norm: NormRef::Input,
            rows: 1,
            dim: hidden,
        },
    ] + seq![must_pack(Buf::HAttn, Buf::HAttnQ8, hidden)] + seq![
        packed_project(WeightRef::Wq, l.wq, Buf::HAttn, Buf::HAttnQ8, Buf::Q, d.q_dim, hidden),
    ] + seq![
        packed_project(WeightRef::Wk, l.wk, Buf::HAttn, Buf::HAttnQ8, Buf::K, d.kv_dim, hidden),
    ] + seq![
        packed_project(WeightRef::Wv, l.wv, Buf::HAttn, Buf::HAttnQ8, Buf::V, d.kv_dim, hidden),
    ] + seq![
        DeviceOp::Attention {
            kind: AttnKind::DecodeAtDevicePos,
            call: attn_call(call, l, d, max_seq),
            q: Buf::Q,
            k: Buf::K,
            v: Buf::V,
            dst: Buf::AttnOut,
            rows: 1,
        },
    ] + seq![must_pack(Buf::AttnOut, Buf::AttnOutQ8, d.q_dim)] + seq![
        packed_project(
            WeightRef::Wo,
            l.wo,
            Buf::AttnOut,
            Buf::AttnOutQ8,
            Buf::AttnDelta,
            hidden,
            d.q_dim,
        ),
    ] + fused_attn_residual(l, hidden)
}

/// The feed-forward half of a pipeline layer.
pub open spec fn pipeline_ffn_ops(call: CallDims, l: FullPipelineLayer) -> Seq<DeviceOp> {
    let hidden = call.hidden;
    let inter = call.inter;
    seq![
        DeviceOp::RmsNorm { src: Buf::H, dst: Buf::HFfn, norm: l.ffn_norm(), rows: 1, dim: hidden },
    ] + seq![must_pack(Buf::HFfn, Buf::HFfnQ8, hidden)] + seq![
        packed_project(WeightRef::Gate, l.gate, Buf::HFfn, Buf::HFfnQ8, Buf::Gate, inter, hidden),
    ] + seq![
        packed_project(WeightRef::Up, l.up, Buf::HFfn, Buf::HFfnQ8, Buf::Up, inter, hidden),
    ] + seq![
        DeviceOp::GateUp { n: inter, gelu_tanh: l.activation == Activation::GeluTanh },
    ] + seq![must_pack(Buf::Act, Buf::ActQ8, inter)] + seq![
        packed_project(WeightRef::Down, l.down, Buf::Act, Buf::ActQ8, Buf::FfnDelta, hidden, inter),
    ] + fused_ffn_residual(l, hidden)
}

/// One layer of the pipeline.
pub open spec fn pipeline_layer_ops(
    call: CallDims,
    d: LayerDims,
    l: FullPipelineLayer,
    index: usize,
    max_seq: usize,
) -> Seq<DeviceOp> {
    seq![DeviceOp::BeginLayer { index }] + pipeline_attn_ops(call, d, l, max_seq)
        + pipeline_ffn_ops(call, l)
}

/// The first `n` layers of the pipeline.
pub open spec fn pipeline_ops(
    call: CallDims,
    d: LayerDims,
    layers: Seq<FullPipelineLayer>,
    n: nat,
    max_seq: usize,
) -> Seq<DeviceOp>
    decreases n,
{
    if n == 0 {
        seq![]
    } else {
        pipeline_ops(call, d, layers, (n - 1) as nat, max_seq) + pipeline_layer_ops(
            call,
            d,
            layers[n - 1],
            (n - 1) as usize,
            max_seq,
        )
    }
}

fn push_attn_half(
    ops: &mut Vec<DeviceOp>,
    call: &CallDims,
    d: &LayerDims,
    l: &FullPipelineLayer,
    max_seq: usize,
)
    ensures
        final(ops)@ == old(ops)@ + pipeline_attn_ops(*call, *d, *l, max_seq),
{
    let hidden: usize = call.hidden;
    let ghost o = ops@;
    let norm = DeviceOp::RmsNorm {
        src: Buf::H,
        dst: Buf::HAttn,
        norm: NormRef::Input,
        rows: 1,
        dim: hidden,
    };
    let x8 = DeviceOp::QuantizeQ8 {
        src: Buf::HAttn,
        dst: Buf::HAttnQ8,
        n: hidden,
        optional: false,
    };
    let q = project_packed(WeightRef::Wq, &l.wq, Buf::HAttn, Buf::HAttnQ8, Buf::Q, d.q_dim, hidden);
    let k = project_packed(WeightRef::Wk, &l.wk, Buf::HAttn, Buf::HAttnQ8, Buf::K, d.kv_dim, hidden);
    let v = project_packed(WeightRef::Wv, &l.wv, Buf::HAttn, Buf::HAttnQ8, Buf::V, d.kv_dim, hidden);
    let attn = DeviceOp::Attention {
        kind: AttnKind::DecodeAtDevicePos,
        call: attn_call_for(call, l, d, max_seq),
        q: Buf::Q,
        k: Buf::K,
        v: Buf::V,
        dst: Buf::AttnOut,
        rows: 1,
    };
    let o8 = DeviceOp::QuantizeQ8 {
        src: Buf::AttnOut,
        dst: Buf::AttnOutQ8,
        n: d.q_dim,
        optional: false,
    };
    let wo = project_packed(
        WeightRef::Wo,
        &l.wo,
        Buf::AttnOut,
        Buf::AttnOutQ8,
        Buf::AttnDelta,
        hidden,
        d.q_dim,
    );
    let res: DeviceOp = if l.has_post_norms {
        DeviceOp::NormAdd {
            src: Buf::AttnDelta,
            norm: NormRef::PostAttn,
            dim: hidden,
            scale_bits: ONE_BITS,
        }
    } else {
        DeviceOp::Add { src: Buf::AttnDelta, len: hidden }
    };
    emit(ops, norm);
    emit(ops, x8);
    emit(ops, q);
    emit(ops, k);
    emit(ops, v);
    emit(ops, attn);
    emit(ops, o8);
    emit(ops, wo);
    emit(ops, res);
    proof {
        let s1 = seq![norm];
        let s2 = s1 + seq![x8];
        let s3 = s2 + seq![q];
        let s4 = s3 + seq![k];
        let s5 = s4 + seq![v];
        let s6 = s5 + seq![attn];
        let s7 = s6 + seq![o8];
        let s8 = s7 + seq![wo];
        lemma_regroup(o, s1, seq![x8]);
        lemma_regroup(o, s2, seq![q]);
        lemma_regroup(o, s3, seq![k]);
        lemma_regroup(o, s4, seq![v]);
        lemma_regroup(o, s5, seq![attn]);
        lemma_regroup(o, s6, seq![o8]);
        lemma_regroup(o, s7, seq![wo]);
        lemma_regroup(o, s8, seq![res]);
    }
}

fn push_ffn_half(ops: &mut Vec<DeviceOp>, call: &CallDims, l: &FullPipelineLayer)
    ensures
        final(ops)@ == old(ops)@ + pipeline_ffn_ops(*call, *l),
{
    let hidden: usize = call.hidden;
    let inter: usize = call.inter;
    let ghost o = ops@;
    let norm = DeviceOp::RmsNorm {
        src: Buf::H,
        dst: Buf::HFfn,
        norm: l.ffn_norm_ref(),
        rows: 1,
        dim: hidden,
    };
    let x8 = DeviceOp::QuantizeQ8 { src: Buf::HFfn, dst: Buf::HFfnQ8, n: hidden, optional: false };
    let gate = project_packed(
        WeightRef::Gate,
        &l.gate,
        Buf::HFfn,
        Buf::HFfnQ8,
        Buf::Gate,
        inter,
        hidden,
    );
    let up = project_packed(WeightRef::Up, &l.up, Buf::HFfn, Buf::HFfnQ8, Buf::Up, inter, hidden);
    let act = DeviceOp::GateUp { n: inter, gelu_tanh: l.activation == Activation::GeluTanh };
    let a8 = DeviceOp::QuantizeQ8 { src: Buf::Act, dst: Buf::ActQ8, n: inter, optional: false };
    let down = project_packed(
        WeightRef::Down,
        &l.down,
        Buf::Act,
        Buf::ActQ8,
        Buf::FfnDelta,
        hidden,
        inter,
    );
    emit(ops, norm);
    emit(ops, x8);
    emit(ops, gate);
    emit(ops, up);
    emit(ops, act);
    emit(ops, a8);
    emit(ops, down);
    let ghost s1 = seq![norm];
    let ghost s2 = s1 + seq![x8];
    let ghost s3 = s2 + seq![gate];
    let ghost s4 = s3 + seq![up];
    let ghost s5 = s4 + seq![act];
    let ghost s6 = s5 + seq![a8];
    let ghost s7 = s6 + seq![down];
    proof {
        lemma_regroup(o, s1, seq![x8]);
        lemma_regroup(o, s2, seq![gate]);
        lemma_regroup(o, s3, seq![up]);
        lemma_regroup(o, s4, seq![act]);
        lemma_regroup(o, s5, seq![a8]);
        lemma_regroup(o, s6, seq![down]);
    }
    if l.has_post_norms {
        let scale_bits: u32 = if l.is_scaled() {
            l.layer_scalar_bits
        } else {
            ONE_BITS
        };
        let res = DeviceOp::NormAdd {
            src: Buf::FfnDelta,
            norm: l.ffn_post_norm_ref(),
            dim: hidden,
            scale_bits,
        };
        emit(ops, res);
        proof {
            lemma_regroup(o, s7, seq![res]);
        }
    } else {
        let res = DeviceOp::Add { src: Buf::FfnDelta, len: hidden };
        emit(ops, res);
        push_scale(ops, l, hidden);
        proof {
            lemma_regroup(o, s7, seq![res]);
            lemma_regroup(o, s7 + seq![res], scale_ops(*l, hidden));
            lemma_regroup(s7, seq![res], scale_ops(*l, hidden));
        }
    }
}

/// The pipeline over all layers, with the heads and widths of `d`.
pub fn run_decode_pipeline_into_scratch(
    call: &CallDims,
    d: &LayerDims,
    layers: &[FullPipelineLayer],
    max_seq: usize,
) -> (ops: Vec<DeviceOp>)
    ensures
        ops@ == pipeline_ops(*call, *d, layers@, layers@.len(), max_seq),
{
    let mut ops: Vec<DeviceOp> = Vec::new();
    let mut i: usize = 0;
    while i < layers.len()
        invariant
            i <= layers@.len(),
            ops@ == pipeline_ops(*call, *d, layers@, i as nat, max_seq),
        decreases layers@.len() - i,
    {
        let l = layers[i];
        let begin = DeviceOp::BeginLayer { index: i };
        let ghost o = ops@;
        emit(&mut ops, begin);
        push_attn_half(&mut ops, call, d, &l, max_seq);
        push_ffn_half(&mut ops, call, &l);
        proof {
            let attn = pipeline_attn_ops(*call, *d, l, max_seq);
            lemma_regroup(o, seq![begin], attn);
            lemma_regroup(o, seq![begin] + attn, pipeline_ffn_ops(*call, l));
        }
        i = i + 1;
    }
    ops
}

/// The pipeline runs with the larger of the first layer's numbers and the caller's, each of them
/// at least one, and with the widths that follow from them.
pub proof fn law_graph_dims(call: CallDims, first: FullPipelineLayer)
    requires
        graph_widths_fit(call, first),
    ensures
        ({
            let d = graph_dims(call, first);
            &&& d.head_dim >= 1 && d.head_dim >= first.head_dim && d.head_dim >= call.head_dim
            &&& d.head_dim == 1 || d.head_dim == first.head_dim || d.head_dim == call.head_dim
            &&& d.num_q_heads >= 1 && d.num_q_heads >= first.num_q_heads && d.num_q_heads
                >= call.num_q_heads
            &&& d.num_q_heads == 1 || d.num_q_heads == first.num_q_heads || d.num_q_heads
                == call.num_q_heads
            &&& d.num_kv_heads >= 1 && d.num_kv_heads >= first.num_kv_heads && d.num_kv_heads
                >= call.num_kv_heads
            &&& d.num_kv_heads == 1 || d.num_kv_heads == first.num_kv_heads || d.num_kv_heads
                == call.num_kv_heads
            &&& d.q_dim == d.num_q_heads * d.head_dim
            &&& d.kv_dim == d.num_kv_heads * d.head_dim
        }),
{
    assert(0 <= graph_q_heads(call, first) * graph_head_dim(call, first) && 0 <= graph_kv_heads(
        call,
        first,
    ) * graph_head_dim(call, first)) by (nonlinear_arith)
        requires
            graph_q_heads(call, first) >= 1,
            graph_kv_heads(call, first) >= 1,
            graph_head_dim(call, first) >= 1,
    ;
}

} // verus!
