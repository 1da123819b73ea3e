//! Planning of a decode step: one token through all layers.

use vstd::prelude::*;

use crate::flags::DecodeFlags;
use crate::layer::{
    Activation, CallDims, FullPipelineLayer, LayerDims, NormRef, QuantFormat, QuantWeight,
};
use crate::program::{
    emit, lemma_regroup, AttnCall, AttnKind, Buf, DeviceOp, Route, Routes, WeightRef,
};

verus! {

/// The packed-input route of a format, where the switches allow it.
pub open spec fn packed_route(flags: DecodeFlags, format: QuantFormat) -> Option<Route> {
    match format {
        QuantFormat::Q4_K => if flags.q4k_mmvq {
            Some(Route::Q4kMmvq)
        } else {
            None
        },
        QuantFormat::Q6_K => if flags.q6k_mmvq {
            Some(Route::Q6kMmvq)
        } else {
            None
        },
        _ => None,
    }
}

/// The route of a format from an `f32` row of `x_len` elements, which must be as long
/// as the matrix is wide.
pub open spec fn direct_route(format: QuantFormat, x_len: usize, cols: usize) -> Option<Route> {
    if x_len != cols {
        None
    } else {
        match format {
            QuantFormat::Q4_K => Some(Route::Q4kDirect),
            QuantFormat::Q4_KF => Some(Route::Q4kfGemv),
            QuantFormat::Q6_K => Some(Route::Q6kGemv),
            _ => None,
        }
    }
}

/// The GEMM route of a format.
pub open spec fn gemm_route(flags: DecodeFlags, format: QuantFormat) -> Option<Route> {
    match format {
        QuantFormat::Q4_K | QuantFormat::Q6_K => if flags.tensor_cores {
            Some(Route::GemmF16)
        } else {
            Some(Route::GemmF32)
        },
        _ => None,
    }
}

/// All routes of a projection of one row.
pub open spec fn row_routes(
    flags: DecodeFlags,
    format: QuantFormat,
    packed: bool,
    x_len: usize,
    cols: usize,
) -> Routes {
    Routes {
        packed: if packed {
            packed_route(flags, format)
        } else {
            None
        },
        direct: direct_route(format, x_len, cols),
        gemm: gemm_route(flags, format),
    }
}

/// The route from an `f32` row.
pub fn matvec_device(format: QuantFormat, x_len: usize, cols: usize) -> (r: Option<Route>)
    ensures
        r == direct_route(format, x_len, cols),
        x_len != cols ==> r is None,
        x_len == cols ==> {
            &&& r == Some(Route::Q4kDirect) <==> format == QuantFormat::Q4_K
            &&& r == Some(Route::Q4kfGemv) <==> format == QuantFormat::Q4_KF
            &&& r == Some(Route::Q6kGemv) <==> format == QuantFormat::Q6_K
            &&& r is None <==> format != QuantFormat::Q4_K && format != QuantFormat::Q4_KF && format
                != QuantFormat::Q6_K
        },
{
    if x_len != cols {
        return None;
    }
    match format {
        QuantFormat::Q4_K => Some(Route::Q4kDirect),
        QuantFormat::Q4_KF => Some(Route::Q4kfGemv),
        QuantFormat::Q6_K => Some(Route::Q6kGemv),
        _ => None,
    }
}

/// The GEMM route.
pub fn gemm_proj_seq(flags: &DecodeFlags, format: QuantFormat) -> (r: Option<Route>)
    ensures
        r == gemm_route(*flags, format),
        r is Some <==> format == QuantFormat::Q4_K || format == QuantFormat::Q6_K,
        r is Some ==> (r == Some(Route::GemmF16) <==> flags.tensor_cores),
        r is Some ==> (r == Some(Route::GemmF32) <==> !flags.tensor_cores),
{
    match format {
        QuantFormat::Q4_K | QuantFormat::Q6_K => if flags.tensor_cores {
            Some(Route::GemmF16)
        } else {
            Some(Route::GemmF32)
        },
        _ => None,
    }
}

/// The routes of a projection of one row, in the order in which they are tried.
pub fn matvec_device_mmvq(
    flags: &DecodeFlags,
    format: QuantFormat,
    packed: bool,
    x_len: usize,
    cols: usize,
) -> (r: Routes)
    ensures
        r == row_routes(*flags, format, packed, x_len, cols),
        r.packed == Some(Route::Q4kMmvq) <==> packed && flags.q4k_mmvq && format
            == QuantFormat::Q4_K,
        r.packed == Some(Route::Q6kMmvq) <==> packed && flags.q6k_mmvq && format
            == QuantFormat::Q6_K,
        r.packed is Some ==> r.packed == Some(Route::Q4kMmvq) || r.packed == Some(Route::Q6kMmvq),
{
    let packed_first: Option<Route> = if packed && format == QuantFormat::Q4_K && flags.q4k_mmvq {
        Some(Route::Q4kMmvq)
    } else if packed && format == QuantFormat::Q6_K && flags.q6k_mmvq {
        Some(Route::Q6kMmvq)
    } else {
        None
    };
    Routes {
        packed: packed_first,
        direct: matvec_device(format, x_len, cols),
        gemm: gemm_proj_seq(flags, format),
    }
}

/// A packed input is of use to a projection of this format.
pub open spec fn wants_packed(flags: DecodeFlags, format: QuantFormat) -> bool {
    packed_route(flags, format) is Some
}

fn takes_packed(flags: &DecodeFlags, format: QuantFormat) -> (r: bool)
    ensures
        r == wants_packed(*flags, format),
{
    (flags.q4k_mmvq && format == QuantFormat::Q4_K) || (flags.q6k_mmvq && format
        == QuantFormat::Q6_K)
}

/// Whether the input of the query, key and value projections is packed.
pub open spec fn packs_qkv(flags: DecodeFlags, call: CallDims, l: FullPipelineLayer) -> bool {
    &&& wants_packed(flags, l.wq.format) || wants_packed(flags, l.wk.format) || wants_packed(
        flags,
        l.wv.format,
    )
    &&& call.hidden % 32 == 0
}

/// Whether the attention output is packed for the output projection.
pub open spec fn packs_attn_out(flags: DecodeFlags, call: CallDims, l: FullPipelineLayer) -> bool {
    wants_packed(flags, l.wo.format) && call.dims_for(l).q_dim % 32 == 0
}

/// Whether the input of gate and up projection is packed: only ever for Q4_K.
pub open spec fn packs_gate_up(flags: DecodeFlags, call: CallDims, l: FullPipelineLayer) -> bool {
    &&& flags.q4k_mmvq
    &&& l.gate.format == QuantFormat::Q4_K || l.up.format == QuantFormat::Q4_K
    &&& call.hidden % 32 == 0
}

/// Whether the activation is packed for the down projection.
pub open spec fn packs_act(flags: DecodeFlags, call: CallDims, l: FullPipelineLayer) -> bool {
    wants_packed(flags, l.down.format) && call.inter % 32 == 0
}

/// Attention settings of a layer.
pub open spec fn attn_call(
    call: CallDims,
    l: FullPipelineLayer,
    d: LayerDims,
    max_seq: usize,
) -> AttnCall {
    AttnCall {
        num_q_heads: d.num_q_heads,
        num_kv_heads: d.num_kv_heads,
        head_dim: d.head_dim,
        max_seq,
        rotary_dim: l.rotary_dim,
        rope_base_bits: call.rope_base_for(l),
        eps_bits: l.eps_bits,
        qk_norm_offset_bits: l.qk_norm_offset_bits,
        attn_scale_bits: l.attn_scale_bits,
        qk_norm: l.qk_normed(),
    }
}

pub fn attn_call_for(
    call: &CallDims,
    l: &FullPipelineLayer,
    d: &LayerDims,
    max_seq: usize,
) -> (r: AttnCall)
    ensures
        r == attn_call(*call, *l, *d, max_seq),
        r.num_q_heads == d.num_q_heads && r.num_kv_heads == d.num_kv_heads && r.head_dim
            == d.head_dim,
        r.max_seq == max_seq && r.rotary_dim == l.rotary_dim && r.eps_bits == l.eps_bits,
        r.attn_scale_bits == l.attn_scale_bits && r.qk_norm_offset_bits == l.qk_norm_offset_bits,
        r.qk_norm <==> l.q_norm_weight && l.k_norm_weight,
        r.rope_base_bits == (if l.rope_base_bits == 0 || l.rope_base_bits == 0x8000_0000 {
            call.rope_base_bits
        } else {
            l.rope_base_bits
        }),
{
    AttnCall {
        num_q_heads: d.num_q_heads,
        num_kv_heads: d.num_kv_heads,
        head_dim: d.head_dim,
        max_seq,
        rotary_dim: l.rotary_dim,
        rope_base_bits: call.layer_rope_base(l),
        eps_bits: l.eps_bits,
        qk_norm_offset_bits: l.qk_norm_offset_bits,
        attn_scale_bits: l.attn_scale_bits,
        qk_norm: l.q_norm_weight && l.k_norm_weight,
    }
}

/// Packing, where it is of use.
pub open spec fn pack_ops(wanted: bool, src: Buf, dst: Buf, n: usize) -> Seq<DeviceOp> {
    if wanted {
        seq![DeviceOp::QuantizeQ8 { src, dst, n, optional: true }]
    } else {
        seq![]
    }
}

/// The packed buffer, where the input was packed.
pub open spec fn packed_buf(wanted: bool, b: Buf) -> Option<Buf> {
    if wanted {
        Some(b)
    } else {
        None
    }
}

/// Projection of one row.
pub open spec fn row_project(
    flags: DecodeFlags,
    weight: WeightRef,
    w: QuantWeight,
    src: Buf,
    packed_src: Option<Buf>,
    dst: Buf,
    rows: usize,
    cols: usize,
    attempts: u8,
) -> DeviceOp {
    DeviceOp::Project {
        weight,
        format: w.format,
        src,
        packed_src,
        dst,
        rows_in: 1,
        rows,
        cols,
        routes: row_routes(flags, w.format, packed_src is Some, cols, cols),
        attempts,
    }
}

/// Adds `delta` to the residual, normalised first for a layer with post-norms.
pub open spec fn residual_ops(
    l: FullPipelineLayer,
    delta: Buf,
    normed: Buf,
    norm: NormRef,
    rows: usize,
    hidden: usize,
) -> Seq<DeviceOp> {
    let len = (rows * hidden) as usize;
    if l.has_post_norms {
        seq![
            DeviceOp::RmsNorm { src: delta, dst: normed, norm, rows, dim: hidden },
            DeviceOp::Add { src: normed, len },
        ]
    } else {
        seq![DeviceOp::Add { src: delta, len }]
    }
}

/// Multiplies the residual by the layer's scalar, where it has one.
pub open spec fn scale_ops(l: FullPipelineLayer, len: usize) -> Seq<DeviceOp> {
    if l.scaled() {
        seq![DeviceOp::Scale { bits: l.layer_scalar_bits, len }]
    } else {
        seq![]
    }
}

/// A failed output projection is tried once more where the caller's query width is the
/// layer's.
pub open spec fn wo_attempts(call: CallDims, d: LayerDims) -> u8 {
    if call.q_dim == d.q_dim {
        2
    } else {
        1
    }
}

/// The attention half of a layer, up to and including its residual.
pub open spec fn decode_attn_ops(
    flags: DecodeFlags,
    call: CallDims,
    l: FullPipelineLayer,
    pos: usize,
    max_seq: usize,
) -> Seq<DeviceOp> {
    let d = call.dims_for(l);
    let qkv = packs_qkv(flags, call, l);
    let out = packs_attn_out(flags, call, l);
    let x8 = packed_buf(qkv, Buf::HAttnQ8);
    let o8 = packed_buf(out, Buf::AttnOutQ8);
    seq![
        DeviceOp::RmsNorm {
            src: Buf::H,
            dst: Buf::HAttn,
            norm: NormRef::Input,
            rows: 1,
            dim: call.hidden,
        },
    ] + pack_ops(qkv, Buf::HAttn, Buf::HAttnQ8, call.hidden) + seq![
        row_project(flags, WeightRef::Wq, l.wq, Buf::HAttn, x8, Buf::Q, d.q_dim, call.hidden, 1),
    ] + seq![
        row_project(flags, WeightRef::Wk, l.wk, Buf::HAttn, x8, Buf::K, d.kv_dim, call.hidden, 1),
    ] + seq![
        row_project(flags, WeightRef::Wv, l.wv, Buf::HAttn, x8, Buf::V, d.kv_dim, call.hidden, 1),
    ] + seq![
        DeviceOp::Attention {
            kind: AttnKind::Decode { pos },
            call: attn_call(call, l, d, max_seq),
            q: Buf::Q,
            k: Buf::K,
            v: Buf::V,
            dst: Buf::AttnOut,
            rows: 1,
        },
    ] + pack_ops(out, Buf::AttnOut, Buf::AttnOutQ8, d.q_dim) + seq![
        row_project(
            flags,
            WeightRef::Wo,
            l.wo,
            Buf::AttnOut,
            o8,
            Buf::AttnDelta,
            call.hidden,
            d.q_dim,
            wo_attempts(call, d),
        ),
    ] + residual_ops(l, Buf::AttnDelta, Buf::AttnNormed, NormRef::PostAttn, 1, call.hidden)
}

/// The feed-forward half of a layer, from its norm on.
pub open spec fn decode_ffn_ops(
    flags: DecodeFlags,
    call: CallDims,
    l: FullPipelineLayer,
) -> Seq<DeviceOp> {
    let gu = packs_gate_up(flags, call, l);
    let act = packs_act(flags, call, l);
    let x8 = packed_buf(gu, Buf::HFfnQ8);
    let a8 = packed_buf(act, Buf::ActQ8);
    seq![
        DeviceOp::RmsNorm {
            src: Buf::H,
            dst: Buf::HFfn,
            norm: l.ffn_norm(),
            rows: 1,
            dim: call.hidden,
        },
    ] + pack_ops(gu, Buf::HFfn, Buf::HFfnQ8, call.hidden) + seq![
        row_project(flags, WeightRef::Gate, l.gate, Buf::HFfn, x8, Buf::Gate, call.inter, call.hidden, 1),
    ] + seq![
        row_project(flags, WeightRef::Up, l.up, Buf::HFfn, x8, Buf::Up, call.inter, call.hidden, 1),
    ] + seq![
        DeviceOp::GateUp { n: call.inter, gelu_tanh: l.activation == Activation::GeluTanh },
    ] + pack_ops(act, Buf::Act, Buf::ActQ8, call.inter) + seq![
        row_project(flags, WeightRef::Down, l.down, Buf::Act, a8, Buf::FfnDelta, call.hidden, call.inter, 1),
    ] + residual_ops(l, Buf::FfnDelta, Buf::FfnNormed, l.ffn_post_norm(), 1, call.hidden)
        + scale_ops(l, call.hidden)
}

/// One layer of a decode step.
pub open spec fn decode_layer_ops(
    flags: DecodeFlags,
    call: CallDims,
    l: FullPipelineLayer,
    index: usize,
    pos: usize,
    max_seq: usize,
) -> Seq<DeviceOp> {
    seq![DeviceOp::BeginLayer { index }] + decode_attn_ops(flags, call, l, pos, max_seq)
        + decode_ffn_ops(flags, call, l)
}

/// The first `n` layers of a decode step.
pub open spec fn decode_layers_ops(
    flags: DecodeFlags,
    call: CallDims,
    layers: Seq<FullPipelineLayer>,
    n: nat,
    pos: usize,
    max_seq: usize,
) -> Seq<DeviceOp>
    decreases n,
{
    if n == 0 {
        seq![]
    } else {
        decode_layers_ops(flags, call, layers, (n - 1) as nat, pos, max_seq) + decode_layer_ops(
            flags,
            call,
            layers[n - 1],
            (n - 1) as usize,
            pos,
            max_seq,
        )
    }
}

/// The whole decode step of one token.
pub open spec fn decode_program(
    flags: DecodeFlags,
    call: CallDims,
    layers: Seq<FullPipelineLayer>,
    pos: usize,
    max_seq: usize,
) -> Seq<DeviceOp> {
    seq![DeviceOp::Upload { len: call.hidden }] + decode_layers_ops(
        flags,
        call,
        layers,
        layers.len(),
        pos,
        max_seq,
    ) + seq![DeviceOp::Download { len: call.hidden }]
}

fn push_pack(ops: &mut Vec<DeviceOp>, wanted: bool, src: Buf, dst: Buf, n: usize) -> (packed: Option<
    Buf,
>)
    ensures
        final(ops)@ == old(ops)@ + pack_ops(wanted, src, dst, n),
        packed == packed_buf(wanted, dst),
{
    if wanted {
        ops.push(DeviceOp::QuantizeQ8 { src, dst, n, optional: true });
        Some(dst)
    } else {
        None
    }
}

fn project_row(
    flags: &DecodeFlags,
    weight: WeightRef,
    w: &QuantWeight,
    src: Buf,
    packed_src: Option<Buf>,
    dst: Buf,
    rows: usize,
    cols: usize,
    attempts: u8,
) -> (op: DeviceOp)
    ensures
        op == row_project(*flags, weight, *w, src, packed_src, dst, rows, cols, attempts),
{
    DeviceOp::Project {
        weight,
        format: w.format,
        src,
        packed_src,
        dst,
        rows_in: 1,
        rows,
        cols,
        routes: matvec_device_mmvq(flags, w.format, packed_src.is_some(), cols, cols),
        attempts,
    }
}

/// Appends the residual step of a half layer.
pub fn push_residual(
    ops: &mut Vec<DeviceOp>,
    l: &FullPipelineLayer,
    delta: Buf,
    normed: Buf,
    norm: NormRef,
    rows: usize,
    hidden: usize,
)
    requires
        rows * hidden <= usize::MAX,
    ensures
        final(ops)@ == old(ops)@ + residual_ops(*l, delta, normed, norm, rows, hidden),
{
    let len: usize = rows * hidden;
    if l.has_post_norms {
        ops.push(DeviceOp::RmsNorm { src: delta, dst: normed, norm, rows, dim: hidden });
        ops.push(DeviceOp::Add { src: normed, len });
    } else {
        ops.push(DeviceOp::Add { src: delta, len });
    }
}

/// Appends the multiplication by the layer's scalar, where it has one.
pub fn push_scale(ops: &mut Vec<DeviceOp>, l: &FullPipelineLayer, len: usize)
    ensures
        final(ops)@ == old(ops)@ + scale_ops(*l, len),
{
    if l.is_scaled() {
        ops.push(DeviceOp::Scale { bits: l.layer_scalar_bits, len });
    }
}

fn push_decode_attn(
    ops: &mut Vec<DeviceOp>,
    flags: &DecodeFlags,
    call: &CallDims,
    l: &FullPipelineLayer,
    pos: usize,
    max_seq: usize,
)
    requires
        call.widths_fit(*l),
    ensures
        final(ops)@ == old(ops)@ + decode_attn_ops(*flags, *call, *l, pos, max_seq),
{
    let d = call.layer_dims(l);
    let hidden: usize = call.hidden;
    let ghost o = ops@;
    let norm = DeviceOp::RmsNorm {
        src: Buf::H,
        dst: Buf::HAttn,
        norm: NormRef::Input,
        rows: 1,
        dim: hidden,
    };
    emit(ops, norm);
    let qkv: bool = (takes_packed(flags, l.wq.format) || takes_packed(flags, l.wk.format)
        || takes_packed(flags, l.wv.format)) && hidden % 32 == 0;
    let x8 = push_pack(ops, qkv, Buf::HAttn, Buf::HAttnQ8, hidden);
    let ghost s1 = seq![norm];
    let ghost s2 = s1 + pack_ops(qkv, Buf::HAttn, Buf::HAttnQ8, hidden);
    proof {
        lemma_regroup(o, s1, pack_ops(qkv, Buf::HAttn, Buf::HAttnQ8, hidden));
    }
    let q = project_row(flags, WeightRef::Wq, &l.wq, Buf::HAttn, x8, Buf::Q, d.q_dim, hidden, 1);
    let k = project_row(flags, WeightRef::Wk, &l.wk, Buf::HAttn, x8, Buf::K, d.kv_dim, hidden, 1);
    let v = project_row(flags, WeightRef::Wv, &l.wv, Buf::HAttn, x8, Buf::V, d.kv_dim, hidden, 1);
    let attn = DeviceOp::Attention {
        kind: AttnKind::Decode { pos },
        call: attn_call_for(call, l, &d, max_seq),
        q: Buf::Q,
        k: Buf::K,
        v: Buf::V,
        dst: Buf::AttnOut,
        rows: 1,
    };
    emit(ops, q);
    emit(ops, k);
    emit(ops, v);
    emit(ops, attn);
    let out: bool = takes_packed(flags, l.wo.format) && d.q_dim % 32 == 0;
    let ghost s3 = s2 + seq![q] + seq![k] + seq![v] + seq![attn];
    proof {
        lemma_regroup(o, s2, seq![q]);
        lemma_regroup(o, s2 + seq![q], seq![k]);
        lemma_regroup(o, s2 + seq![q] + seq![k], seq![v]);
        lemma_regroup(o, s2 + seq![q] + seq![k] + seq![v], seq![attn]);
    }
    let o8 = push_pack(ops, out, Buf::AttnOut, Buf::AttnOutQ8, d.q_dim);
    let ghost s4 = s3 + pack_ops(out, Buf::AttnOut, Buf::AttnOutQ8, d.q_dim);
    let attempts: u8 = if call.q_dim == d.q_dim {
        2
    } else {
        1
    };
    let wo = project_row(
        flags,
        WeightRef::Wo,
        &l.wo,
        Buf::AttnOut,
        o8,
        Buf::AttnDelta,
        hidden,
        d.q_dim,
        attempts,
    );
    emit(ops, wo);
    push_residual(ops, l, Buf::AttnDelta, Buf::AttnNormed, NormRef::PostAttn, 1, hidden);
    proof {
        let res = residual_ops(*l, Buf::AttnDelta, Buf::AttnNormed, NormRef::PostAttn, 1, hidden);
        lemma_regroup(o, s3, pack_ops(out, Buf::AttnOut, Buf::AttnOutQ8, d.q_dim));
        lemma_regroup(o, s4, seq![wo]);
        lemma_regroup(o, s4 + seq![wo], res);
    }
}

fn push_decode_ffn(
    ops: &mut Vec<DeviceOp>,
    flags: &DecodeFlags,
    call: &CallDims,
    l: &FullPipelineLayer,
)
    ensures
        final(ops)@ == old(ops)@ + decode_ffn_ops(*flags, *call, *l),
{
    let hidden: usize = call.hidden;
    let inter: usize = call.inter;
    let ghost o = ops@;
    let norm = DeviceOp::RmsNorm {
        src: Buf::H,
        dst: Buf::HFfn,
        norm: l.ffn_norm_ref(),
        rows: 1,
        dim: hidden,
    };
    emit(ops, norm);
    let gu: bool = flags.q4k_mmvq && (l.gate.format == QuantFormat::Q4_K || l.up.format
        == QuantFormat::Q4_K) && hidden % 32 == 0;
    let x8 = push_pack(ops, gu, Buf::HFfn, Buf::HFfnQ8, hidden);
    let ghost s1 = seq![norm];
    let ghost s2 = s1 + pack_ops(gu, Buf::HFfn, Buf::HFfnQ8, hidden);
    proof {
        lemma_regroup(o, s1, pack_ops(gu, Buf::HFfn, Buf::HFfnQ8, hidden));
    }
    let gate = project_row(flags, WeightRef::Gate, &l.gate, Buf::HFfn, x8, Buf::Gate, inter, hidden, 1);
    let up = project_row(flags, WeightRef::Up, &l.up, Buf::HFfn, x8, Buf::Up, inter, hidden, 1);
    let act_op = DeviceOp::GateUp {
        n: inter,
        gelu_tanh: l.activation == Activation::GeluTanh,
    };
    emit(ops, gate);
    emit(ops, up);
    emit(ops, act_op);
    let ghost s3 = s2 + seq![gate] + seq![up] + seq![act_op];
    proof {
        lemma_regroup(o, s2, seq![gate]);
        lemma_regroup(o, s2 + seq![gate], seq![up]);
        lemma_regroup(o, s2 + seq![gate] + seq![up], seq![act_op]);
    }
    let act: bool = takes_packed(flags, l.down.format) && inter % 32 == 0;
    let a8 = push_pack(ops, act, Buf::Act, Buf::ActQ8, inter);
    let ghost s4 = s3 + pack_ops(act, Buf::Act, Buf::ActQ8, inter);
    let down = project_row(
        flags,
        WeightRef::Down,
        &l.down,
        Buf::Act,
        a8,
        Buf::FfnDelta,
        hidden,
        inter,
        1,
    );
    emit(ops, down);
    push_residual(ops, l, Buf::FfnDelta, Buf::FfnNormed, l.ffn_post_norm_ref(), 1, hidden);
    push_scale(ops, l, hidden);
    proof {
        let res = residual_ops(*l, Buf::FfnDelta, Buf::FfnNormed, l.ffn_post_norm(), 1, hidden);
        lemma_regroup(o, s3, pack_ops(act, Buf::Act, Buf::ActQ8, inter));
        lemma_regroup(o, s4, seq![down]);
        lemma_regroup(o, s4 + seq![down], res);
        lemma_regroup(o, s4 + seq![down] + res, scale_ops(*l, hidden));
    }
}

/// Every layer's row widths can be held in a `usize`.
pub open spec fn all_widths_fit(call: CallDims, layers: Seq<FullPipelineLayer>) -> bool {
    forall|i: int| 0 <= i < layers.len() ==> call.widths_fit(#[trigger] layers[i])
}

/// The program that decodes one token at position `pos`.
pub fn plan_decode(
    flags: &DecodeFlags,
    call: &CallDims,
    layers: &[FullPipelineLayer],
    pos: usize,
    max_seq: usize,
) -> (ops: Vec<DeviceOp>)
    requires
        all_widths_fit(*call, layers@),
    ensures
        ops@ == decode_program(*flags, *call, layers@, pos, max_seq),
{
    let mut ops: Vec<DeviceOp> = Vec::new();
    let upload = DeviceOp::Upload { len: call.hidden };
    emit(&mut ops, upload);
    let mut i: usize = 0;
    assert(ops@ =~= seq![upload] + decode_layers_ops(*flags, *call, layers@, 0, pos, max_seq));
    while i < layers.len()
        invariant
            i <= layers@.len(),
            all_widths_fit(*call, layers@),
            ops@ == seq![upload] + decode_layers_ops(*flags, *call, layers@, i as nat, pos, max_seq),
        decreases layers@.len() - i,
    {
        let l = layers[i];
        assert(call.widths_fit(layers@[i as int]));
        let ghost done = decode_layers_ops(*flags, *call, layers@, i as nat, pos, max_seq);
        let ghost attn = decode_attn_ops(*flags, *call, l, pos, max_seq);
        let ghost ffn = decode_ffn_ops(*flags, *call, l);
        let begin = DeviceOp::BeginLayer { index: i };
        let ghost o = ops@;
        emit(&mut ops, begin);
        push_decode_attn(&mut ops, flags, call, &l, pos, max_seq);
        push_decode_ffn(&mut ops, flags, call, &l);
        proof {
            lemma_regroup(o, seq![begin], attn);
            lemma_regroup(o, seq![begin] + attn, ffn);
            lemma_regroup(seq![upload], done, seq![begin] + attn + ffn);
        }
        i = i + 1;
    }
    emit(&mut ops, DeviceOp::Download { len: call.hidden });
    ops
}

} // verus!
