//! Planning of a batched pass: a run of tokens through all layers at once.
//!
//! A prompt, a run of drafted tokens and a drafted tree take the same steps. They
//! differ in where the run starts and in how attention is called.

use vstd::prelude::*;

use crate::decode::{
    all_widths_fit, attn_call, attn_call_for, gemm_proj_seq, gemm_route, push_residual, push_scale,
    residual_ops, scale_ops,
};
use crate::flags::DecodeFlags;
use crate::layer::{Activation, CallDims, FullPipelineLayer, LayerDims, NormRef, QuantWeight};
use crate::program::{
    emit, lemma_regroup, AttnCall, AttnKind, Buf, DeviceOp, Routes, WeightRef,
};

verus! {

/// How a batched pass calls attention.
#[derive(Clone, Copy, Debug, PartialEq, Eq, Structural)]
pub enum SeqAttn {
    /// One call for the run.
    Batched,
    /// One call per position.
    PerPosition,
    /// One call for the run, its start held by the device.
    AtDevicePos,
    /// One call for a tree, its start held by the device.
    Tree,
}

/// A batched pass: where the run starts, how long it is, how attention is called.
#[derive(Clone, Copy, Debug, PartialEq, Eq, Structural)]
pub struct SeqPass {
    pub base_pos: usize,
    pub seq_len: usize,
    pub attn: SeqAttn,
}

/// The sizes of a pass can be held in a `usize`.
pub open spec fn pass_fits(call: CallDims, pass: SeqPass, layers: Seq<FullPipelineLayer>) -> bool {
    &&& all_widths_fit(call, layers)
    &&& pass.seq_len * call.hidden <= usize::MAX
    &&& pass.seq_len * call.inter <= usize::MAX
    &&& forall|i: int|
        0 <= i < layers.len() ==> {
            let d = call.dims_for(#[trigger] layers[i]);
            pass.seq_len * d.q_dim <= usize::MAX && pass.seq_len * d.kv_dim <= usize::MAX
        }
}

/// Projection of a run of rows.
pub open spec fn seq_project(
    flags: DecodeFlags,
    weight: WeightRef,
    w: QuantWeight,
    src: Buf,
    dst: Buf,
    seq_len: usize,
    rows: usize,
    cols: usize,
) -> DeviceOp {
    DeviceOp::Project {
        weight,
        format: w.format,
        src,
        packed_src: None,
        dst,
        rows_in: seq_len,
        rows,
        cols,
        routes: Routes { packed: None, direct: None, gemm: gemm_route(flags, w.format) },
        attempts: 1,
    }
}

fn project_seq(
    flags: &DecodeFlags,
    weight: WeightRef,
    w: &QuantWeight,
    src: Buf,
    dst: Buf,
    seq_len: usize,
    rows: usize,
    cols: usize,
) -> (op: DeviceOp)
    ensures
        op == seq_project(*flags, weight, *w, src, dst, seq_len, rows, cols),
{
    DeviceOp::Project {
        weight,
        format: w.format,
        src,
        packed_src: None,
        dst,
        rows_in: seq_len,
        rows,
        cols,
        routes: Routes { packed: None, direct: None, gemm: gemm_proj_seq(flags, w.format) },
        attempts: 1,
    }
}

/// Attention of position `pos` alone: its rows are copied out, and its output row is
/// copied back.
pub open spec fn position_ops(call: AttnCall, d: LayerDims, pos: nat) -> Seq<DeviceOp> {
    let q_off = (pos * d.q_dim) as usize;
    let kv_off = (pos * d.kv_dim) as usize;
    seq![
        DeviceOp::CopyRange {
            src: Buf::Q,
            src_off: q_off,
            dst: Buf::QPos,
            dst_off: 0,
            len: d.q_dim,
        },
        DeviceOp::CopyRange {
            src: Buf::K,
            src_off: kv_off,
            dst: Buf::KPos,
            dst_off: 0,
            len: d.kv_dim,
        },
        DeviceOp::CopyRange {
            src: Buf::V,
            src_off: kv_off,
            dst: Buf::VPos,
            dst_off: 0,
            len: d.kv_dim,
        },
        DeviceOp::Attention {
            kind: AttnKind::Decode { pos: pos as usize },
            call,
            q: Buf::QPos,
            k: Buf::KPos,
            v: Buf::VPos,
            dst: Buf::OutPos,
            rows: 1,
        },
        DeviceOp::CopyRange {
            src: Buf::OutPos,
            src_off: 0,
            dst: Buf::AttnOut,
            dst_off: q_off,
            len: d.q_dim,
        },
    ]
}

/// Attention of the first `n` positions, one after the other.
pub open spec fn positions_ops(call: AttnCall, d: LayerDims, n: nat) -> Seq<DeviceOp>
    decreases n,
{
    if n == 0 {
        seq![]
    } else {
        positions_ops(call, d, (n - 1) as nat) + position_ops(call, d, (n - 1) as nat)
    }
}

/// Room for one position's rows and for the output of the run.
pub open spec fn reserve_ops(d: LayerDims, seq_len: usize) -> Seq<DeviceOp> {
    seq![
        DeviceOp::Reserve { dst: Buf::QPos, len: d.q_dim },
        DeviceOp::Reserve { dst: Buf::KPos, len: d.kv_dim },
        DeviceOp::Reserve { dst: Buf::VPos, len: d.kv_dim },
        DeviceOp::Reserve { dst: Buf::AttnOut, len: (seq_len * d.q_dim) as usize },
    ]
}

/// Attention of a pass.
pub open spec fn seq_attn_ops(pass: SeqPass, call: AttnCall, d: LayerDims) -> Seq<DeviceOp> {
    match pass.attn {
        SeqAttn::PerPosition => reserve_ops(d, pass.seq_len) + positions_ops(
            call,
            d,
            pass.seq_len as nat,
        ),
        _ => seq![
            DeviceOp::Attention {
                kind: match pass.attn {
                    SeqAttn::AtDevicePos => AttnKind::RunAtDevicePos { base_pos: pass.base_pos },
                    SeqAttn::Tree => AttnKind::TreeAtDevicePos { base_pos: pass.base_pos },
                    _ => AttnKind::Run { base_pos: pass.base_pos },
                },
                call,
                q: Buf::Q,
                k: Buf::K,
                v: Buf::V,
                dst: Buf::AttnOut,
                rows: pass.seq_len,
            },
        ],
    }
}

/// The attention half of a layer.
pub open spec fn seq_attn_half(
    flags: DecodeFlags,
    call: CallDims,
    l: FullPipelineLayer,
    pass: SeqPass,
    max_seq: usize,
) -> Seq<DeviceOp> {
    let d = call.dims_for(l);
    let n = pass.seq_len;
    seq![
        DeviceOp::RmsNorm {
            src: Buf::H,
            dst: Buf::HAttn,
            norm: NormRef::Input,
            rows: n,
            dim: call.hidden,
        },
    ] + seq![
        seq_project(flags, WeightRef::Wq, l.wq, Buf::HAttn, Buf::Q, n, d.q_dim, call.hidden),
    ] + seq![
        seq_project(flags, WeightRef::Wk, l.wk, Buf::HAttn, Buf::K, n, d.kv_dim, call.hidden),
    ] + seq![
        seq_project(flags, WeightRef::Wv, l.wv, Buf::HAttn, Buf::V, n, d.kv_dim, call.hidden),
    ] + seq_attn_ops(pass, attn_call(call, l, d, max_seq), d) + seq![
        seq_project(flags, WeightRef::Wo, l.wo, Buf::AttnOut, Buf::AttnDelta, n, call.hidden, d.q_dim),
    ] + residual_ops(l, Buf::AttnDelta, Buf::AttnNormed, NormRef::PostAttn, n, call.hidden)
}

/// The feed-forward half of a layer.
pub open spec fn seq_ffn_half(
    flags: DecodeFlags,
    call: CallDims,
    l: FullPipelineLayer,
    n: usize,
) -> Seq<DeviceOp> {
    seq![
        DeviceOp::RmsNorm {
            src: Buf::H,
            dst: Buf::HFfn,
            norm: l.ffn_norm(),
            rows: n,
            dim: call.hidden,
        },
    ] + seq![
        seq_project(flags, WeightRef::Gate, l.gate, Buf::HFfn, Buf::Gate, n, call.inter, call.hidden),
    ] + seq![
        seq_project(flags, WeightRef::Up, l.up, Buf::HFfn, Buf::Up, n, call.inter, call.hidden),
    ] + seq![
        DeviceOp::GateUp {
            n: (n * call.inter) as usize,
            gelu_tanh: l.activation == Activation::GeluTanh,
        },
    ] + seq![
        seq_project(flags, WeightRef::Down, l.down, Buf::Act, Buf::FfnDelta, n, call.hidden, call.inter),
    ] + residual_ops(l, Buf::FfnDelta, Buf::FfnNormed, l.ffn_post_norm(), n, call.hidden)
        + scale_ops(l, (n * call.hidden) as usize)
}

/// One layer of a batched pass.
pub open spec fn seq_layer_ops(
    flags: DecodeFlags,
    call: CallDims,
    l: FullPipelineLayer,
    index: usize,
    pass: SeqPass,
    max_seq: usize,
) -> Seq<DeviceOp> {
    seq![DeviceOp::BeginLayer { index }] + seq_attn_half(flags, call, l, pass, max_seq)
        + seq_ffn_half(flags, call, l, pass.seq_len)
}

/// The first `n` layers of a batched pass.
pub open spec fn seq_layers_ops(
    flags: DecodeFlags,
    call: CallDims,
    layers: Seq<FullPipelineLayer>,
    n: nat,
    pass: SeqPass,
    max_seq: usize,
) -> Seq<DeviceOp>
    decreases n,
{
    if n == 0 {
        seq![]
    } else {
        seq_layers_ops(flags, call, layers, (n - 1) as nat, pass, max_seq) + seq_layer_ops(
            flags,
            call,
            layers[n - 1],
            (n - 1) as usize,
            pass,
            max_seq,
        )
    }
}

/// The whole batched pass.
pub open spec fn seq_program(
    flags: DecodeFlags,
    call: CallDims,
    layers: Seq<FullPipelineLayer>,
    pass: SeqPass,
    max_seq: usize,
) -> Seq<DeviceOp> {
    let len = (pass.seq_len * call.hidden) as usize;
    seq![DeviceOp::Upload { len }] + seq_layers_ops(
        flags,
        call,
        layers,
        layers.len(),
        pass,
        max_seq,
    ) + seq![DeviceOp::Download { len }]
}

fn push_positions(ops: &mut Vec<DeviceOp>, call: &AttnCall, d: &LayerDims, seq_len: usize)
    requires
        seq_len * d.q_dim <= usize::MAX,
        seq_len * d.kv_dim <= usize::MAX,
    ensures
        final(ops)@ == old(ops)@ + (reserve_ops(*d, seq_len) + positions_ops(
            *call,
            *d,
            seq_len as nat,
        )),
{
    let ghost o = ops@;
    ops.push(DeviceOp::Reserve { dst: Buf::QPos, len: d.q_dim });
    ops.push(DeviceOp::Reserve { dst: Buf::KPos, len: d.kv_dim });
    ops.push(DeviceOp::Reserve { dst: Buf::VPos, len: d.kv_dim });
    ops.push(DeviceOp::Reserve { dst: Buf::AttnOut, len: seq_len * d.q_dim });
    let ghost head = o + reserve_ops(*d, seq_len);
    assert(ops@ =~= head);
    assert(head + positions_ops(*call, *d, 0) =~= head);
    let mut pos: usize = 0;
    while pos < seq_len
        invariant
            pos <= seq_len,
            seq_len * d.q_dim <= usize::MAX,
            seq_len * d.kv_dim <= usize::MAX,
            ops@ == head + positions_ops(*call, *d, pos as nat),
        decreases seq_len - pos,
    {
        assert(pos * d.q_dim <= seq_len * d.q_dim && pos * d.kv_dim <= seq_len * d.kv_dim)
            by (nonlinear_arith)
            requires
                pos <= seq_len,
        ;
        let q_off: usize = pos * d.q_dim;
        let kv_off: usize = pos * d.kv_dim;
        let ghost before = ops@;
        ops.push(
            DeviceOp::CopyRange {
                src: Buf::Q,
                src_off: q_off,
                dst: Buf::QPos,
                dst_off: 0,
                len: d.q_dim,
            },
        );
        ops.push(
            DeviceOp::CopyRange {
                src: Buf::K,
                src_off: kv_off,
                dst: Buf::KPos,
                dst_off: 0,
                len: d.kv_dim,
            },
        );
        ops.push(
            DeviceOp::CopyRange {
                src: Buf::V,
                src_off: kv_off,
                dst: Buf::VPos,
                dst_off: 0,
                len: d.kv_dim,
            },
        );
        ops.push(
            DeviceOp::Attention {
                kind: AttnKind::Decode { pos },
                call: *call,
                q: Buf::QPos,
                k: Buf::KPos,
                v: Buf::VPos,
                dst: Buf::OutPos,
                rows: 1,
            },
        );
        ops.push(
            DeviceOp::CopyRange {
                src: Buf::OutPos,
                src_off: 0,
                dst: Buf::AttnOut,
                dst_off: q_off,
                len: d.q_dim,
            },
        );
        assert(ops@ =~= before + position_ops(*call, *d, pos as nat));
        proof {
            lemma_regroup(
                head,
                positions_ops(*call, *d, pos as nat),
                position_ops(*call, *d, pos as nat),
            );
        }
        pos = pos + 1;
    }
    proof {
        lemma_regroup(o, reserve_ops(*d, seq_len), positions_ops(*call, *d, seq_len as nat));
    }
}

fn push_seq_attn(ops: &mut Vec<DeviceOp>, pass: &SeqPass, call: &AttnCall, d: &LayerDims)
    requires
        pass.seq_len * d.q_dim <= usize::MAX,
        pass.seq_len * d.kv_dim <= usize::MAX,
    ensures
        final(ops)@ == old(ops)@ + seq_attn_ops(*pass, *call, *d),
{
    let kind: AttnKind = match pass.attn {
        SeqAttn::PerPosition => {
            push_positions(ops, call, d, pass.seq_len);
            return;
        },
        SeqAttn::Batched => AttnKind::Run { base_pos: pass.base_pos },
        SeqAttn::AtDevicePos => AttnKind::RunAtDevicePos { base_pos: pass.base_pos },
        SeqAttn::Tree => AttnKind::TreeAtDevicePos { base_pos: pass.base_pos },
    };
    emit(
        ops,
        DeviceOp::Attention {
            kind,
            call: *call,
            q: Buf::Q,
            k: Buf::K,
            v: Buf::V,
            dst: Buf::AttnOut,
            rows: pass.seq_len,
        },
    );
}

fn push_seq_attn_half(
    ops: &mut Vec<DeviceOp>,
    flags: &DecodeFlags,
    call: &CallDims,
    l: &FullPipelineLayer,
    pass: &SeqPass,
    max_seq: usize,
)
    requires
        call.widths_fit(*l),
        pass.seq_len * call.hidden <= usize::MAX,
        pass.seq_len * call.dims_for(*l).q_dim <= usize::MAX,
        pass.seq_len * call.dims_for(*l).kv_dim <= usize::MAX,
    ensures
        final(ops)@ == old(ops)@ + seq_attn_half(*flags, *call, *l, *pass, max_seq),
{
    let d = call.layer_dims(l);
    let n: usize = pass.seq_len;
    let hidden: usize = call.hidden;
    let ghost o = ops@;
    let norm = DeviceOp::RmsNorm {
        src: Buf::H,
        dst: Buf::HAttn,
        norm: NormRef::Input,
        rows: n,
        dim: hidden,
    };
    let q = project_seq(flags, WeightRef::Wq, &l.wq, Buf::HAttn, Buf::Q, n, d.q_dim, hidden);
    let k = project_seq(flags, WeightRef::Wk, &l.wk, Buf::HAttn, Buf::K, n, d.kv_dim, hidden);
    let v = project_seq(flags, WeightRef::Wv, &l.wv, Buf::HAttn, Buf::V, n, d.kv_dim, hidden);
    let call_attn = attn_call_for(call, l, &d, max_seq);
    let wo = project_seq(
        flags,
        WeightRef::Wo,
        &l.wo,
        Buf::AttnOut,
        Buf::AttnDelta,
        n,
        hidden,
        d.q_dim,
    );
    emit(ops, norm);
    emit(ops, q);
    emit(ops, k);
    emit(ops, v);
    push_seq_attn(ops, pass, &call_attn, &d);
    emit(ops, wo);
    push_residual(ops, l, Buf::AttnDelta, Buf::AttnNormed, NormRef::PostAttn, n, hidden);
    proof {
        let s1 = seq![norm];
        let s2 = s1 + seq![q];
        let s3 = s2 + seq![k];
        let s4 = s3 + seq![v];
        let s5 = s4 + seq_attn_ops(*pass, call_attn, d);
        let s6 = s5 + seq![wo];
        lemma_regroup(o, s1, seq![q]);
        lemma_regroup(o, s2, seq![k]);
        lemma_regroup(o, s3, seq![v]);
        lemma_regroup(o, s4, seq_attn_ops(*pass, call_attn, d));
        lemma_regroup(o, s5, seq![wo]);
        lemma_regroup(
            o,
            s6,
            residual_ops(*l, Buf::AttnDelta, Buf::AttnNormed, NormRef::PostAttn, n, hidden),
        );
    }
}

fn push_seq_ffn_half(
    ops: &mut Vec<DeviceOp>,
    flags: &DecodeFlags,
    call: &CallDims,
    l: &FullPipelineLayer,
    n: usize,
)
    requires
        n * call.hidden <= usize::MAX,
        n * call.inter <= usize::MAX,
    ensures
        final(ops)@ == old(ops)@ + seq_ffn_half(*flags, *call, *l, n),
{
    let hidden: usize = call.hidden;
    let inter: usize = call.inter;
    let ghost o = ops@;
    let norm = DeviceOp::RmsNorm {
        src: Buf::H,
        dst: Buf::HFfn,
        norm: l.ffn_norm_ref(),
        rows: n,
        dim: hidden,
    };
    let gate = project_seq(flags, WeightRef::Gate, &l.gate, Buf::HFfn, Buf::Gate, n, inter, hidden);
    let up = project_seq(flags, WeightRef::Up, &l.up, Buf::HFfn, Buf::Up, n, inter, hidden);
    let act = DeviceOp::GateUp {
        n: n * inter,
        gelu_tanh: l.activation == Activation::GeluTanh,
    };
    let down = project_seq(
        flags,
        WeightRef::Down,
        &l.down,
        Buf::Act,
        Buf::FfnDelta,
        n,
        hidden,
        inter,
    );
    emit(ops, norm);
    emit(ops, gate);
    emit(ops, up);
    emit(ops, act);
    emit(ops, down);
    push_residual(ops, l, Buf::FfnDelta, Buf::FfnNormed, l.ffn_post_norm_ref(), n, hidden);
    push_scale(ops, l, n * hidden);
    proof {
        let res = residual_ops(*l, Buf::FfnDelta, Buf::FfnNormed, l.ffn_post_norm(), n, hidden);
        let s1 = seq![norm];
        let s2 = s1 + seq![gate];
        let s3 = s2 + seq![up];
        let s4 = s3 + seq![act];
        let s5 = s4 + seq![down];
        lemma_regroup(o, s1, seq![gate]);
        lemma_regroup(o, s2, seq![up]);
        lemma_regroup(o, s3, seq![act]);
        lemma_regroup(o, s4, seq![down]);
        lemma_regroup(o, s5, res);
        lemma_regroup(o, s5 + res, scale_ops(*l, (n * hidden) as usize));
    }
}

fn push_seq_layers(
    ops: &mut Vec<DeviceOp>,
    flags: &DecodeFlags,
    call: &CallDims,
    layers: &[FullPipelineLayer],
    pass: &SeqPass,
    max_seq: usize,
)
    requires
        pass_fits(*call, *pass, layers@),
    ensures
        final(ops)@ == old(ops)@ + seq_layers_ops(
            *flags,
            *call,
            layers@,
            layers@.len(),
            *pass,
            max_seq,
        ),
{
    let ghost before = ops@;
    let mut i: usize = 0;
    assert(ops@ =~= before + seq_layers_ops(*flags, *call, layers@, 0, *pass, max_seq));
    while i < layers.len()
        invariant
            i <= layers@.len(),
            pass_fits(*call, *pass, layers@),
            ops@ == before + seq_layers_ops(*flags, *call, layers@, i as nat, *pass, max_seq),
        decreases layers@.len() - i,
    {
        let l = layers[i];
        assert(call.widths_fit(layers@[i as int]));
        assert(pass.seq_len * call.dims_for(layers@[i as int]).q_dim <= usize::MAX);
        let begin = DeviceOp::BeginLayer { index: i };
        let ghost o = ops@;
        emit(ops, begin);
        push_seq_attn_half(ops, flags, call, &l, pass, max_seq);
        push_seq_ffn_half(ops, flags, call, &l, pass.seq_len);
        proof {
            let done = seq_layers_ops(*flags, *call, layers@, i as nat, *pass, max_seq);
            let attn = seq_attn_half(*flags, *call, l, *pass, max_seq);
            let ffn = seq_ffn_half(*flags, *call, l, pass.seq_len);
            lemma_regroup(o, seq![begin], attn);
            lemma_regroup(o, seq![begin] + attn, ffn);
            lemma_regroup(before, done, seq![begin] + attn + ffn);
        }
        i = i + 1;
    }
}

/// The program of a batched pass.
pub fn plan_seq(
    flags: &DecodeFlags,
    call: &CallDims,
    layers: &[FullPipelineLayer],
    pass: &SeqPass,
    max_seq: usize,
) -> (ops: Vec<DeviceOp>)
    requires
        pass_fits(*call, *pass, layers@),
    ensures
        ops@ == seq_program(*flags, *call, layers@, *pass, max_seq),
{
    let mut ops: Vec<DeviceOp> = Vec::new();
    let len: usize = pass.seq_len * call.hidden;
    emit(&mut ops, DeviceOp::Upload { len });
    push_seq_layers(&mut ops, flags, call, layers, pass, max_seq);
    emit(&mut ops, DeviceOp::Download { len });
    ops
}

/// The program of a batched pass over fixed buffers, whose rows are placed before it runs and
/// fetched after it.
pub fn plan_placed_seq(
    flags: &DecodeFlags,
    call: &CallDims,
    layers: &[FullPipelineLayer],
    pass: &SeqPass,
    max_seq: usize,
) -> (ops: Vec<DeviceOp>)
    requires
        pass_fits(*call, *pass, layers@),
    ensures
        ops@ == seq_layers_ops(*flags, *call, layers@, layers@.len(), *pass, max_seq),
{
    let mut ops: Vec<DeviceOp> = Vec::new();
    push_seq_layers(&mut ops, flags, call, layers, pass, max_seq);
    ops
}

/// How attention is called follows the pass: one call for all rows, in which the start is the
/// host's for a plain run and the device's for the two others, and only a tree is one; or one
/// call for each position.
pub proof fn law_attention_follows_the_pass(pass: SeqPass, call: AttnCall, d: LayerDims)
    ensures
        ({
            let ops = seq_attn_ops(pass, call, d);
            &&& pass.attn != SeqAttn::PerPosition ==> ops.len() == 1 && ops[0] is Attention
                && ops[0]->Attention_rows == pass.seq_len && ops[0]->Attention_call == call
            &&& pass.attn == SeqAttn::Batched ==> ops[0]->Attention_kind == (AttnKind::Run {
                base_pos: pass.base_pos,
            })
            &&& pass.attn == SeqAttn::AtDevicePos ==> ops[0]->Attention_kind
                == (AttnKind::RunAtDevicePos { base_pos: pass.base_pos })
            &&& pass.attn == SeqAttn::Tree ==> ops[0]->Attention_kind
                == (AttnKind::TreeAtDevicePos { base_pos: pass.base_pos })
            &&& pass.attn == SeqAttn::PerPosition ==> ops.len() == 4 + 5 * pass.seq_len
        }),
{
    lemma_positions_len(call, d, pass.seq_len as nat);
}

proof fn lemma_positions_len(call: AttnCall, d: LayerDims, n: nat)
    ensures
        positions_ops(call, d, n).len() == 5 * n,
    decreases n,
{
    if n > 0 {
        lemma_positions_len(call, d, (n - 1) as nat);
    }
}

} // verus!
