//! Planning of a decode step that brings every row back to the host.
//!
//! Slower than the device-resident step and meant as its reference.

use vstd::prelude::*;

use crate::decode::{
    attn_call, attn_call_for, push_residual, push_scale, residual_ops, scale_ops, wo_attempts,
};
use crate::layer::{
    Activation, CallDims, FullPipelineLayer, LayerDims, NormRef, QuantFormat, QuantWeight,
};
use crate::program::{emit, lemma_regroup, AttnKind, Buf, DeviceOp, HostRoute, WeightRef};

verus! {

/// Whether the host can expand a matrix of `rows * cols` elements to `f32`. Packed
/// formats are checked when they are expanded; plain `f32` must have the exact length.
pub open spec fn expandable(w: QuantWeight, rows: usize, cols: usize) -> bool {
    match w.format {
        QuantFormat::Q4_0
        | QuantFormat::Q4_K
        | QuantFormat::Q4_KF
        | QuantFormat::Q5_K
        | QuantFormat::Q6_K => true,
        QuantFormat::F32 => w.data_len == rows * cols * 4,
        QuantFormat::BF16 | QuantFormat::F16 | QuantFormat::Q8_0 => false,
    }
}

/// The size of an expanded matrix, in elements and for plain `f32` in bytes, can be held in
/// a `usize`. Formats that are not expanded have none.
pub open spec fn matrix_fits(w: QuantWeight, rows: usize, cols: usize) -> bool {
    match w.format {
        QuantFormat::Q4_0
        | QuantFormat::Q4_K
        | QuantFormat::Q4_KF
        | QuantFormat::Q5_K
        | QuantFormat::Q6_K => rows * cols <= usize::MAX,
        QuantFormat::F32 => rows * cols * 4 <= usize::MAX,
        QuantFormat::BF16 | QuantFormat::F16 | QuantFormat::Q8_0 => true,
    }
}

/// Whether the host can expand the matrix.
pub fn dequant_weight(w: &QuantWeight, rows: usize, cols: usize) -> (r: bool)
    requires
        matrix_fits(*w, rows, cols),
    ensures
        r == expandable(*w, rows, cols),
        w.format == QuantFormat::F32 ==> (r <==> w.data_len == rows * cols * 4),
        w.format == QuantFormat::BF16 || w.format == QuantFormat::F16 || w.format
            == QuantFormat::Q8_0 ==> !r,
        w.format == QuantFormat::Q4_0 || w.format == QuantFormat::Q4_K || w.format
            == QuantFormat::Q4_KF || w.format == QuantFormat::Q5_K || w.format == QuantFormat::Q6_K
            ==> r,
{
    match w.format {
        QuantFormat::Q4_0
        | QuantFormat::Q4_K
        | QuantFormat::Q4_KF
        | QuantFormat::Q5_K
        | QuantFormat::Q6_K => true,
        QuantFormat::F32 => {
            assert(rows * cols <= usize::MAX);
            w.data_len == rows * cols * 4
        },
        QuantFormat::BF16 | QuantFormat::F16 | QuantFormat::Q8_0 => false,
    }
}

/// The route of a projection from a host row of `x_len` elements.
pub open spec fn host_route(w: QuantWeight, x_len: usize, rows: usize, cols: usize) -> Option<
    HostRoute,
> {
    if x_len != cols {
        None
    } else {
        match w.format {
            QuantFormat::Q4_K => Some(HostRoute::Q4k),
            QuantFormat::Q4_KF => Some(HostRoute::Q4kf),
            QuantFormat::Q6_K => Some(HostRoute::Q6k),
            _ => if expandable(w, rows, cols) {
                Some(HostRoute::ExpandGemv)
            } else {
                None
            },
        }
    }
}

/// The route of a projection from a host row.
pub fn matvec(w: &QuantWeight, x_len: usize, rows: usize, cols: usize) -> (r: Option<HostRoute>)
    requires
        x_len == cols ==> matrix_fits(*w, rows, cols),
    ensures
        r == host_route(*w, x_len, rows, cols),
        x_len != cols ==> r is None,
        x_len == cols ==> {
            &&& r == Some(HostRoute::Q4k) <==> w.format == QuantFormat::Q4_K
            &&& r == Some(HostRoute::Q4kf) <==> w.format == QuantFormat::Q4_KF
            &&& r == Some(HostRoute::Q6k) <==> w.format == QuantFormat::Q6_K
            &&& r == Some(HostRoute::ExpandGemv) <==> w.format == QuantFormat::Q4_0 || w.format
                == QuantFormat::Q5_K || (w.format == QuantFormat::F32 && w.data_len == rows * cols
                * 4)
        },
{
    if x_len != cols {
        return None;
    }
    match w.format {
        QuantFormat::Q4_K => Some(HostRoute::Q4k),
        QuantFormat::Q4_KF => Some(HostRoute::Q4kf),
        QuantFormat::Q6_K => Some(HostRoute::Q6k),
        _ => if dequant_weight(w, rows, cols) {
            Some(HostRoute::ExpandGemv)
        } else {
            None
        },
    }
}

/// The sizes of a layer's expanded matrices can be held in a `usize`.
pub open spec fn matrices_fit(call: CallDims, l: FullPipelineLayer) -> bool {
    let d = call.dims_for(l);
    &&& call.widths_fit(l)
    &&& matrix_fits(l.wq, d.q_dim, call.hidden)
    &&& matrix_fits(l.wk, d.kv_dim, call.hidden)
    &&& matrix_fits(l.wv, d.kv_dim, call.hidden)
    &&& matrix_fits(l.wo, call.hidden, d.q_dim)
    &&& matrix_fits(l.gate, call.inter, call.hidden)
    &&& matrix_fits(l.up, call.inter, call.hidden)
    &&& matrix_fits(l.down, call.hidden, call.inter)
}

/// The step comes to layer `i`: it and all layers before it are of the kind that the host
/// step knows.
pub open spec fn reached(layers: Seq<FullPipelineLayer>, i: int) -> bool {
    0 <= i < layers.len() && all_plain(layers.take(i + 1))
}

/// The matrices of every layer that the step comes to fit.
pub open spec fn all_matrices_fit(call: CallDims, layers: Seq<FullPipelineLayer>) -> bool {
    forall|i: int| #[trigger] reached(layers, i) ==> matrices_fit(call, layers[i])
}

/// The activation is one that the host computes.
pub open spec fn host_activation(l: FullPipelineLayer) -> bool {
    l.activation == Activation::Silu || l.activation == Activation::GeluTanh
}

/// Projection of a host row.
pub open spec fn host_project(
    weight: WeightRef,
    w: QuantWeight,
    src: Buf,
    dst: Buf,
    rows: usize,
    cols: usize,
    attempts: u8,
) -> DeviceOp {
    DeviceOp::HostProject {
        weight,
        format: w.format,
        src,
        dst,
        rows,
        cols,
        route: host_route(w, cols, rows, cols),
        attempts,
    }
}

fn project_host(
    weight: WeightRef,
    w: &QuantWeight,
    src: Buf,
    dst: Buf,
    rows: usize,
    cols: usize,
    attempts: u8,
) -> (op: DeviceOp)
    requires
        matrix_fits(*w, rows, cols),
    ensures
        op == host_project(weight, *w, src, dst, rows, cols, attempts),
{
    DeviceOp::HostProject {
        weight,
        format: w.format,
        src,
        dst,
        rows,
        cols,
        route: matvec(w, cols, rows, cols),
        attempts,
    }
}

/// A Q4_K weight among the three keeps the projections apart.
pub open spec fn separate_qkv(l: FullPipelineLayer) -> bool {
    l.wq.format == QuantFormat::Q4_K || l.wk.format == QuantFormat::Q4_K || l.wv.format
        == QuantFormat::Q4_K
}

/// Query, key and value.
pub open spec fn host_qkv_ops(call: CallDims, l: FullPipelineLayer, d: LayerDims) -> Seq<DeviceOp> {
    let hidden = call.hidden;
    if separate_qkv(l) {
        seq![
            host_project(WeightRef::Wq, l.wq, Buf::HAttn, Buf::Q, d.q_dim, hidden, 1),
            host_project(WeightRef::Wk, l.wk, Buf::HAttn, Buf::K, d.kv_dim, hidden, 1),
            host_project(WeightRef::Wv, l.wv, Buf::HAttn, Buf::V, d.kv_dim, hidden, 1),
        ]
    } else {
        seq![
            DeviceOp::QkvRmsProj {
                q_dim: d.q_dim,
                kv_dim: d.kv_dim,
                dim: hidden,
                expandable: expandable(l.wq, d.q_dim, hidden) && expandable(l.wk, d.kv_dim, hidden)
                    && expandable(l.wv, d.kv_dim, hidden),
            },
        ]
    }
}

/// The attention half of a layer.
pub open spec fn host_attn_half(
    call: CallDims,
    l: FullPipelineLayer,
    pos: usize,
    max_seq: usize,
) -> Seq<DeviceOp> {
    let d = call.dims_for(l);
    let hidden = call.hidden;
    seq![
        DeviceOp::RmsNorm {
            src: Buf::H,
            dst: Buf::HAttn,
            norm: NormRef::Input,
            rows: 1,
            dim: hidden,
        },
    ] + host_qkv_ops(call, l, d) + seq![
        DeviceOp::Attention {
            kind: AttnKind::DecodeThroughHost { pos },
            call: attn_call(call, l, d, max_seq),
            q: Buf::Q,
            k: Buf::K,
            v: Buf::V,
            dst: Buf::AttnOut,
            rows: 1,
        },
    ] + seq![
        host_project(
            WeightRef::Wo,
            l.wo,
            Buf::AttnOut,
            Buf::AttnDelta,
            hidden,
            d.q_dim,
            wo_attempts(call, d),
        ),
    ] + residual_ops(l, Buf::AttnDelta, Buf::AttnNormed, NormRef::PostAttn, 1, hidden)
}

/// The feed-forward half of a layer.
pub open spec fn host_ffn_half(call: CallDims, l: FullPipelineLayer) -> Seq<DeviceOp> {
    let hidden = call.hidden;
    let inter = call.inter;
    seq![
        DeviceOp::RmsNorm { src: Buf::H, dst: Buf::HFfn, norm: l.ffn_norm(), rows: 1, dim: hidden },
    ] + seq![host_project(WeightRef::Gate, l.gate, Buf::HFfn, Buf::Gate, inter, hidden, 1)] + seq![
        host_project(WeightRef::Up, l.up, Buf::HFfn, Buf::Up, inter, hidden, 1),
    ] + seq![
        DeviceOp::GateUp { n: inter, gelu_tanh: l.activation == Activation::GeluTanh },
    ] + seq![host_project(WeightRef::Down, l.down, Buf::Act, Buf::FfnDelta, hidden, inter, 1)]
        + residual_ops(l, Buf::FfnDelta, Buf::FfnNormed, l.ffn_post_norm(), 1, hidden) + scale_ops(
        l,
        hidden,
    )
}

/// One layer.
pub open spec fn host_layer_ops(
    call: CallDims,
    l: FullPipelineLayer,
    index: usize,
    pos: usize,
    max_seq: usize,
) -> Seq<DeviceOp> {
    seq![DeviceOp::BeginLayer { index }] + host_attn_half(call, l, pos, max_seq) + host_ffn_half(
        call,
        l,
    )
}

/// The first `n` layers.
pub open spec fn host_layers_ops(
    call: CallDims,
    layers: Seq<FullPipelineLayer>,
    n: nat,
    pos: usize,
    max_seq: usize,
) -> Seq<DeviceOp>
    decreases n,
{
    if n == 0 {
        seq![]
    } else {
        host_layers_ops(call, layers, (n - 1) as nat, pos, max_seq) + host_layer_ops(
            call,
            layers[n - 1],
            (n - 1) as usize,
            pos,
            max_seq,
        )
    }
}

/// All layers are of the one kind that the host step knows.
pub open spec fn all_plain(layers: Seq<FullPipelineLayer>) -> bool {
    forall|i: int| 0 <= i < layers.len() ==> (#[trigger] layers[i]).plain()
}

fn push_host_qkv(
    ops: &mut Vec<DeviceOp>,
    call: &CallDims,
    l: &FullPipelineLayer,
    d: &LayerDims,
)
    requires
        matrix_fits(l.wq, d.q_dim, call.hidden),
        matrix_fits(l.wk, d.kv_dim, call.hidden),
        matrix_fits(l.wv, d.kv_dim, call.hidden),
    ensures
        final(ops)@ == old(ops)@ + host_qkv_ops(*call, *l, *d),
{
    let hidden: usize = call.hidden;
    if l.wq.format == QuantFormat::Q4_K || l.wk.format == QuantFormat::Q4_K || l.wv.format
        == QuantFormat::Q4_K {
        ops.push(project_host(WeightRef::Wq, &l.wq, Buf::HAttn, Buf::Q, d.q_dim, hidden, 1));
        ops.push(project_host(WeightRef::Wk, &l.wk, Buf::HAttn, Buf::K, d.kv_dim, hidden, 1));
        ops.push(project_host(WeightRef::Wv, &l.wv, Buf::HAttn, Buf::V, d.kv_dim, hidden, 1));
    } else {
        let all: bool = dequant_weight(&l.wq, d.q_dim, hidden) && dequant_weight(
            &l.wk,
            d.kv_dim,
            hidden,
        ) && dequant_weight(&l.wv, d.kv_dim, hidden);
        ops.push(
            DeviceOp::QkvRmsProj {
                q_dim: d.q_dim,
                kv_dim: d.kv_dim,
                dim: hidden,
                expandable: all,
            },
        );
    }
    assert(ops@ =~= old(ops)@ + host_qkv_ops(*call, *l, *d));
}

fn push_host_attn_half(
    ops: &mut Vec<DeviceOp>,
    call: &CallDims,
    l: &FullPipelineLayer,
    pos: usize,
    max_seq: usize,
)
    requires
        matrices_fit(*call, *l),
    ensures
        final(ops)@ == old(ops)@ + host_attn_half(*call, *l, pos, max_seq),
{
    let d = call.layer_dims(l);
    let hidden: usize = call.hidden;
    let ghost o = ops@;
    let norm = DeviceOp::RmsNorm {
        src: Buf::H,
        dst: Buf::HAttn,
        norm: NormRef::Input,
        rows: 1,
        dim: hidden,
    };
    let attn = DeviceOp::Attention {
        kind: AttnKind::DecodeThroughHost { pos },
        call: attn_call_for(call, l, &d, max_seq),
        q: Buf::Q,
        k: Buf::K,
        v: Buf::V,
        dst: Buf::AttnOut,
        rows: 1,
    };
    let attempts: u8 = if call.q_dim == d.q_dim {
        2
    } else {
        1
    };
    let wo = project_host(
        WeightRef::Wo,
        &l.wo,
        Buf::AttnOut,
        Buf::AttnDelta,
        hidden,
        d.q_dim,
        attempts,
    );
    emit(ops, norm);
    push_host_qkv(ops, call, l, &d);
    emit(ops, attn);
    emit(ops, wo);
    push_residual(ops, l, Buf::AttnDelta, Buf::AttnNormed, NormRef::PostAttn, 1, hidden);
    proof {
        let s1 = seq![norm];
        let s2 = s1 + host_qkv_ops(*call, *l, d);
        let s3 = s2 + seq![attn];
        let s4 = s3 + seq![wo];
        lemma_regroup(o, s1, host_qkv_ops(*call, *l, d));
        lemma_regroup(o, s2, seq![attn]);
        lemma_regroup(o, s3, seq![wo]);
        lemma_regroup(
            o,
            s4,
            residual_ops(*l, Buf::AttnDelta, Buf::AttnNormed, NormRef::PostAttn, 1, hidden),
        );
    }
}

fn push_host_ffn_half(ops: &mut Vec<DeviceOp>, call: &CallDims, l: &FullPipelineLayer)
    requires
        matrices_fit(*call, *l),
    ensures
        final(ops)@ == old(ops)@ + host_ffn_half(*call, *l),
{
    let hidden: usize = call.hidden;
    let inter: usize = call.inter;
    let ghost o = ops@;
    let norm = DeviceOp::RmsNorm {
        src: Buf::H,
        dst: Buf::HFfn,
        norm: l.ffn_norm_ref(),
        rows: 1,
        dim: hidden,
    };
    let gate = project_host(WeightRef::Gate, &l.gate, Buf::HFfn, Buf::Gate, inter, hidden, 1);
    let up = project_host(WeightRef::Up, &l.up, Buf::HFfn, Buf::Up, inter, hidden, 1);
    let act = DeviceOp::GateUp { n: inter, gelu_tanh: l.activation == Activation::GeluTanh };
    let down = project_host(WeightRef::Down, &l.down, Buf::Act, Buf::FfnDelta, hidden, inter, 1);
    emit(ops, norm);
    emit(ops, gate);
    emit(ops, up);
    emit(ops, act);
    emit(ops, down);
    push_residual(ops, l, Buf::FfnDelta, Buf::FfnNormed, l.ffn_post_norm_ref(), 1, hidden);
    push_scale(ops, l, hidden);
    proof {
        let res = residual_ops(*l, Buf::FfnDelta, Buf::FfnNormed, l.ffn_post_norm(), 1, hidden);
        let s1 = seq![norm];
        let s2 = s1 + seq![gate];
        let s3 = s2 + seq![up];
        let s4 = s3 + seq![act];
        let s5 = s4 + seq![down];
        lemma_regroup(o, s1, seq![gate]);
        lemma_regroup(o, s2, seq![up]);
        lemma_regroup(o, s3, seq![act]);
        lemma_regroup(o, s4, seq![down]);
        lemma_regroup(o, s5, res);
        lemma_regroup(o, s5 + res, scale_ops(*l, hidden));
    }
}

/// The layers among the first `n` that the step comes to: those in front of the first that is
/// not of the kind that the host step knows.
pub open spec fn plain_prefix(layers: Seq<FullPipelineLayer>, n: nat) -> nat
    decreases n,
{
    if n == 0 {
        0
    } else {
        let before = plain_prefix(layers, (n - 1) as nat);
        if before == n - 1 && layers[n - 1].plain() {
            n
        } else {
            before
        }
    }
}

pub proof fn lemma_plain_prefix(layers: Seq<FullPipelineLayer>, n: nat)
    requires
        n <= layers.len(),
    ensures
        plain_prefix(layers, n) <= n,
        forall|k: int| 0 <= k < plain_prefix(layers, n) ==> (#[trigger] layers[k]).plain(),
        plain_prefix(layers, n) < n ==> !layers[plain_prefix(layers, n) as int].plain(),
    decreases n,
{
    if n > 0 {
        lemma_plain_prefix(layers, (n - 1) as nat);
    }
}

/// The step through the host at position `pos`. It goes as far as the layers are of the kind
/// that it knows, and brings a row back only if all of them are.
pub open spec fn host_program(
    call: CallDims,
    layers: Seq<FullPipelineLayer>,
    pos: usize,
    max_seq: usize,
) -> Seq<DeviceOp> {
    let n = plain_prefix(layers, layers.len());
    seq![DeviceOp::Upload { len: call.hidden }] + host_layers_ops(call, layers, n, pos, max_seq) + (
    if n == layers.len() {
        seq![DeviceOp::Download { len: call.hidden }]
    } else {
        seq![]
    })
}

/// The program that decodes one token at position `pos` through the host. Without a download
/// at its end it delivers no row.
pub fn decode_token_host_fallback(
    call: &CallDims,
    layers: &[FullPipelineLayer],
    pos: usize,
    max_seq: usize,
) -> (ops: Vec<DeviceOp>)
    requires
        all_matrices_fit(*call, layers@),
        forall|i: int| #[trigger] reached(layers@, i) ==> host_activation(layers@[i]),
    ensures
        ops@ == host_program(*call, layers@, pos, max_seq),
        (ops@.last() is Download) == all_plain(layers@),
{
    let mut ops: Vec<DeviceOp> = Vec::new();
    let upload = DeviceOp::Upload { len: call.hidden };
    emit(&mut ops, upload);
    let mut i: usize = 0;
    assert(ops@ =~= seq![upload] + host_layers_ops(*call, layers@, 0, pos, max_seq));
    while i < layers.len() && layers[i].is_plain()
        invariant
            i <= layers@.len(),
            all_matrices_fit(*call, layers@),
            ops@ == seq![upload] + host_layers_ops(*call, layers@, i as nat, pos, max_seq),
            forall|k: int| 0 <= k < i ==> (#[trigger] layers@[k]).plain(),
        decreases layers@.len() - i,
    {
        let l = layers[i];
        assert(reached(layers@, i as int));
        let begin = DeviceOp::BeginLayer { index: i };
        let ghost o = ops@;
        emit(&mut ops, begin);
        push_host_attn_half(&mut ops, call, &l, pos, max_seq);
        push_host_ffn_half(&mut ops, call, &l);
        proof {
            let done = host_layers_ops(*call, layers@, i as nat, pos, max_seq);
            let attn = host_attn_half(*call, l, pos, max_seq);
            let ffn = host_ffn_half(*call, l);
            lemma_regroup(o, seq![begin], attn);
            lemma_regroup(o, seq![begin] + attn, ffn);
            lemma_regroup(seq![upload], done, seq![begin] + attn + ffn);
        }
        i = i + 1;
    }
    proof {
        lemma_plain_prefix(layers@, layers@.len());
        assert(plain_prefix(layers@, layers@.len()) == i);
        lemma_last_of_layers(*call, layers@, i as nat, pos, max_seq);
    }
    if i == layers.len() {
        emit(&mut ops, DeviceOp::Download { len: call.hidden });
    }
    assert(ops@ =~= host_program(*call, layers@, pos, max_seq));
    ops
}

/// The operations of layers do not end with a download.
pub proof fn lemma_last_of_layers(
    call: CallDims,
    layers: Seq<FullPipelineLayer>,
    n: nat,
    pos: usize,
    max_seq: usize,
)
    ensures
        n > 0 ==> {
            let ops = host_layers_ops(call, layers, n, pos, max_seq);
            ops.len() > 0 && !(ops.last() is Download)
        },
        n == 0 ==> host_layers_ops(call, layers, n, pos, max_seq).len() == 0,
{
    if n > 0 {
        let l = layers[n - 1];
        let res = residual_ops(
            l,
            Buf::FfnDelta,
            Buf::FfnNormed,
            l.ffn_post_norm(),
            1,
            call.hidden,
        );
        let tail = res + scale_ops(l, call.hidden);
        let ffn = host_ffn_half(call, l);
        assert(res.len() > 0 && !(res.last() is Download));
        assert(tail.last() == if l.scaled() {
            scale_ops(l, call.hidden).last()
        } else {
            res.last()
        });
        assert(ffn.last() == tail.last());
    }
}

/// The step through the host comes to the layers in front of the first that is not plain, and to
/// all of them where there is none; only then it brings a row back.
pub proof fn law_host_step_reaches(layers: Seq<FullPipelineLayer>, i: int)
    requires
        0 <= i < layers.len(),
    ensures
        i < plain_prefix(layers, layers.len()) ==> layers[i].plain(),
        plain_prefix(layers, layers.len()) <= layers.len(),
        plain_prefix(layers, layers.len()) == layers.len() <==> all_plain(layers),
        i == plain_prefix(layers, layers.len()) ==> !layers[i].plain(),
        reached(layers, i) <==> i < plain_prefix(layers, layers.len()),
{
    lemma_plain_prefix(layers, layers.len());
    let n = plain_prefix(layers, layers.len()) as int;
    let front = layers.take(i + 1);
    if i < n {
        assert forall|k: int| 0 <= k < front.len() implies (#[trigger] front[k]).plain() by {
            assert(front[k] == layers[k]);
            assert(layers[k].plain());
        }
    } else {
        assert(!layers[n].plain());
        assert(front[n] == layers[n]);
    }
}

/// A Q4_K weight among query, key and value keeps the three projections apart; without one they
/// go in one call, which has all three or none.
pub proof fn law_host_qkv(call: CallDims, l: FullPipelineLayer, d: LayerDims)
    ensures
        ({
            let ops = host_qkv_ops(call, l, d);
            let apart = l.wq.format == QuantFormat::Q4_K || l.wk.format == QuantFormat::Q4_K
                || l.wv.format == QuantFormat::Q4_K;
            &&& apart ==> ops.len() == 3 && ops[0] is HostProject && ops[1] is HostProject && ops[2] is HostProject
            &&& !apart ==> ops.len() == 1 && ops[0] == (DeviceOp::QkvRmsProj {
                q_dim: d.q_dim,
                kv_dim: d.kv_dim,
                dim: call.hidden,
                expandable: expandable(l.wq, d.q_dim, call.hidden) && expandable(
                    l.wk,
                    d.kv_dim,
                    call.hidden,
                ) && expandable(l.wv, d.kv_dim, call.hidden),
            })
        }),
{
}

} // verus!
