//! Lengths of the buffers that device programs work on.
//!
//! Every operation of a planned program finds its inputs written, and with the lengths
//! that it reads. So no kernel of a program that the planner writes is refused for the
//! lengths of its buffers.

use vstd::prelude::*;

use crate::attn::{
    decode_call_ok, decode_slots_fit, device_pos_call_ok, norms_of_width, DecodeAttnLens,
    ATTN_BLOCK, NON_TILED_DECODE_ATTN_N_CTX_MAX,
};
use crate::attn_opts::launch_opts;
use crate::decode::{
    all_widths_fit, attn_call, decode_attn_ops, decode_ffn_ops, decode_layer_ops,
    decode_layers_ops, decode_program, pack_ops, packed_buf, packs_act, packs_attn_out,
    packs_gate_up, packs_qkv, residual_ops, row_project, scale_ops, wo_attempts,
};
use crate::flags::DecodeFlags;
use crate::graph::graph_sizes_ok;
use crate::host_decode::{
    all_matrices_fit, host_attn_half, host_ffn_half, host_layer_ops, host_layers_ops, host_program,
    host_project, host_qkv_ops, lemma_plain_prefix, plain_prefix, reached, separate_qkv,
};
use crate::kv_cache::slab_elems;
use crate::layer::{Activation, CallDims, FullPipelineLayer, LayerDims, NormRef, QuantWeight};
use crate::pipeline::{
    fused_attn_residual, fused_ffn_residual, graph_dims, graph_widths_fit, must_pack,
    packed_project, pipeline_attn_ops, pipeline_ffn_ops, pipeline_layer_ops, pipeline_ops,
};
use crate::prefill::{
    pass_fits, position_ops, positions_ops, reserve_ops, seq_attn_half, seq_attn_ops,
    seq_ffn_half, seq_layer_ops, seq_layers_ops, seq_program, seq_project, SeqAttn, SeqPass,
};
use crate::program::{AttnCall, AttnKind, Buf, DeviceOp, WeightRef};

verus! {

/// The elements of each buffer that was written.
pub type Lens = Map<Buf, int>;

/// Buffer `b` was written with `n` elements.
pub open spec fn holds(m: Lens, b: Buf, n: int) -> bool {
    m.dom().contains(b) && m[b] == n
}

/// The inputs of an operation are there, with the lengths that it reads.
pub open spec fn inputs_fit(m: Lens, op: DeviceOp) -> bool {
    match op {
        DeviceOp::BeginLayer { .. } | DeviceOp::Upload { .. } | DeviceOp::Reserve { .. } => true,
        DeviceOp::RmsNorm { src, rows, dim, .. } => holds(m, src, rows * dim),
        DeviceOp::QuantizeQ8 { src, n, .. } => holds(m, src, n as int) && n as int % 32 == 0,
        DeviceOp::Project { src, packed_src, rows_in, cols, .. } => {
            &&& holds(m, src, rows_in * cols)
            &&& packed_src matches Some(p) ==> holds(m, p, cols as int) && rows_in == 1
        },
        DeviceOp::QkvRmsProj { dim, .. } => holds(m, Buf::H, dim as int),
        DeviceOp::HostProject { src, cols, .. } => holds(m, src, cols as int),
        DeviceOp::Attention { call, q, k, v, rows, .. } => {
            &&& holds(m, q, rows * (call.num_q_heads * call.head_dim))
            &&& holds(m, k, rows * (call.num_kv_heads * call.head_dim))
            &&& holds(m, v, rows * (call.num_kv_heads * call.head_dim))
        },
        DeviceOp::Add { src, len } => holds(m, Buf::H, len as int) && holds(m, src, len as int),
        DeviceOp::NormAdd { src, dim, .. } => holds(m, Buf::H, dim as int) && holds(
            m,
            src,
            dim as int,
        ),
        DeviceOp::GateUp { n, .. } => holds(m, Buf::Gate, n as int) && holds(m, Buf::Up, n as int),
        DeviceOp::Scale { len, .. } => holds(m, Buf::H, len as int),
        DeviceOp::CopyRange { src, src_off, dst, dst_off, len } => {
            &&& m.dom().contains(src) && src_off + len <= m[src]
            &&& m.dom().contains(dst) && dst_off + len <= m[dst]
        },
        DeviceOp::Download { len } => holds(m, Buf::H, len as int),
    }
}

/// The lengths once an operation has run.
pub open spec fn written(m: Lens, op: DeviceOp) -> Lens {
    match op {
        DeviceOp::Upload { len } => m.insert(Buf::H, len as int),
        DeviceOp::RmsNorm { dst, rows, dim, .. } => m.insert(dst, rows * dim),
        DeviceOp::QuantizeQ8 { dst, n, .. } => m.insert(dst, n as int),
        DeviceOp::Project { dst, rows_in, rows, .. } => m.insert(dst, rows_in * rows),
        DeviceOp::QkvRmsProj { q_dim, kv_dim, .. } => m.insert(Buf::Q, q_dim as int).insert(
            Buf::K,
            kv_dim as int,
        ).insert(Buf::V, kv_dim as int),
        DeviceOp::HostProject { dst, rows, .. } => m.insert(dst, rows as int),
        DeviceOp::Attention { call, dst, rows, .. } => m.insert(
            dst,
            rows * (call.num_q_heads * call.head_dim),
        ),
        DeviceOp::GateUp { n, .. } => m.insert(Buf::Act, n as int),
        DeviceOp::Reserve { dst, len } => m.insert(dst, len as int),
        _ => m,
    }
}

/// The lengths once a program has run, `None` if some operation did not find what it
/// reads.
pub open spec fn through(m: Option<Lens>, ops: Seq<DeviceOp>) -> Option<Lens>
    decreases ops.len(),
{
    if ops.len() == 0 {
        m
    } else {
        match through(m, ops.drop_last()) {
            Some(n) => if inputs_fit(n, ops.last()) {
                Some(written(n, ops.last()))
            } else {
                None
            },
            None => None,
        }
    }
}

proof fn lemma_through_concat(m: Option<Lens>, a: Seq<DeviceOp>, b: Seq<DeviceOp>)
    ensures
        through(m, a + b) == through(through(m, a), b),
    decreases b.len(),
{
    if b.len() == 0 {
        assert(a + b =~= a);
    } else {
        assert((a + b).drop_last() =~= a + b.drop_last());
        assert((a + b).last() == b.last());
        lemma_through_concat(m, a, b.drop_last());
    }
}

proof fn lemma_through_snoc(m: Option<Lens>, a: Seq<DeviceOp>, op: DeviceOp)
    ensures
        through(m, a + seq![op]) == match through(m, a) {
            Some(n) => if inputs_fit(n, op) {
                Some(written(n, op))
            } else {
                None
            },
            None => None::<Lens>,
        },
{
    assert((a + seq![op]).drop_last() =~= a);
}

proof fn lemma_through_one(m: Lens, op: DeviceOp)
    ensures
        inputs_fit(m, op) ==> through(Some(m), seq![op]) == Some(written(m, op)),
{
    assert(seq![op].drop_last() =~= Seq::<DeviceOp>::empty());
    assert(through(Some(m), Seq::<DeviceOp>::empty()) == Some(m));
}

proof fn lemma_pack_len(m: Lens, wanted: bool, src: Buf, dst: Buf, n: usize)
    requires
        wanted ==> holds(m, src, n as int) && n as int % 32 == 0,
    ensures
        through(Some(m), pack_ops(wanted, src, dst, n)) == Some(
            if wanted {
                m.insert(dst, n as int)
            } else {
                m
            },
        ),
{
    if wanted {
        lemma_through_one(m, DeviceOp::QuantizeQ8 { src, dst, n, optional: true });
    }
}

proof fn lemma_residual_len(
    m: Lens,
    l: FullPipelineLayer,
    delta: Buf,
    normed: Buf,
    norm: NormRef,
    rows: usize,
    hidden: usize,
)
    requires
        rows * hidden <= usize::MAX,
        holds(m, Buf::H, rows * hidden),
        holds(m, delta, rows * hidden),
        normed != Buf::H,
    ensures
        through(Some(m), residual_ops(l, delta, normed, norm, rows, hidden)) == Some(
            if l.has_post_norms {
                m.insert(normed, rows * hidden)
            } else {
                m
            },
        ),
{
    let len = (rows * hidden) as usize;
    if l.has_post_norms {
        let a = DeviceOp::RmsNorm { src: delta, dst: normed, norm, rows, dim: hidden };
        let b = DeviceOp::Add { src: normed, len };
        lemma_through_one(m, a);
        lemma_through_snoc(Some(m), seq![a], b);
        assert(residual_ops(l, delta, normed, norm, rows, hidden) =~= seq![a] + seq![b]);
    } else {
        lemma_through_one(m, DeviceOp::Add { src: delta, len });
    }
}

proof fn lemma_scale_len(m: Lens, l: FullPipelineLayer, len: usize)
    requires
        holds(m, Buf::H, len as int),
    ensures
        through(Some(m), scale_ops(l, len)) == Some(m),
{
    if l.scaled() {
        lemma_through_one(m, DeviceOp::Scale { bits: l.layer_scalar_bits, len });
    }
}

/// The norm of one row.
proof fn lemma_norm_len(m: Lens, src: Buf, dst: Buf, norm: NormRef, dim: usize)
    requires
        holds(m, src, dim as int),
    ensures
        through(Some(m), seq![DeviceOp::RmsNorm { src, dst, norm, rows: 1, dim }]) == Some(
            m.insert(dst, dim as int),
        ),
{
    lemma_through_one(m, DeviceOp::RmsNorm { src, dst, norm, rows: 1, dim });
}

/// The projection of one row that comes behind `a`.
proof fn lemma_row_len(
    z: Option<Lens>,
    a: Seq<DeviceOp>,
    flags: DecodeFlags,
    weight: WeightRef,
    w: QuantWeight,
    src: Buf,
    packed_src: Option<Buf>,
    dst: Buf,
    rows: usize,
    cols: usize,
    attempts: u8,
)
    requires
        through(z, a) is Some,
        holds(through(z, a)->0, src, cols as int),
        packed_src matches Some(p) ==> holds(through(z, a)->0, p, cols as int),
    ensures
        through(
            z,
            a + seq![row_project(flags, weight, w, src, packed_src, dst, rows, cols, attempts)],
        ) == Some((through(z, a)->0).insert(dst, rows as int)),
{
    lemma_through_snoc(
        z,
        a,
        row_project(flags, weight, w, src, packed_src, dst, rows, cols, attempts),
    );
}

/// An attention operation over `rows` rows of the widths of its heads.
proof fn lemma_attention_len(
    m: Lens,
    kind: AttnKind,
    call: AttnCall,
    q: Buf,
    k: Buf,
    v: Buf,
    dst: Buf,
    rows: usize,
    q_dim: usize,
    kv_dim: usize,
)
    requires
        q_dim == call.num_q_heads * call.head_dim,
        kv_dim == call.num_kv_heads * call.head_dim,
        holds(m, q, rows * q_dim),
        holds(m, k, rows * kv_dim),
        holds(m, v, rows * kv_dim),
    ensures
        inputs_fit(m, DeviceOp::Attention { kind, call, q, k, v, dst, rows }),
        written(m, DeviceOp::Attention { kind, call, q, k, v, dst, rows }) == m.insert(
            dst,
            rows * q_dim,
        ),
{
}

proof fn lemma_decode_attn_lens(
    flags: DecodeFlags,
    call: CallDims,
    l: FullPipelineLayer,
    pos: usize,
    max_seq: usize,
    m: Lens,
) -> (r: Lens)
    requires
        call.widths_fit(l),
        holds(m, Buf::H, call.hidden as int),
    ensures
        through(Some(m), decode_attn_ops(flags, call, l, pos, max_seq)) == Some(r),
        holds(r, Buf::H, call.hidden as int),
{
    let d = call.dims_for(l);
    let hidden = call.hidden;
    let qkv = packs_qkv(flags, call, l);
    let out = packs_attn_out(flags, call, l);
    let x8 = packed_buf(qkv, Buf::HAttnQ8);
    let o8 = packed_buf(out, Buf::AttnOutQ8);
    let norm = DeviceOp::RmsNorm {
        src: Buf::H,
        dst: Buf::HAttn,
        norm: NormRef::Input,
        rows: 1,
        dim: hidden,
    };
    let q = row_project(flags, WeightRef::Wq, l.wq, Buf::HAttn, x8, Buf::Q, d.q_dim, hidden, 1);
    let k = row_project(flags, WeightRef::Wk, l.wk, Buf::HAttn, x8, Buf::K, d.kv_dim, hidden, 1);
    let v = row_project(flags, WeightRef::Wv, l.wv, Buf::HAttn, x8, Buf::V, d.kv_dim, hidden, 1);
    let at = DeviceOp::Attention {
        kind: AttnKind::Decode { pos },
        call: attn_call(call, l, d, max_seq),
        q: Buf::Q,
        k: Buf::K,
        v: Buf::V,
        dst: Buf::AttnOut,
        rows: 1,
    };
    let wo = row_project(
        flags,
        WeightRef::Wo,
        l.wo,
        Buf::AttnOut,
        o8,
        Buf::AttnDelta,
        hidden,
        d.q_dim,
        wo_attempts(call, d),
    );
    let p1 = pack_ops(qkv, Buf::HAttn, Buf::HAttnQ8, hidden);
    let p2 = pack_ops(out, Buf::AttnOut, Buf::AttnOutQ8, d.q_dim);
    let res = residual_ops(l, Buf::AttnDelta, Buf::AttnNormed, NormRef::PostAttn, 1, hidden);
    let s1 = seq![norm];
    let s2 = s1 + p1;
    let s3 = s2 + seq![q];
    let s4 = s3 + seq![k];
    let s5 = s4 + seq![v];
    let s6 = s5 + seq![at];
    let s7 = s6 + p2;
    let s8 = s7 + seq![wo];
    let z = Some(m);
    lemma_norm_len(m, Buf::H, Buf::HAttn, NormRef::Input, hidden);
    let m1 = m.insert(Buf::HAttn, hidden as int);
    lemma_through_concat(z, s1, p1);
    lemma_pack_len(m1, qkv, Buf::HAttn, Buf::HAttnQ8, hidden);
    lemma_row_len(z, s2, flags, WeightRef::Wq, l.wq, Buf::HAttn, x8, Buf::Q, d.q_dim, hidden, 1);
    lemma_row_len(z, s3, flags, WeightRef::Wk, l.wk, Buf::HAttn, x8, Buf::K, d.kv_dim, hidden, 1);
    lemma_row_len(z, s4, flags, WeightRef::Wv, l.wv, Buf::HAttn, x8, Buf::V, d.kv_dim, hidden, 1);
    let m5 = through(z, s5)->0;
    lemma_attention_len(
        m5,
        AttnKind::Decode { pos },
        attn_call(call, l, d, max_seq),
        Buf::Q,
        Buf::K,
        Buf::V,
        Buf::AttnOut,
        1,
        d.q_dim,
        d.kv_dim,
    );
    lemma_through_snoc(z, s5, at);
    let m6 = m5.insert(Buf::AttnOut, d.q_dim as int);
    lemma_through_concat(z, s6, p2);
    lemma_pack_len(m6, out, Buf::AttnOut, Buf::AttnOutQ8, d.q_dim);
    let times = wo_attempts(call, d);
    lemma_row_len(
        z,
        s7,
        flags,
        WeightRef::Wo,
        l.wo,
        Buf::AttnOut,
        o8,
        Buf::AttnDelta,
        hidden,
        d.q_dim,
        times,
    );
    let m8 = through(z, s8)->0;
    lemma_through_concat(z, s8, res);
    lemma_residual_len(m8, l, Buf::AttnDelta, Buf::AttnNormed, NormRef::PostAttn, 1, hidden);
    through(z, s8 + res)->0
}

proof fn lemma_decode_ffn_lens(
    flags: DecodeFlags,
    call: CallDims,
    l: FullPipelineLayer,
    m: Lens,
) -> (r: Lens)
    requires
        holds(m, Buf::H, call.hidden as int),
    ensures
        through(Some(m), decode_ffn_ops(flags, call, l)) == Some(r),
        holds(r, Buf::H, call.hidden as int),
{
    let hidden = call.hidden;
    let inter = call.inter;
    let gu = packs_gate_up(flags, call, l);
    let pa = packs_act(flags, call, l);
    let x8 = packed_buf(gu, Buf::HFfnQ8);
    let a8 = packed_buf(pa, Buf::ActQ8);
    let norm = DeviceOp::RmsNorm {
        src: Buf::H,
        dst: Buf::HFfn,
        norm: l.ffn_norm(),
        rows: 1,
        dim: hidden,
    };
    let gate = row_project(flags, WeightRef::Gate, l.gate, Buf::HFfn, x8, Buf::Gate, inter, hidden, 1);
    let up = row_project(flags, WeightRef::Up, l.up, Buf::HFfn, x8, Buf::Up, inter, hidden, 1);
    let act = DeviceOp::GateUp { n: inter, gelu_tanh: l.activation == Activation::GeluTanh };
    let down = row_project(flags, WeightRef::Down, l.down, Buf::Act, a8, Buf::FfnDelta, hidden, inter, 1);
    let p1 = pack_ops(gu, Buf::HFfn, Buf::HFfnQ8, hidden);
    let p2 = pack_ops(pa, Buf::Act, Buf::ActQ8, inter);
    let res = residual_ops(l, Buf::FfnDelta, Buf::FfnNormed, l.ffn_post_norm(), 1, hidden);
    let s1 = seq![norm];
    let s2 = s1 + p1;
    let s3 = s2 + seq![gate];
    let s4 = s3 + seq![up];
    let s5 = s4 + seq![act];
    let s6 = s5 + p2;
    let s7 = s6 + seq![down];
    let z = Some(m);
    lemma_norm_len(m, Buf::H, Buf::HFfn, l.ffn_norm(), hidden);
    let m1 = m.insert(Buf::HFfn, hidden as int);
    lemma_through_concat(z, s1, p1);
    lemma_pack_len(m1, gu, Buf::HFfn, Buf::HFfnQ8, hidden);
    lemma_row_len(z, s2, flags, WeightRef::Gate, l.gate, Buf::HFfn, x8, Buf::Gate, inter, hidden, 1);
    lemma_row_len(z, s3, flags, WeightRef::Up, l.up, Buf::HFfn, x8, Buf::Up, inter, hidden, 1);
    lemma_through_snoc(z, s4, act);
    let m5 = through(z, s5)->0;
    lemma_through_concat(z, s5, p2);
    lemma_pack_len(m5, pa, Buf::Act, Buf::ActQ8, inter);
    lemma_row_len(z, s6, flags, WeightRef::Down, l.down, Buf::Act, a8, Buf::FfnDelta, hidden, inter, 1);
    let m7 = through(z, s7)->0;
    lemma_through_concat(z, s7, res);
    lemma_residual_len(m7, l, Buf::FfnDelta, Buf::FfnNormed, l.ffn_post_norm(), 1, hidden);
    let m8 = through(z, s7 + res)->0;
    lemma_through_concat(z, s7 + res, scale_ops(l, hidden));
    lemma_scale_len(m8, l, hidden);
    m8
}

proof fn lemma_decode_layers_lens(
    flags: DecodeFlags,
    call: CallDims,
    layers: Seq<FullPipelineLayer>,
    n: nat,
    pos: usize,
    max_seq: usize,
    m: Lens,
) -> (r: Lens)
    requires
        all_widths_fit(call, layers),
        n <= layers.len(),
        holds(m, Buf::H, call.hidden as int),
    ensures
        through(Some(m), decode_layers_ops(flags, call, layers, n, pos, max_seq)) == Some(r),
        holds(r, Buf::H, call.hidden as int),
    decreases n,
{
    if n == 0 {
        m
    } else {
        let b = lemma_decode_layers_lens(flags, call, layers, (n - 1) as nat, pos, max_seq, m);
        let l = layers[n - 1];
        let index = (n - 1) as usize;
        let begin = DeviceOp::BeginLayer { index };
        let attn = decode_attn_ops(flags, call, l, pos, max_seq);
        let ffn = decode_ffn_ops(flags, call, l);
        lemma_through_one(b, begin);
        let c = lemma_decode_attn_lens(flags, call, l, pos, max_seq, b);
        let d = lemma_decode_ffn_lens(flags, call, l, c);
        lemma_through_concat(Some(b), seq![begin], attn);
        lemma_through_concat(Some(b), seq![begin] + attn, ffn);
        lemma_through_concat(
            Some(m),
            decode_layers_ops(flags, call, layers, (n - 1) as nat, pos, max_seq),
            decode_layer_ops(flags, call, l, index, pos, max_seq),
        );
        d
    }
}

/// Every operation of a decode step finds its inputs written, with the lengths that it
/// reads, whatever the layers' formats and dimensions.
pub proof fn law_decode_lengths(
    flags: DecodeFlags,
    call: CallDims,
    layers: Seq<FullPipelineLayer>,
    pos: usize,
    max_seq: usize,
)
    requires
        all_widths_fit(call, layers),
    ensures
        through(Some(Map::empty()), decode_program(flags, call, layers, pos, max_seq)) matches Some(
            m,
        ) && holds(m, Buf::H, call.hidden as int),
{
    let z = Map::<Buf, int>::empty();
    let up = DeviceOp::Upload { len: call.hidden };
    lemma_through_one(z, up);
    let b = written(z, up);
    let mid = decode_layers_ops(flags, call, layers, layers.len(), pos, max_seq);
    let r = lemma_decode_layers_lens(flags, call, layers, layers.len(), pos, max_seq, b);
    lemma_through_concat(Some(z), seq![up], mid);
    lemma_through_snoc(Some(z), seq![up] + mid, DeviceOp::Download { len: call.hidden });
}

/// The rows of a run, and room for one position and for the output.
spec fn run_rows(m: Lens, d: LayerDims, seq_len: usize) -> bool {
    &&& holds(m, Buf::Q, seq_len * d.q_dim)
    &&& holds(m, Buf::K, seq_len * d.kv_dim)
    &&& holds(m, Buf::V, seq_len * d.kv_dim)
    &&& holds(m, Buf::QPos, d.q_dim as int)
    &&& holds(m, Buf::KPos, d.kv_dim as int)
    &&& holds(m, Buf::VPos, d.kv_dim as int)
    &&& holds(m, Buf::AttnOut, seq_len * d.q_dim)
}

proof fn lemma_positions_lens(
    call: AttnCall,
    d: LayerDims,
    seq_len: usize,
    hidden: int,
    n: nat,
    m: Lens,
) -> (r: Lens)
    requires
        n <= seq_len,
        seq_len * d.q_dim <= usize::MAX,
        seq_len * d.kv_dim <= usize::MAX,
        d.q_dim == call.num_q_heads * call.head_dim,
        d.kv_dim == call.num_kv_heads * call.head_dim,
        run_rows(m, d, seq_len),
        holds(m, Buf::H, hidden),
    ensures
        through(Some(m), positions_ops(call, d, n)) == Some(r),
        run_rows(r, d, seq_len),
        holds(r, Buf::H, hidden),
    decreases n,
{
    if n == 0 {
        m
    } else {
        let pos = (n - 1) as nat;
        let b = lemma_positions_lens(call, d, seq_len, hidden, pos, m);
        let ops = position_ops(call, d, pos);
        assert(pos * d.q_dim + d.q_dim <= seq_len * d.q_dim) by (nonlinear_arith)
            requires
                pos + 1 <= seq_len,
        ;
        assert(pos * d.kv_dim + d.kv_dim <= seq_len * d.kv_dim) by (nonlinear_arith)
            requires
                pos + 1 <= seq_len,
        ;
        assert(0 <= pos * d.q_dim && 0 <= pos * d.kv_dim) by (nonlinear_arith);
        let s1 = seq![ops[0]];
        let s2 = s1 + seq![ops[1]];
        let s3 = s2 + seq![ops[2]];
        let s4 = s3 + seq![ops[3]];
        let s5 = s4 + seq![ops[4]];
        assert(ops =~= s5);
        assert(inputs_fit(b, ops[0]));
        lemma_through_one(b, ops[0]);
        lemma_through_snoc(Some(b), s1, ops[1]);
        lemma_through_snoc(Some(b), s2, ops[2]);
        assert(through(Some(b), s3) == Some(b));
        lemma_through_snoc(Some(b), s3, ops[3]);
        let at = DeviceOp::Attention {
            kind: AttnKind::Decode { pos: pos as usize },
            call,
            q: Buf::QPos,
            k: Buf::KPos,
            v: Buf::VPos,
            dst: Buf::OutPos,
            rows: 1,
        };
        assert(ops[3] == at);
        let kind = AttnKind::Decode { pos: pos as usize };
        lemma_attention_len(
            b,
            kind,
            call,
            Buf::QPos,
            Buf::KPos,
            Buf::VPos,
            Buf::OutPos,
            1,
            d.q_dim,
            d.kv_dim,
        );
        assert(holds(written(b, at), Buf::OutPos, d.q_dim as int));
        assert(inputs_fit(written(b, ops[3]), ops[4]));
        lemma_through_snoc(Some(b), s4, ops[4]);
        lemma_through_concat(Some(m), positions_ops(call, d, pos), ops);
        written(b, ops[3])
    }
}

proof fn lemma_seq_attention_lens(
    pass: SeqPass,
    call: AttnCall,
    d: LayerDims,
    hidden: int,
    m: Lens,
) -> (r: Lens)
    requires
        pass.seq_len * d.q_dim <= usize::MAX,
        pass.seq_len * d.kv_dim <= usize::MAX,
        d.q_dim == call.num_q_heads * call.head_dim,
        d.kv_dim == call.num_kv_heads * call.head_dim,
        holds(m, Buf::Q, pass.seq_len * d.q_dim),
        holds(m, Buf::K, pass.seq_len * d.kv_dim),
        holds(m, Buf::V, pass.seq_len * d.kv_dim),
        holds(m, Buf::H, hidden),
    ensures
        through(Some(m), seq_attn_ops(pass, call, d)) == Some(r),
        holds(r, Buf::AttnOut, pass.seq_len * d.q_dim),
        holds(r, Buf::H, hidden),
{
    let n = pass.seq_len;
    if pass.attn == SeqAttn::PerPosition {
        let ops = reserve_ops(d, n);
        let s1 = seq![ops[0]];
        let s2 = s1 + seq![ops[1]];
        let s3 = s2 + seq![ops[2]];
        let s4 = s3 + seq![ops[3]];
        assert(ops =~= s4);
        lemma_through_one(m, ops[0]);
        lemma_through_snoc(Some(m), s1, ops[1]);
        lemma_through_snoc(Some(m), s2, ops[2]);
        lemma_through_snoc(Some(m), s3, ops[3]);
        assert(0 <= n * d.q_dim) by (nonlinear_arith);
        let b = through(Some(m), ops)->0;
        let r = lemma_positions_lens(call, d, n, hidden, n as nat, b);
        lemma_through_concat(Some(m), ops, positions_ops(call, d, n as nat));
        r
    } else {
        let op = seq_attn_ops(pass, call, d)[0];
        assert(seq_attn_ops(pass, call, d) =~= seq![op]);
        lemma_through_one(m, op);
        written(m, op)
    }
}

proof fn lemma_seq_attn_lens(
    flags: DecodeFlags,
    call: CallDims,
    l: FullPipelineLayer,
    pass: SeqPass,
    max_seq: usize,
    m: Lens,
) -> (r: Lens)
    requires
        call.widths_fit(l),
        pass.seq_len * call.hidden <= usize::MAX,
        pass.seq_len * call.dims_for(l).q_dim <= usize::MAX,
        pass.seq_len * call.dims_for(l).kv_dim <= usize::MAX,
        holds(m, Buf::H, pass.seq_len * call.hidden),
    ensures
        through(Some(m), seq_attn_half(flags, call, l, pass, max_seq)) == Some(r),
        holds(r, Buf::H, pass.seq_len * call.hidden),
{
    let d = call.dims_for(l);
    let n = pass.seq_len;
    let hidden = call.hidden;
    let acall = attn_call(call, l, d, max_seq);
    let norm = DeviceOp::RmsNorm {
        src: Buf::H,
        dst: Buf::HAttn,
        norm: NormRef::Input,
        rows: n,
        dim: hidden,
    };
    let q = seq_project(flags, WeightRef::Wq, l.wq, Buf::HAttn, Buf::Q, n, d.q_dim, hidden);
    let k = seq_project(flags, WeightRef::Wk, l.wk, Buf::HAttn, Buf::K, n, d.kv_dim, hidden);
    let v = seq_project(flags, WeightRef::Wv, l.wv, Buf::HAttn, Buf::V, n, d.kv_dim, hidden);
    let at = seq_attn_ops(pass, acall, d);
    let wo = seq_project(flags, WeightRef::Wo, l.wo, Buf::AttnOut, Buf::AttnDelta, n, hidden, d.q_dim);
    let res = residual_ops(l, Buf::AttnDelta, Buf::AttnNormed, NormRef::PostAttn, n, hidden);
    let s1 = seq![norm];
    let s2 = s1 + seq![q];
    let s3 = s2 + seq![k];
    let s4 = s3 + seq![v];
    let s5 = s4 + at;
    let s6 = s5 + seq![wo];
    let z = Some(m);
    lemma_through_one(m, norm);
    lemma_through_snoc(z, s1, q);
    lemma_through_snoc(z, s2, k);
    lemma_through_snoc(z, s3, v);
    let m4 = through(z, s4)->0;
    lemma_through_concat(z, s4, at);
    let m5 = lemma_seq_attention_lens(pass, acall, d, n * hidden, m4);
    lemma_through_snoc(z, s5, wo);
    let m6 = through(z, s6)->0;
    lemma_through_concat(z, s6, res);
    lemma_residual_len(m6, l, Buf::AttnDelta, Buf::AttnNormed, NormRef::PostAttn, n, hidden);
    through(z, s6 + res)->0
}

proof fn lemma_seq_ffn_lens(
    flags: DecodeFlags,
    call: CallDims,
    l: FullPipelineLayer,
    n: usize,
    m: Lens,
) -> (r: Lens)
    requires
        n * call.hidden <= usize::MAX,
        n * call.inter <= usize::MAX,
        holds(m, Buf::H, n * call.hidden),
    ensures
        through(Some(m), seq_ffn_half(flags, call, l, n)) == Some(r),
        holds(r, Buf::H, n * call.hidden),
{
    let hidden = call.hidden;
    let inter = call.inter;
    let norm = DeviceOp::RmsNorm {
        src: Buf::H,
        dst: Buf::HFfn,
        norm: l.ffn_norm(),
        rows: n,
        dim: hidden,
    };
    let gate = seq_project(flags, WeightRef::Gate, l.gate, Buf::HFfn, Buf::Gate, n, inter, hidden);
    let up = seq_project(flags, WeightRef::Up, l.up, Buf::HFfn, Buf::Up, n, inter, hidden);
    let act = DeviceOp::GateUp {
        n: (n * inter) as usize,
        gelu_tanh: l.activation == Activation::GeluTanh,
    };
    let down = seq_project(flags, WeightRef::Down, l.down, Buf::Act, Buf::FfnDelta, n, hidden, inter);
    let res = residual_ops(l, Buf::FfnDelta, Buf::FfnNormed, l.ffn_post_norm(), n, hidden);
    let scale = scale_ops(l, (n * hidden) as usize);
    let s1 = seq![norm];
    let s2 = s1 + seq![gate];
    let s3 = s2 + seq![up];
    let s4 = s3 + seq![act];
    let s5 = s4 + seq![down];
    let z = Some(m);
    assert(0 <= n * inter && 0 <= n * hidden) by (nonlinear_arith);
    lemma_through_one(m, norm);
    lemma_through_snoc(z, s1, gate);
    lemma_through_snoc(z, s2, up);
    lemma_through_snoc(z, s3, act);
    lemma_through_snoc(z, s4, down);
    let m5 = through(z, s5)->0;
    lemma_through_concat(z, s5, res);
    lemma_residual_len(m5, l, Buf::FfnDelta, Buf::FfnNormed, l.ffn_post_norm(), n, hidden);
    let m6 = through(z, s5 + res)->0;
    lemma_through_concat(z, s5 + res, scale);
    lemma_scale_len(m6, l, (n * hidden) as usize);
    m6
}

proof fn lemma_seq_layers_lens(
    flags: DecodeFlags,
    call: CallDims,
    layers: Seq<FullPipelineLayer>,
    n: nat,
    pass: SeqPass,
    max_seq: usize,
    m: Lens,
) -> (r: Lens)
    requires
        pass_fits(call, pass, layers),
        n <= layers.len(),
        holds(m, Buf::H, pass.seq_len * call.hidden),
    ensures
        through(Some(m), seq_layers_ops(flags, call, layers, n, pass, max_seq)) == Some(r),
        holds(r, Buf::H, pass.seq_len * call.hidden),
    decreases n,
{
    if n == 0 {
        m
    } else {
        let b = lemma_seq_layers_lens(flags, call, layers, (n - 1) as nat, pass, max_seq, m);
        let l = layers[n - 1];
        let index = (n - 1) as usize;
        let begin = DeviceOp::BeginLayer { index };
        let attn = seq_attn_half(flags, call, l, pass, max_seq);
        let ffn = seq_ffn_half(flags, call, l, pass.seq_len);
        lemma_through_one(b, begin);
        let c = lemma_seq_attn_lens(flags, call, l, pass, max_seq, b);
        let d = lemma_seq_ffn_lens(flags, call, l, pass.seq_len, c);
        lemma_through_concat(Some(b), seq![begin], attn);
        lemma_through_concat(Some(b), seq![begin] + attn, ffn);
        lemma_through_concat(
            Some(m),
            seq_layers_ops(flags, call, layers, (n - 1) as nat, pass, max_seq),
            seq_layer_ops(flags, call, l, index, pass, max_seq),
        );
        d
    }
}

/// Every operation of a batched pass finds its inputs written, with the lengths that it
/// reads, however the attention of the pass is run.
pub proof fn law_batched_lengths(
    flags: DecodeFlags,
    call: CallDims,
    layers: Seq<FullPipelineLayer>,
    pass: SeqPass,
    max_seq: usize,
)
    requires
        pass_fits(call, pass, layers),
    ensures
        through(Some(Map::empty()), seq_program(flags, call, layers, pass, max_seq)) matches Some(m)
            && holds(m, Buf::H, pass.seq_len * call.hidden),
{
    let z = Map::<Buf, int>::empty();
    let len = (pass.seq_len * call.hidden) as usize;
    assert(0 <= pass.seq_len * call.hidden) by (nonlinear_arith);
    let up = DeviceOp::Upload { len };
    lemma_through_one(z, up);
    let b = written(z, up);
    let mid = seq_layers_ops(flags, call, layers, layers.len(), pass, max_seq);
    let r = lemma_seq_layers_lens(flags, call, layers, layers.len(), pass, max_seq, b);
    lemma_through_concat(Some(z), seq![up], mid);
    lemma_through_snoc(Some(z), seq![up] + mid, DeviceOp::Download { len });
}

/// So does every operation of a batched pass whose rows have been placed.
pub proof fn law_placed_lengths(
    flags: DecodeFlags,
    call: CallDims,
    layers: Seq<FullPipelineLayer>,
    pass: SeqPass,
    max_seq: usize,
    m: Lens,
)
    requires
        pass_fits(call, pass, layers),
        holds(m, Buf::H, pass.seq_len * call.hidden),
    ensures
        through(
            Some(m),
            seq_layers_ops(flags, call, layers, layers.len(), pass, max_seq),
        ) matches Some(r) && holds(r, Buf::H, pass.seq_len * call.hidden),
{
    let r = lemma_seq_layers_lens(flags, call, layers, layers.len(), pass, max_seq, m);
}

proof fn lemma_pipeline_attn_lens(
    call: CallDims,
    d: LayerDims,
    l: FullPipelineLayer,
    max_seq: usize,
    m: Lens,
) -> (r: Lens)
    requires
        d.q_dim == d.num_q_heads * d.head_dim,
        d.kv_dim == d.num_kv_heads * d.head_dim,
        call.hidden % 32 == 0,
        d.q_dim % 32 == 0,
        holds(m, Buf::H, call.hidden as int),
    ensures
        through(Some(m), pipeline_attn_ops(call, d, l, max_seq)) == Some(r),
        holds(r, Buf::H, call.hidden as int),
{
    let hidden = call.hidden;
    let norm = DeviceOp::RmsNorm {
        src: Buf::H,
        dst: Buf::HAttn,
        norm: NormRef::Input,
        rows: 1,
        dim: hidden,
    };
    let p1 = must_pack(Buf::HAttn, Buf::HAttnQ8, hidden);
    let q = packed_project(WeightRef::Wq, l.wq, Buf::HAttn, Buf::HAttnQ8, Buf::Q, d.q_dim, hidden);
    let k = packed_project(WeightRef::Wk, l.wk, Buf::HAttn, Buf::HAttnQ8, Buf::K, d.kv_dim, hidden);
    let v = packed_project(WeightRef::Wv, l.wv, Buf::HAttn, Buf::HAttnQ8, Buf::V, d.kv_dim, hidden);
    let at = DeviceOp::Attention {
        kind: AttnKind::DecodeAtDevicePos,
        call: attn_call(call, l, d, max_seq),
        q: Buf::Q,
        k: Buf::K,
        v: Buf::V,
        dst: Buf::AttnOut,
        rows: 1,
    };
    let p2 = must_pack(Buf::AttnOut, Buf::AttnOutQ8, d.q_dim);
    let wo = packed_project(
        WeightRef::Wo,
        l.wo,
        Buf::AttnOut,
        Buf::AttnOutQ8,
        Buf::AttnDelta,
        hidden,
        d.q_dim,
    );
    let res = fused_attn_residual(l, hidden);
    let s1 = seq![norm];
    let s2 = s1 + seq![p1];
    let s3 = s2 + seq![q];
    let s4 = s3 + seq![k];
    let s5 = s4 + seq![v];
    let s6 = s5 + seq![at];
    let s7 = s6 + seq![p2];
    let s8 = s7 + seq![wo];
    let z = Some(m);
    lemma_through_one(m, norm);
    lemma_through_snoc(z, s1, p1);
    lemma_through_snoc(z, s2, q);
    lemma_through_snoc(z, s3, k);
    lemma_through_snoc(z, s4, v);
    lemma_attention_len(
        through(z, s5)->0,
        AttnKind::DecodeAtDevicePos,
        attn_call(call, l, d, max_seq),
        Buf::Q,
        Buf::K,
        Buf::V,
        Buf::AttnOut,
        1,
        d.q_dim,
        d.kv_dim,
    );
    lemma_through_snoc(z, s5, at);
    lemma_through_snoc(z, s6, p2);
    lemma_through_snoc(z, s7, wo);
    let m8 = through(z, s8)->0;
    assert(holds(m8, Buf::AttnDelta, hidden as int) && holds(m8, Buf::H, hidden as int));
    lemma_through_concat(z, s8, res);
    assert(res.len() == 1 && res =~= seq![res[0]]);
    lemma_through_one(m8, res[0]);
    m8
}

proof fn lemma_pipeline_ffn_lens(call: CallDims, l: FullPipelineLayer, m: Lens) -> (r: Lens)
    requires
        call.hidden % 32 == 0,
        call.inter % 32 == 0,
        holds(m, Buf::H, call.hidden as int),
    ensures
        through(Some(m), pipeline_ffn_ops(call, l)) == Some(r),
        holds(r, Buf::H, call.hidden as int),
{
    let hidden = call.hidden;
    let inter = call.inter;
    let norm = DeviceOp::RmsNorm {
        src: Buf::H,
        dst: Buf::HFfn,
        norm: l.ffn_norm(),
        rows: 1,
        dim: hidden,
    };
    let p1 = must_pack(Buf::HFfn, Buf::HFfnQ8, hidden);
    let gate = packed_project(WeightRef::Gate, l.gate, Buf::HFfn, Buf::HFfnQ8, Buf::Gate, inter, hidden);
    let up = packed_project(WeightRef::Up, l.up, Buf::HFfn, Buf::HFfnQ8, Buf::Up, inter, hidden);
    let act = DeviceOp::GateUp { n: inter, gelu_tanh: l.activation == Activation::GeluTanh };
    let p2 = must_pack(Buf::Act, Buf::ActQ8, inter);
    let down = packed_project(WeightRef::Down, l.down, Buf::Act, Buf::ActQ8, Buf::FfnDelta, hidden, inter);
    let res = fused_ffn_residual(l, hidden);
    let s1 = seq![norm];
    let s2 = s1 + seq![p1];
    let s3 = s2 + seq![gate];
    let s4 = s3 + seq![up];
    let s5 = s4 + seq![act];
    let s6 = s5 + seq![p2];
    let s7 = s6 + seq![down];
    let z = Some(m);
    lemma_through_one(m, norm);
    lemma_through_snoc(z, s1, p1);
    lemma_through_snoc(z, s2, gate);
    lemma_through_snoc(z, s3, up);
    lemma_through_snoc(z, s4, act);
    lemma_through_snoc(z, s5, p2);
    lemma_through_snoc(z, s6, down);
    let m7 = through(z, s7)->0;
    assert(holds(m7, Buf::FfnDelta, hidden as int) && holds(m7, Buf::H, hidden as int));
    lemma_through_concat(z, s7, res);
    if l.has_post_norms {
        assert(res =~= seq![res[0]]);
        lemma_through_one(m7, res[0]);
    } else {
        let add = DeviceOp::Add { src: Buf::FfnDelta, len: hidden };
        lemma_through_one(m7, add);
        lemma_through_concat(Some(m7), seq![add], scale_ops(l, hidden));
        lemma_scale_len(m7, l, hidden);
    }
    m7
}

proof fn lemma_pipeline_layers_lens(
    call: CallDims,
    d: LayerDims,
    layers: Seq<FullPipelineLayer>,
    n: nat,
    max_seq: usize,
    m: Lens,
) -> (r: Lens)
    requires
        d.q_dim == d.num_q_heads * d.head_dim,
        d.kv_dim == d.num_kv_heads * d.head_dim,
        call.hidden % 32 == 0,
        d.q_dim % 32 == 0,
        call.inter % 32 == 0,
        n <= layers.len(),
        holds(m, Buf::H, call.hidden as int),
    ensures
        through(Some(m), pipeline_ops(call, d, layers, n, max_seq)) == Some(r),
        holds(r, Buf::H, call.hidden as int),
    decreases n,
{
    if n == 0 {
        m
    } else {
        let b = lemma_pipeline_layers_lens(call, d, layers, (n - 1) as nat, max_seq, m);
        let l = layers[n - 1];
        let index = (n - 1) as usize;
        let begin = DeviceOp::BeginLayer { index };
        let attn = pipeline_attn_ops(call, d, l, max_seq);
        let ffn = pipeline_ffn_ops(call, l);
        lemma_through_one(b, begin);
        let c = lemma_pipeline_attn_lens(call, d, l, max_seq, b);
        let e = lemma_pipeline_ffn_lens(call, l, c);
        lemma_through_concat(Some(b), seq![begin], attn);
        lemma_through_concat(Some(b), seq![begin] + attn, ffn);
        lemma_through_concat(
            Some(m),
            pipeline_ops(call, d, layers, (n - 1) as nat, max_seq),
            pipeline_layer_ops(call, d, l, index, max_seq),
        );
        e
    }
}

/// Every operation of the recorded pipeline finds its inputs written, with the lengths
/// that it reads, once the token's row was placed. The sizes are those on which a step
/// with a graph is let through.
pub proof fn law_pipeline_lengths(
    call: CallDims,
    layers: Seq<FullPipelineLayer>,
    max_seq: usize,
    m: Lens,
)
    requires
        layers.len() > 0,
        graph_widths_fit(call, layers[0]),
        graph_sizes_ok(call, layers[0]),
        holds(m, Buf::H, call.hidden as int),
    ensures
        through(
            Some(m),
            pipeline_ops(call, graph_dims(call, layers[0]), layers, layers.len(), max_seq),
        ) matches Some(r) && holds(r, Buf::H, call.hidden as int),
{
    let d = graph_dims(call, layers[0]);
    let r = lemma_pipeline_layers_lens(call, d, layers, layers.len(), max_seq, m);
}

proof fn lemma_host_qkv_lens(call: CallDims, l: FullPipelineLayer, d: LayerDims, m: Lens) -> (r: Lens)
    requires
        holds(m, Buf::H, call.hidden as int),
        holds(m, Buf::HAttn, call.hidden as int),
    ensures
        through(Some(m), host_qkv_ops(call, l, d)) == Some(r),
        holds(r, Buf::H, call.hidden as int),
        holds(r, Buf::Q, d.q_dim as int),
        holds(r, Buf::K, d.kv_dim as int),
        holds(r, Buf::V, d.kv_dim as int),
{
    let ops = host_qkv_ops(call, l, d);
    lemma_through_one(m, ops[0]);
    if separate_qkv(l) {
        let s1 = seq![ops[0]];
        let s2 = s1 + seq![ops[1]];
        let s3 = s2 + seq![ops[2]];
        assert(ops =~= s3);
        lemma_through_snoc(Some(m), s1, ops[1]);
        lemma_through_snoc(Some(m), s2, ops[2]);
    } else {
        assert(ops =~= seq![ops[0]]);
    }
    through(Some(m), ops)->0
}

proof fn lemma_host_attn_lens(
    call: CallDims,
    l: FullPipelineLayer,
    pos: usize,
    max_seq: usize,
    m: Lens,
) -> (r: Lens)
    requires
        call.widths_fit(l),
        holds(m, Buf::H, call.hidden as int),
    ensures
        through(Some(m), host_attn_half(call, l, pos, max_seq)) == Some(r),
        holds(r, Buf::H, call.hidden as int),
{
    let d = call.dims_for(l);
    let hidden = call.hidden;
    let norm = DeviceOp::RmsNorm {
        src: Buf::H,
        dst: Buf::HAttn,
        norm: NormRef::Input,
        rows: 1,
        dim: hidden,
    };
    let qkv = host_qkv_ops(call, l, d);
    let at = DeviceOp::Attention {
        kind: AttnKind::DecodeThroughHost { pos },
        call: attn_call(call, l, d, max_seq),
        q: Buf::Q,
        k: Buf::K,
        v: Buf::V,
        dst: Buf::AttnOut,
        rows: 1,
    };
    let wo = host_project(
        WeightRef::Wo,
        l.wo,
        Buf::AttnOut,
        Buf::AttnDelta,
        hidden,
        d.q_dim,
        wo_attempts(call, d),
    );
    let res = residual_ops(l, Buf::AttnDelta, Buf::AttnNormed, NormRef::PostAttn, 1, hidden);
    let s1 = seq![norm];
    let s2 = s1 + qkv;
    let s3 = s2 + seq![at];
    let s4 = s3 + seq![wo];
    let z = Some(m);
    lemma_norm_len(m, Buf::H, Buf::HAttn, NormRef::Input, hidden);
    let m1 = m.insert(Buf::HAttn, hidden as int);
    lemma_through_concat(z, s1, qkv);
    let m2 = lemma_host_qkv_lens(call, l, d, m1);
    let kind = AttnKind::DecodeThroughHost { pos };
    let acall = attn_call(call, l, d, max_seq);
    lemma_attention_len(
        m2,
        kind,
        acall,
        Buf::Q,
        Buf::K,
        Buf::V,
        Buf::AttnOut,
        1,
        d.q_dim,
        d.kv_dim,
    );
    lemma_through_snoc(z, s2, at);
    lemma_through_snoc(z, s3, wo);
    let m4 = through(z, s4)->0;
    lemma_through_concat(z, s4, res);
    lemma_residual_len(m4, l, Buf::AttnDelta, Buf::AttnNormed, NormRef::PostAttn, 1, hidden);
    through(z, s4 + res)->0
}

proof fn lemma_host_ffn_lens(call: CallDims, l: FullPipelineLayer, m: Lens) -> (r: Lens)
    requires
        holds(m, Buf::H, call.hidden as int),
    ensures
        through(Some(m), host_ffn_half(call, l)) == Some(r),
        holds(r, Buf::H, call.hidden as int),
{
    let hidden = call.hidden;
    let inter = call.inter;
    let norm = DeviceOp::RmsNorm {
        src: Buf::H,
        dst: Buf::HFfn,
        norm: l.ffn_norm(),
        rows: 1,
        dim: hidden,
    };
    let gate = host_project(WeightRef::Gate, l.gate, Buf::HFfn, Buf::Gate, inter, hidden, 1);
    let up = host_project(WeightRef::Up, l.up, Buf::HFfn, Buf::Up, inter, hidden, 1);
    let act = DeviceOp::GateUp { n: inter, gelu_tanh: l.activation == Activation::GeluTanh };
    let down = host_project(WeightRef::Down, l.down, Buf::Act, Buf::FfnDelta, hidden, inter, 1);
    let res = residual_ops(l, Buf::FfnDelta, Buf::FfnNormed, l.ffn_post_norm(), 1, hidden);
    let s1 = seq![norm];
    let s2 = s1 + seq![gate];
    let s3 = s2 + seq![up];
    let s4 = s3 + seq![act];
    let s5 = s4 + seq![down];
    let z = Some(m);
    lemma_norm_len(m, Buf::H, Buf::HFfn, l.ffn_norm(), hidden);
    lemma_through_snoc(z, s1, gate);
    lemma_through_snoc(z, s2, up);
    lemma_through_snoc(z, s3, act);
    lemma_through_snoc(z, s4, down);
    let m5 = through(z, s5)->0;
    lemma_through_concat(z, s5, res);
    lemma_residual_len(m5, l, Buf::FfnDelta, Buf::FfnNormed, l.ffn_post_norm(), 1, hidden);
    let m6 = through(z, s5 + res)->0;
    lemma_through_concat(z, s5 + res, scale_ops(l, hidden));
    lemma_scale_len(m6, l, hidden);
    m6
}

proof fn lemma_host_layers_lens(
    call: CallDims,
    layers: Seq<FullPipelineLayer>,
    n: nat,
    pos: usize,
    max_seq: usize,
    m: Lens,
) -> (r: Lens)
    requires
        forall|k: int| 0 <= k < n ==> (#[trigger] layers[k]).plain(),
        all_matrices_fit(call, layers),
        n <= layers.len(),
        holds(m, Buf::H, call.hidden as int),
    ensures
        through(Some(m), host_layers_ops(call, layers, n, pos, max_seq)) == Some(r),
        holds(r, Buf::H, call.hidden as int),
    decreases n,
{
    if n == 0 {
        m
    } else {
        let b = lemma_host_layers_lens(call, layers, (n - 1) as nat, pos, max_seq, m);
        let l = layers[n - 1];
        assert(reached(layers, n - 1));
        let index = (n - 1) as usize;
        let begin = DeviceOp::BeginLayer { index };
        let attn = host_attn_half(call, l, pos, max_seq);
        let ffn = host_ffn_half(call, l);
        lemma_through_one(b, begin);
        let c = lemma_host_attn_lens(call, l, pos, max_seq, b);
        let d = lemma_host_ffn_lens(call, l, c);
        lemma_through_concat(Some(b), seq![begin], attn);
        lemma_through_concat(Some(b), seq![begin] + attn, ffn);
        lemma_through_concat(
            Some(m),
            host_layers_ops(call, layers, (n - 1) as nat, pos, max_seq),
            host_layer_ops(call, l, index, pos, max_seq),
        );
        d
    }
}

/// Every operation of a step through the host finds its inputs written, with the lengths
/// that it reads.
pub proof fn law_host_lengths(
    call: CallDims,
    layers: Seq<FullPipelineLayer>,
    pos: usize,
    max_seq: usize,
)
    requires
        all_matrices_fit(call, layers),
    ensures
        through(Some(Map::empty()), host_program(call, layers, pos, max_seq)) matches Some(m)
            && holds(m, Buf::H, call.hidden as int),
{
    let z = Map::<Buf, int>::empty();
    let up = DeviceOp::Upload { len: call.hidden };
    lemma_through_one(z, up);
    let b = written(z, up);
    let n = plain_prefix(layers, layers.len());
    lemma_plain_prefix(layers, layers.len());
    let mid = host_layers_ops(call, layers, n, pos, max_seq);
    let r = lemma_host_layers_lens(call, layers, n, pos, max_seq, b);
    lemma_through_concat(Some(z), seq![up], mid);
    lemma_through_snoc(Some(z), seq![up] + mid, DeviceOp::Download { len: call.hidden });
    if n < layers.len() {
        assert(host_program(call, layers, pos, max_seq) =~= seq![up] + mid);
    }
}

/// The buffers of a planned attention operation over one row, with the slabs that the cache
/// keeps for the layer's shape.
pub open spec fn planned_lens(
    m: Lens,
    call: AttnCall,
    q: Buf,
    k: Buf,
    v: Buf,
    q_norm: Option<usize>,
    k_norm: Option<usize>,
) -> DecodeAttnLens {
    DecodeAttnLens {
        q: m[q] as usize,
        k_new: m[k] as usize,
        v_new: m[v] as usize,
        k_cache: slab_elems((call.num_kv_heads, call.head_dim), call.max_seq) as usize,
        v_cache: slab_elems((call.num_kv_heads, call.head_dim), call.max_seq) as usize,
        q_norm,
        k_norm,
    }
}

/// What a planned attention operation demands of its caller holds where the lengths fit:
/// a decode call is accepted, whether the host or the device holds its position.
pub proof fn law_planned_attention_is_accepted(
    m: Lens,
    kind: AttnKind,
    call: AttnCall,
    q: Buf,
    k: Buf,
    v: Buf,
    dst: Buf,
    q_norm: Option<usize>,
    k_norm: Option<usize>,
)
    requires
        inputs_fit(m, DeviceOp::Attention { kind, call, q, k, v, dst, rows: 1 }),
        m[q] <= usize::MAX,
        m[k] <= usize::MAX,
        norms_of_width(q_norm, k_norm, call.head_dim),
        slab_elems((call.num_kv_heads, call.head_dim), call.max_seq) <= usize::MAX,
        decode_slots_fit(launch_opts(kind, call)),
        (NON_TILED_DECODE_ATTN_N_CTX_MAX + ATTN_BLOCK + call.head_dim) * 4 <= usize::MAX,
    ensures
        kind matches AttnKind::Decode { pos } && pos < call.max_seq ==> decode_call_ok(
            planned_lens(m, call, q, k, v, q_norm, k_norm),
            launch_opts(kind, call),
        ),
        kind is DecodeAtDevicePos ==> device_pos_call_ok(
            planned_lens(m, call, q, k, v, Some(call.head_dim), Some(call.head_dim)),
            1,
            written(m, DeviceOp::Attention { kind, call, q, k, v, dst, rows: 1 })[dst] as usize,
            launch_opts(kind, call),
        ),
{
}

} // verus!
