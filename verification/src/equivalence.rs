//! The programs of the planner compute the same layer function.
//!
//! `hidden` says what a token's row is after a number of layers. A token decoded alone,
//! a token decoded by the captured pipeline or through the host, and a token that is
//! one of a batch all end with that row.

use vstd::prelude::*;

use crate::decode::{
    attn_call, decode_attn_ops, decode_ffn_ops, decode_layers_ops, decode_program, pack_ops,
    packed_buf, packs_act, packs_attn_out, packs_gate_up, packs_qkv, residual_ops, row_project,
    scale_ops, wo_attempts,
};
use crate::dispatch::{inner_route, InnerRoute};
use crate::flags::DecodeFlags;
use crate::host_decode::{
    all_plain, host_attn_half, host_ffn_half, host_layers_ops, host_program, host_project,
    host_qkv_ops, lemma_plain_prefix, separate_qkv,
};
use crate::kv_cache::KvCacheSlot;
use crate::layer::{Activation, CallDims, FullPipelineLayer, LayerDims, NormRef};
use crate::meaning::{
    attn_start, has_bit, lemma_run_concat, lemma_run_one, lemma_run_snoc, run, seen, step, stored,
    tree_visible, Env, Row,
};
use crate::pipeline::{
    fused_attn_residual, fused_ffn_residual, graph_dims, must_pack, packed_project,
    pipeline_attn_ops, pipeline_ffn_ops, pipeline_ops,
};
use crate::prefill::{
    position_ops, positions_ops, reserve_ops, seq_attn_half, seq_attn_ops, seq_ffn_half,
    seq_layers_ops, seq_program, seq_project, SeqAttn, SeqPass,
};
use crate::program::{AttnCall, AttnKind, Buf, DeviceOp, WeightRef};

verus! {

/// The normalised row of a layer with post-norms, the row itself otherwise.
pub open spec fn post(i: int, l: FullPipelineLayer, norm: NormRef, x: Row) -> Row {
    if l.has_post_norms {
        Row::Normed(i, norm, Box::new(x))
    } else {
        x
    }
}

pub open spec fn projected(i: int, w: WeightRef, x: Row) -> Row {
    Row::Projected(i, w, Box::new(x))
}

pub open spec fn normed(i: int, norm: NormRef, x: Row) -> Row {
    Row::Normed(i, norm, Box::new(x))
}

pub open spec fn sum(a: Row, b: Row) -> Row {
    Row::Sum(Box::new(a), Box::new(b))
}

/// The cache entry that layer `i` makes of a row.
pub open spec fn cell(i: int, h: Row) -> (Row, Row) {
    let x = normed(i, NormRef::Input, h);
    (projected(i, WeightRef::Wk, x), projected(i, WeightRef::Wv, x))
}

/// A row behind the attention half of layer `i`, at position `p`.
pub open spec fn attn_row(
    i: int,
    l: FullPipelineLayer,
    call: AttnCall,
    p: int,
    h: Row,
    entries: Seq<Option<(Row, Row)>>,
) -> Row {
    let q = projected(i, WeightRef::Wq, normed(i, NormRef::Input, h));
    let a = Row::Attended(i, call, p, Box::new(q), entries);
    sum(h, post(i, l, NormRef::PostAttn, projected(i, WeightRef::Wo, a)))
}

/// A row behind the feed-forward half of layer `i`. The norm in front reads the weight in front
/// of the feed-forward part where a layer with post-norms has one, and the one behind attention
/// otherwise. The norm behind reads a weight only where there is one that is not empty. The
/// result is multiplied by the layer's scalar unless that is a zero or one.
pub open spec fn ffn_row(i: int, l: FullPipelineLayer, h: Row) -> Row {
    let x = normed(
        i,
        if l.has_post_norms && l.pre_ffn_norm {
            NormRef::PreFfn
        } else {
            NormRef::PostAttn
        },
        h,
    );
    let g = Row::Gated(
        l.activation == Activation::GeluTanh,
        Box::new(projected(i, WeightRef::Gate, x)),
        Box::new(projected(i, WeightRef::Up, x)),
    );
    let d = projected(i, WeightRef::Down, g);
    let s = sum(
        h,
        if !l.has_post_norms {
            d
        } else if l.post_ffn_norm matches Some(len) && len > 0 {
            normed(i, NormRef::PostFfn, d)
        } else {
            normed(i, NormRef::Unit, d)
        },
    );
    if l.layer_scalar_bits == 0 || l.layer_scalar_bits == 0x8000_0000 || l.layer_scalar_bits
        == 0x3f80_0000 {
        s
    } else {
        Row::Scaled(l.layer_scalar_bits, Box::new(s))
    }
}

/// Two environments that differ in their buffers only.
pub open spec fn same_but_buffers(a: Env, b: Env) -> bool {
    &&& a.cache == b.cache
    &&& a.layer == b.layer
    &&& a.input == b.input
    &&& a.device_pos == b.device_pos
    &&& a.ancestors == b.ancestors
}

/// Two environments that differ in their buffers and the cache only.
pub open spec fn same_surroundings(a: Env, b: Env) -> bool {
    &&& a.layer == b.layer
    &&& a.input == b.input
    &&& a.device_pos == b.device_pos
    &&& a.ancestors == b.ancestors
}

proof fn lemma_residual(
    e: Env,
    l: FullPipelineLayer,
    delta: Buf,
    tmp: Buf,
    norm: NormRef,
    rows: usize,
    hidden: usize,
) -> (r: Env)
    requires
        e.bufs[Buf::H].len() == rows,
        tmp != Buf::H,
    ensures
        r == run(e, residual_ops(l, delta, tmp, norm, rows, hidden)),
        same_but_buffers(e, r),
        r.bufs[Buf::H] == Seq::new(
            rows as nat,
            |k: int| sum(e.bufs[Buf::H][k], post(e.layer, l, norm, e.bufs[delta][k])),
        ),
{
    let len = (rows * hidden) as usize;
    let r = run(e, residual_ops(l, delta, tmp, norm, rows, hidden));
    let want = Seq::new(
        rows as nat,
        |k: int| sum(e.bufs[Buf::H][k], post(e.layer, l, norm, e.bufs[delta][k])),
    );
    if l.has_post_norms {
        let a = DeviceOp::RmsNorm { src: delta, dst: tmp, norm, rows, dim: hidden };
        let b = DeviceOp::Add { src: tmp, len };
        assert(residual_ops(l, delta, tmp, norm, rows, hidden) =~= seq![a] + seq![b]);
        lemma_run_one(e, a);
        lemma_run_snoc(e, seq![a], b);
        assert(r.bufs[Buf::H] =~= want);
    } else {
        let b = DeviceOp::Add { src: delta, len };
        lemma_run_one(e, b);
        assert(r.bufs[Buf::H] =~= want);
    }
    r
}

proof fn lemma_scale(e: Env, l: FullPipelineLayer, len: usize) -> (r: Env)
    ensures
        r == run(e, scale_ops(l, len)),
        same_but_buffers(e, r),
        r.bufs[Buf::H] == Seq::new(
            e.bufs[Buf::H].len(),
            |k: int|
                if l.scaled() {
                    Row::Scaled(l.layer_scalar_bits, Box::new(e.bufs[Buf::H][k]))
                } else {
                    e.bufs[Buf::H][k]
                },
        ),
{
    let r = run(e, scale_ops(l, len));
    let want = Seq::new(
        e.bufs[Buf::H].len(),
        |k: int|
            if l.scaled() {
                Row::Scaled(l.layer_scalar_bits, Box::new(e.bufs[Buf::H][k]))
            } else {
                e.bufs[Buf::H][k]
            },
    );
    if l.scaled() {
        lemma_run_one(e, DeviceOp::Scale { bits: l.layer_scalar_bits, len });
    }
    assert(r.bufs[Buf::H] =~= want);
    r
}

proof fn lemma_pack(e: Env, wanted: bool, src: Buf, dst: Buf, n: usize) -> (r: Env)
    requires
        dst != src,
    ensures
        r == run(e, pack_ops(wanted, src, dst, n)),
        same_but_buffers(e, r),
        forall|b: Buf| b != dst ==> #[trigger] r.bufs[b] == e.bufs[b],
{
    if wanted {
        lemma_run_one(e, DeviceOp::QuantizeQ8 { src, dst, n, optional: true });
    }
    run(e, pack_ops(wanted, src, dst, n))
}

/// The feed-forward half of a batched layer.
proof fn lemma_seq_ffn_half(
    flags: DecodeFlags,
    call: CallDims,
    l: FullPipelineLayer,
    n: usize,
    e: Env,
) -> (r: Env)
    requires
        e.bufs[Buf::H].len() == n,
    ensures
        r == run(e, seq_ffn_half(flags, call, l, n)),
        same_but_buffers(e, r),
        r.bufs[Buf::H] == Seq::new(n as nat, |k: int| ffn_row(e.layer, l, e.bufs[Buf::H][k])),
{
    let norm = DeviceOp::RmsNorm {
        src: Buf::H,
        dst: Buf::HFfn,
        norm: l.ffn_norm(),
        rows: n,
        dim: call.hidden,
    };
    let gate = seq_project(flags, WeightRef::Gate, l.gate, Buf::HFfn, Buf::Gate, n, call.inter, call.hidden);
    let up = seq_project(flags, WeightRef::Up, l.up, Buf::HFfn, Buf::Up, n, call.inter, call.hidden);
    let act = DeviceOp::GateUp {
        n: (n * call.inter) as usize,
        gelu_tanh: l.activation == Activation::GeluTanh,
    };
    let down = seq_project(flags, WeightRef::Down, l.down, Buf::Act, Buf::FfnDelta, n, call.hidden, call.inter);
    let s1 = seq![norm];
    let s2 = s1 + seq![gate];
    let s3 = s2 + seq![up];
    let s4 = s3 + seq![act];
    let s5 = s4 + seq![down];
    let res = residual_ops(l, Buf::FfnDelta, Buf::FfnNormed, l.ffn_post_norm(), n, call.hidden);
    lemma_run_one(e, norm);
    lemma_run_snoc(e, s1, gate);
    lemma_run_snoc(e, s2, up);
    lemma_run_snoc(e, s3, act);
    lemma_run_snoc(e, s4, down);
    let e5 = run(e, s5);
    lemma_run_concat(e, s5, res);
    let e6 = lemma_residual(e5, l, Buf::FfnDelta, Buf::FfnNormed, l.ffn_post_norm(), n, call.hidden);
    lemma_run_concat(e, s5 + res, scale_ops(l, (n * call.hidden) as usize));
    let r = lemma_scale(e6, l, (n * call.hidden) as usize);
    assert(r.bufs[Buf::H] =~= Seq::new(n as nat, |k: int| ffn_row(e.layer, l, e.bufs[Buf::H][k])));
    r
}


/// The entries that row `r` of a run from `start` on sees in a cache.
pub open spec fn entries(e: Env, tree: bool, cache: spec_fn(int, int) -> (Row, Row), start: int, r: int)
    -> Seq<Option<(Row, Row)>> {
    Seq::new(
        (start + r + 1) as nat,
        |j: int|
            if tree && !tree_visible(e.ancestors, start, r, j) {
                None
            } else {
                Some(cache(e.layer, j))
            },
    )
}

/// The cache once the rows `hs` have passed layer `i` from position `start` on.
pub open spec fn cells_after(
    cache: spec_fn(int, int) -> (Row, Row),
    i: int,
    start: int,
    hs: Seq<Row>,
) -> spec_fn(int, int) -> (Row, Row) {
    |l: int, j: int|
        if l == i && start <= j < start + hs.len() {
            cell(i, hs[j - start])
        } else {
            cache(l, j)
        }
}

/// Where a batched pass starts.
pub open spec fn pass_start(e: Env, pass: SeqPass) -> int {
    match pass.attn {
        SeqAttn::Batched => pass.base_pos as int,
        SeqAttn::PerPosition => 0,
        _ => e.device_pos,
    }
}

proof fn lemma_positions(e: Env, call: AttnCall, d: LayerDims, seq_len: usize, n: nat) -> (r: Env)
    requires
        d.q_dim > 0,
        d.kv_dim > 0,
        n <= seq_len,
        seq_len * d.q_dim <= usize::MAX,
        seq_len * d.kv_dim <= usize::MAX,
        e.bufs[Buf::QPos].len() > 0,
        e.bufs[Buf::KPos].len() > 0,
        e.bufs[Buf::VPos].len() > 0,
        e.bufs[Buf::AttnOut].len() >= seq_len,
    ensures
        r == run(e, positions_ops(call, d, n)),
        same_surroundings(e, r),
        r.bufs[Buf::H] == e.bufs[Buf::H],
        r.bufs[Buf::Q] == e.bufs[Buf::Q],
        r.bufs[Buf::K] == e.bufs[Buf::K],
        r.bufs[Buf::V] == e.bufs[Buf::V],
        r.bufs[Buf::QPos].len() > 0,
        r.bufs[Buf::KPos].len() > 0,
        r.bufs[Buf::VPos].len() > 0,
        r.bufs[Buf::AttnOut].len() == e.bufs[Buf::AttnOut].len(),
        forall|l: int, j: int|
            #[trigger] (r.cache)(l, j) == (if l == e.layer && 0 <= j < n {
                (e.bufs[Buf::K][j], e.bufs[Buf::V][j])
            } else {
                (e.cache)(l, j)
            }),
        forall|k: int|
            0 <= k < n ==> #[trigger] r.bufs[Buf::AttnOut][k] == Row::Attended(
                e.layer,
                call,
                k,
                Box::new(e.bufs[Buf::Q][k]),
                Seq::new((k + 1) as nat, |j: int| Some((e.bufs[Buf::K][j], e.bufs[Buf::V][j]))),
            ),
    decreases n,
{
    let r = run(e, positions_ops(call, d, n));
    if n > 0 {
        let p = (n - 1) as nat;
        let b = lemma_positions(e, call, d, seq_len, p);
        let q_off = (p * d.q_dim) as usize;
        let kv_off = (p * d.kv_dim) as usize;
        assert(p * d.q_dim <= seq_len * d.q_dim && p * d.kv_dim <= seq_len * d.kv_dim)
            by (nonlinear_arith)
            requires
                p <= seq_len,
        ;
        assert(q_off as int / d.q_dim as int == p) by (nonlinear_arith)
            requires
                q_off == p * d.q_dim,
                d.q_dim > 0,
        ;
        assert(kv_off as int / d.kv_dim as int == p) by (nonlinear_arith)
            requires
                kv_off == p * d.kv_dim,
                d.kv_dim > 0,
        ;
        assert(0int / d.q_dim as int == 0 && 0int / d.kv_dim as int == 0) by (nonlinear_arith)
            requires
                d.q_dim > 0,
                d.kv_dim > 0,
        ;
        let c1 = DeviceOp::CopyRange {
            src: Buf::Q,
            src_off: q_off,
            dst: Buf::QPos,
            dst_off: 0,
            len: d.q_dim,
        };
        let c2 = DeviceOp::CopyRange {
            src: Buf::K,
            src_off: kv_off,
            dst: Buf::KPos,
            dst_off: 0,
            len: d.kv_dim,
        };
        let c3 = DeviceOp::CopyRange {
            src: Buf::V,
            src_off: kv_off,
            dst: Buf::VPos,
            dst_off: 0,
            len: d.kv_dim,
        };
        let at = DeviceOp::Attention {
            kind: AttnKind::Decode { pos: p as usize },
            call,
            q: Buf::QPos,
            k: Buf::KPos,
            v: Buf::VPos,
            dst: Buf::OutPos,
            rows: 1,
        };
        let c4 = DeviceOp::CopyRange {
            src: Buf::OutPos,
            src_off: 0,
            dst: Buf::AttnOut,
            dst_off: q_off,
            len: d.q_dim,
        };
        let s1 = seq![c1];
        let s2 = s1 + seq![c2];
        let s3 = s2 + seq![c3];
        let s4 = s3 + seq![at];
        let s5 = s4 + seq![c4];
        assert(position_ops(call, d, p) =~= s5);
        lemma_run_concat(e, positions_ops(call, d, p), position_ops(call, d, p));
        lemma_run_one(b, c1);
        lemma_run_snoc(b, s1, c2);
        lemma_run_snoc(b, s2, c3);
        let b3 = run(b, s3);
        lemma_run_snoc(b, s3, at);
        let b4 = run(b, s4);
        lemma_run_snoc(b, s4, c4);
        assert(b3.bufs[Buf::QPos][0] == e.bufs[Buf::Q][p as int]);
        assert(b3.bufs[Buf::KPos][0] == e.bufs[Buf::K][p as int]);
        assert(b3.bufs[Buf::VPos][0] == e.bufs[Buf::V][p as int]);
        assert forall|l: int, j: int| #[trigger] (b4.cache)(l, j) == (if l == e.layer && 0 <= j < n {
            (e.bufs[Buf::K][j], e.bufs[Buf::V][j])
        } else {
            (e.cache)(l, j)
        }) by {
            assert((b4.cache)(l, j) == (if l == e.layer && p <= j < p + 1 {
                (b3.bufs[Buf::KPos][j - p], b3.bufs[Buf::VPos][j - p])
            } else {
                (b3.cache)(l, j)
            }));
            assert((b3.cache)(l, j) == (b.cache)(l, j));
        }
        let kind = AttnKind::Decode { pos: p as usize };
        assert(seen(b3, kind, b4.cache, p as int, 0) =~= Seq::new(
            (p + 1) as nat,
            |j: int| Some((e.bufs[Buf::K][j], e.bufs[Buf::V][j])),
        ));
        assert forall|k: int| 0 <= k < n implies #[trigger] r.bufs[Buf::AttnOut][k]
            == Row::Attended(
            e.layer,
            call,
            k,
            Box::new(e.bufs[Buf::Q][k]),
            Seq::new((k + 1) as nat, |j: int| Some((e.bufs[Buf::K][j], e.bufs[Buf::V][j]))),
        ) by {
            if k < p {
                assert(r.bufs[Buf::AttnOut][k] == b.bufs[Buf::AttnOut][k]);
            }
        }
    }
    r
}

/// Attention of a pass, whichever way it is called.
proof fn lemma_seq_attn(e: Env, pass: SeqPass, call: AttnCall, d: LayerDims) -> (r: Env)
    requires
        pass.attn == SeqAttn::PerPosition ==> d.q_dim > 0 && d.kv_dim > 0,
        pass.seq_len * d.q_dim <= usize::MAX,
        pass.seq_len * d.kv_dim <= usize::MAX,
    ensures
        r == run(e, seq_attn_ops(pass, call, d)),
        same_surroundings(e, r),
        r.bufs[Buf::H] == e.bufs[Buf::H],
        forall|l: int, j: int|
            #[trigger] (r.cache)(l, j) == (if l == e.layer && pass_start(e, pass) <= j < pass_start(
                e,
                pass,
            ) + pass.seq_len {
                (
                    e.bufs[Buf::K][j - pass_start(e, pass)],
                    e.bufs[Buf::V][j - pass_start(e, pass)],
                )
            } else {
                (e.cache)(l, j)
            }),
        forall|k: int|
            0 <= k < pass.seq_len ==> #[trigger] r.bufs[Buf::AttnOut][k] == Row::Attended(
                e.layer,
                call,
                pass_start(e, pass) + k,
                Box::new(e.bufs[Buf::Q][k]),
                entries(e, pass.attn == SeqAttn::Tree, r.cache, pass_start(e, pass), k),
            ),
{
    let r = run(e, seq_attn_ops(pass, call, d));
    if pass.attn == SeqAttn::PerPosition {
        let n = pass.seq_len;
        let r1 = DeviceOp::Reserve { dst: Buf::QPos, len: d.q_dim };
        let r2 = DeviceOp::Reserve { dst: Buf::KPos, len: d.kv_dim };
        let r3 = DeviceOp::Reserve { dst: Buf::VPos, len: d.kv_dim };
        let r4 = DeviceOp::Reserve { dst: Buf::AttnOut, len: (n * d.q_dim) as usize };
        assert(reserve_ops(d, n) =~= seq![r1] + seq![r2] + seq![r3] + seq![r4]);
        lemma_run_one(e, r1);
        lemma_run_snoc(e, seq![r1], r2);
        lemma_run_snoc(e, seq![r1] + seq![r2], r3);
        lemma_run_snoc(e, seq![r1] + seq![r2] + seq![r3], r4);
        let b = run(e, reserve_ops(d, n));
        assert(n * d.q_dim >= n) by (nonlinear_arith)
            requires
                d.q_dim > 0,
        ;
        lemma_run_concat(e, reserve_ops(d, n), positions_ops(call, d, n as nat));
        let p = lemma_positions(b, call, d, n, n as nat);
        assert(p == r);
        assert forall|k: int| 0 <= k < n implies #[trigger] r.bufs[Buf::AttnOut][k]
            == Row::Attended(
            e.layer,
            call,
            k,
            Box::new(e.bufs[Buf::Q][k]),
            entries(e, false, r.cache, 0, k),
        ) by {
            assert(entries(e, false, r.cache, 0, k) =~= Seq::new(
                (k + 1) as nat,
                |j: int| Some((e.bufs[Buf::K][j], e.bufs[Buf::V][j])),
            ));
        }
    } else {
        let kind = match pass.attn {
            SeqAttn::AtDevicePos => AttnKind::RunAtDevicePos { base_pos: pass.base_pos },
            SeqAttn::Tree => AttnKind::TreeAtDevicePos { base_pos: pass.base_pos },
            _ => AttnKind::Run { base_pos: pass.base_pos },
        };
        let at = DeviceOp::Attention {
            kind,
            call,
            q: Buf::Q,
            k: Buf::K,
            v: Buf::V,
            dst: Buf::AttnOut,
            rows: pass.seq_len,
        };
        lemma_run_one(e, at);
        assert(seq_attn_ops(pass, call, d) == seq![at]);
        let start = pass_start(e, pass);
        assert(attn_start(e, kind) == start);
        assert forall|k: int| 0 <= k < pass.seq_len implies #[trigger] r.bufs[Buf::AttnOut][k]
            == Row::Attended(
            e.layer,
            call,
            start + k,
            Box::new(e.bufs[Buf::Q][k]),
            entries(e, pass.attn == SeqAttn::Tree, r.cache, start, k),
        ) by {
            assert(seen(e, kind, r.cache, start, k) =~= entries(
                e,
                pass.attn == SeqAttn::Tree,
                r.cache,
                start,
                k,
            ));
        }
    }
    r
}

/// The attention half of a batched layer.
proof fn lemma_seq_attn_half(
    flags: DecodeFlags,
    call: CallDims,
    l: FullPipelineLayer,
    pass: SeqPass,
    max_seq: usize,
    e: Env,
) -> (r: Env)
    requires
        e.bufs[Buf::H].len() == pass.seq_len,
        pass.attn == SeqAttn::PerPosition ==> call.dims_for(l).q_dim > 0 && call.dims_for(l).kv_dim
            > 0,
        pass.seq_len * call.dims_for(l).q_dim <= usize::MAX,
        pass.seq_len * call.dims_for(l).kv_dim <= usize::MAX,
    ensures
        r == run(e, seq_attn_half(flags, call, l, pass, max_seq)),
        same_surroundings(e, r),
        forall|li: int, j: int| #[trigger]
            (r.cache)(li, j) == cells_after(e.cache, e.layer, pass_start(e, pass), e.bufs[Buf::H])(
                li,
                j,
            ),
        r.bufs[Buf::H] == Seq::new(
            pass.seq_len as nat,
            |k: int|
                attn_row(
                    e.layer,
                    l,
                    attn_call(call, l, call.dims_for(l), max_seq),
                    pass_start(e, pass) + k,
                    e.bufs[Buf::H][k],
                    entries(e, pass.attn == SeqAttn::Tree, r.cache, pass_start(e, pass), k),
                ),
        ),
{
    let d = call.dims_for(l);
    let n = pass.seq_len;
    let acall = attn_call(call, l, d, max_seq);
    let norm = DeviceOp::RmsNorm {
        src: Buf::H,
        dst: Buf::HAttn,
        norm: NormRef::Input,
        rows: n,
        dim: call.hidden,
    };
    let q = seq_project(flags, WeightRef::Wq, l.wq, Buf::HAttn, Buf::Q, n, d.q_dim, call.hidden);
    let k = seq_project(flags, WeightRef::Wk, l.wk, Buf::HAttn, Buf::K, n, d.kv_dim, call.hidden);
    let v = seq_project(flags, WeightRef::Wv, l.wv, Buf::HAttn, Buf::V, n, d.kv_dim, call.hidden);
    let wo = seq_project(flags, WeightRef::Wo, l.wo, Buf::AttnOut, Buf::AttnDelta, n, call.hidden, d.q_dim);
    let s1 = seq![norm];
    let s2 = s1 + seq![q];
    let s3 = s2 + seq![k];
    let s4 = s3 + seq![v];
    let s5 = s4 + seq_attn_ops(pass, acall, d);
    let s6 = s5 + seq![wo];
    let res = residual_ops(l, Buf::AttnDelta, Buf::AttnNormed, NormRef::PostAttn, n, call.hidden);
    lemma_run_one(e, norm);
    lemma_run_snoc(e, s1, q);
    lemma_run_snoc(e, s2, k);
    lemma_run_snoc(e, s3, v);
    let e4 = run(e, s4);
    lemma_run_concat(e, s4, seq_attn_ops(pass, acall, d));
    let e5 = lemma_seq_attn(e4, pass, acall, d);
    lemma_run_snoc(e, s5, wo);
    let e6 = run(e, s6);
    lemma_run_concat(e, s6, res);
    let r = lemma_residual(
        e6,
        l,
        Buf::AttnDelta,
        Buf::AttnNormed,
        NormRef::PostAttn,
        n,
        call.hidden,
    );
    let start = pass_start(e, pass);
    let tree = pass.attn == SeqAttn::Tree;
    assert(pass_start(e4, pass) == start);
    assert forall|li: int, j: int| #[trigger]
        (r.cache)(li, j) == cells_after(e.cache, e.layer, start, e.bufs[Buf::H])(li, j) by {
        assert((r.cache)(li, j) == (e5.cache)(li, j));
        assert((e4.cache)(li, j) == (e.cache)(li, j));
    }
    assert forall|i: int| 0 <= i < n implies #[trigger] r.bufs[Buf::H][i] == attn_row(
        e.layer,
        l,
        acall,
        start + i,
        e.bufs[Buf::H][i],
        entries(e, tree, r.cache, start, i),
    ) by {
        assert(e6.bufs[Buf::AttnDelta][i] == projected(
            e.layer,
            WeightRef::Wo,
            e5.bufs[Buf::AttnOut][i],
        ));
        assert(entries(e4, tree, e5.cache, start, i) =~= entries(e, tree, r.cache, start, i));
    }
    assert(r.bufs[Buf::H] =~= Seq::new(
        n as nat,
        |i: int|
            attn_row(
                e.layer,
                l,
                acall,
                start + i,
                e.bufs[Buf::H][i],
                entries(e, tree, r.cache, start, i),
            ),
    ));
    r
}


/// What the attention half of a layer leaves behind for one token at position `p`.
pub open spec fn token_attended(
    e: Env,
    r: Env,
    l: FullPipelineLayer,
    call: AttnCall,
    p: int,
) -> bool {
    &&& same_surroundings(e, r)
    &&& forall|li: int, j: int| #[trigger]
        (r.cache)(li, j) == cells_after(e.cache, e.layer, p, seq![e.bufs[Buf::H][0]])(li, j)
    &&& r.bufs[Buf::H] == seq![
        attn_row(
            e.layer,
            l,
            call,
            p,
            e.bufs[Buf::H][0],
            Seq::new((p + 1) as nat, |j: int| Some((r.cache)(e.layer, j))),
        ),
    ]
}

/// What the feed-forward half of a layer leaves behind for one token.
pub open spec fn token_fed_forward(e: Env, r: Env, l: FullPipelineLayer) -> bool {
    &&& same_but_buffers(e, r)
    &&& r.bufs[Buf::H] == seq![ffn_row(e.layer, l, e.bufs[Buf::H][0])]
}

proof fn lemma_token_attn_tail(
    e: Env,
    e3: Env,
    e4: Env,
    e6: Env,
    r: Env,
    l: FullPipelineLayer,
    kind: AttnKind,
    call: AttnCall,
    p: int,
)
    requires
        e.bufs[Buf::H].len() == 1,
        p >= 0,
        same_but_buffers(e, e3),
        attn_start(e3, kind) == p,
        !(kind is TreeAtDevicePos),
        e3.bufs[Buf::Q][0] == projected(
            e.layer,
            WeightRef::Wq,
            normed(e.layer, NormRef::Input, e.bufs[Buf::H][0]),
        ),
        e3.bufs[Buf::K][0] == cell(e.layer, e.bufs[Buf::H][0]).0,
        e3.bufs[Buf::V][0] == cell(e.layer, e.bufs[Buf::H][0]).1,
        e4 == step(
            e3,
            DeviceOp::Attention {
                kind,
                call,
                q: Buf::Q,
                k: Buf::K,
                v: Buf::V,
                dst: Buf::AttnOut,
                rows: 1,
            },
        ),
        same_but_buffers(e4, e6),
        e6.bufs[Buf::AttnDelta][0] == projected(e.layer, WeightRef::Wo, e4.bufs[Buf::AttnOut][0]),
        same_but_buffers(e6, r),
        r.bufs[Buf::H] == seq![
            sum(
                e.bufs[Buf::H][0],
                post(e.layer, l, NormRef::PostAttn, e6.bufs[Buf::AttnDelta][0]),
            ),
        ],
    ensures
        token_attended(e, r, l, call, p),
{
    let h = e.bufs[Buf::H][0];
    assert forall|li: int, j: int| #[trigger]
        (r.cache)(li, j) == cells_after(e.cache, e.layer, p, seq![h])(li, j) by {
        assert((r.cache)(li, j) == (e4.cache)(li, j));
        assert((e3.cache)(li, j) == (e.cache)(li, j));
    }
    assert(seen(e3, kind, e4.cache, p, 0) =~= Seq::new(
        (p + 1) as nat,
        |j: int| Some((r.cache)(e.layer, j)),
    ));
}

proof fn lemma_decode_attn(
    flags: DecodeFlags,
    call: CallDims,
    l: FullPipelineLayer,
    pos: usize,
    max_seq: usize,
    e: Env,
) -> (r: Env)
    requires
        e.bufs[Buf::H].len() == 1,
    ensures
        r == run(e, decode_attn_ops(flags, call, l, pos, max_seq)),
        token_attended(e, r, l, attn_call(call, l, call.dims_for(l), max_seq), pos as int),
{
    let d = call.dims_for(l);
    let hidden = call.hidden;
    let acall = attn_call(call, l, d, max_seq);
    let qkv = packs_qkv(flags, call, l);
    let out = packs_attn_out(flags, call, l);
    let x8 = packed_buf(qkv, Buf::HAttnQ8);
    let o8 = packed_buf(out, Buf::AttnOutQ8);
    let norm = DeviceOp::RmsNorm {
        src: Buf::H,
        dst: Buf::HAttn,
        norm: NormRef::Input,
        rows: 1,
        dim: hidden,
    };
    let q = row_project(flags, WeightRef::Wq, l.wq, Buf::HAttn, x8, Buf::Q, d.q_dim, hidden, 1);
    let k = row_project(flags, WeightRef::Wk, l.wk, Buf::HAttn, x8, Buf::K, d.kv_dim, hidden, 1);
    let v = row_project(flags, WeightRef::Wv, l.wv, Buf::HAttn, x8, Buf::V, d.kv_dim, hidden, 1);
    let kind = AttnKind::Decode { pos };
    let at = DeviceOp::Attention {
        kind,
        call: acall,
        q: Buf::Q,
        k: Buf::K,
        v: Buf::V,
        dst: Buf::AttnOut,
        rows: 1,
    };
    let wo = row_project(
        flags,
        WeightRef::Wo,
        l.wo,
        Buf::AttnOut,
        o8,
        Buf::AttnDelta,
        hidden,
        d.q_dim,
        wo_attempts(call, d),
    );
    let p1 = pack_ops(qkv, Buf::HAttn, Buf::HAttnQ8, hidden);
    let p2 = pack_ops(out, Buf::AttnOut, Buf::AttnOutQ8, d.q_dim);
    let res = residual_ops(l, Buf::AttnDelta, Buf::AttnNormed, NormRef::PostAttn, 1, hidden);
    let s1 = seq![norm];
    let s2 = s1 + p1;
    let s3 = s2 + seq![q];
    let s4 = s3 + seq![k];
    let s5 = s4 + seq![v];
    let s6 = s5 + seq![at];
    let s7 = s6 + p2;
    let s8 = s7 + seq![wo];
    lemma_run_one(e, norm);
    let e1 = run(e, s1);
    lemma_run_concat(e, s1, p1);
    let e2 = lemma_pack(e1, qkv, Buf::HAttn, Buf::HAttnQ8, hidden);
    lemma_run_snoc(e, s2, q);
    lemma_run_snoc(e, s3, k);
    lemma_run_snoc(e, s4, v);
    let e3 = run(e, s5);
    assert(e3.bufs[Buf::H] == e.bufs[Buf::H]);
    lemma_run_snoc(e, s5, at);
    let e4 = run(e, s6);
    lemma_run_concat(e, s6, p2);
    let e5 = lemma_pack(e4, out, Buf::AttnOut, Buf::AttnOutQ8, d.q_dim);
    lemma_run_snoc(e, s7, wo);
    let e6 = run(e, s8);
    lemma_run_concat(e, s8, res);
    let r = lemma_residual(e6, l, Buf::AttnDelta, Buf::AttnNormed, NormRef::PostAttn, 1, hidden);
    assert(r.bufs[Buf::H] =~= seq![
        sum(e.bufs[Buf::H][0], post(e.layer, l, NormRef::PostAttn, e6.bufs[Buf::AttnDelta][0])),
    ]);
    lemma_token_attn_tail(e, e3, e4, e6, r, l, kind, acall, pos as int);
    r
}

proof fn lemma_decode_ffn(flags: DecodeFlags, call: CallDims, l: FullPipelineLayer, e: Env) -> (r:
    Env)
    requires
        e.bufs[Buf::H].len() == 1,
    ensures
        r == run(e, decode_ffn_ops(flags, call, l)),
        token_fed_forward(e, r, l),
{
    let hidden = call.hidden;
    let inter = call.inter;
    let gu = packs_gate_up(flags, call, l);
    let pa = packs_act(flags, call, l);
    let x8 = packed_buf(gu, Buf::HFfnQ8);
    let a8 = packed_buf(pa, Buf::ActQ8);
    let norm = DeviceOp::RmsNorm {
        src: Buf::H,
        dst: Buf::HFfn,
        norm: l.ffn_norm(),
        rows: 1,
        dim: hidden,
    };
    let gate = row_project(flags, WeightRef::Gate, l.gate, Buf::HFfn, x8, Buf::Gate, inter, hidden, 1);
    let up = row_project(flags, WeightRef::Up, l.up, Buf::HFfn, x8, Buf::Up, inter, hidden, 1);
    let act = DeviceOp::GateUp { n: inter, gelu_tanh: l.activation == Activation::GeluTanh };
    let down = row_project(flags, WeightRef::Down, l.down, Buf::Act, a8, Buf::FfnDelta, hidden, inter, 1);
    let p1 = pack_ops(gu, Buf::HFfn, Buf::HFfnQ8, hidden);
    let p2 = pack_ops(pa, Buf::Act, Buf::ActQ8, inter);
    let res = residual_ops(l, Buf::FfnDelta, Buf::FfnNormed, l.ffn_post_norm(), 1, hidden);
    let s1 = seq![norm];
    let s2 = s1 + p1;
    let s3 = s2 + seq![gate];
    let s4 = s3 + seq![up];
    let s5 = s4 + seq![act];
    let s6 = s5 + p2;
    let s7 = s6 + seq![down];
    lemma_run_one(e, norm);
    let e1 = run(e, s1);
    lemma_run_concat(e, s1, p1);
    let e2 = lemma_pack(e1, gu, Buf::HFfn, Buf::HFfnQ8, hidden);
    lemma_run_snoc(e, s2, gate);
    lemma_run_snoc(e, s3, up);
    lemma_run_snoc(e, s4, act);
    let e5 = run(e, s5);
    lemma_run_concat(e, s5, p2);
    let e6 = lemma_pack(e5, pa, Buf::Act, Buf::ActQ8, inter);
    lemma_run_snoc(e, s6, down);
    let e7 = run(e, s7);
    lemma_run_concat(e, s7, res);
    let e8 = lemma_residual(e7, l, Buf::FfnDelta, Buf::FfnNormed, l.ffn_post_norm(), 1, hidden);
    lemma_run_concat(e, s7 + res, scale_ops(l, hidden));
    let r = lemma_scale(e8, l, hidden);
    assert(r.bufs[Buf::H] =~= seq![ffn_row(e.layer, l, e.bufs[Buf::H][0])]);
    r
}

proof fn lemma_pipeline_attn(
    call: CallDims,
    d: LayerDims,
    l: FullPipelineLayer,
    max_seq: usize,
    e: Env,
) -> (r: Env)
    requires
        e.bufs[Buf::H].len() == 1,
        e.device_pos >= 0,
    ensures
        r == run(e, pipeline_attn_ops(call, d, l, max_seq)),
        token_attended(e, r, l, attn_call(call, l, d, max_seq), e.device_pos),
{
    let hidden = call.hidden;
    let acall = attn_call(call, l, d, max_seq);
    let norm = DeviceOp::RmsNorm {
        src: Buf::H,
        dst: Buf::HAttn,
        norm: NormRef::Input,
        rows: 1,
        dim: hidden,
    };
    let x8 = must_pack(Buf::HAttn, Buf::HAttnQ8, hidden);
    let q = packed_project(WeightRef::Wq, l.wq, Buf::HAttn, Buf::HAttnQ8, Buf::Q, d.q_dim, hidden);
    let k = packed_project(WeightRef::Wk, l.wk, Buf::HAttn, Buf::HAttnQ8, Buf::K, d.kv_dim, hidden);
    let v = packed_project(WeightRef::Wv, l.wv, Buf::HAttn, Buf::HAttnQ8, Buf::V, d.kv_dim, hidden);
    let kind = AttnKind::DecodeAtDevicePos;
    let at = DeviceOp::Attention {
        kind,
        call: acall,
        q: Buf::Q,
        k: Buf::K,
        v: Buf::V,
        dst: Buf::AttnOut,
        rows: 1,
    };
    let o8 = must_pack(Buf::AttnOut, Buf::AttnOutQ8, d.q_dim);
    let wo = packed_project(
        WeightRef::Wo,
        l.wo,
        Buf::AttnOut,
        Buf::AttnOutQ8,
        Buf::AttnDelta,
        hidden,
        d.q_dim,
    );
    let s1 = seq![norm];
    let s2 = s1 + seq![x8];
    let s3 = s2 + seq![q];
    let s4 = s3 + seq![k];
    let s5 = s4 + seq![v];
    let s6 = s5 + seq![at];
    let s7 = s6 + seq![o8];
    let s8 = s7 + seq![wo];
    lemma_run_one(e, norm);
    lemma_run_snoc(e, s1, x8);
    lemma_run_snoc(e, s2, q);
    lemma_run_snoc(e, s3, k);
    lemma_run_snoc(e, s4, v);
    let e3 = run(e, s5);
    lemma_run_snoc(e, s5, at);
    let e4 = run(e, s6);
    lemma_run_snoc(e, s6, o8);
    lemma_run_snoc(e, s7, wo);
    let e6 = run(e, s8);
    lemma_run_concat(e, s8, fused_attn_residual(l, hidden));
    let r = run(e, pipeline_attn_ops(call, d, l, max_seq));
    if l.has_post_norms {
        lemma_run_one(
            e6,
            DeviceOp::NormAdd {
                src: Buf::AttnDelta,
                norm: NormRef::PostAttn,
                dim: hidden,
                scale_bits: crate::layer::ONE_BITS,
            },
        );
    } else {
        lemma_run_one(e6, DeviceOp::Add { src: Buf::AttnDelta, len: hidden });
    }
    assert(r.bufs[Buf::H] =~= seq![
        sum(e.bufs[Buf::H][0], post(e.layer, l, NormRef::PostAttn, e6.bufs[Buf::AttnDelta][0])),
    ]);
    lemma_token_attn_tail(e, e3, e4, e6, r, l, kind, acall, e.device_pos);
    r
}

proof fn lemma_pipeline_ffn(call: CallDims, l: FullPipelineLayer, e: Env) -> (r: Env)
    requires
        e.bufs[Buf::H].len() == 1,
    ensures
        r == run(e, pipeline_ffn_ops(call, l)),
        token_fed_forward(e, r, l),
{
    let hidden = call.hidden;
    let inter = call.inter;
    let norm = DeviceOp::RmsNorm {
        src: Buf::H,
        dst: Buf::HFfn,
        norm: l.ffn_norm(),
        rows: 1,
        dim: hidden,
    };
    let x8 = must_pack(Buf::HFfn, Buf::HFfnQ8, hidden);
    let gate = packed_project(WeightRef::Gate, l.gate, Buf::HFfn, Buf::HFfnQ8, Buf::Gate, inter, hidden);
    let up = packed_project(WeightRef::Up, l.up, Buf::HFfn, Buf::HFfnQ8, Buf::Up, inter, hidden);
    let act = DeviceOp::GateUp { n: inter, gelu_tanh: l.activation == Activation::GeluTanh };
    let a8 = must_pack(Buf::Act, Buf::ActQ8, inter);
    let down = packed_project(WeightRef::Down, l.down, Buf::Act, Buf::ActQ8, Buf::FfnDelta, hidden, inter);
    let s1 = seq![norm];
    let s2 = s1 + seq![x8];
    let s3 = s2 + seq![gate];
    let s4 = s3 + seq![up];
    let s5 = s4 + seq![act];
    let s6 = s5 + seq![a8];
    let s7 = s6 + seq![down];
    lemma_run_one(e, norm);
    lemma_run_snoc(e, s1, x8);
    lemma_run_snoc(e, s2, gate);
    lemma_run_snoc(e, s3, up);
    lemma_run_snoc(e, s4, act);
    lemma_run_snoc(e, s5, a8);
    lemma_run_snoc(e, s6, down);
    let e7 = run(e, s7);
    lemma_run_concat(e, s7, fused_ffn_residual(l, hidden));
    let r = run(e, pipeline_ffn_ops(call, l));
    if l.has_post_norms {
        lemma_run_one(
            e7,
            DeviceOp::NormAdd {
                src: Buf::FfnDelta,
                norm: l.ffn_post_norm(),
                dim: hidden,
                scale_bits: crate::pipeline::layer_scale(l),
            },
        );
    } else {
        let add = DeviceOp::Add { src: Buf::FfnDelta, len: hidden };
        lemma_run_one(e7, add);
        let e8 = run(e7, seq![add]);
        lemma_run_concat(e7, seq![add], scale_ops(l, hidden));
        let e9 = lemma_scale(e8, l, hidden);
    }
    assert(r.bufs[Buf::H] =~= seq![ffn_row(e.layer, l, e.bufs[Buf::H][0])]);
    r
}

proof fn lemma_host_attn(
    call: CallDims,
    l: FullPipelineLayer,
    pos: usize,
    max_seq: usize,
    e: Env,
) -> (r: Env)
    requires
        e.bufs[Buf::H].len() == 1,
    ensures
        r == run(e, host_attn_half(call, l, pos, max_seq)),
        token_attended(e, r, l, attn_call(call, l, call.dims_for(l), max_seq), pos as int),
{
    let d = call.dims_for(l);
    let hidden = call.hidden;
    let acall = attn_call(call, l, d, max_seq);
    let norm = DeviceOp::RmsNorm {
        src: Buf::H,
        dst: Buf::HAttn,
        norm: NormRef::Input,
        rows: 1,
        dim: hidden,
    };
    let kind = AttnKind::DecodeThroughHost { pos };
    let at = DeviceOp::Attention {
        kind,
        call: acall,
        q: Buf::Q,
        k: Buf::K,
        v: Buf::V,
        dst: Buf::AttnOut,
        rows: 1,
    };
    let wo = host_project(
        WeightRef::Wo,
        l.wo,
        Buf::AttnOut,
        Buf::AttnDelta,
        hidden,
        d.q_dim,
        wo_attempts(call, d),
    );
    let qkv = host_qkv_ops(call, l, d);
    let res = residual_ops(l, Buf::AttnDelta, Buf::AttnNormed, NormRef::PostAttn, 1, hidden);
    let s1 = seq![norm];
    let s2 = s1 + qkv;
    let s3 = s2 + seq![at];
    let s4 = s3 + seq![wo];
    lemma_run_one(e, norm);
    let e1 = run(e, s1);
    lemma_run_concat(e, s1, qkv);
    let e3 = run(e, s2);
    if separate_qkv(l) {
        let q = host_project(WeightRef::Wq, l.wq, Buf::HAttn, Buf::Q, d.q_dim, hidden, 1);
        let k = host_project(WeightRef::Wk, l.wk, Buf::HAttn, Buf::K, d.kv_dim, hidden, 1);
        let v = host_project(WeightRef::Wv, l.wv, Buf::HAttn, Buf::V, d.kv_dim, hidden, 1);
        assert(qkv =~= seq![q] + seq![k] + seq![v]);
        lemma_run_one(e1, q);
        lemma_run_snoc(e1, seq![q], k);
        lemma_run_snoc(e1, seq![q] + seq![k], v);
    } else {
        lemma_run_one(e1, qkv[0]);
        assert(qkv =~= seq![qkv[0]]);
    }
    lemma_run_snoc(e, s2, at);
    let e4 = run(e, s3);
    lemma_run_snoc(e, s3, wo);
    let e6 = run(e, s4);
    lemma_run_concat(e, s4, res);
    let r = lemma_residual(e6, l, Buf::AttnDelta, Buf::AttnNormed, NormRef::PostAttn, 1, hidden);
    assert(r.bufs[Buf::H] =~= seq![
        sum(e.bufs[Buf::H][0], post(e.layer, l, NormRef::PostAttn, e6.bufs[Buf::AttnDelta][0])),
    ]);
    lemma_token_attn_tail(e, e3, e4, e6, r, l, kind, acall, pos as int);
    r
}

proof fn lemma_host_ffn(call: CallDims, l: FullPipelineLayer, e: Env) -> (r: Env)
    requires
        e.bufs[Buf::H].len() == 1,
    ensures
        r == run(e, host_ffn_half(call, l)),
        token_fed_forward(e, r, l),
{
    let hidden = call.hidden;
    let inter = call.inter;
    let norm = DeviceOp::RmsNorm {
        src: Buf::H,
        dst: Buf::HFfn,
        norm: l.ffn_norm(),
        rows: 1,
        dim: hidden,
    };
    let gate = host_project(WeightRef::Gate, l.gate, Buf::HFfn, Buf::Gate, inter, hidden, 1);
    let up = host_project(WeightRef::Up, l.up, Buf::HFfn, Buf::Up, inter, hidden, 1);
    let act = DeviceOp::GateUp { n: inter, gelu_tanh: l.activation == Activation::GeluTanh };
    let down = host_project(WeightRef::Down, l.down, Buf::Act, Buf::FfnDelta, hidden, inter, 1);
    let res = residual_ops(l, Buf::FfnDelta, Buf::FfnNormed, l.ffn_post_norm(), 1, hidden);
    let s1 = seq![norm];
    let s2 = s1 + seq![gate];
    let s3 = s2 + seq![up];
    let s4 = s3 + seq![act];
    let s5 = s4 + seq![down];
    lemma_run_one(e, norm);
    lemma_run_snoc(e, s1, gate);
    lemma_run_snoc(e, s2, up);
    lemma_run_snoc(e, s3, act);
    lemma_run_snoc(e, s4, down);
    let e5 = run(e, s5);
    lemma_run_concat(e, s5, res);
    let e6 = lemma_residual(e5, l, Buf::FfnDelta, Buf::FfnNormed, l.ffn_post_norm(), 1, hidden);
    lemma_run_concat(e, s5 + res, scale_ops(l, hidden));
    let r = lemma_scale(e6, l, hidden);
    assert(r.bufs[Buf::H] =~= seq![ffn_row(e.layer, l, e.bufs[Buf::H][0])]);
    r
}


/// Layers, the caller's dimensions, what the cache holds for the positions below `base`, and
/// the row that the caller passes for each position.
pub struct Setting {
    pub call: CallDims,
    pub layers: Seq<FullPipelineLayer>,
    pub max_seq: usize,
    pub base: int,
    pub history: spec_fn(int, int) -> (Row, Row),
    pub input: spec_fn(int) -> Row,
}

/// Attention settings of layer `i`: heads and head width are the larger of the layer's and the
/// caller's, the rotary base is the caller's where the layer has none, queries and keys are
/// normalised where there is a weight for each, and everything else is the layer's.
pub open spec fn call_of(m: Setting, i: int) -> AttnCall {
    let l = m.layers[i];
    AttnCall {
        num_q_heads: if l.num_q_heads >= m.call.num_q_heads {
            l.num_q_heads
        } else {
            m.call.num_q_heads
        },
        num_kv_heads: if l.num_kv_heads >= m.call.num_kv_heads {
            l.num_kv_heads
        } else {
            m.call.num_kv_heads
        },
        head_dim: if l.head_dim >= m.call.head_dim {
            l.head_dim
        } else {
            m.call.head_dim
        },
        max_seq: m.max_seq,
        rotary_dim: l.rotary_dim,
        rope_base_bits: if l.rope_base_bits == 0 || l.rope_base_bits == 0x8000_0000 {
            m.call.rope_base_bits
        } else {
            l.rope_base_bits
        },
        eps_bits: l.eps_bits,
        qk_norm_offset_bits: l.qk_norm_offset_bits,
        attn_scale_bits: l.attn_scale_bits,
        qk_norm: l.q_norm_weight && l.k_norm_weight,
    }
}

/// The row of the token at position `p` behind the first `i` layers. The token sees
/// itself and everything before it.
pub open spec fn hidden(m: Setting, i: nat, p: int) -> Row
    decreases i, 0int,
{
    if i == 0 {
        (m.input)(p)
    } else {
        let k = (i - 1) as nat;
        let l = m.layers[k as int];
        let a = attn_row(
            k as int,
            l,
            call_of(m, k as int),
            p,
            hidden(m, k, p),
            visible(m, k, p),
        );
        ffn_row(k as int, l, a)
    }
}

/// The cache entry of layer `i` at position `j`.
pub open spec fn entry(m: Setting, i: nat, j: int) -> (Row, Row)
    decreases i, 1int,
{
    if j < m.base {
        (m.history)(i as int, j)
    } else {
        cell(i as int, hidden(m, i, j))
    }
}

/// The entries of layer `i` that the token at position `p` sees.
pub open spec fn visible(m: Setting, i: nat, p: int) -> Seq<Option<(Row, Row)>>
    decreases i, 2int,
{
    Seq::new((p + 1) as nat, |j: int| Some(entry(m, i as nat, j)))
}

/// The cache holds the entries of all layers for the positions below `end`.
pub open spec fn cache_holds(m: Setting, e: Env, end: int) -> bool {
    forall|i: int, j: int|
        0 <= i < m.layers.len() && 0 <= j < end ==> #[trigger] (e.cache)(i, j) == entry(m, i as nat, j)
}

/// The rows that the caller passes for `n` tokens from position `start` on.
pub open spec fn inputs(m: Setting, start: int, n: nat) -> Seq<Row> {
    Seq::new(n, |r: int| (m.input)(start + r))
}

/// Each of the first `n` nodes has every node up to itself among its ancestors: the
/// tree is a chain.
pub open spec fn chain(ancestors: Seq<u64>, n: int) -> bool {
    forall|r: int, b: int| 0 <= b <= r < n ==> #[trigger] has_bit(ancestors[r], b)
}

/// The program of a pass runs at the pass's own start, and its sizes can be held.
pub open spec fn pass_runs(m: Setting, pass: SeqPass, e: Env) -> bool {
    &&& m.base == pass.base_pos
    &&& m.layers.len() <= usize::MAX
    &&& pass.attn == SeqAttn::PerPosition ==> pass.base_pos == 0
    &&& pass.attn == SeqAttn::AtDevicePos ==> e.device_pos == pass.base_pos
    &&& pass.attn == SeqAttn::Tree ==> e.device_pos == pass.base_pos && chain(
        e.ancestors,
        pass.seq_len as int,
    )
    &&& crate::prefill::pass_fits(m.call, pass, m.layers)
    &&& pass.attn == SeqAttn::PerPosition ==> forall|i: int|
        0 <= i < m.layers.len() ==> m.call.dims_for(#[trigger] m.layers[i]).q_dim > 0
            && m.call.dims_for(m.layers[i]).kv_dim > 0
}

proof fn lemma_seq_layers(flags: DecodeFlags, m: Setting, pass: SeqPass, e: Env, n: nat) -> (r: Env)
    requires
        n <= m.layers.len() <= usize::MAX,
        pass_runs(m, pass, e),
        cache_holds(m, e, m.base),
        e.bufs[Buf::H] == inputs(m, m.base, pass.seq_len as nat),
    ensures
        r == run(e, seq_layers_ops(flags, m.call, m.layers, n, pass, m.max_seq)),
        r.device_pos == e.device_pos,
        r.ancestors == e.ancestors,
        r.bufs[Buf::H] == Seq::new(pass.seq_len as nat, |k: int| hidden(m, n, m.base + k)),
        forall|i: int, j: int|
            0 <= i < n && 0 <= j < m.base + pass.seq_len ==> #[trigger] (r.cache)(i, j) == entry(m, i as nat, j),
        forall|i: int, j: int| i >= n ==> #[trigger] (r.cache)(i, j) == (e.cache)(i, j),
    decreases n,
{
    let len = pass.seq_len;
    let r = run(e, seq_layers_ops(flags, m.call, m.layers, n, pass, m.max_seq));
    if n == 0 {
        assert(r.bufs[Buf::H] =~= Seq::new(len as nat, |k: int| hidden(m, n, m.base + k)));
    } else {
        let i = (n - 1) as nat;
        let l = m.layers[i as int];
        let b = lemma_seq_layers(flags, m, pass, e, i);
        let before = seq_layers_ops(flags, m.call, m.layers, i, pass, m.max_seq);
        let begin = DeviceOp::BeginLayer { index: i as usize };
        let attn = seq_attn_half(flags, m.call, l, pass, m.max_seq);
        let ffn = seq_ffn_half(flags, m.call, l, len);
        lemma_run_concat(e, before, seq![begin] + attn + ffn);
        lemma_run_concat(b, seq![begin] + attn, ffn);
        lemma_run_concat(b, seq![begin], attn);
        lemma_run_one(b, begin);
        let c = run(b, seq![begin]);
        assert(len * m.call.dims_for(l).q_dim <= usize::MAX);
        let d = lemma_seq_attn_half(flags, m.call, l, pass, m.max_seq, c);
        let f = lemma_seq_ffn_half(flags, m.call, l, len, d);
        assert(f == r);
        assert(pass_start(c, pass) == m.base);
        assert forall|k: int, j: int|
            0 <= k < n && 0 <= j < m.base + len implies #[trigger] (r.cache)(k, j) == entry(m, k as nat, j) by {
            assert((r.cache)(k, j) == (d.cache)(k, j));
            assert((d.cache)(k, j) == cells_after(c.cache, c.layer, m.base, c.bufs[Buf::H])(k, j));
            assert((c.cache)(k, j) == (b.cache)(k, j));
            if k == i && j < m.base {
                assert((b.cache)(k, j) == (e.cache)(k, j));
            }
        }
        assert forall|k: int, j: int| k >= n implies #[trigger] (r.cache)(k, j) == (e.cache)(
            k,
            j,
        ) by {
            assert((r.cache)(k, j) == (d.cache)(k, j));
            assert((d.cache)(k, j) == cells_after(c.cache, c.layer, m.base, c.bufs[Buf::H])(k, j));
            assert((c.cache)(k, j) == (b.cache)(k, j));
        }
        assert forall|k: int| 0 <= k < len implies #[trigger] r.bufs[Buf::H][k] == hidden(
            m,
            n,
            m.base + k,
        ) by {
            let p = m.base + k;
            let es = visible(m, i, p);
            let got = entries(c, pass.attn == SeqAttn::Tree, d.cache, m.base, k);
            assert forall|j: int| 0 <= j < p + 1 implies #[trigger] got[j] == es[j] by {
                assert((r.cache)(i as int, j) == entry(m, i, j));
                assert((d.cache)(i as int, j) == (r.cache)(i as int, j));
                if pass.attn == SeqAttn::Tree && j >= m.base {
                    assert(has_bit(c.ancestors[k], j - m.base));
                }
            }
            assert(got =~= es);
        }
        assert(r.bufs[Buf::H] =~= Seq::new(len as nat, |k: int| hidden(m, n, m.base + k)));
    }
    r
}

/// A batched pass computes the row of every one of its tokens and leaves their entries
/// in the cache, whether attention is called once for the run, at a start that the
/// device holds, once per position, or as a tree that is a chain.
pub proof fn law_batched_pass(flags: DecodeFlags, m: Setting, pass: SeqPass, e: Env)
    requires
        pass_runs(m, pass, e),
        cache_holds(m, e, m.base),
        e.input == inputs(m, m.base, pass.seq_len as nat),
    ensures
        ({
            let r = run(e, seq_program(flags, m.call, m.layers, pass, m.max_seq));
            &&& r.bufs[Buf::H] == Seq::new(
                pass.seq_len as nat,
                |k: int| hidden(m, m.layers.len(), m.base + k),
            )
            &&& cache_holds(m, r, m.base + pass.seq_len)
        }),
{
    let len = (pass.seq_len * m.call.hidden) as usize;
    let up = DeviceOp::Upload { len };
    let down = DeviceOp::Download { len };
    let body = seq_layers_ops(flags, m.call, m.layers, m.layers.len(), pass, m.max_seq);
    lemma_run_snoc(e, seq![up] + body, down);
    lemma_run_concat(e, seq![up], body);
    lemma_run_one(e, up);
    let c = run(e, seq![up]);
    assert forall|i: int, j: int|
        0 <= i < m.layers.len() && 0 <= j < m.base implies #[trigger] (c.cache)(i, j) == entry(m, i as nat, j) by {
        assert((c.cache)(i, j) == (e.cache)(i, j));
    }
    let d = lemma_seq_layers(flags, m, pass, c, m.layers.len());
}

/// A pass over fixed buffers computes what a pass of its own computes, once its rows have
/// been placed: the same rows come out, and the cache holds the same entries.
pub proof fn law_placed_pass_equals_pass(
    flags: DecodeFlags,
    m: Setting,
    pass: SeqPass,
    e: Env,
    own: SeqPass,
    f: Env,
)
    requires
        pass_runs(m, pass, e),
        pass_runs(m, own, f),
        own.seq_len == pass.seq_len,
        cache_holds(m, e, m.base),
        cache_holds(m, f, m.base),
        e.bufs[Buf::H] == inputs(m, m.base, pass.seq_len as nat),
        f.input == inputs(m, m.base, pass.seq_len as nat),
    ensures
        ({
            let placed = run(
                e,
                seq_layers_ops(flags, m.call, m.layers, m.layers.len(), pass, m.max_seq),
            );
            let plain = run(f, seq_program(flags, m.call, m.layers, own, m.max_seq));
            &&& placed.bufs[Buf::H] == plain.bufs[Buf::H]
            &&& forall|i: int, j: int|
                0 <= i < m.layers.len() && 0 <= j < m.base + pass.seq_len ==> #[trigger] (
                placed.cache)(i, j) == (plain.cache)(i, j)
        }),
{
    let placed = lemma_seq_layers(flags, m, pass, e, m.layers.len());
    law_batched_pass(flags, m, own, f);
    let plain = run(f, seq_program(flags, m.call, m.layers, own, m.max_seq));
    assert forall|i: int, j: int|
        0 <= i < m.layers.len() && 0 <= j < m.base + pass.seq_len implies #[trigger] (placed.cache)(
        i,
        j,
    ) == (plain.cache)(i, j) by {
        assert((plain.cache)(i, j) == entry(m, i as nat, j));
    }
}

proof fn lemma_hidden_is_causal(a: Setting, b: Setting, n: nat, p: int)
    requires
        b == (Setting { input: b.input, ..a }),
        forall|q: int| a.base <= q <= p ==> #[trigger] (a.input)(q) == (b.input)(q),
        0 <= a.base <= p,
    ensures
        hidden(a, n, p) == hidden(b, n, p),
    decreases n,
{
    if n > 0 {
        let k = (n - 1) as nat;
        lemma_hidden_is_causal(a, b, k, p);
        assert forall|j: int| 0 <= j < p + 1 implies #[trigger] visible(a, k, p)[j] == visible(b, k, p)[j] by {
            if j >= a.base {
                lemma_hidden_is_causal(a, b, k, j);
            }
        }
        assert(visible(a, k, p) =~= visible(b, k, p));
    } else {
        assert((a.input)(p) == (b.input)(p));
    }
}

/// A batched pass is causal: where two passes agree in the rows `0..=last` that go in, they
/// agree in the rows `0..=last` that come out, whatever the later rows are.
pub proof fn law_later_rows_have_no_influence(
    flags: DecodeFlags,
    m: Setting,
    pass: SeqPass,
    e: Env,
    f: Env,
    last: int,
)
    requires
        pass_runs(m, pass, e),
        f == (Env { input: f.input, ..e }),
        e.input.len() == pass.seq_len,
        f.input.len() == pass.seq_len,
        0 <= last < pass.seq_len,
        forall|r: int| 0 <= r <= last ==> #[trigger] e.input[r] == f.input[r],
    ensures
        ({
            let program = seq_program(flags, m.call, m.layers, pass, m.max_seq);
            let a = run(e, program).bufs[Buf::H];
            let b = run(f, program).bufs[Buf::H];
            &&& a.len() == pass.seq_len
            &&& b.len() == pass.seq_len
            &&& forall|r: int| 0 <= r <= last ==> #[trigger] a[r] == b[r]
        }),
{
    let a = Setting {
        history: |i: int, j: int| (e.cache)(i, j),
        input: |p: int| e.input[p - m.base],
        ..m
    };
    let b = Setting { input: |p: int| f.input[p - m.base], ..a };
    assert(e.input =~= inputs(a, a.base, pass.seq_len as nat));
    assert(f.input =~= inputs(b, b.base, pass.seq_len as nat));
    assert(pass_runs(a, pass, e));
    assert(pass_runs(b, pass, f));
    law_batched_pass(flags, a, pass, e);
    law_batched_pass(flags, b, pass, f);
    let program = seq_program(flags, m.call, m.layers, pass, m.max_seq);
    let x = run(e, program).bufs[Buf::H];
    let y = run(f, program).bufs[Buf::H];
    assert forall|r: int| 0 <= r <= last implies #[trigger] x[r] == y[r] by {
        assert forall|q: int| a.base <= q <= m.base + r implies #[trigger] (a.input)(q) == (
        b.input)(q) by {
            assert(e.input[q - m.base] == f.input[q - m.base]);
        }
        lemma_hidden_is_causal(a, b, m.layers.len(), m.base + r);
    }
}

/// A step of one token: what the attention half and the feed-forward half of a layer do
/// to its row.
proof fn lemma_token_layer(m: Setting, p: int, i: nat, b: Env, c: Env, d: Env, r: Env)
    requires
        i < m.layers.len(),
        p >= m.base,
        m.base >= 0,
        b.bufs[Buf::H] == seq![hidden(m, i, p)],
        cache_holds(m, b, p),
        c == (Env { layer: i as int, ..b }),
        token_attended(c, d, m.layers[i as int], call_of(m, i as int), p),
        token_fed_forward(d, r, m.layers[i as int]),
    ensures
        r.bufs[Buf::H] == seq![hidden(m, (i + 1) as nat, p)],
        (r.cache)(i as int, p) == entry(m, i, p),
        forall|k: int, j: int|
            !(k == i && j == p) ==> #[trigger] (r.cache)(k, j) == (b.cache)(k, j),
        r.device_pos == b.device_pos,
        r.input == b.input,
        cache_holds(m, r, p),
{
    let l = m.layers[i as int];
    assert forall|k: int, j: int| !(k == i && j == p) implies #[trigger] (r.cache)(k, j) == (
    b.cache)(k, j) by {
        assert((r.cache)(k, j) == (d.cache)(k, j));
        assert((d.cache)(k, j) == cells_after(c.cache, c.layer, p, seq![c.bufs[Buf::H][0]])(k, j));
    }
    assert((r.cache)(i as int, p) == (d.cache)(i as int, p));
    assert((d.cache)(i as int, p) == cells_after(c.cache, c.layer, p, seq![c.bufs[Buf::H][0]])(
        i as int,
        p,
    ));
    let es = visible(m, i, p);
    let got = Seq::new((p + 1) as nat, |j: int| Some((d.cache)(c.layer, j)));
    assert forall|j: int| 0 <= j < p + 1 implies #[trigger] got[j] == es[j] by {
        assert((d.cache)(i as int, j) == (r.cache)(i as int, j));
        if j < p {
            assert((b.cache)(i as int, j) == entry(m, i, j));
        }
    }
    assert(got =~= es);
    assert forall|k: int, j: int|
        0 <= k < m.layers.len() && 0 <= j < p implies #[trigger] (r.cache)(k, j) == entry(m, k as nat, j) by {
        assert((b.cache)(k, j) == entry(m, k as nat, j));
    }
}

/// What the first `n` layers of a step leave behind for the token at position `p`.
pub open spec fn token_passed(m: Setting, p: int, n: nat, e: Env, r: Env) -> bool {
    &&& r.bufs[Buf::H] == seq![hidden(m, n, p)]
    &&& r.device_pos == e.device_pos
    &&& cache_holds(m, r, p)
    &&& forall|i: int| 0 <= i < n ==> #[trigger] (r.cache)(i, p) == entry(m, i as nat, p)
}

/// The layers that a pipeline uses one set of dimensions for have those dimensions.
pub open spec fn uniform(m: Setting, d: LayerDims) -> bool {
    forall|i: int| 0 <= i < m.layers.len() ==> m.call.dims_for(#[trigger] m.layers[i]) == d
}

proof fn lemma_decode_layers(flags: DecodeFlags, m: Setting, pos: usize, e: Env, n: nat) -> (r: Env)
    requires
        n <= m.layers.len() <= usize::MAX,
        0 <= m.base <= pos,
        cache_holds(m, e, pos as int),
        e.bufs[Buf::H] == seq![(m.input)(pos as int)],
    ensures
        r == run(e, decode_layers_ops(flags, m.call, m.layers, n, pos, m.max_seq)),
        token_passed(m, pos as int, n, e, r),
    decreases n,
{
    let r = run(e, decode_layers_ops(flags, m.call, m.layers, n, pos, m.max_seq));
    if n > 0 {
        let i = (n - 1) as nat;
        let l = m.layers[i as int];
        let b = lemma_decode_layers(flags, m, pos, e, i);
        let begin = DeviceOp::BeginLayer { index: i as usize };
        let attn = decode_attn_ops(flags, m.call, l, pos, m.max_seq);
        let ffn = decode_ffn_ops(flags, m.call, l);
        lemma_run_concat(
            e,
            decode_layers_ops(flags, m.call, m.layers, i, pos, m.max_seq),
            seq![begin] + attn + ffn,
        );
        lemma_run_concat(b, seq![begin] + attn, ffn);
        lemma_run_concat(b, seq![begin], attn);
        lemma_run_one(b, begin);
        let c = run(b, seq![begin]);
        let d = lemma_decode_attn(flags, m.call, l, pos, m.max_seq, c);
        let f = lemma_decode_ffn(flags, m.call, l, d);
        lemma_token_layer(m, pos as int, i, b, c, d, f);
        assert forall|k: int| 0 <= k < n implies #[trigger] (r.cache)(k, pos as int) == entry(m, k as nat, pos as int) by {
            if k < i {
                assert((r.cache)(k, pos as int) == (b.cache)(k, pos as int));
            }
        }
    } else {
        assert(r == e);
    }
    r
}

proof fn lemma_pipeline_layers(m: Setting, d: LayerDims, p: int, e: Env, n: nat) -> (r: Env)
    requires
        n <= m.layers.len() <= usize::MAX,
        0 <= m.base <= p,
        e.device_pos == p,
        uniform(m, d),
        cache_holds(m, e, p),
        e.bufs[Buf::H] == seq![(m.input)(p)],
    ensures
        r == run(e, pipeline_ops(m.call, d, m.layers, n, m.max_seq)),
        token_passed(m, p, n, e, r),
    decreases n,
{
    let r = run(e, pipeline_ops(m.call, d, m.layers, n, m.max_seq));
    if n > 0 {
        let i = (n - 1) as nat;
        let l = m.layers[i as int];
        let b = lemma_pipeline_layers(m, d, p, e, i);
        let begin = DeviceOp::BeginLayer { index: i as usize };
        let attn = pipeline_attn_ops(m.call, d, l, m.max_seq);
        let ffn = pipeline_ffn_ops(m.call, l);
        lemma_run_concat(
            e,
            pipeline_ops(m.call, d, m.layers, i, m.max_seq),
            seq![begin] + attn + ffn,
        );
        lemma_run_concat(b, seq![begin] + attn, ffn);
        lemma_run_concat(b, seq![begin], attn);
        lemma_run_one(b, begin);
        let c = run(b, seq![begin]);
        let g = lemma_pipeline_attn(m.call, d, l, m.max_seq, c);
        let f = lemma_pipeline_ffn(m.call, l, g);
        assert(m.call.dims_for(m.layers[i as int]) == d);
        lemma_token_layer(m, p, i, b, c, g, f);
        assert forall|k: int| 0 <= k < n implies #[trigger] (r.cache)(k, p) == entry(m, k as nat, p) by {
            if k < i {
                assert((r.cache)(k, p) == (b.cache)(k, p));
            }
        }
    } else {
        assert(r == e);
    }
    r
}

proof fn lemma_host_layers(m: Setting, pos: usize, e: Env, n: nat) -> (r: Env)
    requires
        n <= m.layers.len() <= usize::MAX,
        0 <= m.base <= pos,
        cache_holds(m, e, pos as int),
        e.bufs[Buf::H] == seq![(m.input)(pos as int)],
    ensures
        r == run(e, host_layers_ops(m.call, m.layers, n, pos, m.max_seq)),
        token_passed(m, pos as int, n, e, r),
    decreases n,
{
    let r = run(e, host_layers_ops(m.call, m.layers, n, pos, m.max_seq));
    if n > 0 {
        let i = (n - 1) as nat;
        let l = m.layers[i as int];
        let b = lemma_host_layers(m, pos, e, i);
        let begin = DeviceOp::BeginLayer { index: i as usize };
        let attn = host_attn_half(m.call, l, pos, m.max_seq);
        let ffn = host_ffn_half(m.call, l);
        lemma_run_concat(
            e,
            host_layers_ops(m.call, m.layers, i, pos, m.max_seq),
            seq![begin] + attn + ffn,
        );
        lemma_run_concat(b, seq![begin] + attn, ffn);
        lemma_run_concat(b, seq![begin], attn);
        lemma_run_one(b, begin);
        let c = run(b, seq![begin]);
        let d = lemma_host_attn(m.call, l, pos, m.max_seq, c);
        let f = lemma_host_ffn(m.call, l, d);
        lemma_token_layer(m, pos as int, i, b, c, d, f);
        assert forall|k: int| 0 <= k < n implies #[trigger] (r.cache)(k, pos as int) == entry(m, k as nat, pos as int) by {
            if k < i {
                assert((r.cache)(k, pos as int) == (b.cache)(k, pos as int));
            }
        }
    } else {
        assert(r == e);
    }
    r
}

/// What a whole step of the token at position `p` leaves behind.
pub open spec fn token_decoded(m: Setting, p: int, r: Env) -> bool {
    &&& r.bufs[Buf::H] == seq![hidden(m, m.layers.len(), p)]
    &&& cache_holds(m, r, p + 1)
}

proof fn lemma_decoded(m: Setting, p: int, e: Env, r: Env)
    requires
        p >= 0,
        token_passed(m, p, m.layers.len(), e, r),
    ensures
        token_decoded(m, p, r),
{
    assert forall|i: int, j: int|
        0 <= i < m.layers.len() && 0 <= j < p + 1 implies #[trigger] (r.cache)(i, j) == entry(m, i as nat, j) by {
        if j == p {
            assert((r.cache)(i, p) == entry(m, i as nat, p));
        }
    }
}

/// The device-resident step computes the token's row and leaves its entries in the
/// cache.
pub proof fn law_decode_step(flags: DecodeFlags, m: Setting, pos: usize, e: Env)
    requires
        m.layers.len() <= usize::MAX,
        0 <= m.base <= pos,
        cache_holds(m, e, pos as int),
        e.input == inputs(m, pos as int, 1),
    ensures
        token_decoded(
            m,
            pos as int,
            run(e, decode_program(flags, m.call, m.layers, pos, m.max_seq)),
        ),
{
    let up = DeviceOp::Upload { len: m.call.hidden };
    let down = DeviceOp::Download { len: m.call.hidden };
    let body = decode_layers_ops(flags, m.call, m.layers, m.layers.len(), pos, m.max_seq);
    lemma_run_snoc(e, seq![up] + body, down);
    lemma_run_concat(e, seq![up], body);
    lemma_run_one(e, up);
    let c = run(e, seq![up]);
    assert(c.bufs[Buf::H] =~= seq![(m.input)(pos as int)]);
    assert forall|i: int, j: int|
        0 <= i < m.layers.len() && 0 <= j < pos implies #[trigger] (c.cache)(i, j) == entry(m, i as nat, j) by {
        assert((c.cache)(i, j) == (e.cache)(i, j));
    }
    let d = lemma_decode_layers(flags, m, pos, c, m.layers.len());
    lemma_decoded(m, pos as int, c, d);
}

/// The step through the host computes what the device-resident step computes.
pub proof fn law_host_step(m: Setting, pos: usize, e: Env)
    requires
        m.layers.len() <= usize::MAX,
        0 <= m.base <= pos,
        all_plain(m.layers),
        cache_holds(m, e, pos as int),
        e.input == inputs(m, pos as int, 1),
    ensures
        token_decoded(m, pos as int, run(e, host_program(m.call, m.layers, pos, m.max_seq))),
{
    lemma_plain_prefix(m.layers, m.layers.len());
    let up = DeviceOp::Upload { len: m.call.hidden };
    let down = DeviceOp::Download { len: m.call.hidden };
    let body = host_layers_ops(m.call, m.layers, m.layers.len(), pos, m.max_seq);
    lemma_run_snoc(e, seq![up] + body, down);
    lemma_run_concat(e, seq![up], body);
    lemma_run_one(e, up);
    let c = run(e, seq![up]);
    assert(c.bufs[Buf::H] =~= seq![(m.input)(pos as int)]);
    assert forall|i: int, j: int|
        0 <= i < m.layers.len() && 0 <= j < pos implies #[trigger] (c.cache)(i, j) == entry(m, i as nat, j) by {
        assert((c.cache)(i, j) == (e.cache)(i, j));
    }
    let d = lemma_host_layers(m, pos, c, m.layers.len());
    lemma_decoded(m, pos as int, c, d);
}

/// The captured pipeline computes what the device-resident step computes, on layers of
/// one shape, once the token's row and its position have been placed on the device.
pub proof fn law_pipeline_step(m: Setting, d: LayerDims, p: int, e: Env)
    requires
        m.layers.len() <= usize::MAX,
        0 <= m.base <= p,
        uniform(m, d),
        cache_holds(m, e, p),
        e.device_pos == p,
        e.bufs[Buf::H] == inputs(m, p, 1),
    ensures
        token_decoded(
            m,
            p,
            run(e, pipeline_ops(m.call, d, m.layers, m.layers.len(), m.max_seq)),
        ),
{
    assert(e.bufs[Buf::H] =~= seq![(m.input)(p)]);
    let r = lemma_pipeline_layers(m, d, p, e, m.layers.len());
    lemma_decoded(m, p, e, r);
}

/// Layers that a graph can hold are of one shape: that which the pipeline uses, where
/// no dimension is zero.
pub proof fn law_capturable_layers_are_uniform(m: Setting)
    requires
        crate::layer::all_capturable(m.layers),
        m.call.head_dim_for(m.layers[0]) > 0,
        m.call.q_heads_for(m.layers[0]) > 0,
        m.call.kv_heads_for(m.layers[0]) > 0,
    ensures
        uniform(m, graph_dims(m.call, m.layers[0])),
{
    assert forall|i: int| 0 <= i < m.layers.len() implies m.call.dims_for(#[trigger] m.layers[i])
        == graph_dims(m.call, m.layers[0]) by {
        assert(m.layers[i].captures_with(m.layers[0]));
    }
}

/// The captured pipeline and the device-resident step are the same on layers that a graph
/// can hold, from the same cache and for the same token, wherever no dimension is zero: they
/// end with the same row and leave the same entries, those of the token among them.
pub proof fn law_graph_step_equals_decode_step(
    flags: DecodeFlags,
    m: Setting,
    pos: usize,
    e: Env,
    g: Env,
)
    requires
        m.layers.len() <= usize::MAX,
        0 <= m.base <= pos,
        crate::layer::all_capturable(m.layers),
        m.call.head_dim_for(m.layers[0]) > 0,
        m.call.q_heads_for(m.layers[0]) > 0,
        m.call.kv_heads_for(m.layers[0]) > 0,
        cache_holds(m, e, pos as int),
        g.cache == e.cache,
        e.input == inputs(m, pos as int, 1),
        g.bufs[Buf::H] == inputs(m, pos as int, 1),
        g.device_pos == pos,
    ensures
        ({
            let eager = run(e, decode_program(flags, m.call, m.layers, pos, m.max_seq));
            let d = graph_dims(m.call, m.layers[0]);
            let graph = run(g, pipeline_ops(m.call, d, m.layers, m.layers.len(), m.max_seq));
            &&& graph.bufs[Buf::H] == eager.bufs[Buf::H]
            &&& forall|i: int, j: int|
                0 <= i < m.layers.len() && 0 <= j <= pos ==> #[trigger] (graph.cache)(i, j) == (
                eager.cache)(i, j)
        }),
{
    let d = graph_dims(m.call, m.layers[0]);
    let eager = run(e, decode_program(flags, m.call, m.layers, pos, m.max_seq));
    let graph = run(g, pipeline_ops(m.call, d, m.layers, m.layers.len(), m.max_seq));
    law_capturable_layers_are_uniform(m);
    law_decode_step(flags, m, pos, e);
    law_pipeline_step(m, d, pos as int, g);
    assert forall|i: int, j: int|
        0 <= i < m.layers.len() && 0 <= j <= pos implies #[trigger] (graph.cache)(i, j) == (
    eager.cache)(i, j) by {
        assert((eager.cache)(i, j) == entry(m, i as nat, j));
    }
}

/// The environment once `n` tokens have been decoded one by one from position
/// `m.base` on.
pub open spec fn decoded_one_by_one(flags: DecodeFlags, m: Setting, e: Env, n: nat) -> Env
    decreases n,
{
    if n == 0 {
        e
    } else {
        let b = decoded_one_by_one(flags, m, e, (n - 1) as nat);
        let p = m.base + n - 1;
        run(
            Env { input: inputs(m, p, 1), ..b },
            decode_program(flags, m.call, m.layers, p as usize, m.max_seq),
        )
    }
}

/// Decoding tokens one by one and decoding them in one batched pass is the same: each
/// token ends with the same row, and the cache with the same entries.
pub proof fn law_batch_equals_steps(
    flags: DecodeFlags,
    m: Setting,
    pass: SeqPass,
    e: Env,
    n: nat,
)
    requires
        pass_runs(m, pass, e),
        cache_holds(m, e, m.base),
        e.input == inputs(m, m.base, pass.seq_len as nat),
        0 < n <= pass.seq_len,
        m.base + pass.seq_len <= usize::MAX,
    ensures
        ({
            let one = decoded_one_by_one(flags, m, e, n);
            let all = run(e, seq_program(flags, m.call, m.layers, pass, m.max_seq));
            &&& one.bufs[Buf::H] == seq![all.bufs[Buf::H][n - 1]]
            &&& forall|i: int, j: int|
                0 <= i < m.layers.len() && 0 <= j < m.base + n ==> #[trigger] (one.cache)(i, j) == (
                all.cache)(i, j)
        }),
{
    law_batched_pass(flags, m, pass, e);
    lemma_one_by_one(flags, m, e, n);
    let one = decoded_one_by_one(flags, m, e, n);
    let all = run(e, seq_program(flags, m.call, m.layers, pass, m.max_seq));
    assert forall|i: int, j: int|
        0 <= i < m.layers.len() && 0 <= j < m.base + n implies #[trigger] (one.cache)(i, j) == (
    all.cache)(i, j) by {
        assert((all.cache)(i, j) == entry(m, i as nat, j));
    }
}

proof fn lemma_one_by_one(flags: DecodeFlags, m: Setting, e: Env, n: nat)
    requires
        m.layers.len() <= usize::MAX,
        m.base >= 0,
        cache_holds(m, e, m.base),
        m.base + n <= usize::MAX,
    ensures
        cache_holds(m, decoded_one_by_one(flags, m, e, n), m.base + n),
        n > 0 ==> token_decoded(m, m.base + n - 1, decoded_one_by_one(flags, m, e, n)),
    decreases n,
{
    if n > 0 {
        lemma_one_by_one(flags, m, e, (n - 1) as nat);
        let b = decoded_one_by_one(flags, m, e, (n - 1) as nat);
        let p = m.base + n - 1;
        let c = Env { input: inputs(m, p, 1), ..b };
        assert forall|i: int, j: int|
            0 <= i < m.layers.len() && 0 <= j < p implies #[trigger] (c.cache)(i, j) == entry(m, i as nat, j) by {
            assert((c.cache)(i, j) == (b.cache)(i, j));
        }
        law_decode_step(flags, m, p as usize, c);
    }
}


/// The set of the nodes `0..=k`.
pub open spec fn low_bits(k: int) -> u64 {
    if k >= 63 {
        u64::MAX
    } else {
        ((1u64 << ((k + 1) as u64)) - 1) as u64
    }
}

/// The ancestor sets with the bits `0..=k` set make a chain, for as many nodes as a set has
/// room for.
pub proof fn law_low_bits_make_a_chain(ancestors: Seq<u64>, n: int)
    requires
        0 <= n <= 64,
        forall|k: int| 0 <= k < n ==> #[trigger] ancestors[k] == low_bits(k),
    ensures
        chain(ancestors, n),
{
    assert forall|r: int, b: int| 0 <= b <= r < n implies #[trigger] has_bit(ancestors[r], b) by {
        let set = ancestors[r];
        let k = r as u64;
        let c = b as u64;
        assert(set == low_bits(r));
        if r == 63 {
            assert((set >> c) & 1 == 1) by (bit_vector)
                requires
                    c <= 63,
                    set == u64::MAX,
            ;
        } else {
            assert((r + 1) as u64 == (k + 1) as u64);
            assert((set >> c) & 1 == 1) by (bit_vector)
                requires
                    c <= k,
                    k < 63,
                    set == ((1u64 << ((k + 1) as u64)) - 1) as u64,
            ;
        }
    }
}

/// A node of a tree is blind to what is not among its ancestors: rows that differ only
/// there leave its attention output as it is.
pub proof fn law_siblings_do_not_leak(
    a: Env,
    b: Env,
    base_pos: usize,
    call: AttnCall,
    rows: usize,
    node: int,
)
    requires
        0 <= node < rows,
        a.device_pos >= 0,
        same_surroundings(a, b),
        a.bufs[Buf::Q][node] == b.bufs[Buf::Q][node],
        forall|j: int| 0 <= j < a.device_pos ==> #[trigger] (a.cache)(a.layer, j) == (b.cache)(
            a.layer,
            j,
        ),
        forall|k: int|
            0 <= k <= node && has_bit(a.ancestors[node], k) ==> a.bufs[Buf::K][k]
                == b.bufs[Buf::K][k] && a.bufs[Buf::V][k] == b.bufs[Buf::V][k],
    ensures
        ({
            let op = DeviceOp::Attention {
                kind: AttnKind::TreeAtDevicePos { base_pos },
                call,
                q: Buf::Q,
                k: Buf::K,
                v: Buf::V,
                dst: Buf::AttnOut,
                rows,
            };
            step(a, op).bufs[Buf::AttnOut][node] == step(b, op).bufs[Buf::AttnOut][node]
        }),
{
    let kind = AttnKind::TreeAtDevicePos { base_pos };
    let start = a.device_pos;
    let ca = stored(a, start, rows as int, a.bufs[Buf::K], a.bufs[Buf::V]);
    let cb = stored(b, start, rows as int, b.bufs[Buf::K], b.bufs[Buf::V]);
    let sa = seen(a, kind, ca, start, node);
    let sb = seen(b, kind, cb, start, node);
    assert forall|j: int| 0 <= j < start + node + 1 implies #[trigger] sa[j] == sb[j] by {
        if j < start {
            assert((a.cache)(a.layer, j) == (b.cache)(a.layer, j));
        } else if has_bit(a.ancestors[node], j - start) {
            assert(a.bufs[Buf::K][j - start] == b.bufs[Buf::K][j - start]);
        }
    }
    assert(sa =~= sb);
}

/// The row of node `k` of a drafted tree behind the first `i` layers. The node sees everything
/// before the tree, and the nodes whose bits its ancestor set has.
pub open spec fn node_row(m: Setting, ancestors: Seq<u64>, i: nat, k: int) -> Row
    decreases i, 0int,
{
    if i == 0 {
        (m.input)(m.base + k)
    } else {
        let n = (i - 1) as nat;
        let l = m.layers[n as int];
        let a = attn_row(
            n as int,
            l,
            call_of(m, n as int),
            m.base + k,
            node_row(m, ancestors, n, k),
            node_view(m, ancestors, n, k),
        );
        ffn_row(n as int, l, a)
    }
}

/// The entries of layer `i` that node `k` of a drafted tree sees.
pub open spec fn node_view(m: Setting, ancestors: Seq<u64>, i: nat, k: int) -> Seq<
    Option<(Row, Row)>,
>
    decreases i, 1int,
{
    Seq::new(
        (m.base + k + 1) as nat,
        |j: int|
            if j < m.base {
                Some((m.history)(i as int, j))
            } else if (ancestors[k] >> ((j - m.base) as u64)) & 1 == 1 {
                Some(cell(i as int, node_row(m, ancestors, i, j - m.base)))
            } else {
                None
            },
    )
}

proof fn lemma_tree_layers(flags: DecodeFlags, m: Setting, pass: SeqPass, e: Env, n: nat) -> (r: Env)
    requires
        n <= m.layers.len() <= usize::MAX,
        pass.attn == SeqAttn::Tree,
        m.base == pass.base_pos,
        e.device_pos == m.base,
        crate::prefill::pass_fits(m.call, pass, m.layers),
        cache_holds(m, e, m.base),
        e.bufs[Buf::H] == inputs(m, m.base, pass.seq_len as nat),
    ensures
        r == run(e, seq_layers_ops(flags, m.call, m.layers, n, pass, m.max_seq)),
        r.device_pos == e.device_pos,
        r.ancestors == e.ancestors,
        r.bufs[Buf::H] == Seq::new(
            pass.seq_len as nat,
            |k: int| node_row(m, e.ancestors, n, k),
        ),
        forall|i: int, j: int|
            0 <= i < m.layers.len() && 0 <= j < m.base ==> #[trigger] (r.cache)(i, j) == (
            m.history)(i, j),
        forall|i: int, j: int|
            0 <= i < n && m.base <= j < m.base + pass.seq_len ==> #[trigger] (r.cache)(i, j)
                == cell(i, node_row(m, e.ancestors, i as nat, j - m.base)),
    decreases n,
{
    let len = pass.seq_len;
    let r = run(e, seq_layers_ops(flags, m.call, m.layers, n, pass, m.max_seq));
    if n == 0 {
        assert(r.bufs[Buf::H] =~= Seq::new(len as nat, |k: int| node_row(m, e.ancestors, n, k)));
        assert forall|i: int, j: int|
            0 <= i < m.layers.len() && 0 <= j < m.base implies #[trigger] (r.cache)(i, j) == (
        m.history)(i, j) by {
            assert((e.cache)(i, j) == entry(m, i as nat, j));
        }
    } else {
        let i = (n - 1) as nat;
        let l = m.layers[i as int];
        let b = lemma_tree_layers(flags, m, pass, e, i);
        let before = seq_layers_ops(flags, m.call, m.layers, i, pass, m.max_seq);
        let begin = DeviceOp::BeginLayer { index: i as usize };
        let attn = seq_attn_half(flags, m.call, l, pass, m.max_seq);
        let ffn = seq_ffn_half(flags, m.call, l, len);
        lemma_run_concat(e, before, seq![begin] + attn + ffn);
        lemma_run_concat(b, seq![begin] + attn, ffn);
        lemma_run_concat(b, seq![begin], attn);
        lemma_run_one(b, begin);
        let c = run(b, seq![begin]);
        assert(len * m.call.dims_for(l).q_dim <= usize::MAX);
        let d = lemma_seq_attn_half(flags, m.call, l, pass, m.max_seq, c);
        let f = lemma_seq_ffn_half(flags, m.call, l, len, d);
        assert(f == r);
        assert(pass_start(c, pass) == m.base);
        assert forall|k: int, j: int| #[trigger] (r.cache)(k, j) == cells_after(
            b.cache,
            i as int,
            m.base,
            b.bufs[Buf::H],
        )(k, j) by {
            assert((r.cache)(k, j) == (d.cache)(k, j));
            assert((d.cache)(k, j) == cells_after(c.cache, c.layer, m.base, c.bufs[Buf::H])(k, j));
            assert((c.cache)(k, j) == (b.cache)(k, j));
        }
        assert forall|k: int| 0 <= k < len implies #[trigger] r.bufs[Buf::H][k] == node_row(
            m,
            e.ancestors,
            n,
            k,
        ) by {
            let es = node_view(m, e.ancestors, i, k);
            let got = entries(c, true, d.cache, m.base, k);
            assert forall|j: int| 0 <= j < m.base + k + 1 implies #[trigger] got[j] == es[j] by {
                assert((d.cache)(i as int, j) == (r.cache)(i as int, j));
                if j < m.base {
                    assert((b.cache)(i as int, j) == (m.history)(i as int, j));
                } else {
                    assert(tree_visible(c.ancestors, m.base, k, j) == has_bit(
                        e.ancestors[k],
                        j - m.base,
                    ));
                }
            }
            assert(got =~= es);
        }
        assert(r.bufs[Buf::H] =~= Seq::new(len as nat, |k: int| node_row(m, e.ancestors, n, k)));
    }
    r
}

/// A drafted tree is verified as a tree. Where the cache has room and the fixed buffers are on,
/// the pass that the call takes runs attention with the ancestor sets, and on a device that
/// holds them the row of node `k` comes out as that of a token that has seen exactly the
/// positions before the tree and the nodes of its own set; its entries go to position `k` behind
/// the start.
pub proof fn law_tree_call_sees_ancestors_only(
    flags: DecodeFlags,
    kv: KvCacheSlot,
    m: Setting,
    base_pos: usize,
    seq_len: usize,
    e: Env,
)
    requires
        flags.spec_scratch,
        kv.cache matches Some(c) && base_pos + seq_len <= c.max_seq,
        m.base == base_pos,
        m.layers.len() <= usize::MAX,
        crate::prefill::pass_fits(
            m.call,
            SeqPass { base_pos, seq_len, attn: SeqAttn::Tree },
            m.layers,
        ),
        e.device_pos == base_pos,
        cache_holds(m, e, m.base),
        e.bufs[Buf::H] == inputs(m, m.base, seq_len as nat),
    ensures
        inner_route(flags, kv, base_pos, seq_len, true) matches InnerRoute::Scratch(pass) && {
            let r = run(
                e,
                seq_layers_ops(flags, m.call, m.layers, m.layers.len(), pass, m.max_seq),
            );
            &&& r.bufs[Buf::H].len() == seq_len
            &&& forall|k: int|
                0 <= k < seq_len ==> #[trigger] r.bufs[Buf::H][k] == node_row(
                    m,
                    e.ancestors,
                    m.layers.len(),
                    k,
                )
            &&& forall|i: int, j: int|
                0 <= i < m.layers.len() && base_pos <= j < base_pos + seq_len ==> #[trigger] (
                r.cache)(i, j) == cell(i, node_row(m, e.ancestors, i as nat, j - base_pos))
            &&& forall|i: int|
                0 <= i < m.layers.len() ==> ({
                    let d = m.call.dims_for(#[trigger] m.layers[i]);
                    seq_attn_ops(pass, call_of(m, i), d) == seq![
                        DeviceOp::Attention {
                            kind: AttnKind::TreeAtDevicePos { base_pos },
                            call: call_of(m, i),
                            q: Buf::Q,
                            k: Buf::K,
                            v: Buf::V,
                            dst: Buf::AttnOut,
                            rows: seq_len,
                        },
                    ]
                })
        },
{
    let pass = SeqPass { base_pos, seq_len, attn: SeqAttn::Tree };
    let r = lemma_tree_layers(flags, m, pass, e, m.layers.len());
}

/// A run of drafted tokens is verified as a run. Where the cache has room, every token comes out
/// with the row of a token that has seen itself and everything before it, over the fixed buffers
/// from a start that the device holds, and over other buffers from a start that the host passes.
pub proof fn law_chain_call_sees_all_before(
    flags: DecodeFlags,
    kv: KvCacheSlot,
    m: Setting,
    base_pos: usize,
    seq_len: usize,
    e: Env,
)
    requires
        kv.cache matches Some(c) && base_pos + seq_len <= c.max_seq,
        m.base == base_pos,
        m.layers.len() <= usize::MAX,
        crate::prefill::pass_fits(
            m.call,
            SeqPass { base_pos, seq_len, attn: SeqAttn::Batched },
            m.layers,
        ),
        flags.spec_scratch ==> e.device_pos == base_pos,
        cache_holds(m, e, m.base),
        e.input == inputs(m, m.base, seq_len as nat),
        e.bufs[Buf::H] == e.input,
    ensures
        match inner_route(flags, kv, base_pos, seq_len, false) {
            InnerRoute::Refused => false,
            InnerRoute::Scratch(pass) => flags.spec_scratch && {
                let r = run(
                    e,
                    seq_layers_ops(flags, m.call, m.layers, m.layers.len(), pass, m.max_seq),
                );
                &&& r.bufs[Buf::H].len() == seq_len
                &&& forall|k: int|
                    0 <= k < seq_len ==> #[trigger] r.bufs[Buf::H][k] == hidden(
                        m,
                        m.layers.len(),
                        base_pos + k,
                    )
                &&& cache_holds(m, r, base_pos + seq_len)
            },
            InnerRoute::Plain(pass) => !flags.spec_scratch && {
                let r = run(e, seq_program(flags, m.call, m.layers, pass, m.max_seq));
                &&& r.bufs[Buf::H].len() == seq_len
                &&& forall|k: int|
                    0 <= k < seq_len ==> #[trigger] r.bufs[Buf::H][k] == hidden(
                        m,
                        m.layers.len(),
                        base_pos + k,
                    )
                &&& cache_holds(m, r, base_pos + seq_len)
            },
        },
{
    if flags.spec_scratch {
        let pass = SeqPass { base_pos, seq_len, attn: SeqAttn::AtDevicePos };
        let r = lemma_seq_layers(flags, m, pass, e, m.layers.len());
    } else {
        let pass = SeqPass { base_pos, seq_len, attn: SeqAttn::Batched };
        law_batched_pass(flags, m, pass, e);
    }
}

/// Without room, without a cache, and for a tree without the fixed buffers, a batched
/// verification is refused; it is not refused for anything else.
pub proof fn law_verification_refused_for_cause(
    flags: DecodeFlags,
    kv: KvCacheSlot,
    base_pos: usize,
    seq_len: usize,
    tree: bool,
)
    ensures
        inner_route(flags, kv, base_pos, seq_len, tree) == InnerRoute::Refused <==> (
        kv.cache is None || kv.cache->0.max_seq < base_pos + seq_len || (tree
            && !flags.spec_scratch)),
{
}

/// A step through the host goes as far as the layers are plain: it ends with the row behind the
/// layers in front of the first that is not, and has left the token's entries in those layers.
pub proof fn law_host_step_stops_at_an_odd_layer(m: Setting, pos: usize, e: Env, odd: int)
    requires
        m.layers.len() <= usize::MAX,
        0 <= m.base <= pos,
        0 <= odd < m.layers.len(),
        !m.layers[odd].plain(),
        forall|i: int| 0 <= i < odd ==> (#[trigger] m.layers[i]).plain(),
        cache_holds(m, e, pos as int),
        e.input == inputs(m, pos as int, 1),
    ensures
        ({
            let r = run(e, host_program(m.call, m.layers, pos, m.max_seq));
            &&& r.bufs[Buf::H] == seq![hidden(m, odd as nat, pos as int)]
            &&& forall|i: int|
                0 <= i < odd ==> #[trigger] (r.cache)(i, pos as int) == entry(
                    m,
                    i as nat,
                    pos as int,
                )
            &&& !(host_program(m.call, m.layers, pos, m.max_seq).last() is Download)
        }),
{
    let n = m.layers.len();
    lemma_plain_prefix(m.layers, n);
    let stop = crate::host_decode::plain_prefix(m.layers, n);
    assert(stop == odd) by {
        if stop < odd {
            assert(m.layers[stop as int].plain());
        }
        if stop > odd {
            assert(m.layers[odd].plain());
        }
    }
    let up = DeviceOp::Upload { len: m.call.hidden };
    let body = host_layers_ops(m.call, m.layers, stop, pos, m.max_seq);
    let all = host_program(m.call, m.layers, pos, m.max_seq);
    assert(all =~= seq![up] + body);
    lemma_run_concat(e, seq![up], body);
    lemma_run_one(e, up);
    let c = run(e, seq![up]);
    assert(c.bufs[Buf::H] =~= seq![(m.input)(pos as int)]);
    assert forall|i: int, j: int|
        0 <= i < m.layers.len() && 0 <= j < pos implies #[trigger] (c.cache)(i, j) == entry(m, i as nat, j) by {
        assert((c.cache)(i, j) == (e.cache)(i, j));
    }
    let d = lemma_host_layers(m, pos, c, stop);
    crate::host_decode::lemma_last_of_layers(m.call, m.layers, stop, pos, m.max_seq);
    if odd > 0 {
        assert(all.last() == body.last());
    } else {
        assert(all =~= seq![up]);
    }
}

} // verus!
