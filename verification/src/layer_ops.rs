//! Every operation that is planned for a layer fits that layer.
//!
//! What a row stands for is said elsewhere. Here is what the operations are handed: the
//! weight's own format and shape, a route that can read it, and the lengths of the rows.

use vstd::prelude::*;

use crate::decode::{
    attn_call, decode_attn_ops, decode_ffn_ops, decode_layer_ops, decode_program, pack_ops,
    packed_buf, packs_act, packs_attn_out, packs_gate_up, packs_qkv, residual_ops,
    row_project, row_routes, scale_ops, wo_attempts,
};
use crate::flags::DecodeFlags;
use crate::host_decode::{
    all_plain, expandable, host_attn_half, host_ffn_half, host_layer_ops, host_program, host_project,
    host_qkv_ops, host_route, lemma_plain_prefix, matrix_fits,
};
use crate::layer::{
    Activation, CallDims, FullPipelineLayer, NormRef, QuantFormat, QuantWeight,
};
use crate::pipeline::{
    fused_attn_residual, fused_ffn_residual, must_pack, packed_only, packed_project,
    pipeline_attn_ops, pipeline_ffn_ops, pipeline_layer_ops,
};
use crate::prefill::{
    position_ops, positions_ops, reserve_ops, seq_attn_half, seq_attn_ops, seq_ffn_half,
    seq_layer_ops, seq_program, seq_project, SeqAttn, SeqPass,
};
use crate::program::{AttnCall, AttnKind, Buf, DeviceOp, HostRoute, Route, WeightRef};

verus! {

/// The weight that an operation names.
pub open spec fn weight_of(l: FullPipelineLayer, w: WeightRef) -> QuantWeight {
    match w {
        WeightRef::Wq => l.wq,
        WeightRef::Wk => l.wk,
        WeightRef::Wv => l.wv,
        WeightRef::Wo => l.wo,
        WeightRef::Gate => l.gate,
        WeightRef::Up => l.up,
        WeightRef::Down => l.down,
    }
}

/// The larger of the layer's number and the caller's.
pub open spec fn larger(a: usize, b: usize) -> int {
    if a < b {
        b as int
    } else {
        a as int
    }
}

/// The elements of a query row.
pub open spec fn query_width(call: CallDims, l: FullPipelineLayer) -> int {
    larger(l.num_q_heads, call.num_q_heads) * larger(l.head_dim, call.head_dim)
}

/// The elements of a key or value row.
pub open spec fn key_width(call: CallDims, l: FullPipelineLayer) -> int {
    larger(l.num_kv_heads, call.num_kv_heads) * larger(l.head_dim, call.head_dim)
}

/// Rows and columns of a weight: what its projection puts out and takes in.
pub open spec fn weight_shape(call: CallDims, l: FullPipelineLayer, w: WeightRef) -> (int, int) {
    match w {
        WeightRef::Wq => (query_width(call, l), call.hidden as int),
        WeightRef::Wk | WeightRef::Wv => (key_width(call, l), call.hidden as int),
        WeightRef::Wo => (call.hidden as int, query_width(call, l)),
        WeightRef::Gate | WeightRef::Up => (call.inter as int, call.hidden as int),
        WeightRef::Down => (call.hidden as int, call.inter as int),
    }
}

/// The formats that a route reads.
pub open spec fn reads(route: Route, format: QuantFormat) -> bool {
    match route {
        Route::Q4kMmvq | Route::Q4kDirect => format == QuantFormat::Q4_K,
        Route::Q6kMmvq | Route::Q6kGemv => format == QuantFormat::Q6_K,
        Route::Q4kfGemv => format == QuantFormat::Q4_KF,
        Route::GemmF32 | Route::GemmF16 => format == QuantFormat::Q4_K || format
            == QuantFormat::Q6_K,
    }
}

/// The formats that a route from a host row reads.
pub open spec fn host_reads(route: HostRoute, format: QuantFormat) -> bool {
    match route {
        HostRoute::Q4k => format == QuantFormat::Q4_K,
        HostRoute::Q4kf => format == QuantFormat::Q4_KF,
        HostRoute::Q6k => format == QuantFormat::Q6_K,
        HostRoute::ExpandGemv => format == QuantFormat::Q4_0 || format == QuantFormat::Q5_K || format
            == QuantFormat::F32,
    }
}

/// The kind of a planned step.
pub struct StepKind {
    pub rows: int,
    /// Whether the input of a weight's projection is packed.
    pub packs: spec_fn(WeightRef) -> bool,
    /// Packing may fail without failing the step.
    pub may_miss_packed: bool,
    /// The output projection is tried again where the caller's query width is the layer's.
    pub retries: bool,
    /// The packed-input kernels that are in use.
    pub q4k_packed: bool,
    pub q6k_packed: bool,
    /// Routes from an `f32` row are in use.
    pub direct: bool,
    /// GEMM routes are in use, in half precision or not.
    pub gemm: bool,
    pub half: bool,
    /// Every row goes through the host.
    pub through_host: bool,
    /// The device holds the position of the one token, and norm and residual are one kernel.
    pub at_device: bool,
}

/// Some packed-input kernel that is switched on reads the format.
pub open spec fn reads_packed(flags: DecodeFlags, format: QuantFormat) -> bool {
    (flags.q4k_mmvq && format == QuantFormat::Q4_K) || (flags.q6k_mmvq && format
        == QuantFormat::Q6_K)
}

/// A decode step on the device. A row is packed where it has whole blocks and some projection of
/// it reads it packed; in front of gate and up projection only Q4_K counts.
pub open spec fn decode_step(flags: DecodeFlags, call: CallDims, l: FullPipelineLayer) -> StepKind {
    StepKind {
        rows: 1,
        packs: |w: WeightRef|
            match w {
                WeightRef::Wq | WeightRef::Wk | WeightRef::Wv => call.hidden as int % 32 == 0 && (
                reads_packed(flags, l.wq.format) || reads_packed(flags, l.wk.format)
                    || reads_packed(flags, l.wv.format)),
                WeightRef::Wo => query_width(call, l) % 32 == 0 && reads_packed(
                    flags,
                    l.wo.format,
                ),
                WeightRef::Gate | WeightRef::Up => call.hidden as int % 32 == 0 && flags.q4k_mmvq
                    && (l.gate.format == QuantFormat::Q4_K || l.up.format == QuantFormat::Q4_K),
                WeightRef::Down => call.inter as int % 32 == 0 && reads_packed(
                    flags,
                    l.down.format,
                ),
            },
        may_miss_packed: true,
        retries: true,
        q4k_packed: flags.q4k_mmvq,
        q6k_packed: flags.q6k_mmvq,
        direct: true,
        gemm: true,
        half: flags.tensor_cores,
        through_host: false,
        at_device: false,
    }
}

/// A step of the pipeline over fixed buffers: every row is packed, and nothing else is read.
pub open spec fn pipeline_step() -> StepKind {
    StepKind {
        rows: 1,
        packs: |w: WeightRef| true,
        may_miss_packed: false,
        retries: false,
        q4k_packed: true,
        q6k_packed: true,
        direct: false,
        gemm: false,
        half: false,
        through_host: false,
        at_device: true,
    }
}

/// A batched pass of `rows` rows: nothing is packed, and every projection is a GEMM.
pub open spec fn batched_step(flags: DecodeFlags, rows: int) -> StepKind {
    StepKind {
        rows,
        packs: |w: WeightRef| false,
        may_miss_packed: false,
        retries: false,
        q4k_packed: false,
        q6k_packed: false,
        direct: false,
        gemm: true,
        half: flags.tensor_cores,
        through_host: false,
        at_device: false,
    }
}

/// A step through the host.
pub open spec fn host_step() -> StepKind {
    StepKind {
        rows: 1,
        packs: |w: WeightRef| false,
        may_miss_packed: false,
        retries: true,
        q4k_packed: false,
        q6k_packed: false,
        direct: false,
        gemm: false,
        half: false,
        through_host: true,
        at_device: false,
    }
}

/// The row that a weight's projection reads, and where its packed form lies.
pub open spec fn input_of(w: WeightRef) -> (Buf, Buf) {
    match w {
        WeightRef::Wq | WeightRef::Wk | WeightRef::Wv => (Buf::HAttn, Buf::HAttnQ8),
        WeightRef::Wo => (Buf::AttnOut, Buf::AttnOutQ8),
        WeightRef::Gate | WeightRef::Up => (Buf::HFfn, Buf::HFfnQ8),
        WeightRef::Down => (Buf::Act, Buf::ActQ8),
    }
}

/// The row that a weight's projection writes.
pub open spec fn output_of(w: WeightRef) -> Buf {
    match w {
        WeightRef::Wq => Buf::Q,
        WeightRef::Wk => Buf::K,
        WeightRef::Wv => Buf::V,
        WeightRef::Wo => Buf::AttnDelta,
        WeightRef::Gate => Buf::Gate,
        WeightRef::Up => Buf::Up,
        WeightRef::Down => Buf::FfnDelta,
    }
}

/// An operation fits the layer that it was planned for.
pub open spec fn op_fits(call: CallDims, l: FullPipelineLayer, s: StepKind, op: DeviceOp) -> bool {
    match op {
        DeviceOp::Project {
            weight,
            format,
            src,
            packed_src,
            dst,
            rows_in,
            rows,
            cols,
            routes,
            attempts,
        } => {
            &&& !s.through_host
            &&& format == weight_of(l, weight).format
            &&& src == input_of(weight).0 && dst == output_of(weight)
            &&& packed_src == (if (s.packs)(weight) {
                Some(input_of(weight).1)
            } else {
                None
            })
            &&& rows_in == s.rows
            &&& routes.packed is Some <==> packed_src is Some && ((format == QuantFormat::Q4_K
                && s.q4k_packed) || (format == QuantFormat::Q6_K && s.q6k_packed))
            &&& routes.direct is Some <==> s.direct && (format == QuantFormat::Q4_K || format
                == QuantFormat::Q4_KF || format == QuantFormat::Q6_K)
            &&& routes.gemm is Some <==> s.gemm && (format == QuantFormat::Q4_K || format
                == QuantFormat::Q6_K)
            &&& routes.gemm == Some(Route::GemmF16) ==> s.half
            &&& routes.gemm == Some(Route::GemmF32) ==> !s.half
            &&& (rows as int, cols as int) == weight_shape(call, l, weight)
            &&& routes.packed matches Some(r) ==> reads(r, format) && packed_src is Some && (r
                == Route::Q4kMmvq || r == Route::Q6kMmvq)
            &&& routes.direct matches Some(r) ==> reads(r, format) && rows_in == 1 && (r
                == Route::Q4kDirect || r == Route::Q4kfGemv || r == Route::Q6kGemv)
            &&& routes.gemm matches Some(r) ==> reads(r, format) && (r == Route::GemmF32 || r
                == Route::GemmF16)
            &&& attempts == (if s.retries && weight == WeightRef::Wo && call.q_dim == query_width(
                call,
                l,
            ) {
                2int
            } else {
                1int
            })
        },
        DeviceOp::HostProject { weight, format, src, dst, rows, cols, route, attempts } => {
            &&& s.through_host
            &&& src == input_of(weight).0 && dst == output_of(weight)
            &&& format == weight_of(l, weight).format
            &&& (rows as int, cols as int) == weight_shape(call, l, weight)
            &&& route matches Some(r) ==> host_reads(r, format)
            &&& route is None ==> format == QuantFormat::BF16 || format == QuantFormat::F16 || format
                == QuantFormat::Q8_0 || (format == QuantFormat::F32 && weight_of(l, weight).data_len
                != rows * cols * 4)
            &&& attempts == (if s.retries && weight == WeightRef::Wo && call.q_dim == query_width(
                call,
                l,
            ) {
                2int
            } else {
                1int
            })
        },
        DeviceOp::QkvRmsProj { q_dim, kv_dim, dim, expandable: e } => {
            &&& s.through_host
            &&& q_dim == query_width(call, l) && kv_dim == key_width(call, l) && dim == call.hidden
            &&& l.wq.format != QuantFormat::Q4_K && l.wk.format != QuantFormat::Q4_K && l.wv.format
                != QuantFormat::Q4_K
            &&& e ==> l.wq.format != QuantFormat::BF16 && l.wk.format != QuantFormat::F16
                && l.wv.format != QuantFormat::Q8_0
        },
        DeviceOp::RmsNorm { rows, dim, .. } => rows == s.rows && dim == call.hidden,
        DeviceOp::NormAdd { dim, .. } => s.at_device && s.rows == 1 && dim == call.hidden,
        DeviceOp::QuantizeQ8 { src, dst, n, optional } => {
            &&& optional == s.may_miss_packed
            &&& n as int % 32 == 0 || s.at_device
            &&& exists|w: WeightRef|
                (s.packs)(w) && (src, dst) == #[trigger] input_of(w) && n == weight_shape(call, l, w).1
        },
        DeviceOp::GateUp { n, gelu_tanh } => n == s.rows * call.inter && (gelu_tanh <==> l.activation
            == Activation::GeluTanh),
        DeviceOp::Add { len, .. } => len == s.rows * call.hidden,
        DeviceOp::Scale { bits, len } => bits == l.layer_scalar_bits && len == s.rows * call.hidden,
        DeviceOp::Attention { kind, call: a, rows, .. } => {
            &&& kind is DecodeThroughHost <==> s.through_host
            &&& kind is DecodeAtDevicePos <==> s.at_device
            &&& rows == s.rows || (rows == 1 && s.rows >= 1)
            &&& a.num_q_heads * a.head_dim == query_width(call, l)
            &&& a.num_kv_heads * a.head_dim == key_width(call, l)
            &&& a.rotary_dim == l.rotary_dim && a.eps_bits == l.eps_bits
            &&& a.attn_scale_bits == l.attn_scale_bits
            &&& a.qk_norm_offset_bits == l.qk_norm_offset_bits
            &&& a.rope_base_bits == (if l.rope_base_bits == 0 || l.rope_base_bits == 0x8000_0000 {
                call.rope_base_bits
            } else {
                l.rope_base_bits
            })
            &&& a.qk_norm ==> l.q_norm_weight
            &&& a.qk_norm ==> l.k_norm_weight
            &&& !a.qk_norm ==> !l.q_norm_weight || !l.k_norm_weight
        },
        DeviceOp::CopyRange { len, .. } => len == query_width(call, l) || len == key_width(call, l),
        DeviceOp::Upload { .. } | DeviceOp::Download { .. } => false,
        DeviceOp::BeginLayer { .. } | DeviceOp::Reserve { .. } => true,
    }
}

/// All operations fit.
pub open spec fn all_fit(call: CallDims, l: FullPipelineLayer, s: StepKind, ops: Seq<DeviceOp>) -> bool {
    forall|k: int| 0 <= k < ops.len() ==> op_fits(call, l, s, #[trigger] ops[k])
}

proof fn lemma_fit_concat(
    call: CallDims,
    l: FullPipelineLayer,
    s: StepKind,
    a: Seq<DeviceOp>,
    b: Seq<DeviceOp>,
)
    requires
        all_fit(call, l, s, a),
        all_fit(call, l, s, b),
    ensures
        all_fit(call, l, s, a + b),
{
    assert forall|k: int| 0 <= k < (a + b).len() implies op_fits(call, l, s, #[trigger] (a + b)[k]) by {
        if k < a.len() {
            assert((a + b)[k] == a[k]);
        } else {
            assert((a + b)[k] == b[k - a.len()]);
        }
    }
}

proof fn lemma_fit_snoc(
    call: CallDims,
    l: FullPipelineLayer,
    s: StepKind,
    a: Seq<DeviceOp>,
    op: DeviceOp,
)
    requires
        all_fit(call, l, s, a),
        op_fits(call, l, s, op),
    ensures
        all_fit(call, l, s, a + seq![op]),
{
    lemma_fit_concat(call, l, s, a, seq![op]);
}

/// The routes of a projection of one row read its format. The packed one is there just where
/// the input was packed and the format's switch is on; the direct one just for the formats that
/// stay on the device, from a row as long as the matrix is wide; the last one for the two packed
/// formats, in half precision just where tensor cores are asked for.
pub proof fn law_routes_read_the_format(
    flags: DecodeFlags,
    format: QuantFormat,
    packed: bool,
    x_len: usize,
    cols: usize,
)
    ensures
        ({
            let r = row_routes(flags, format, packed, x_len, cols);
            &&& r.packed matches Some(p) ==> reads(p, format) && (p == Route::Q4kMmvq || p
                == Route::Q6kMmvq)
            &&& r.packed is Some <==> packed && ((format == QuantFormat::Q4_K && flags.q4k_mmvq) || (
            format == QuantFormat::Q6_K && flags.q6k_mmvq))
            &&& r.direct matches Some(d) ==> reads(d, format) && (d == Route::Q4kDirect || d
                == Route::Q4kfGemv || d == Route::Q6kGemv)
            &&& r.direct is Some <==> x_len == cols && (format == QuantFormat::Q4_K || format
                == QuantFormat::Q4_KF || format == QuantFormat::Q6_K)
            &&& r.gemm matches Some(g) ==> reads(g, format) && (g == Route::GemmF16
                <==> flags.tensor_cores) && (g == Route::GemmF32 <==> !flags.tensor_cores)
            &&& r.gemm is Some <==> format == QuantFormat::Q4_K || format == QuantFormat::Q6_K
        }),
        packed_only(format) matches Some(p) ==> reads(p, format) && (p == Route::Q4kMmvq || p
            == Route::Q6kMmvq),
        packed_only(format) is Some <==> format == QuantFormat::Q4_K || format == QuantFormat::Q6_K,
{
}

/// A route from a host row reads the format, and a row as long as the matrix is wide has one
/// unless its format cannot be expanded, or a plain matrix has not the bytes of its elements.
pub proof fn law_host_route_reads_the_format(w: QuantWeight, x_len: usize, rows: usize, cols: usize)
    ensures
        host_route(w, x_len, rows, cols) matches Some(r) ==> host_reads(r, w.format) && x_len
            == cols,
        x_len != cols ==> host_route(w, x_len, rows, cols) is None,
        x_len == cols ==> (host_route(w, x_len, rows, cols) is None <==> w.format
            == QuantFormat::BF16 || w.format == QuantFormat::F16 || w.format == QuantFormat::Q8_0
            || (w.format == QuantFormat::F32 && w.data_len != rows * cols * 4)),
        expandable(w, rows, cols) && w.format == QuantFormat::F32 ==> w.data_len == rows * cols * 4,
        expandable(w, rows, cols) ==> w.format != QuantFormat::BF16 && w.format
            != QuantFormat::F16 && w.format != QuantFormat::Q8_0,
        !expandable(w, rows, cols) ==> w.format == QuantFormat::BF16 || w.format
            == QuantFormat::F16 || w.format == QuantFormat::Q8_0 || w.format == QuantFormat::F32,
        matrix_fits(w, rows, cols) && expandable(w, rows, cols) ==> rows * cols <= usize::MAX,
{
    if w.format == QuantFormat::F32 {
        assert(rows * cols <= rows * cols * 4) by (nonlinear_arith)
            requires
                0 <= rows,
                0 <= cols,
        ;
    }
}

/// An input row is packed just where some projection of it can read it packed and it has whole
/// blocks. Query, key and value share one packed row; so do gate and up projection, for which
/// only Q4_K counts.
pub proof fn law_when_inputs_are_packed(flags: DecodeFlags, call: CallDims, l: FullPipelineLayer)
    ensures
        packs_qkv(flags, call, l) <==> call.hidden % 32 == 0 && exists|w: WeightRef|
            (w == WeightRef::Wq || w == WeightRef::Wk || w == WeightRef::Wv) && ((flags.q4k_mmvq
                && (#[trigger] weight_of(l, w)).format == QuantFormat::Q4_K) || (flags.q6k_mmvq
                && weight_of(l, w).format == QuantFormat::Q6_K)),
        packs_attn_out(flags, call, l) <==> call.dims_for(l).q_dim % 32 == 0 && ((flags.q4k_mmvq
            && l.wo.format == QuantFormat::Q4_K) || (flags.q6k_mmvq && l.wo.format
            == QuantFormat::Q6_K)),
        packs_gate_up(flags, call, l) <==> call.hidden % 32 == 0 && flags.q4k_mmvq && (l.gate.format
            == QuantFormat::Q4_K || l.up.format == QuantFormat::Q4_K),
        packs_act(flags, call, l) <==> call.inter % 32 == 0 && ((flags.q4k_mmvq && l.down.format
            == QuantFormat::Q4_K) || (flags.q6k_mmvq && l.down.format == QuantFormat::Q6_K)),
{
    assert(weight_of(l, WeightRef::Wq) == l.wq);
    assert(weight_of(l, WeightRef::Wk) == l.wk);
    assert(weight_of(l, WeightRef::Wv) == l.wv);
}

proof fn lemma_widths(call: CallDims, l: FullPipelineLayer)
    requires
        call.widths_fit(l),
    ensures
        call.dims_for(l).q_dim == query_width(call, l),
        call.dims_for(l).kv_dim == key_width(call, l),
        call.dims_for(l).num_q_heads * call.dims_for(l).head_dim == query_width(call, l),
        call.dims_for(l).num_kv_heads * call.dims_for(l).head_dim == key_width(call, l),
{
    let d = call.dims_for(l);
    assert(0 <= query_width(call, l) && 0 <= key_width(call, l)) by (nonlinear_arith)
        requires
            query_width(call, l) == larger(l.num_q_heads, call.num_q_heads) * larger(
                l.head_dim,
                call.head_dim,
            ),
            key_width(call, l) == larger(l.num_kv_heads, call.num_kv_heads) * larger(
                l.head_dim,
                call.head_dim,
            ),
            0 <= larger(l.num_q_heads, call.num_q_heads),
            0 <= larger(l.num_kv_heads, call.num_kv_heads),
            0 <= larger(l.head_dim, call.head_dim),
    ;
}

proof fn lemma_residual_fit(
    call: CallDims,
    l: FullPipelineLayer,
    s: StepKind,
    delta: Buf,
    tmp: Buf,
    norm: NormRef,
    rows: usize,
)
    requires
        rows == s.rows,
        rows * call.hidden <= usize::MAX,
    ensures
        all_fit(call, l, s, residual_ops(l, delta, tmp, norm, rows, call.hidden)),
        rows * call.hidden <= usize::MAX ==> all_fit(
            call,
            l,
            s,
            scale_ops(l, (rows * call.hidden) as usize),
        ),
{
    assert(0 <= rows * call.hidden) by (nonlinear_arith)
        requires
            0 <= rows,
            0 <= call.hidden,
    ;
}

proof fn lemma_half_fit(
    call: CallDims,
    l: FullPipelineLayer,
    s: StepKind,
    a: DeviceOp,
    pa: Seq<DeviceOp>,
    b: Seq<DeviceOp>,
    c: DeviceOp,
    pc: Seq<DeviceOp>,
    d: DeviceOp,
    res: Seq<DeviceOp>,
)
    requires
        op_fits(call, l, s, a),
        all_fit(call, l, s, pa),
        all_fit(call, l, s, b),
        op_fits(call, l, s, c),
        all_fit(call, l, s, pc),
        op_fits(call, l, s, d),
        all_fit(call, l, s, res),
    ensures
        all_fit(call, l, s, seq![a] + pa + b + seq![c] + pc + seq![d] + res),
{
    lemma_fit_concat(call, l, s, seq![a], pa);
    lemma_fit_concat(call, l, s, seq![a] + pa, b);
    lemma_fit_snoc(call, l, s, seq![a] + pa + b, c);
    lemma_fit_concat(call, l, s, seq![a] + pa + b + seq![c], pc);
    lemma_fit_snoc(call, l, s, seq![a] + pa + b + seq![c] + pc, d);
    lemma_fit_concat(call, l, s, seq![a] + pa + b + seq![c] + pc + seq![d], res);
}

proof fn lemma_layer_fit(
    call: CallDims,
    l: FullPipelineLayer,
    s: StepKind,
    index: usize,
    a: Seq<DeviceOp>,
    f: Seq<DeviceOp>,
)
    requires
        all_fit(call, l, s, a),
        all_fit(call, l, s, f),
    ensures
        all_fit(call, l, s, seq![DeviceOp::BeginLayer { index }] + a + f),
{
    lemma_fit_concat(call, l, s, seq![DeviceOp::BeginLayer { index }], a);
    lemma_fit_concat(call, l, s, seq![DeviceOp::BeginLayer { index }] + a, f);
}

spec fn norm_op(dst: Buf, norm: NormRef, hidden: usize) -> DeviceOp {
    DeviceOp::RmsNorm { src: Buf::H, dst, norm, rows: 1, dim: hidden }
}

spec fn token_attention(kind: AttnKind, a: AttnCall) -> DeviceOp {
    DeviceOp::Attention { kind, call: a, q: Buf::Q, k: Buf::K, v: Buf::V, dst: Buf::AttnOut, rows: 1 }
}

proof fn lemma_row_project_fits(
    flags: DecodeFlags,
    call: CallDims,
    l: FullPipelineLayer,
    weight: WeightRef,
    src: Buf,
    packed_src: Option<Buf>,
    dst: Buf,
    rows: usize,
    cols: usize,
    attempts: u8,
)
    requires
        (rows as int, cols as int) == weight_shape(call, l, weight),
        src == input_of(weight).0 && dst == output_of(weight),
        packed_src == (if (decode_step(flags, call, l).packs)(weight) {
            Some(input_of(weight).1)
        } else {
            None
        }),
        attempts == (if weight == WeightRef::Wo && call.q_dim == query_width(call, l) {
            2int
        } else {
            1int
        }),
    ensures
        op_fits(
            call,
            l,
            decode_step(flags, call, l),
            row_project(
                flags,
                weight,
                weight_of(l, weight),
                src,
                packed_src,
                dst,
                rows,
                cols,
                attempts,
            ),
        ),
{
}

proof fn lemma_decode_attn_fit(
    flags: DecodeFlags,
    call: CallDims,
    l: FullPipelineLayer,
    pos: usize,
    max_seq: usize,
)
    requires
        call.widths_fit(l),
    ensures
        all_fit(
            call,
            l,
            decode_step(flags, call, l),
            decode_attn_ops(flags, call, l, pos, max_seq),
        ),
{
    lemma_widths(call, l);
    let s = decode_step(flags, call, l);
    let h = call.hidden;
    let d = call.dims_for(l);
    assert(input_of(WeightRef::Wq) == (Buf::HAttn, Buf::HAttnQ8));
    assert(input_of(WeightRef::Wo) == (Buf::AttnOut, Buf::AttnOutQ8));
    let qkv = packs_qkv(flags, call, l);
    let out = packs_attn_out(flags, call, l);
    let x8 = packed_buf(qkv, Buf::HAttnQ8);
    let o8 = packed_buf(out, Buf::AttnOutQ8);
    let w1 = row_project(flags, WeightRef::Wq, l.wq, Buf::HAttn, x8, Buf::Q, d.q_dim, h, 1);
    let w2 = row_project(flags, WeightRef::Wk, l.wk, Buf::HAttn, x8, Buf::K, d.kv_dim, h, 1);
    let w3 = row_project(flags, WeightRef::Wv, l.wv, Buf::HAttn, x8, Buf::V, d.kv_dim, h, 1);
    lemma_row_project_fits(flags, call, l, WeightRef::Wq, Buf::HAttn, x8, Buf::Q, d.q_dim, h, 1);
    lemma_row_project_fits(flags, call, l, WeightRef::Wk, Buf::HAttn, x8, Buf::K, d.kv_dim, h, 1);
    lemma_row_project_fits(flags, call, l, WeightRef::Wv, Buf::HAttn, x8, Buf::V, d.kv_dim, h, 1);
    let b = seq![w1] + seq![w2] + seq![w3];
    let n1 = norm_op(Buf::HAttn, NormRef::Input, h);
    let at = token_attention(AttnKind::Decode { pos }, attn_call(call, l, d, max_seq));
    let tries = wo_attempts(call, d);
    let wo = row_project(flags, WeightRef::Wo, l.wo, Buf::AttnOut, o8, Buf::AttnDelta, h, d.q_dim, tries);
    lemma_row_project_fits(
        flags,
        call,
        l,
        WeightRef::Wo,
        Buf::AttnOut,
        o8,
        Buf::AttnDelta,
        h,
        d.q_dim,
        tries,
    );
    let p1 = pack_ops(qkv, Buf::HAttn, Buf::HAttnQ8, h);
    let p2 = pack_ops(out, Buf::AttnOut, Buf::AttnOutQ8, d.q_dim);
    let r1 = residual_ops(l, Buf::AttnDelta, Buf::AttnNormed, NormRef::PostAttn, 1, h);
    lemma_residual_fit(call, l, s, Buf::AttnDelta, Buf::AttnNormed, NormRef::PostAttn, 1);
    lemma_half_fit(call, l, s, n1, p1, b, at, p2, wo, r1);
    assert(seq![n1] + p1 + b =~= seq![n1] + p1 + seq![w1] + seq![w2] + seq![w3]);
}

proof fn lemma_decode_ffn_fit(flags: DecodeFlags, call: CallDims, l: FullPipelineLayer)
    requires
        call.widths_fit(l),
    ensures
        all_fit(
            call,
            l,
            decode_step(flags, call, l),
            decode_ffn_ops(flags, call, l),
        ),
{
    lemma_widths(call, l);
    let s = decode_step(flags, call, l);
    let h = call.hidden;
    let inter = call.inter;
    assert(input_of(WeightRef::Gate) == (Buf::HFfn, Buf::HFfnQ8));
    assert(input_of(WeightRef::Down) == (Buf::Act, Buf::ActQ8));
    let gu = packs_gate_up(flags, call, l);
    let act = packs_act(flags, call, l);
    let y8 = packed_buf(gu, Buf::HFfnQ8);
    let a8 = packed_buf(act, Buf::ActQ8);
    let n2 = norm_op(Buf::HFfn, l.ffn_norm(), h);
    let w1 = row_project(flags, WeightRef::Gate, l.gate, Buf::HFfn, y8, Buf::Gate, inter, h, 1);
    let w2 = row_project(flags, WeightRef::Up, l.up, Buf::HFfn, y8, Buf::Up, inter, h, 1);
    lemma_row_project_fits(flags, call, l, WeightRef::Gate, Buf::HFfn, y8, Buf::Gate, inter, h, 1);
    lemma_row_project_fits(flags, call, l, WeightRef::Up, Buf::HFfn, y8, Buf::Up, inter, h, 1);
    let c = seq![w1] + seq![w2];
    let g = DeviceOp::GateUp { n: inter, gelu_tanh: l.activation == Activation::GeluTanh };
    let down = row_project(flags, WeightRef::Down, l.down, Buf::Act, a8, Buf::FfnDelta, h, inter, 1);
    lemma_row_project_fits(flags, call, l, WeightRef::Down, Buf::Act, a8, Buf::FfnDelta, h, inter, 1);
    let p3 = pack_ops(gu, Buf::HFfn, Buf::HFfnQ8, h);
    let p4 = pack_ops(act, Buf::Act, Buf::ActQ8, inter);
    let r2 = residual_ops(l, Buf::FfnDelta, Buf::FfnNormed, l.ffn_post_norm(), 1, h);
    lemma_residual_fit(call, l, s, Buf::FfnDelta, Buf::FfnNormed, l.ffn_post_norm(), 1);
    lemma_half_fit(call, l, s, n2, p3, c, g, p4, down, r2);
    let most = seq![n2] + p3 + c + seq![g] + p4 + seq![down] + r2;
    lemma_fit_concat(call, l, s, most, scale_ops(l, h));
    assert(seq![n2] + p3 + c =~= seq![n2] + p3 + seq![w1] + seq![w2]);
}

/// Every operation of a decoded layer fits the layer.
pub proof fn law_decode_ops_fit(
    flags: DecodeFlags,
    call: CallDims,
    l: FullPipelineLayer,
    index: usize,
    pos: usize,
    max_seq: usize,
)
    requires
        call.widths_fit(l),
    ensures
        all_fit(
            call,
            l,
            decode_step(flags, call, l),
            decode_layer_ops(flags, call, l, index, pos, max_seq),
        ),
{
    let s = decode_step(flags, call, l);
    lemma_decode_attn_fit(flags, call, l, pos, max_seq);
    lemma_decode_ffn_fit(flags, call, l);
    lemma_layer_fit(
        call,
        l,
        s,
        index,
        decode_attn_ops(flags, call, l, pos, max_seq),
        decode_ffn_ops(flags, call, l),
    );
}

/// Every operation of a pipeline layer fits the layer, where the pipeline runs with the
/// dimensions of the layer. Nothing in it may fail.
pub proof fn law_pipeline_ops_fit(
    call: CallDims,
    l: FullPipelineLayer,
    index: usize,
    max_seq: usize,
)
    requires
        call.widths_fit(l),
    ensures
        all_fit(
            call,
            l,
            pipeline_step(),
            pipeline_layer_ops(call, call.dims_for(l), l, index, max_seq),
        ),
{
    lemma_widths(call, l);
    let s = pipeline_step();
    let h = call.hidden;
    let d = call.dims_for(l);
    assert(input_of(WeightRef::Wq) == (Buf::HAttn, Buf::HAttnQ8));
    assert(input_of(WeightRef::Wo) == (Buf::AttnOut, Buf::AttnOutQ8));
    assert(input_of(WeightRef::Gate) == (Buf::HFfn, Buf::HFfnQ8));
    assert(input_of(WeightRef::Down) == (Buf::Act, Buf::ActQ8));
    let b = seq![
        packed_project(WeightRef::Wq, l.wq, Buf::HAttn, Buf::HAttnQ8, Buf::Q, d.q_dim, h),
        packed_project(WeightRef::Wk, l.wk, Buf::HAttn, Buf::HAttnQ8, Buf::K, d.kv_dim, h),
        packed_project(WeightRef::Wv, l.wv, Buf::HAttn, Buf::HAttnQ8, Buf::V, d.kv_dim, h),
    ];
    let n1 = norm_op(Buf::HAttn, NormRef::Input, h);
    let at = token_attention(AttnKind::DecodeAtDevicePos, attn_call(call, l, d, max_seq));
    let wo = packed_project(WeightRef::Wo, l.wo, Buf::AttnOut, Buf::AttnOutQ8, Buf::AttnDelta, h, d.q_dim);
    let p1 = seq![must_pack(Buf::HAttn, Buf::HAttnQ8, h)];
    let p2 = seq![must_pack(Buf::AttnOut, Buf::AttnOutQ8, d.q_dim)];
    let r1 = fused_attn_residual(l, h);
    lemma_half_fit(call, l, s, n1, p1, b, at, p2, wo, r1);
    let attn = pipeline_attn_ops(call, d, l, max_seq);
    assert(attn =~= seq![n1] + p1 + b + seq![at] + p2 + seq![wo] + r1);
    let n2 = norm_op(Buf::HFfn, l.ffn_norm(), h);
    let c = seq![
        packed_project(WeightRef::Gate, l.gate, Buf::HFfn, Buf::HFfnQ8, Buf::Gate, call.inter, h),
        packed_project(WeightRef::Up, l.up, Buf::HFfn, Buf::HFfnQ8, Buf::Up, call.inter, h),
    ];
    let g = DeviceOp::GateUp { n: call.inter, gelu_tanh: l.activation == Activation::GeluTanh };
    let down = packed_project(WeightRef::Down, l.down, Buf::Act, Buf::ActQ8, Buf::FfnDelta, h, call.inter);
    let p3 = seq![must_pack(Buf::HFfn, Buf::HFfnQ8, h)];
    let p4 = seq![must_pack(Buf::Act, Buf::ActQ8, call.inter)];
    let r2 = fused_ffn_residual(l, h);
    lemma_half_fit(call, l, s, n2, p3, c, g, p4, down, r2);
    let ffn = pipeline_ffn_ops(call, l);
    assert(ffn =~= seq![n2] + p3 + c + seq![g] + p4 + seq![down] + r2);
    lemma_layer_fit(call, l, s, index, attn, ffn);
}

/// Every operation of a layer that goes through the host fits the layer.
pub proof fn law_host_ops_fit(
    call: CallDims,
    l: FullPipelineLayer,
    index: usize,
    pos: usize,
    max_seq: usize,
)
    requires
        call.widths_fit(l),
    ensures
        all_fit(
            call,
            l,
            host_step(),
            host_layer_ops(call, l, index, pos, max_seq),
        ),
{
    lemma_widths(call, l);
    let s = host_step();
    let h = call.hidden;
    let d = call.dims_for(l);
    let none = Seq::<DeviceOp>::empty();
    let n1 = norm_op(Buf::HAttn, NormRef::Input, h);
    let b = host_qkv_ops(call, l, d);
    let at = token_attention(AttnKind::DecodeThroughHost { pos }, attn_call(call, l, d, max_seq));
    let wo = host_project(WeightRef::Wo, l.wo, Buf::AttnOut, Buf::AttnDelta, h, d.q_dim, wo_attempts(call, d));
    let r1 = residual_ops(l, Buf::AttnDelta, Buf::AttnNormed, NormRef::PostAttn, 1, h);
    lemma_residual_fit(call, l, s, Buf::AttnDelta, Buf::AttnNormed, NormRef::PostAttn, 1);
    lemma_half_fit(call, l, s, n1, none, b, at, none, wo, r1);
    let attn = host_attn_half(call, l, pos, max_seq);
    assert(attn =~= seq![n1] + none + b + seq![at] + none + seq![wo] + r1);
    let n2 = norm_op(Buf::HFfn, l.ffn_norm(), h);
    let c = seq![
        host_project(WeightRef::Gate, l.gate, Buf::HFfn, Buf::Gate, call.inter, h, 1),
        host_project(WeightRef::Up, l.up, Buf::HFfn, Buf::Up, call.inter, h, 1),
    ];
    let g = DeviceOp::GateUp { n: call.inter, gelu_tanh: l.activation == Activation::GeluTanh };
    let down = host_project(WeightRef::Down, l.down, Buf::Act, Buf::FfnDelta, h, call.inter, 1);
    let r2 = residual_ops(l, Buf::FfnDelta, Buf::FfnNormed, l.ffn_post_norm(), 1, h);
    lemma_residual_fit(call, l, s, Buf::FfnDelta, Buf::FfnNormed, l.ffn_post_norm(), 1);
    lemma_half_fit(call, l, s, n2, none, c, g, none, down, r2);
    let ffn = host_ffn_half(call, l);
    let most = seq![n2] + none + c + seq![g] + none + seq![down] + r2;
    lemma_fit_concat(call, l, s, most, scale_ops(l, h));
    assert(ffn =~= most + scale_ops(l, h));
    lemma_layer_fit(call, l, s, index, attn, ffn);
}

proof fn lemma_positions_fit(
    call: CallDims,
    l: FullPipelineLayer,
    s: StepKind,
    a: AttnCall,
    n: nat,
)
    requires
        call.widths_fit(l),
        s.rows >= 1,
        !s.through_host && !s.at_device,
        forall|pos: usize|
            op_fits(
                call,
                l,
                s,
                #[trigger] attention_of_position(a, pos),
            ),
    ensures
        all_fit(call, l, s, positions_ops(a, call.dims_for(l), n)),
    decreases n,
{
    lemma_widths(call, l);
    if n > 0 {
        let d = call.dims_for(l);
        lemma_positions_fit(call, l, s, a, (n - 1) as nat);
        let one = position_ops(a, d, (n - 1) as nat);
        assert(one[3] == attention_of_position(a, (n - 1) as usize));
        assert(all_fit(call, l, s, one));
        lemma_fit_concat(call, l, s, positions_ops(a, d, (n - 1) as nat), one);
    }
}

/// The attention of one position of a run.
pub open spec fn attention_of_position(a: AttnCall, pos: usize) -> DeviceOp {
    DeviceOp::Attention {
        kind: AttnKind::Decode { pos },
        call: a,
        q: Buf::QPos,
        k: Buf::KPos,
        v: Buf::VPos,
        dst: Buf::OutPos,
        rows: 1,
    }
}

proof fn lemma_seq_project_fits(
    flags: DecodeFlags,
    call: CallDims,
    l: FullPipelineLayer,
    s: StepKind,
    weight: WeightRef,
    src: Buf,
    dst: Buf,
    n: usize,
    rows: usize,
    cols: usize,
)
    requires
        s == batched_step(flags, n as int),
        src == input_of(weight).0 && dst == output_of(weight),
        (rows as int, cols as int) == weight_shape(call, l, weight),
    ensures
        op_fits(
            call,
            l,
            s,
            seq_project(flags, weight, weight_of(l, weight), src, dst, n, rows, cols),
        ),
{
}

proof fn lemma_seq_attn_fit(
    flags: DecodeFlags,
    call: CallDims,
    l: FullPipelineLayer,
    pass: SeqPass,
    max_seq: usize,
    s: StepKind,
)
    requires
        call.widths_fit(l),
        pass.seq_len >= 1,
        pass.seq_len * call.hidden <= usize::MAX,
        s == batched_step(flags, pass.seq_len as int),
    ensures
        all_fit(call, l, s, seq_attn_half(flags, call, l, pass, max_seq)),
{
    lemma_widths(call, l);
    let d = call.dims_for(l);
    let at = attn_call(call, l, d, max_seq);
    let ops = seq_attn_ops(pass, at, d);
    if pass.attn == SeqAttn::PerPosition {
        lemma_positions_fit(call, l, s, at, pass.seq_len as nat);
        let room = reserve_ops(d, pass.seq_len);
        assert(all_fit(call, l, s, room));
        lemma_fit_concat(call, l, s, room, positions_ops(at, d, pass.seq_len as nat));
    }
    assert(all_fit(call, l, s, ops));
    let n = pass.seq_len;
    let h = call.hidden;
    let norm = DeviceOp::RmsNorm {
        src: Buf::H,
        dst: Buf::HAttn,
        norm: NormRef::Input,
        rows: n,
        dim: h,
    };
    let w1 = seq_project(flags, WeightRef::Wq, l.wq, Buf::HAttn, Buf::Q, n, d.q_dim, h);
    let w2 = seq_project(flags, WeightRef::Wk, l.wk, Buf::HAttn, Buf::K, n, d.kv_dim, h);
    let w3 = seq_project(flags, WeightRef::Wv, l.wv, Buf::HAttn, Buf::V, n, d.kv_dim, h);
    let wo = seq_project(flags, WeightRef::Wo, l.wo, Buf::AttnOut, Buf::AttnDelta, n, h, d.q_dim);
    lemma_seq_project_fits(flags, call, l, s, WeightRef::Wq, Buf::HAttn, Buf::Q, n, d.q_dim, h);
    lemma_seq_project_fits(flags, call, l, s, WeightRef::Wk, Buf::HAttn, Buf::K, n, d.kv_dim, h);
    lemma_seq_project_fits(flags, call, l, s, WeightRef::Wv, Buf::HAttn, Buf::V, n, d.kv_dim, h);
    lemma_seq_project_fits(flags, call, l, s, WeightRef::Wo, Buf::AttnOut, Buf::AttnDelta, n, h, d.q_dim);
    let head = seq![norm] + seq![w1] + seq![w2] + seq![w3];
    lemma_fit_snoc(call, l, s, seq![norm], w1);
    lemma_fit_snoc(call, l, s, seq![norm] + seq![w1], w2);
    lemma_fit_snoc(call, l, s, seq![norm] + seq![w1] + seq![w2], w3);
    lemma_fit_concat(call, l, s, head, ops);
    lemma_fit_snoc(call, l, s, head + ops, wo);
    lemma_residual_fit(call, l, s, Buf::AttnDelta, Buf::AttnNormed, NormRef::PostAttn, n);
    let res = residual_ops(l, Buf::AttnDelta, Buf::AttnNormed, NormRef::PostAttn, n, h);
    lemma_fit_concat(call, l, s, head + ops + seq![wo], res);
}

proof fn lemma_seq_ffn_fit(
    flags: DecodeFlags,
    call: CallDims,
    l: FullPipelineLayer,
    n: usize,
    s: StepKind,
)
    requires
        n * call.hidden <= usize::MAX,
        n * call.inter <= usize::MAX,
        s == batched_step(flags, n as int),
    ensures
        all_fit(call, l, s, seq_ffn_half(flags, call, l, n)),
{
    let h = call.hidden;
    let inter = call.inter;
    assert(0 <= n * inter) by (nonlinear_arith)
        requires
            0 <= n,
            0 <= inter,
    ;
    let norm = DeviceOp::RmsNorm { src: Buf::H, dst: Buf::HFfn, norm: l.ffn_norm(), rows: n, dim: h };
    let w1 = seq_project(flags, WeightRef::Gate, l.gate, Buf::HFfn, Buf::Gate, n, inter, h);
    let w2 = seq_project(flags, WeightRef::Up, l.up, Buf::HFfn, Buf::Up, n, inter, h);
    let g = DeviceOp::GateUp {
        n: (n * inter) as usize,
        gelu_tanh: l.activation == Activation::GeluTanh,
    };
    let down = seq_project(flags, WeightRef::Down, l.down, Buf::Act, Buf::FfnDelta, n, h, inter);
    lemma_seq_project_fits(flags, call, l, s, WeightRef::Gate, Buf::HFfn, Buf::Gate, n, inter, h);
    lemma_seq_project_fits(flags, call, l, s, WeightRef::Up, Buf::HFfn, Buf::Up, n, inter, h);
    lemma_seq_project_fits(flags, call, l, s, WeightRef::Down, Buf::Act, Buf::FfnDelta, n, h, inter);
    let s1 = seq![norm];
    lemma_fit_snoc(call, l, s, s1, w1);
    lemma_fit_snoc(call, l, s, s1 + seq![w1], w2);
    lemma_fit_snoc(call, l, s, s1 + seq![w1] + seq![w2], g);
    lemma_fit_snoc(call, l, s, s1 + seq![w1] + seq![w2] + seq![g], down);
    let s5 = s1 + seq![w1] + seq![w2] + seq![g] + seq![down];
    lemma_residual_fit(call, l, s, Buf::FfnDelta, Buf::FfnNormed, l.ffn_post_norm(), n);
    let res = residual_ops(l, Buf::FfnDelta, Buf::FfnNormed, l.ffn_post_norm(), n, h);
    lemma_fit_concat(call, l, s, s5, res);
    lemma_fit_concat(call, l, s, s5 + res, scale_ops(l, (n * h) as usize));
}

/// Every operation of a batched layer fits the layer, however attention is called.
pub proof fn law_batched_ops_fit(
    flags: DecodeFlags,
    call: CallDims,
    l: FullPipelineLayer,
    index: usize,
    pass: SeqPass,
    max_seq: usize,
)
    requires
        call.widths_fit(l),
        pass.seq_len >= 1,
        pass.seq_len * call.hidden <= usize::MAX,
        pass.seq_len * call.inter <= usize::MAX,
    ensures
        all_fit(
            call,
            l,
            batched_step(flags, pass.seq_len as int),
            seq_layer_ops(flags, call, l, index, pass, max_seq),
        ),
{
    let s = batched_step(flags, pass.seq_len as int);
    lemma_seq_attn_fit(flags, call, l, pass, max_seq, s);
    lemma_seq_ffn_fit(flags, call, l, pass.seq_len, s);
    lemma_layer_fit(
        call,
        l,
        s,
        index,
        seq_attn_half(flags, call, l, pass, max_seq),
        seq_ffn_half(flags, call, l, pass.seq_len),
    );
}

/// A step of one token and a batched pass bring their rows up first and back last, all of them.
pub proof fn law_rows_go_up_and_come_back(
    flags: DecodeFlags,
    call: CallDims,
    layers: Seq<FullPipelineLayer>,
    pos: usize,
    pass: SeqPass,
    max_seq: usize,
)
    requires
        pass.seq_len * call.hidden <= usize::MAX,
    ensures
        ({
            let one = decode_program(flags, call, layers, pos, max_seq);
            let many = seq_program(flags, call, layers, pass, max_seq);
            let host = host_program(call, layers, pos, max_seq);
            &&& one[0] == (DeviceOp::Upload { len: call.hidden })
            &&& one.last() == (DeviceOp::Download { len: call.hidden })
            &&& many[0] is Upload && many[0]->Upload_len == pass.seq_len * call.hidden
            &&& many.last() is Download && many.last()->Download_len == pass.seq_len * call.hidden
            &&& host[0] == (DeviceOp::Upload { len: call.hidden })
            &&& all_plain(layers) ==> host.last() == (DeviceOp::Download { len: call.hidden })
        }),
{
    assert(0 <= pass.seq_len * call.hidden) by (nonlinear_arith)
        requires
            0 <= pass.seq_len,
            0 <= call.hidden,
    ;
    lemma_plain_prefix(layers, layers.len());
}

} // verus!
