//! What the chains of the DeltaNet block compute.
//!
//! A chain is held against the single steps that it is made of. What a single kernel
//! computes is left open; the changes of layout are what they are.

use vstd::prelude::*;

use crate::deltanet::{
    conv1d_ok, elementwise, per_head, recurrence, RecurrenceLens,
};
use crate::qwen35_block::{
    postproj_chain, recurrence_tail, to_dim_major, to_head_major, DeltaBuf, DeltaDims, DeltaOp,
    PostprojLens, RecurrenceBlockLens, QK_EPS_BITS,
};

verus! {

/// The single steps on buffers of `T`: what each kernel makes of its inputs. Weights, states
/// and the gating row are fixed.
#[verifier::reject_recursive_types(T)]
pub struct DeltaSteps<T> {
    /// A convolution step: mixed projections, taps, width.
    pub conv1d: spec_fn(Seq<T>, int, int) -> Seq<T>,
    /// The activation of a number of elements.
    pub silu: spec_fn(Seq<T>, int) -> Seq<T>,
    /// The L2 norm of each head: buffer, head width, heads, bit pattern of epsilon.
    pub l2_norm: spec_fn(Seq<T>, int, int, u32) -> Seq<T>,
    /// A recurrence step: queries, keys, values, head width, key heads, value heads, and
    /// which key head belongs to a value head.
    pub recurrence: spec_fn(Seq<T>, Seq<T>, Seq<T>, int, int, int, bool) -> Seq<T>,
    /// The RMS norm of each head: buffer, heads, head width.
    pub rms_norm: spec_fn(Seq<T>, int, int) -> Seq<T>,
    /// The product with the activated gating row.
    pub gate: spec_fn(Seq<T>, int) -> Seq<T>,
}

/// The buffers once an operation has run on the mixed projections `qkv`.
pub open spec fn delta_step<T>(
    k: DeltaSteps<T>,
    qkv: Seq<T>,
    m: Map<DeltaBuf, Seq<T>>,
    op: DeltaOp,
) -> Map<DeltaBuf, Seq<T>> {
    match op {
        DeltaOp::Conv1d { d_conv, conv_dim, .. } => m.insert(
            DeltaBuf::QkvConv,
            (k.conv1d)(qkv, d_conv as int, conv_dim as int),
        ),
        DeltaOp::Silu { n, .. } => m.insert(
            DeltaBuf::QkvConv,
            (k.silu)(m[DeltaBuf::QkvConv], n as int),
        ),
        DeltaOp::HeadToDim { dst, head_dim, n_heads, src_offset, .. } => m.insert(
            dst,
            to_dim_major(
                m[DeltaBuf::QkvConv],
                head_dim as nat,
                n_heads as nat,
                src_offset as int,
            ),
        ),
        DeltaOp::L2Norm { src, dst, head_dim, n_heads, eps_bits, .. } => m.insert(
            dst,
            (k.l2_norm)(m[src], head_dim as int, n_heads as int, eps_bits),
        ),
        DeltaOp::Recurrence { s, h_k, h_v, block_gqa, .. } => m.insert(
            DeltaBuf::ODim,
            (k.recurrence)(
                m[DeltaBuf::QNorm],
                m[DeltaBuf::KNorm],
                m[DeltaBuf::VDim],
                s as int,
                h_k as int,
                h_v as int,
                block_gqa != 0,
            ),
        ),
        DeltaOp::DimToHead { head_dim, n_heads, src_offset, .. } => m.insert(
            DeltaBuf::OFlat,
            to_head_major(
                m[DeltaBuf::ODim].skip(src_offset as int),
                head_dim as nat,
                n_heads as nat,
            ),
        ),
        DeltaOp::RmsNormHeads { num_heads, head_dim, .. } => m.insert(
            DeltaBuf::ONormed,
            (k.rms_norm)(m[DeltaBuf::OFlat], num_heads as int, head_dim as int),
        ),
        DeltaOp::SiluMul { n, .. } => m.insert(
            DeltaBuf::ONormed,
            (k.gate)(m[DeltaBuf::ONormed], n as int),
        ),
    }
}

/// The buffers once a chain has run.
pub open spec fn delta_run<T>(
    k: DeltaSteps<T>,
    qkv: Seq<T>,
    m: Map<DeltaBuf, Seq<T>>,
    ops: Seq<DeltaOp>,
) -> Map<DeltaBuf, Seq<T>>
    decreases ops.len(),
{
    if ops.len() == 0 {
        m
    } else {
        delta_step(k, qkv, delta_run(k, qkv, m, ops.drop_last()), ops.last())
    }
}

/// The recurrence step on normalised queries and keys, head-major, and normalised per head:
/// one single step after the other, on dim-major queries, keys and values.
pub open spec fn recurrence_by_steps<T>(
    k: DeltaSteps<T>,
    d: DeltaDims,
    q: Seq<T>,
    key: Seq<T>,
    v: Seq<T>,
) -> Seq<T> {
    let s = d.head_v_dim as int;
    let h_k = d.n_k_heads as int;
    let h_v = d.n_v_heads as int;
    let o = (k.recurrence)(
        (k.l2_norm)(q, s, h_k, 0x3586_37bd),
        (k.l2_norm)(key, s, h_k, 0x3586_37bd),
        v,
        s,
        h_k,
        h_v,
        d.block_gqa,
    );
    (k.rms_norm)(to_head_major(o, d.head_v_dim as nat, d.n_v_heads as nat), h_v, s)
}

/// Everything behind the projections, one single step after the other: convolution,
/// activation, the three slabs brought to the dim-major layout, the recurrence, the gating row.
pub open spec fn postproj_by_steps<T>(
    k: DeltaSteps<T>,
    d: DeltaDims,
    d_conv: usize,
    qkv: Seq<T>,
) -> Seq<T> {
    let hd = d.head_v_dim as nat;
    let keys = d.head_v_dim * d.n_k_heads;
    let values = d.head_v_dim * d.n_v_heads;
    let width = keys + keys + values;
    let x = (k.silu)((k.conv1d)(qkv, d_conv as int, width), width);
    let q = to_dim_major(x, hd, d.n_k_heads as nat, 0);
    let key = to_dim_major(x, hd, d.n_k_heads as nat, keys);
    let v = to_dim_major(x, hd, d.n_v_heads as nat, keys + keys);
    (k.gate)(recurrence_by_steps(k, d, q, key, v), values)
}

proof fn lemma_delta_concat<T>(
    k: DeltaSteps<T>,
    qkv: Seq<T>,
    m: Map<DeltaBuf, Seq<T>>,
    a: Seq<DeltaOp>,
    b: Seq<DeltaOp>,
)
    ensures
        delta_run(k, qkv, m, a + b) == delta_run(k, qkv, delta_run(k, qkv, m, a), b),
    decreases b.len(),
{
    if b.len() == 0 {
        assert(a + b =~= a);
    } else {
        assert((a + b).drop_last() =~= a + b.drop_last());
        assert((a + b).last() == b.last());
        lemma_delta_concat(k, qkv, m, a, b.drop_last());
    }
}

proof fn lemma_delta_five<T>(
    k: DeltaSteps<T>,
    qkv: Seq<T>,
    m: Map<DeltaBuf, Seq<T>>,
    ops: Seq<DeltaOp>,
)
    requires
        ops.len() == 5,
    ensures
        ({
            let a = delta_step(k, qkv, m, ops[0]);
            let b = delta_step(k, qkv, a, ops[1]);
            let c = delta_step(k, qkv, b, ops[2]);
            let d = delta_step(k, qkv, c, ops[3]);
            delta_run(k, qkv, m, ops) == delta_step(k, qkv, d, ops[4])
        }),
{
    reveal_with_fuel(delta_run, 6);
    let o4 = ops.drop_last();
    let o3 = o4.drop_last();
    let o2 = o3.drop_last();
    let o1 = o2.drop_last();
    assert(o1.drop_last().len() == 0);
    assert(o4.last() == ops[3]);
    assert(o3.last() == ops[2]);
    assert(o2.last() == ops[1]);
    assert(o1.last() == ops[0]);
}

/// The sizes of a block can be held in the integers that the kernels take.
pub open spec fn kernel_sizes_fit(d: DeltaDims) -> bool {
    &&& d.head_v_dim <= i32::MAX
    &&& d.n_k_heads <= i32::MAX
    &&& d.n_v_heads <= i32::MAX
}

/// The recurrence block computes what its single steps compute one after the other. It holds
/// no convolution, no activation and no gate.
pub proof fn law_recurrence_block_is_the_single_steps<T>(
    k: DeltaSteps<T>,
    d: DeltaDims,
    qkv: Seq<T>,
    m: Map<DeltaBuf, Seq<T>>,
)
    requires
        kernel_sizes_fit(d),
    ensures
        delta_run(k, qkv, m, recurrence_tail(d))[DeltaBuf::ONormed] == recurrence_by_steps(
            k,
            d,
            m[DeltaBuf::QDim],
            m[DeltaBuf::KDim],
            m[DeltaBuf::VDim],
        ),
{
    lemma_delta_five(k, qkv, m, recurrence_tail(d));
    let o = (k.recurrence)(
        (k.l2_norm)(m[DeltaBuf::QDim], d.head_v_dim as int, d.n_k_heads as int, QK_EPS_BITS),
        (k.l2_norm)(m[DeltaBuf::KDim], d.head_v_dim as int, d.n_k_heads as int, QK_EPS_BITS),
        m[DeltaBuf::VDim],
        d.head_v_dim as int,
        d.n_k_heads as int,
        d.n_v_heads as int,
        d.block_gqa,
    );
    assert(o.skip(0) =~= o);
}

/// The chain behind the projections computes what its single steps compute one after the
/// other.
pub proof fn law_postproj_is_the_single_steps<T>(
    k: DeltaSteps<T>,
    d: DeltaDims,
    d_conv: usize,
    qkv: Seq<T>,
    m: Map<DeltaBuf, Seq<T>>,
)
    requires
        kernel_sizes_fit(d),
        d_conv <= i32::MAX,
        d.conv_dim() <= i32::MAX,
    ensures
        delta_run(k, qkv, m, postproj_chain(d, d_conv))[DeltaBuf::ONormed] == postproj_by_steps(
            k,
            d,
            d_conv,
            qkv,
        ),
{
    assert(0 <= d.head_v_dim * d.n_k_heads && 0 <= d.head_v_dim * d.n_v_heads)
        by (nonlinear_arith);
    let head = crate::qwen35_block::projection_head(d, d_conv);
    let tail = recurrence_tail(d);
    let last = postproj_chain(d, d_conv).last();
    assert(postproj_chain(d, d_conv) =~= head + tail + seq![last]);
    lemma_delta_concat(k, qkv, m, head + tail, seq![last]);
    lemma_delta_concat(k, qkv, m, head, tail);
    lemma_delta_five(k, qkv, m, head);
    let a = delta_run(k, qkv, m, head);
    law_recurrence_block_is_the_single_steps(k, d, qkv, a);
    let b = delta_run(k, qkv, a, tail);
    assert(seq![last].drop_last() =~= Seq::<DeltaOp>::empty());
    assert(delta_run(k, qkv, b, seq![last].drop_last()) == b);
    assert(delta_run(k, qkv, b, seq![last]) == delta_step(k, qkv, b, last));
}

/// Where the norm of the heads and the product with the gating row keep lengths, both chains
/// end with one element for each element of each value head.
pub proof fn law_chains_end_with_the_value_heads<T>(
    k: DeltaSteps<T>,
    d: DeltaDims,
    d_conv: usize,
    qkv: Seq<T>,
    m: Map<DeltaBuf, Seq<T>>,
)
    requires
        kernel_sizes_fit(d),
        forall|x: Seq<T>, h: int, s: int| #[trigger] (k.rms_norm)(x, h, s).len() == x.len(),
        forall|x: Seq<T>, n: int| #[trigger] (k.gate)(x, n).len() == x.len(),
    ensures
        delta_run(k, qkv, m, recurrence_tail(d))[DeltaBuf::ONormed].len() == d.head_v_dim
            * d.n_v_heads,
        d_conv <= i32::MAX && d.conv_dim() <= i32::MAX ==> delta_run(
            k,
            qkv,
            m,
            postproj_chain(d, d_conv),
        )[DeltaBuf::ONormed].len() == d.head_v_dim * d.n_v_heads,
{
    law_recurrence_block_is_the_single_steps(k, d, qkv, m);
    if d_conv <= i32::MAX && d.conv_dim() <= i32::MAX {
        law_postproj_is_the_single_steps(k, d, d_conv, qkv, m);
    }
}

/// The recurrence block takes exactly the inputs that its single steps take, and launches
/// each kernel as the single step does.
pub proof fn law_recurrence_block_accepts_what_its_steps_accept(l: RecurrenceBlockLens, d: DeltaDims)
    ensures
        l.fit(d) <==> {
            &&& RecurrenceLens {
                q: l.q,
                k: l.k,
                v: l.v,
                log_g: l.log_g,
                beta: l.beta,
                state: l.rec_state,
            }.fit(d.head_v_dim, d.n_k_heads, d.n_v_heads)
            &&& l.norm_w == d.head_v_dim
        },
        recurrence_tail(d)[0]->L2Norm_cfg == per_head(d.n_k_heads),
        recurrence_tail(d)[1]->L2Norm_cfg == per_head(d.n_k_heads),
        recurrence_tail(d)[2]->Recurrence_cfg == recurrence(d.head_v_dim, d.n_v_heads),
        recurrence_tail(d)[4]->RmsNormHeads_cfg == per_head(d.n_v_heads),
{
}

/// The chain behind the projections takes exactly the inputs that its single steps take, with
/// a gating row as long as the output, and launches the convolution as the single step does.
pub proof fn law_postproj_accepts_what_its_steps_accept(
    l: PostprojLens,
    d: DeltaDims,
    d_conv: usize,
)
    requires
        d.recurrence_fits(),
        d.conv_dim() <= usize::MAX,
    ensures
        l.fit(d, d_conv) <==> {
            &&& conv1d_ok(l.conv_w, l.conv_state, l.qkv, d_conv, d.conv_dim() as usize)
            &&& RecurrenceLens {
                q: d.key_dim() as usize,
                k: d.key_dim() as usize,
                v: d.value_dim() as usize,
                log_g: l.log_g,
                beta: l.beta,
                state: l.rec_state,
            }.fit(d.head_v_dim, d.n_k_heads, d.n_v_heads)
            &&& l.z == d.value_dim()
            &&& l.norm_w == d.head_v_dim
        },
        postproj_chain(d, d_conv)[0]->Conv1d_cfg == elementwise(d.conv_dim() as usize),
{
    assert(0 <= d.head_v_dim * d.n_k_heads && 0 <= d.head_v_dim * d.n_v_heads)
        by (nonlinear_arith);
}

} // verus!
