//! What device programs compute.
//!
//! A buffer holds rows, and a row is a term over the rows that went in. Packing a row
//! and the route of a projection change how exactly a row is computed, not what it
//! stands for, and leave the term alone. Two programs that end with equal terms
//! compute the same thing up to rounding.

use vstd::prelude::*;

use crate::layer::{NormRef, ONE_BITS};
use crate::program::{AttnCall, AttnKind, Buf, DeviceOp, WeightRef};

verus! {

/// A row of a device buffer.
pub enum Row {
    /// Contents that nothing has been said of.
    Unknown,
    /// A row that the caller passes for a position.
    Input(int),
    /// A key or value row that an earlier call left in the cache of a layer.
    History(int, int, bool),
    Normed(int, NormRef, Box<Row>),
    Projected(int, WeightRef, Box<Row>),
    /// Attention of a layer at a position: the query and the cache entries from
    /// position zero on, `None` where an entry is hidden from the query.
    Attended(int, AttnCall, int, Box<Row>, Seq<Option<(Row, Row)>>),
    Sum(Box<Row>, Box<Row>),
    Gated(bool, Box<Row>, Box<Row>),
    Scaled(u32, Box<Row>),
}

/// Buffers, cache entries by layer and position, the layer at hand, and what the
/// caller has placed on the device.
pub struct Env {
    pub bufs: Map<Buf, Seq<Row>>,
    pub cache: spec_fn(int, int) -> (Row, Row),
    pub layer: int,
    pub input: Seq<Row>,
    pub device_pos: int,
    pub ancestors: Seq<u64>,
}

/// Bit `bit` of an ancestor set.
pub open spec fn has_bit(set: u64, bit: int) -> bool {
    (set >> (bit as u64)) & 1 == 1
}

/// Whether node `node` of a tree whose nodes are stored from position `start` on may
/// look at position `j`: anything before the tree, and its own ancestors in it.
pub open spec fn tree_visible(ancestors: Seq<u64>, start: int, node: int, j: int) -> bool {
    j < start || has_bit(ancestors[node], j - start)
}

/// Where an attention call starts.
pub open spec fn attn_start(e: Env, kind: AttnKind) -> int {
    match kind {
        AttnKind::Decode { pos } => pos as int,
        AttnKind::DecodeThroughHost { pos } => pos as int,
        AttnKind::Run { base_pos } => base_pos as int,
        _ => e.device_pos,
    }
}

/// The cache with the rows of a call stored from `start` on.
pub open spec fn stored(e: Env, start: int, rows: int, k: Seq<Row>, v: Seq<Row>) -> spec_fn(
    int,
    int,
) -> (Row, Row) {
    |l: int, j: int|
        if l == e.layer && start <= j < start + rows {
            (k[j - start], v[j - start])
        } else {
            (e.cache)(l, j)
        }
}

/// The entries that row `r` of a call sees.
pub open spec fn seen(
    e: Env,
    kind: AttnKind,
    cache: spec_fn(int, int) -> (Row, Row),
    start: int,
    r: int,
) -> Seq<Option<(Row, Row)>> {
    Seq::new(
        (start + r + 1) as nat,
        |j: int|
            if kind is TreeAtDevicePos && !tree_visible(e.ancestors, start, r, j) {
                None
            } else {
                Some(cache(e.layer, j))
            },
    )
}

/// A row times a scalar; a scalar of one leaves the row alone.
pub open spec fn scaled_row(bits: u32, x: Row) -> Row {
    if bits == ONE_BITS {
        x
    } else {
        Row::Scaled(bits, Box::new(x))
    }
}

pub open spec fn put(e: Env, b: Buf, rows: Seq<Row>) -> Env {
    Env { bufs: e.bufs.insert(b, rows), ..e }
}

/// What one operation does. A projection may read its row or the packed form of it, whichever
/// route it takes: nothing can be said of its result where the two are not the same row.
pub open spec fn step(e: Env, op: DeviceOp) -> Env {
    match op {
        DeviceOp::BeginLayer { index } => Env { layer: index as int, ..e },
        DeviceOp::Upload { .. } => put(e, Buf::H, e.input),
        DeviceOp::RmsNorm { src, dst, norm, rows, .. } => put(
            e,
            dst,
            Seq::new(
                rows as nat,
                |r: int| Row::Normed(e.layer, norm, Box::new(e.bufs[src][r])),
            ),
        ),
        DeviceOp::QuantizeQ8 { src, dst, .. } => put(e, dst, e.bufs[src]),
        DeviceOp::Project { weight, src, packed_src, dst, rows_in, .. } => put(
            e,
            dst,
            Seq::new(
                rows_in as nat,
                |r: int|
                    if packed_src matches Some(b) && e.bufs[b][r] != e.bufs[src][r] {
                        Row::Unknown
                    } else {
                        Row::Projected(e.layer, weight, Box::new(e.bufs[src][r]))
                    },
            ),
        ),
        DeviceOp::HostProject { weight, src, dst, .. } => put(
            e,
            dst,
            seq![Row::Projected(e.layer, weight, Box::new(e.bufs[src][0]))],
        ),
        DeviceOp::QkvRmsProj { .. } => {
            let x = Row::Normed(e.layer, NormRef::Input, Box::new(e.bufs[Buf::H][0]));
            let q = put(e, Buf::Q, seq![Row::Projected(e.layer, WeightRef::Wq, Box::new(x))]);
            let k = put(q, Buf::K, seq![Row::Projected(e.layer, WeightRef::Wk, Box::new(x))]);
            put(k, Buf::V, seq![Row::Projected(e.layer, WeightRef::Wv, Box::new(x))])
        },
        DeviceOp::Attention { kind, call, q, k, v, dst, rows } => {
            let start = attn_start(e, kind);
            let cache = stored(e, start, rows as int, e.bufs[k], e.bufs[v]);
            let out = Seq::new(
                rows as nat,
                |r: int|
                    Row::Attended(
                        e.layer,
                        call,
                        start + r,
                        Box::new(e.bufs[q][r]),
                        seen(e, kind, cache, start, r),
                    ),
            );
            Env { bufs: e.bufs.insert(dst, out), cache, ..e }
        },
        DeviceOp::Add { src, .. } => put(
            e,
            Buf::H,
            Seq::new(
                e.bufs[Buf::H].len(),
                |r: int| Row::Sum(Box::new(e.bufs[Buf::H][r]), Box::new(e.bufs[src][r])),
            ),
        ),
        DeviceOp::NormAdd { src, norm, scale_bits, .. } => put(
            e,
            Buf::H,
            Seq::new(
                e.bufs[Buf::H].len(),
                |r: int|
                    scaled_row(
                        scale_bits,
                        Row::Sum(
                            Box::new(e.bufs[Buf::H][r]),
                            Box::new(Row::Normed(e.layer, norm, Box::new(e.bufs[src][r]))),
                        ),
                    ),
            ),
        ),
        DeviceOp::GateUp { gelu_tanh, .. } => put(
            e,
            Buf::Act,
            Seq::new(
                e.bufs[Buf::Gate].len(),
                |r: int|
                    Row::Gated(
                        gelu_tanh,
                        Box::new(e.bufs[Buf::Gate][r]),
                        Box::new(e.bufs[Buf::Up][r]),
                    ),
            ),
        ),
        DeviceOp::Scale { bits, .. } => put(
            e,
            Buf::H,
            Seq::new(e.bufs[Buf::H].len(), |r: int| scaled_row(bits, e.bufs[Buf::H][r])),
        ),
        DeviceOp::Reserve { dst, len } => put(
            e,
            dst,
            Seq::new(len as nat, |r: int| Row::Unknown),
        ),
        DeviceOp::CopyRange { src, src_off, dst, dst_off, len } => put(
            e,
            dst,
            e.bufs[dst].update(dst_off as int / len as int, e.bufs[src][src_off as int / len as int]),
        ),
        DeviceOp::Download { .. } => e,
    }
}

/// What a program does.
pub open spec fn run(e: Env, ops: Seq<DeviceOp>) -> Env
    decreases ops.len(),
{
    if ops.len() == 0 {
        e
    } else {
        step(run(e, ops.drop_last()), ops.last())
    }
}

pub proof fn lemma_run_one(e: Env, op: DeviceOp)
    ensures
        run(e, seq![op]) == step(e, op),
{
    assert(seq![op].drop_last() =~= Seq::<DeviceOp>::empty());
    assert(run(e, Seq::<DeviceOp>::empty()) == e);
}

pub proof fn lemma_run_concat(e: Env, a: Seq<DeviceOp>, b: Seq<DeviceOp>)
    ensures
        run(e, a + b) == run(run(e, a), b),
    decreases b.len(),
{
    if b.len() == 0 {
        assert(a + b =~= a);
    } else {
        assert((a + b).drop_last() =~= a + b.drop_last());
        assert((a + b).last() == b.last());
        lemma_run_concat(e, a, b.drop_last());
    }
}

pub proof fn lemma_run_snoc(e: Env, a: Seq<DeviceOp>, op: DeviceOp)
    ensures
        run(e, a + seq![op]) == step(run(e, a), op),
{
    lemma_run_concat(e, a, seq![op]);
    lemma_run_one(run(e, a), op);
}

} // verus!
