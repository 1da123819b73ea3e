//! Device programs: the operations that run a layer, as data.
//!
//! A program is a sequence of operations on named buffers. The planner writes it, the
//! device runs it from front to back and gives the whole call up at the first
//! operation that fails, unless the operation says otherwise.

use vstd::prelude::*;

use crate::layer::{NormRef, QuantFormat};

verus! {

/// Device buffers of one layer pass.
#[derive(Clone, Copy, Debug, PartialEq, Eq, Structural)]
pub enum Buf {
    /// The running residual.
    H,
    HAttn,
    HAttnQ8,
    Q,
    K,
    V,
    AttnOut,
    AttnOutQ8,
    AttnDelta,
    AttnNormed,
    HFfn,
    HFfnQ8,
    Gate,
    Up,
    Act,
    ActQ8,
    FfnDelta,
    FfnNormed,
    /// One position's query, key, value and attention output.
    QPos,
    KPos,
    VPos,
    OutPos,
}

/// The projection weights of a layer.
#[derive(Clone, Copy, Debug, PartialEq, Eq, Structural)]
pub enum WeightRef {
    Wq,
    Wk,
    Wv,
    Wo,
    Gate,
    Up,
    Down,
}

/// A way to compute a projection.
#[derive(Clone, Copy, Debug, PartialEq, Eq, Structural)]
pub enum Route {
    /// Packed weight times packed input.
    Q4kMmvq,
    Q6kMmvq,
    /// Packed weight times `f32` input.
    Q4kDirect,
    /// Weight expanded on the host, then a GEMV.
    Q4kfGemv,
    /// Weight expanded once into the `f32` device cache, then a GEMV.
    Q6kGemv,
    /// Weight expanded once into a device cache, then a GEMM.
    GemmF32,
    GemmF16,
}

/// A way to compute a projection whose row comes from the host and goes back to it.
#[derive(Clone, Copy, Debug, PartialEq, Eq, Structural)]
pub enum HostRoute {
    Q4k,
    Q4kf,
    Q6k,
    /// Weight expanded on the host, then a GEMV.
    ExpandGemv,
}

/// The routes of one projection, in the order in which they are tried. A route that
/// fails hands over to the next; the projection fails with its last route.
#[derive(Clone, Copy, Debug, PartialEq, Eq, Structural)]
pub struct Routes {
    /// Tried only if the packed input is there.
    pub packed: Option<Route>,
    pub direct: Option<Route>,
    pub gemm: Option<Route>,
}

/// How attention is run.
#[derive(Clone, Copy, Debug, PartialEq, Eq, Structural)]
pub enum AttnKind {
    /// One position, at a position that the host passes.
    Decode { pos: usize },
    /// One position, at a position that the device holds.
    DecodeAtDevicePos,
    /// One position, the slabs copied through the host.
    DecodeThroughHost { pos: usize },
    /// A run of positions that starts at `base_pos`.
    Run { base_pos: usize },
    /// A run of positions that starts where the device says.
    RunAtDevicePos { base_pos: usize },
    /// The nodes of a tree, each of which sees its ancestors only.
    TreeAtDevicePos { base_pos: usize },
}

/// Shape and settings of an attention call.
#[derive(Clone, Copy, Debug, PartialEq, Eq, Structural)]
pub struct AttnCall {
    pub num_q_heads: usize,
    pub num_kv_heads: usize,
    pub head_dim: usize,
    pub max_seq: usize,
    pub rotary_dim: usize,
    pub rope_base_bits: u32,
    pub eps_bits: u32,
    pub qk_norm_offset_bits: u32,
    pub attn_scale_bits: u32,
    /// Whether queries and keys are normalised.
    pub qk_norm: bool,
}

/// One operation.
#[derive(Clone, Copy, Debug, PartialEq, Eq, Structural)]
pub enum DeviceOp {
    /// The operations that follow belong to this layer.
    BeginLayer { index: usize },
    /// Host rows into the residual.
    Upload { len: usize },
    /// `rows` rows of `dim` elements, each normalised on its own.
    RmsNorm { src: Buf, dst: Buf, norm: NormRef, rows: usize, dim: usize },
    /// Packs `n` elements. Where `optional` is set, a failure leaves `dst` absent and
    /// the program goes on.
    QuantizeQ8 { src: Buf, dst: Buf, n: usize, optional: bool },
    /// `rows_in` rows of `cols` elements into rows of `rows` elements. `attempts` is
    /// the number of times that the routes are gone through before the projection
    /// has failed.
    Project {
        weight: WeightRef,
        format: QuantFormat,
        src: Buf,
        packed_src: Option<Buf>,
        dst: Buf,
        rows_in: usize,
        rows: usize,
        cols: usize,
        routes: Routes,
        attempts: u8,
    },
    /// The three projections of the normalised residual in one call, with weights that
    /// were expanded on the host. Fails unless all three can be.
    QkvRmsProj { q_dim: usize, kv_dim: usize, dim: usize, expandable: bool },
    /// A projection of a row that the host holds. Fails where there is no route.
    HostProject {
        weight: WeightRef,
        format: QuantFormat,
        src: Buf,
        dst: Buf,
        rows: usize,
        cols: usize,
        route: Option<HostRoute>,
        attempts: u8,
    },
    Attention { kind: AttnKind, call: AttnCall, q: Buf, k: Buf, v: Buf, dst: Buf, rows: usize },
    /// Adds `src` to the residual.
    Add { src: Buf, len: usize },
    /// Adds the normalised `src` to the residual and multiplies by `scale_bits`.
    NormAdd { src: Buf, norm: NormRef, dim: usize, scale_bits: u32 },
    /// Activated gate projection, times the up projection.
    GateUp { n: usize, gelu_tanh: bool },
    Scale { bits: u32, len: usize },
    /// Room for `len` elements.
    Reserve { dst: Buf, len: usize },
    /// Elements `src_off .. src_off + len` of `src` to the place `dst_off` in `dst`.
    CopyRange { src: Buf, src_off: usize, dst: Buf, dst_off: usize, len: usize },
    /// The residual back to the host.
    Download { len: usize },
}

/// Concatenation can be regrouped.
pub proof fn lemma_regroup(a: Seq<DeviceOp>, b: Seq<DeviceOp>, c: Seq<DeviceOp>)
    ensures
        (a + b) + c == a + (b + c),
{
    assert((a + b) + c =~= a + (b + c));
}

/// Appends one operation.
pub fn emit(ops: &mut Vec<DeviceOp>, op: DeviceOp)
    ensures
        final(ops)@ == old(ops)@ + seq![op],
{
    ops.push(op);
    assert(ops@ =~= old(ops)@ + seq![op]);
}

} // verus!
