//! The DeltaNet block as a chain of device operations without a stop in between.
//!
//! Buffers come in two layouts. In the head-major one the elements of a head lie side by
//! side, in the dim-major one the heads of an element do.

use vstd::prelude::*;

use crate::deltanet::{
    elementwise, elementwise_launch, per_head, per_head_launch, recurrence, recurrence_launch,
    state_rows,
};
use crate::error::CudaInitError;
use crate::launch::LaunchConfig;
use crate::packed::{grid_blocks, grid_of};
use crate::text::{dec, push_dec};

verus! {

/// Bit pattern of the epsilon with which queries and keys are normalised: one millionth.
pub const QK_EPS_BITS: u32 = 0x3586_37bd;

/// Buffers of the chain.
#[derive(Clone, Copy, Debug, PartialEq, Eq, Structural)]
pub enum DeltaBuf {
    /// The projections behind the convolution: queries, keys and values one behind the
    /// other, head-major.
    QkvConv,
    QDim,
    KDim,
    VDim,
    QNorm,
    KNorm,
    ODim,
    OFlat,
    ONormed,
}

/// An operation of the chain.
#[derive(Clone, Copy, Debug, PartialEq, Eq)]
pub enum DeltaOp {
    /// Convolution of the mixed projections with the state.
    Conv1d { cfg: LaunchConfig, d_conv: i32, conv_dim: i32 },
    Silu { cfg: LaunchConfig, n: i32 },
    /// A slab from head-major to dim-major.
    HeadToDim { cfg: LaunchConfig, dst: DeltaBuf, head_dim: i32, n_heads: i32, src_offset: i32 },
    L2Norm {
        cfg: LaunchConfig,
        src: DeltaBuf,
        dst: DeltaBuf,
        head_dim: i32,
        n_heads: i32,
        eps_bits: u32,
    },
    /// The recurrence on normalised queries and keys.
    Recurrence { cfg: LaunchConfig, s: i32, h_k: i32, h_v: i32, block_gqa: i32 },
    /// The output from dim-major to head-major.
    DimToHead { cfg: LaunchConfig, head_dim: i32, n_heads: i32, src_offset: i32 },
    RmsNormHeads { cfg: LaunchConfig, num_heads: i32, head_dim: i32 },
    /// Multiplies the output by the activated gating row.
    SiluMul { cfg: LaunchConfig, n: i32 },
}

/// Place of element `d` of head `h` in the head-major layout.
pub open spec fn head_major(head_dim: int, h: int, d: int) -> int {
    h * head_dim + d
}

/// Place of element `d` of head `h` in the dim-major layout.
pub open spec fn dim_major(n_heads: int, h: int, d: int) -> int {
    d * n_heads + h
}

/// A buffer in the dim-major layout, from a head-major slab that starts at `offset`.
pub open spec fn to_dim_major<T>(src: Seq<T>, head_dim: nat, n_heads: nat, offset: int) -> Seq<T> {
    Seq::new(
        head_dim * n_heads,
        |i: int|
            src[offset + head_major(head_dim as int, i % n_heads as int, i / n_heads as int)],
    )
}

/// A buffer in the head-major layout, from a dim-major one.
pub open spec fn to_head_major<T>(src: Seq<T>, head_dim: nat, n_heads: nat) -> Seq<T> {
    Seq::new(
        head_dim * n_heads,
        |i: int| src[dim_major(n_heads as int, i / head_dim as int, i % head_dim as int)],
    )
}

/// Both layouts have a place within bounds for every element of every head, and the
/// places lead back to head and element.
pub proof fn law_layout_places(head_dim: int, n_heads: int, h: int, d: int)
    requires
        0 <= h < n_heads,
        0 <= d < head_dim,
    ensures
        0 <= head_major(head_dim, h, d) < head_dim * n_heads,
        head_major(head_dim, h, d) / head_dim == h,
        head_major(head_dim, h, d) % head_dim == d,
        0 <= dim_major(n_heads, h, d) < head_dim * n_heads,
        dim_major(n_heads, h, d) / n_heads == d,
        dim_major(n_heads, h, d) % n_heads == h,
{
    assert(0 <= h * head_dim + d < head_dim * n_heads) by (nonlinear_arith)
        requires
            0 <= h < n_heads,
            0 <= d < head_dim,
    ;
    assert(0 <= d * n_heads + h < head_dim * n_heads) by (nonlinear_arith)
        requires
            0 <= h < n_heads,
            0 <= d < head_dim,
    ;
    vstd::arithmetic::div_mod::lemma_fundamental_div_mod_converse(
        head_major(head_dim, h, d),
        head_dim,
        h,
        d,
    );
    vstd::arithmetic::div_mod::lemma_fundamental_div_mod_converse(
        dim_major(n_heads, h, d),
        n_heads,
        d,
        h,
    );
}

/// Going to the dim-major layout and back gives the slab that one began with.
pub proof fn law_layout_round_trip<T>(src: Seq<T>, head_dim: nat, n_heads: nat, offset: nat)
    requires
        head_dim > 0,
        n_heads > 0,
        offset + head_dim * n_heads <= src.len(),
    ensures
        to_head_major(to_dim_major(src, head_dim, n_heads, offset as int), head_dim, n_heads)
            == src.subrange(offset as int, (offset + head_dim * n_heads) as int),
{
    let dim = to_dim_major(src, head_dim, n_heads, offset as int);
    let back = to_head_major(dim, head_dim, n_heads);
    let want = src.subrange(offset as int, (offset + head_dim * n_heads) as int);
    assert forall|i: int| 0 <= i < head_dim * n_heads implies #[trigger] back[i] == want[i] by {
        let h = i / head_dim as int;
        let d = i % head_dim as int;
        vstd::arithmetic::div_mod::lemma_fundamental_div_mod(i, head_dim as int);
        assert(0 <= h < n_heads) by (nonlinear_arith)
            requires
                i == head_dim * h + d,
                0 <= d < head_dim,
                0 <= i < head_dim * n_heads,
        ;
        assert(head_dim * h == h * head_dim) by (nonlinear_arith);
        law_layout_places(head_dim as int, n_heads as int, h, d);
        let j = dim_major(n_heads as int, h, d);
        assert(dim[j] == src[offset + head_major(head_dim as int, j % n_heads as int, j
            / n_heads as int)]);
    }
    assert(back =~= want);
}

/// Launch of a change of layout: a thread for each element, a row of blocks for each head.
pub open spec fn reshape(head_dim: usize, n_heads: usize) -> LaunchConfig {
    LaunchConfig {
        grid_dim: (grid_of(head_dim, 64), n_heads as u32, 1),
        block_dim: (64, 1, 1),
        shared_mem_bytes: 0,
    }
}

pub fn launch_reshape(head_dim: usize, n_heads: usize) -> (c: LaunchConfig)
    ensures
        c == reshape(head_dim, n_heads),
        c.block_dim == (64u32, 1u32, 1u32) && c.grid_dim.1 == n_heads as u32 && c.grid_dim.2 == 1,
        head_dim <= u32::MAX ==> c.grid_dim.0 * 64 >= head_dim && c.grid_dim.0 * 64 < head_dim + 64,
        c.shared_mem_bytes == 0,
{
    LaunchConfig {
        grid_dim: (grid_blocks(head_dim, 64), #[verifier::truncate] (n_heads as u32), 1),
        block_dim: (64, 1, 1),
        shared_mem_bytes: 0,
    }
}

/// Head width and head counts of a block.
#[derive(Clone, Copy, Debug, PartialEq, Eq, Structural)]
pub struct DeltaDims {
    pub head_v_dim: usize,
    pub n_v_heads: usize,
    pub n_k_heads: usize,
    pub block_gqa: bool,
}

impl DeltaDims {
    pub open spec fn key_dim(self) -> int {
        self.head_v_dim * self.n_k_heads
    }

    pub open spec fn value_dim(self) -> int {
        self.head_v_dim * self.n_v_heads
    }

    pub open spec fn conv_dim(self) -> int {
        2 * self.key_dim() + self.value_dim()
    }

    pub open spec fn state_len(self) -> int {
        self.head_v_dim * self.head_v_dim * self.n_v_heads
    }

    /// The lengths that the recurrence computes with can be held in a `usize`.
    pub open spec fn recurrence_fits(self) -> bool {
        &&& self.key_dim() <= usize::MAX
        &&& self.value_dim() <= usize::MAX
        &&& self.head_v_dim * self.head_v_dim <= usize::MAX
        &&& self.state_len() <= usize::MAX
        &&& 2 * self.head_v_dim * 4 <= usize::MAX
    }
}

/// The three slabs of the mixed projections lie one behind the other: queries, keys and
/// values are read from ranges that do not overlap and end where the buffer ends.
pub proof fn law_slabs_do_not_overlap(dims: DeltaDims, h: int, d: int)
    requires
        0 <= h,
        0 <= d < dims.head_v_dim,
    ensures
        h < dims.n_k_heads ==> {
            let q = head_major(dims.head_v_dim as int, h, d);
            let k = dims.key_dim() + head_major(dims.head_v_dim as int, h, d);
            0 <= q < dims.key_dim() && dims.key_dim() <= k < 2 * dims.key_dim()
        },
        h < dims.n_v_heads ==> {
            let v = 2 * dims.key_dim() + head_major(dims.head_v_dim as int, h, d);
            2 * dims.key_dim() <= v < dims.conv_dim()
        },
{
    if h < dims.n_k_heads {
        law_layout_places(dims.head_v_dim as int, dims.n_k_heads as int, h, d);
    }
    if h < dims.n_v_heads {
        law_layout_places(dims.head_v_dim as int, dims.n_v_heads as int, h, d);
    }
}

fn flag(b: bool) -> (r: i32)
    ensures
        r == if b {
            1i32
        } else {
            0i32
        },
{
    if b {
        1
    } else {
        0
    }
}

pub open spec fn flag_of(b: bool) -> i32 {
    if b {
        1
    } else {
        0
    }
}

/// The recurrence on queries, keys and values, with the norm behind it.
pub open spec fn recurrence_tail(dims: DeltaDims) -> Seq<DeltaOp> {
    let hd = dims.head_v_dim;
    seq![
        DeltaOp::L2Norm {
            cfg: per_head(dims.n_k_heads),
            src: DeltaBuf::QDim,
            dst: DeltaBuf::QNorm,
            head_dim: hd as i32,
            n_heads: dims.n_k_heads as i32,
            eps_bits: QK_EPS_BITS,
        },
        DeltaOp::L2Norm {
            cfg: per_head(dims.n_k_heads),
            src: DeltaBuf::KDim,
            dst: DeltaBuf::KNorm,
            head_dim: hd as i32,
            n_heads: dims.n_k_heads as i32,
            eps_bits: QK_EPS_BITS,
        },
        DeltaOp::Recurrence {
            cfg: recurrence(hd, dims.n_v_heads),
            s: hd as i32,
            h_k: dims.n_k_heads as i32,
            h_v: dims.n_v_heads as i32,
            block_gqa: flag_of(dims.block_gqa),
        },
        DeltaOp::DimToHead {
            cfg: reshape(hd, dims.n_v_heads),
            head_dim: hd as i32,
            n_heads: dims.n_v_heads as i32,
            src_offset: 0,
        },
        DeltaOp::RmsNormHeads {
            cfg: per_head(dims.n_v_heads),
            num_heads: dims.n_v_heads as i32,
            head_dim: hd as i32,
        },
    ]
}

/// Convolution, activation and the change of layout of the three slabs.
pub open spec fn projection_head(dims: DeltaDims, d_conv: usize) -> Seq<DeltaOp> {
    let hd = dims.head_v_dim;
    let conv_dim = dims.conv_dim() as usize;
    let key_dim = dims.key_dim() as usize;
    seq![
        DeltaOp::Conv1d {
            cfg: elementwise(conv_dim),
            d_conv: d_conv as i32,
            conv_dim: conv_dim as i32,
        },
        DeltaOp::Silu { cfg: elementwise(conv_dim), n: conv_dim as i32 },
        DeltaOp::HeadToDim {
            cfg: reshape(hd, dims.n_k_heads),
            dst: DeltaBuf::QDim,
            head_dim: hd as i32,
            n_heads: dims.n_k_heads as i32,
            src_offset: 0,
        },
        DeltaOp::HeadToDim {
            cfg: reshape(hd, dims.n_k_heads),
            dst: DeltaBuf::KDim,
            head_dim: hd as i32,
            n_heads: dims.n_k_heads as i32,
            src_offset: key_dim as i32,
        },
        DeltaOp::HeadToDim {
            cfg: reshape(hd, dims.n_v_heads),
            dst: DeltaBuf::VDim,
            head_dim: hd as i32,
            n_heads: dims.n_v_heads as i32,
            src_offset: ((2 * key_dim) as usize) as i32,
        },
    ]
}

/// The whole chain behind the projections.
pub open spec fn postproj_chain(dims: DeltaDims, d_conv: usize) -> Seq<DeltaOp> {
    let value_dim = dims.value_dim() as usize;
    projection_head(dims, d_conv) + recurrence_tail(dims) + seq![
        DeltaOp::SiluMul { cfg: elementwise(value_dim), n: value_dim as i32 },
    ]
}

fn push_recurrence_tail(ops: &mut Vec<DeltaOp>, dims: &DeltaDims)
    requires
        dims.recurrence_fits(),
    ensures
        final(ops)@ == old(ops)@ + recurrence_tail(*dims),
{
    let hd: i32 = #[verifier::truncate] (dims.head_v_dim as i32);
    let h_k: i32 = #[verifier::truncate] (dims.n_k_heads as i32);
    let h_v: i32 = #[verifier::truncate] (dims.n_v_heads as i32);
    ops.push(
        DeltaOp::L2Norm {
            cfg: per_head_launch(dims.n_k_heads),
            src: DeltaBuf::QDim,
            dst: DeltaBuf::QNorm,
            head_dim: hd,
            n_heads: h_k,
            eps_bits: QK_EPS_BITS,
        },
    );
    ops.push(
        DeltaOp::L2Norm {
            cfg: per_head_launch(dims.n_k_heads),
            src: DeltaBuf::KDim,
            dst: DeltaBuf::KNorm,
            head_dim: hd,
            n_heads: h_k,
            eps_bits: QK_EPS_BITS,
        },
    );
    ops.push(
        DeltaOp::Recurrence {
            cfg: recurrence_launch(dims.head_v_dim, dims.n_v_heads),
            s: hd,
            h_k,
            h_v,
            block_gqa: flag(dims.block_gqa),
        },
    );
    ops.push(
        DeltaOp::DimToHead {
            cfg: launch_reshape(dims.head_v_dim, dims.n_v_heads),
            head_dim: hd,
            n_heads: h_v,
            src_offset: 0,
        },
    );
    ops.push(
        DeltaOp::RmsNormHeads {
            cfg: per_head_launch(dims.n_v_heads),
            num_heads: h_v,
            head_dim: hd,
        },
    );
    assert(ops@ =~= old(ops)@ + recurrence_tail(*dims));
}

/// Lengths of the inputs of a recurrence block.
#[derive(Clone, Copy, Debug, PartialEq, Eq, Structural)]
pub struct RecurrenceBlockLens {
    pub q: usize,
    pub k: usize,
    pub v: usize,
    pub log_g: usize,
    pub beta: usize,
    pub norm_w: usize,
    pub rec_state: usize,
}

impl RecurrenceBlockLens {
    pub open spec fn fit(self, d: DeltaDims) -> bool {
        &&& d.head_v_dim != 0
        &&& d.n_v_heads != 0
        &&& d.n_k_heads != 0
        &&& self.q == d.key_dim()
        &&& self.k == d.key_dim()
        &&& self.v == d.value_dim()
        &&& self.log_g == d.n_v_heads
        &&& self.beta == d.n_v_heads
        &&& self.norm_w == d.head_v_dim
        &&& self.rec_state == d.state_len()
    }

    pub open spec fn text(self, d: DeltaDims) -> Seq<char> {
        "invalid recurrence_block shape: q="@ + dec(self.q as nat) + " k="@ + dec(self.k as nat)
            + " v="@ + dec(self.v as nat) + " log_g="@ + dec(self.log_g as nat) + " beta="@ + dec(
            self.beta as nat,
        ) + " norm_w="@ + dec(self.norm_w as nat) + " rec_state="@ + dec(self.rec_state as nat)
            + " hd="@ + dec(d.head_v_dim as nat) + " h_v="@ + dec(d.n_v_heads as nat) + " h_k="@
            + dec(d.n_k_heads as nat)
    }
}

/// Checks a recurrence block, whose queries, keys and values come from the host, and lays
/// out its chain.
pub fn deltanet_recurrence_block_cached(l: &RecurrenceBlockLens, dims: &DeltaDims) -> (r: Result<
    Vec<DeltaOp>,
    CudaInitError,
>)
    requires
        dims.recurrence_fits(),
    ensures
        r is Ok == l.fit(*dims),
        r matches Ok(ops) ==> ops@ == recurrence_tail(*dims),
        r matches Err(e) ==> e.says(l.text(*dims)),
        r matches Err(e) ==> e.says(
            "invalid recurrence_block shape: q="@ + dec(l.q as nat) + " k="@ + dec(l.k as nat)
                + " v="@ + dec(l.v as nat) + " log_g="@ + dec(l.log_g as nat) + " beta="@
                + dec(l.beta as nat) + " norm_w="@ + dec(l.norm_w as nat) + " rec_state="@
                + dec(l.rec_state as nat) + " hd="@ + dec(dims.head_v_dim as nat) + " h_v="@
                + dec(dims.n_v_heads as nat) + " h_k="@ + dec(dims.n_k_heads as nat),
        ),
        r is Ok <==> {
            &&& dims.head_v_dim > 0 && dims.n_v_heads > 0 && dims.n_k_heads > 0
            &&& l.q == dims.head_v_dim * dims.n_k_heads && l.k == l.q
            &&& l.v == dims.head_v_dim * dims.n_v_heads
            &&& l.log_g == dims.n_v_heads && l.beta == dims.n_v_heads
            &&& l.norm_w == dims.head_v_dim
            &&& l.rec_state == dims.head_v_dim * dims.head_v_dim * dims.n_v_heads
        },
{
    assert(0 <= dims.head_v_dim * dims.n_k_heads && 0 <= dims.head_v_dim * dims.n_v_heads)
        by (nonlinear_arith);
    let key_dim: usize = dims.head_v_dim * dims.n_k_heads;
    let value_dim: usize = dims.head_v_dim * dims.n_v_heads;
    let state_len: usize = dims.head_v_dim * dims.head_v_dim * dims.n_v_heads;
    if dims.head_v_dim == 0 || dims.n_v_heads == 0 || dims.n_k_heads == 0 || l.q != key_dim || l.k
        != key_dim || l.v != value_dim || l.log_g != dims.n_v_heads || l.beta != dims.n_v_heads
        || l.norm_w != dims.head_v_dim || l.rec_state != state_len {
        let mut s: String = "invalid recurrence_block shape: q=".to_owned();
        push_dec(&mut s, l.q as u64);
        s.append(" k=");
        push_dec(&mut s, l.k as u64);
        s.append(" v=");
        push_dec(&mut s, l.v as u64);
        s.append(" log_g=");
        push_dec(&mut s, l.log_g as u64);
        s.append(" beta=");
        push_dec(&mut s, l.beta as u64);
        s.append(" norm_w=");
        push_dec(&mut s, l.norm_w as u64);
        s.append(" rec_state=");
        push_dec(&mut s, l.rec_state as u64);
        s.append(" hd=");
        push_dec(&mut s, dims.head_v_dim as u64);
        s.append(" h_v=");
        push_dec(&mut s, dims.n_v_heads as u64);
        s.append(" h_k=");
        push_dec(&mut s, dims.n_k_heads as u64);
        return Err(CudaInitError::DriverMissing(s));
    }
    let mut ops: Vec<DeltaOp> = Vec::new();
    push_recurrence_tail(&mut ops, dims);
    assert(ops@ =~= recurrence_tail(*dims));
    Ok(ops)
}

/// Lengths of the inputs of the chain behind the projections.
#[derive(Clone, Copy, Debug, PartialEq, Eq, Structural)]
pub struct PostprojLens {
    pub qkv: usize,
    pub conv_w: usize,
    pub conv_state: usize,
    pub log_g: usize,
    pub beta: usize,
    pub z: usize,
    pub norm_w: usize,
    pub rec_state: usize,
}

impl PostprojLens {
    pub open spec fn fit(self, d: DeltaDims, d_conv: usize) -> bool {
        &&& d_conv != 0
        &&& d.head_v_dim != 0
        &&& d.n_v_heads != 0
        &&& d.n_k_heads != 0
        &&& self.qkv == d.conv_dim()
        &&& self.conv_w == d_conv * d.conv_dim()
        &&& self.conv_state == state_rows(d_conv) * d.conv_dim()
        &&& self.log_g == d.n_v_heads
        &&& self.beta == d.n_v_heads
        &&& self.z == d.value_dim()
        &&& self.norm_w == d.head_v_dim
        &&& self.rec_state == d.state_len()
    }

    pub open spec fn text(self, d: DeltaDims, d_conv: usize) -> Seq<char> {
        "invalid postproj shape: qkv="@ + dec(self.qkv as nat) + " conv_w="@ + dec(
            self.conv_w as nat,
        ) + " conv_state="@ + dec(self.conv_state as nat) + " log_g="@ + dec(self.log_g as nat)
            + " beta="@ + dec(self.beta as nat) + " z="@ + dec(self.z as nat) + " norm_w="@ + dec(
            self.norm_w as nat,
        ) + " rec_state="@ + dec(self.rec_state as nat) + " d_conv="@ + dec(d_conv as nat) + " hd="@
            + dec(d.head_v_dim as nat) + " h_v="@ + dec(d.n_v_heads as nat) + " h_k="@ + dec(
            d.n_k_heads as nat,
        )
    }
}

fn postproj_error(l: &PostprojLens, dims: &DeltaDims, d_conv: usize) -> (e: CudaInitError)
    ensures
        e.says(l.text(*dims, d_conv)),
        e.says(
            "invalid postproj shape: qkv="@ + dec(l.qkv as nat) + " conv_w="@
                + dec(l.conv_w as nat) + " conv_state="@ + dec(l.conv_state as nat) + " log_g="@
                + dec(l.log_g as nat) + " beta="@ + dec(l.beta as nat) + " z="@ + dec(l.z as nat)
                + " norm_w="@ + dec(l.norm_w as nat) + " rec_state="@ + dec(l.rec_state as nat)
                + " d_conv="@ + dec(d_conv as nat) + " hd="@ + dec(dims.head_v_dim as nat)
                + " h_v="@ + dec(dims.n_v_heads as nat) + " h_k="@ + dec(dims.n_k_heads as nat),
        ),
{
    let mut s: String = "invalid postproj shape: qkv=".to_owned();
    push_dec(&mut s, l.qkv as u64);
    s.append(" conv_w=");
    push_dec(&mut s, l.conv_w as u64);
    s.append(" conv_state=");
    push_dec(&mut s, l.conv_state as u64);
    s.append(" log_g=");
    push_dec(&mut s, l.log_g as u64);
    s.append(" beta=");
    push_dec(&mut s, l.beta as u64);
    s.append(" z=");
    push_dec(&mut s, l.z as u64);
    s.append(" norm_w=");
    push_dec(&mut s, l.norm_w as u64);
    s.append(" rec_state=");
    push_dec(&mut s, l.rec_state as u64);
    s.append(" d_conv=");
    push_dec(&mut s, d_conv as u64);
    s.append(" hd=");
    push_dec(&mut s, dims.head_v_dim as u64);
    s.append(" h_v=");
    push_dec(&mut s, dims.n_v_heads as u64);
    s.append(" h_k=");
    push_dec(&mut s, dims.n_k_heads as u64);
    CudaInitError::DriverMissing(s)
}

/// Checks the chain behind the projections and lays it out: convolution, activation,
/// change of layout, recurrence, norm, gate.
pub fn deltanet_postproj_step_cached(l: &PostprojLens, dims: &DeltaDims, d_conv: usize) -> (r:
    Result<Vec<DeltaOp>, CudaInitError>)
    requires
        dims.recurrence_fits(),
        dims.conv_dim() <= usize::MAX,
        d_conv * dims.conv_dim() <= usize::MAX,
    ensures
        r is Ok == l.fit(*dims, d_conv),
        r matches Ok(ops) ==> ops@ == postproj_chain(*dims, d_conv),
        r matches Err(e) ==> e.says(l.text(*dims, d_conv)),
        r matches Err(e) ==> e.says(
            "invalid postproj shape: qkv="@ + dec(l.qkv as nat) + " conv_w="@
                + dec(l.conv_w as nat) + " conv_state="@ + dec(l.conv_state as nat) + " log_g="@
                + dec(l.log_g as nat) + " beta="@ + dec(l.beta as nat) + " z="@ + dec(l.z as nat)
                + " norm_w="@ + dec(l.norm_w as nat) + " rec_state="@ + dec(l.rec_state as nat)
                + " d_conv="@ + dec(d_conv as nat) + " hd="@ + dec(dims.head_v_dim as nat)
                + " h_v="@ + dec(dims.n_v_heads as nat) + " h_k="@ + dec(dims.n_k_heads as nat),
        ),
        r is Ok <==> {
            let width = 2 * (dims.head_v_dim * dims.n_k_heads) + dims.head_v_dim * dims.n_v_heads;
            &&& d_conv > 0 && dims.head_v_dim > 0 && dims.n_v_heads > 0 && dims.n_k_heads > 0
            &&& l.qkv == width && l.conv_w == d_conv * width && l.conv_state == (d_conv - 1) * width
            &&& l.log_g == dims.n_v_heads && l.beta == dims.n_v_heads
            &&& l.z == dims.head_v_dim * dims.n_v_heads
            &&& l.norm_w == dims.head_v_dim
            &&& l.rec_state == dims.head_v_dim * dims.head_v_dim * dims.n_v_heads
        },
{
    assert(0 <= dims.head_v_dim * dims.n_k_heads && 0 <= dims.head_v_dim * dims.n_v_heads)
        by (nonlinear_arith);
    let key_dim: usize = dims.head_v_dim * dims.n_k_heads;
    let value_dim: usize = dims.head_v_dim * dims.n_v_heads;
    let conv_dim: usize = 2 * key_dim + value_dim;
    let state_len: usize = dims.head_v_dim * dims.head_v_dim * dims.n_v_heads;
    if d_conv == 0 {
        return Err(postproj_error(l, dims, d_conv));
    }
    assert((d_conv - 1) * conv_dim <= d_conv * conv_dim) by (nonlinear_arith)
        requires
            d_conv > 0,
    ;
    if dims.head_v_dim == 0 || dims.n_v_heads == 0 || dims.n_k_heads == 0 || l.qkv != conv_dim
        || l.conv_w != d_conv * conv_dim || l.conv_state != (d_conv - 1) * conv_dim || l.log_g
        != dims.n_v_heads || l.beta != dims.n_v_heads || l.z != value_dim || l.norm_w
        != dims.head_v_dim || l.rec_state != state_len {
        return Err(postproj_error(l, dims, d_conv));
    }
    let hd: i32 = #[verifier::truncate] (dims.head_v_dim as i32);
    let h_k: i32 = #[verifier::truncate] (dims.n_k_heads as i32);
    let h_v: i32 = #[verifier::truncate] (dims.n_v_heads as i32);
    let conv_i: i32 = #[verifier::truncate] (conv_dim as i32);
    let v_offset: usize = 2 * key_dim;
    let mut ops: Vec<DeltaOp> = Vec::new();
    ops.push(
        DeltaOp::Conv1d {
            cfg: elementwise_launch(conv_dim),
            d_conv: #[verifier::truncate] (d_conv as i32),
            conv_dim: conv_i,
        },
    );
    ops.push(DeltaOp::Silu { cfg: elementwise_launch(conv_dim), n: conv_i });
    ops.push(
        DeltaOp::HeadToDim {
            cfg: launch_reshape(dims.head_v_dim, dims.n_k_heads),
            dst: DeltaBuf::QDim,
            head_dim: hd,
            n_heads: h_k,
            src_offset: 0,
        },
    );
    ops.push(
        DeltaOp::HeadToDim {
            cfg: launch_reshape(dims.head_v_dim, dims.n_k_heads),
            dst: DeltaBuf::KDim,
            head_dim: hd,
            n_heads: h_k,
            src_offset: #[verifier::truncate] (key_dim as i32),
        },
    );
    ops.push(
        DeltaOp::HeadToDim {
            cfg: launch_reshape(dims.head_v_dim, dims.n_v_heads),
            dst: DeltaBuf::VDim,
            head_dim: hd,
            n_heads: h_v,
            src_offset: #[verifier::truncate] (v_offset as i32),
        },
    );
    assert(ops@ =~= projection_head(*dims, d_conv));
    push_recurrence_tail(&mut ops, dims);
    ops.push(
        DeltaOp::SiluMul {
            cfg: elementwise_launch(value_dim),
            n: #[verifier::truncate] (value_dim as i32),
        },
    );
    assert(ops@ =~= postproj_chain(*dims, d_conv));
    Ok(ops)
}

/// A change of layout has a thread for each element of each head.
pub proof fn law_reshape_covers(head_dim: usize, n_heads: usize, h: int, d: int)
    requires
        0 <= h < n_heads <= u32::MAX,
        0 <= d < head_dim <= u32::MAX,
    ensures
        ({
            let c = reshape(head_dim, n_heads);
            &&& c.block_dim == (64u32, 1u32, 1u32)
            &&& d / 64 < c.grid_dim.0
            &&& (c.grid_dim.0 - 1) * 64 < head_dim
            &&& h < c.grid_dim.1 == n_heads
            &&& c.grid_dim.2 == 1 && c.shared_mem_bytes == 0
        }),
{
    crate::packed::law_grid_covers_rows(head_dim, 64);
}

/// The launch of an operation of a chain covers what the operation is handed.
pub open spec fn op_covered(op: DeltaOp) -> bool {
    match op {
        DeltaOp::Conv1d { cfg, conv_dim, .. } => cfg.grid_dim.0 * cfg.block_dim.0 >= conv_dim,
        DeltaOp::Silu { cfg, n } => cfg.grid_dim.0 * cfg.block_dim.0 >= n,
        DeltaOp::HeadToDim { cfg, head_dim, n_heads, .. } => cfg.grid_dim.0 * cfg.block_dim.0
            >= head_dim && cfg.grid_dim.1 == n_heads,
        DeltaOp::L2Norm { cfg, n_heads, .. } => cfg.grid_dim.0 == n_heads && cfg.shared_mem_bytes == 4
            * cfg.block_dim.0,
        DeltaOp::Recurrence { cfg, s, h_v, .. } => cfg.grid_dim.0 == h_v && cfg.shared_mem_bytes
            == 4 * (s + s),
        DeltaOp::DimToHead { cfg, head_dim, n_heads, .. } => cfg.grid_dim.0 * cfg.block_dim.0
            >= head_dim && cfg.grid_dim.1 == n_heads,
        DeltaOp::RmsNormHeads { cfg, num_heads, .. } => cfg.grid_dim.0 == num_heads
            && cfg.shared_mem_bytes == 4 * cfg.block_dim.0,
        DeltaOp::SiluMul { cfg, n } => cfg.grid_dim.0 * cfg.block_dim.0 >= n,
    }
}

/// Every operation of both chains is launched with threads for all that it is handed.
pub proof fn law_chains_are_covered(dims: DeltaDims, d_conv: usize, i: int)
    requires
        dims.recurrence_fits(),
        dims.conv_dim() <= i32::MAX,
        dims.n_k_heads <= i32::MAX,
        dims.n_v_heads <= i32::MAX,
        8 * dims.head_v_dim <= i32::MAX,
    ensures
        postproj_chain(dims, d_conv).len() == 11,
        recurrence_tail(dims).len() == 5,
        0 <= i < 11 ==> op_covered(postproj_chain(dims, d_conv)[i]),
        0 <= i < 5 ==> op_covered(recurrence_tail(dims)[i]),
{
    let head = projection_head(dims, d_conv);
    let tail = recurrence_tail(dims);
    let all = postproj_chain(dims, d_conv);
    let conv = dims.conv_dim() as usize;
    let val = dims.value_dim() as usize;
    assert(0 <= dims.key_dim() && 0 <= dims.value_dim()) by (nonlinear_arith)
        requires
            dims.key_dim() == dims.head_v_dim * dims.n_k_heads,
            dims.value_dim() == dims.head_v_dim * dims.n_v_heads,
            0 <= dims.head_v_dim,
            0 <= dims.n_k_heads,
            0 <= dims.n_v_heads,
    ;
    crate::packed::law_grid_covers_rows(conv, 256);
    crate::packed::law_grid_covers_rows(val, 256);
    crate::packed::law_grid_covers_rows(dims.head_v_dim, 64);
    assert forall|k: int| 0 <= k < 5 implies op_covered(#[trigger] tail[k]) by {}
    assert forall|k: int| 0 <= k < 5 implies op_covered(#[trigger] head[k]) by {}
    if 0 <= i < 5 {
        assert(all[i] == head[i]);
    } else if 5 <= i < 10 {
        assert(all[i] == tail[i - 5]);
    }
}

/// The widths of a block: a key row has a head for each key head, a value row one for each value
/// head, the mixed projections two key rows and a value row, the state a square for each value
/// head.
pub proof fn law_block_widths(d: DeltaDims)
    ensures
        d.key_dim() == d.n_k_heads * d.head_v_dim,
        d.value_dim() == d.n_v_heads * d.head_v_dim,
        d.conv_dim() == d.head_v_dim * (d.n_k_heads + d.n_k_heads + d.n_v_heads),
        d.state_len() == d.value_dim() * d.head_v_dim,
{
    let s = d.head_v_dim;
    assert(s * d.n_k_heads == d.n_k_heads * s && s * d.n_v_heads == d.n_v_heads * s)
        by (nonlinear_arith);
    assert(s * (d.n_k_heads + d.n_k_heads + d.n_v_heads) == 2 * (s * d.n_k_heads) + s * d.n_v_heads)
        by (nonlinear_arith);
    assert(s * s * d.n_v_heads == s * d.n_v_heads * s) by (nonlinear_arith);
}

} // verus!
