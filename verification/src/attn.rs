//! Checks, kernel choice and launch geometry of the attention calls.

use vstd::prelude::*;

use crate::error::{refused, CudaInitError};
use crate::launch::{ceil_div, div_ceil, LaunchConfig};
use crate::layer::max_usize;
use crate::matmul::{matmul, matmul_config, matmul_transb, transb_config, GemmConfig};
use crate::text::{dec, parse_i32, push_dec, signed_text};

verus! {

/// Dynamic shared memory that the attention kernels may ask for.
pub const MAX_DYNAMIC_SHMEM_BYTES: i32 = 98_304;

/// Cache rows that a tiled kernel takes at a time.
pub const FUSED_DECODE_ATTN_TILED_TILE_K: usize = 1024;

pub const FUSED_PREFILL_ATTN_TILED_TILE_K: usize = 1024;

/// Context length up to which the kernel that keeps all scores in shared memory is
/// used.
pub const NON_TILED_DECODE_ATTN_N_CTX_MAX: usize = 16_384;

pub const NON_TILED_PREFILL_ATTN_N_CTX_MAX: i32 = 16_384;

/// Threads of an attention block.
pub const ATTN_BLOCK: usize = 256;

/// Optional settings of the plain attention call.
#[derive(Clone, Copy, Debug, PartialEq, Eq, Structural)]
pub struct AttentionOpts {
    pub causal: bool,
    /// Bit pattern of the soft cap; zero for none.
    pub softcap_bits: u32,
}

impl Default for AttentionOpts {
    fn default() -> (o: AttentionOpts)
        ensures
            !o.causal,
            o.softcap_bits == 0,
    {
        AttentionOpts { causal: false, softcap_bits: 0 }
    }
}

#[derive(Clone, Copy, Debug, PartialEq, Eq, Structural)]
pub struct QkvProjDims {
    pub hidden: usize,
    pub q_dim: usize,
    pub kv_dim: usize,
}

/// Shape and settings of a fused attention call. Floating-point settings are held as
/// bit patterns.
#[derive(Clone, Copy, Debug, PartialEq, Eq, Structural)]
pub struct FusedDecodeAttentionOpts {
    pub num_q_heads: usize,
    pub num_kv_heads: usize,
    pub head_dim: usize,
    pub pos: usize,
    pub max_seq: usize,
    pub rotary_dim: usize,
    pub rope_base_bits: u32,
    pub eps_bits: u32,
    pub qk_norm_offset_bits: u32,
    pub attn_scale_bits: u32,
    pub softcap_bits: u32,
}

impl FusedDecodeAttentionOpts {
    pub open spec fn q_dim(self) -> int {
        self.num_q_heads * self.head_dim
    }

    pub open spec fn kv_dim(self) -> int {
        self.num_kv_heads * self.head_dim
    }

    pub open spec fn cache_len(self) -> int {
        self.max_seq * self.num_kv_heads * self.head_dim
    }

    /// The lengths that follow from the shape can be held in a `usize`.
    pub open spec fn lengths_fit(self) -> bool {
        &&& self.q_dim() <= usize::MAX
        &&& self.kv_dim() <= usize::MAX
        &&& self.max_seq * self.num_kv_heads <= usize::MAX
        &&& self.cache_len() <= usize::MAX
    }
}

/// The largest of 1, 2, 4, 8 and 16 that is not above `n`.
pub open spec fn pow2_at_most_16(n: int) -> int {
    if n >= 16 {
        16
    } else if n >= 8 {
        8
    } else if n >= 4 {
        4
    } else if n >= 2 {
        2
    } else {
        1
    }
}

/// The values that the environment may ask for.
pub open spec fn splits_allowed(n: int) -> bool {
    n == 0 || n == 1 || n == 2 || n == 4 || n == 8 || n == 16
}

/// The number of pieces asked for: the environment's, else as many as it takes for 32
/// blocks in all.
pub open spec fn wanted_split(value: Option<&str>, num_q_heads: usize) -> int {
    let heads = if num_q_heads == 0 {
        1
    } else {
        num_q_heads as int
    };
    let by_heads = pow2_at_most_16(ceil_div(32, heads));
    match value {
        Some(v) => match signed_text(v@) {
            Some(n) => if splits_allowed(n) {
                n
            } else {
                by_heads
            },
            None => by_heads,
        },
        None => by_heads,
    }
}

/// The number of pieces that a head's output is split into: what was asked for where it
/// divides the head width, else one.
pub open spec fn d_split(value: Option<&str>, num_q_heads: usize, head_dim: usize) -> int {
    let w = wanted_split(value, num_q_heads);
    if w <= 1 || head_dim as int % w != 0 {
        1
    } else {
        w
    }
}

/// The number of pieces that a head's output is split into.
pub fn choose_attn_d_split(value: Option<&str>, num_q_heads: usize, head_dim: usize) -> (r: i32)
    ensures
        r == d_split(value, num_q_heads, head_dim),
        r == 1 || r == 2 || r == 4 || r == 8 || r == 16,
        head_dim as int % r as int == 0,
{
    let asked: Option<i32> = match value {
        Some(v) => match parse_i32(v) {
            Some(n) => if n == 0 || n == 1 || n == 2 || n == 4 || n == 8 || n == 16 {
                Some(n)
            } else {
                None
            },
            None => None,
        },
        None => None,
    };
    let chosen: i32 = match asked {
        Some(n) => n,
        None => {
            let needed: usize = div_ceil(32, max_usize(num_q_heads, 1));
            if needed >= 16 {
                16
            } else if needed >= 8 {
                8
            } else if needed >= 4 {
                4
            } else if needed >= 2 {
                2
            } else {
                1
            }
        },
    };
    assert(chosen == wanted_split(value, num_q_heads));
    if chosen <= 1 || head_dim % (chosen as usize) != 0 {
        1
    } else {
        chosen
    }
}

/// The pieces of a head cover it exactly.
pub proof fn law_pieces_cover_the_head(value: Option<&str>, num_q_heads: usize, head_dim: usize)
    ensures
        1 <= d_split(value, num_q_heads, head_dim) <= 16,
        d_split(value, num_q_heads, head_dim) * (head_dim as int / d_split(
            value,
            num_q_heads,
            head_dim,
        )) == head_dim,
{
    let d = d_split(value, num_q_heads, head_dim);
    vstd::arithmetic::div_mod::lemma_fundamental_div_mod(head_dim as int, d);
}

/// Launch of the fused decode kernel, with its integer arguments.
#[derive(Clone, Copy, Debug, PartialEq, Eq)]
pub struct DecodeAttnLaunch {
    /// Whether the kernel that goes through the cache in tiles is used.
    pub tiled: bool,
    pub cfg: LaunchConfig,
    pub num_q_heads: i32,
    pub num_kv_heads: i32,
    pub head_dim: i32,
    /// The position that the host knows of. A kernel whose position the device holds does not
    /// take it.
    pub pos: i32,
    /// Bound on the positions: the kernel does nothing at a position that is not below it.
    pub max_seq: i32,
    pub rotary_dim: i32,
    pub use_qk_norm: i32,
    pub d_split: i32,
}

/// The launch of the decode kernel for a context of up to `n_ctx` positions.
pub open spec fn decode_launch(
    opts: FusedDecodeAttentionOpts,
    n_ctx: int,
    use_qk_norm: bool,
    tiled: bool,
    split: int,
) -> DecodeAttnLaunch {
    let slots = (if tiled {
        FUSED_DECODE_ATTN_TILED_TILE_K as int
    } else {
        n_ctx
    }) + ATTN_BLOCK + opts.head_dim;
    DecodeAttnLaunch {
        tiled,
        cfg: LaunchConfig {
            grid_dim: (opts.num_q_heads as u32, split as u32, 1),
            block_dim: (ATTN_BLOCK as u32, 1, 1),
            shared_mem_bytes: ((slots * 4) as usize) as u32,
        },
        num_q_heads: opts.num_q_heads as i32,
        num_kv_heads: opts.num_kv_heads as i32,
        head_dim: opts.head_dim as i32,
        pos: opts.pos as i32,
        max_seq: if tiled {
            opts.max_seq as i32
        } else {
            (n_ctx as usize) as i32
        },
        rotary_dim: opts.rotary_dim as i32,
        use_qk_norm: if use_qk_norm {
            1
        } else {
            0
        },
        d_split: split as i32,
    }
}

/// The shared memory of a decode launch can be counted in a `usize`.
pub open spec fn decode_slots_fit(opts: FusedDecodeAttentionOpts) -> bool {
    (opts.pos + 1 + ATTN_BLOCK + opts.head_dim) * 4 <= usize::MAX && (
    FUSED_DECODE_ATTN_TILED_TILE_K + ATTN_BLOCK + opts.head_dim) * 4 <= usize::MAX
}

fn make_decode_launch(
    opts: &FusedDecodeAttentionOpts,
    n_ctx: usize,
    use_qk_norm: bool,
    tiled: bool,
    split: i32,
) -> (r: DecodeAttnLaunch)
    requires
        ((if tiled {
            FUSED_DECODE_ATTN_TILED_TILE_K
        } else {
            n_ctx
        }) + ATTN_BLOCK + opts.head_dim) * 4 <= usize::MAX,
        1 <= split <= 16,
    ensures
        r == decode_launch(*opts, n_ctx as int, use_qk_norm, tiled, split as int),
        r.num_q_heads == opts.num_q_heads as i32 && r.cfg.grid_dim.0 == opts.num_q_heads as u32,
        r.num_kv_heads == opts.num_kv_heads as i32 && r.head_dim == opts.head_dim as i32,
        r.rotary_dim == opts.rotary_dim as i32 && r.pos == opts.pos as i32,
        r.cfg.grid_dim.1 == r.d_split && r.cfg.grid_dim.2 == 1,
        r.cfg.block_dim == (256u32, 1u32, 1u32),
        r.use_qk_norm == (if use_qk_norm {
            1i32
        } else {
            0i32
        }),
        r.tiled == tiled && r.d_split == split,
        r.max_seq == (if tiled {
            opts.max_seq as i32
        } else {
            n_ctx as i32
        }),
{
    let slots: usize = if tiled {
        FUSED_DECODE_ATTN_TILED_TILE_K + ATTN_BLOCK + opts.head_dim
    } else {
        n_ctx + ATTN_BLOCK + opts.head_dim
    };
    let bytes: usize = slots * 4;
    let norm: i32 = if use_qk_norm {
        1
    } else {
        0
    };
    let max_seq: usize = if tiled {
        opts.max_seq
    } else {
        n_ctx
    };
    DecodeAttnLaunch {
        tiled,
        cfg: LaunchConfig {
            grid_dim: (#[verifier::truncate] (opts.num_q_heads as u32), split as u32, 1),
            block_dim: (ATTN_BLOCK as u32, 1, 1),
            shared_mem_bytes: #[verifier::truncate] (bytes as u32),
        },
        num_q_heads: #[verifier::truncate] (opts.num_q_heads as i32),
        num_kv_heads: #[verifier::truncate] (opts.num_kv_heads as i32),
        head_dim: #[verifier::truncate] (opts.head_dim as i32),
        pos: #[verifier::truncate] (opts.pos as i32),
        max_seq: #[verifier::truncate] (max_seq as i32),
        rotary_dim: #[verifier::truncate] (opts.rotary_dim as i32),
        use_qk_norm: norm,
        d_split: split,
    }
}

/// Lengths of the buffers of a decode attention call. A norm weight that is not there
/// has no length.
#[derive(Clone, Copy, Debug, PartialEq, Eq, Structural)]
pub struct DecodeAttnLens {
    pub q: usize,
    pub k_new: usize,
    pub v_new: usize,
    pub k_cache: usize,
    pub v_cache: usize,
    pub q_norm: Option<usize>,
    pub k_norm: Option<usize>,
}

impl DecodeAttnLens {
    /// The buffers have the lengths that the shape demands.
    pub open spec fn match_shape(self, opts: FusedDecodeAttentionOpts) -> bool {
        &&& self.q == opts.q_dim()
        &&& self.k_new == opts.kv_dim()
        &&& self.v_new == opts.kv_dim()
        &&& self.k_cache == opts.cache_len()
        &&& self.v_cache == opts.cache_len()
        &&& self.q_norm matches Some(n) ==> n == opts.head_dim
        &&& self.k_norm matches Some(n) ==> n == opts.head_dim
    }

    /// Queries and keys are normalised only where both weights are there.
    pub open spec fn qk_normed(self) -> bool {
        self.q_norm is Some && self.k_norm is Some
    }
}

/// What a decode attention call demands of its caller.
pub open spec fn decode_call_ok(lens: DecodeAttnLens, opts: FusedDecodeAttentionOpts) -> bool {
    &&& lens.match_shape(opts)
    &&& opts.pos < opts.max_seq
    &&& decode_slots_fit(opts)
}

/// Decode attention on host buffers: always the kernel that keeps all scores.
pub fn fused_decode_attention(
    split_setting: Option<&str>,
    lens: &DecodeAttnLens,
    opts: &FusedDecodeAttentionOpts,
) -> (r: DecodeAttnLaunch)
    requires
        decode_call_ok(*lens, *opts),
    ensures
        r == decode_launch(
            *opts,
            opts.pos + 1,
            lens.qk_normed(),
            false,
            d_split(split_setting, opts.num_q_heads, opts.head_dim),
        ),
        r.num_q_heads == opts.num_q_heads as i32 && r.cfg.grid_dim.0 == opts.num_q_heads as u32,
        r.num_kv_heads == opts.num_kv_heads as i32 && r.head_dim == opts.head_dim as i32,
        r.rotary_dim == opts.rotary_dim as i32 && r.pos == opts.pos as i32,
        r.cfg.grid_dim.1 == r.d_split && r.cfg.grid_dim.2 == 1,
        r.cfg.block_dim == (256u32, 1u32, 1u32),
        r.use_qk_norm == (if lens.q_norm is Some && lens.k_norm is Some {
            1i32
        } else {
            0i32
        }),
        !r.tiled && r.max_seq == (opts.pos + 1) as i32,
{
    let split: i32 = choose_attn_d_split(split_setting, opts.num_q_heads, opts.head_dim);
    proof {
        law_pieces_cover_the_head(split_setting, opts.num_q_heads, opts.head_dim);
    }
    let normed: bool = lens.q_norm.is_some() && lens.k_norm.is_some();
    make_decode_launch(opts, opts.pos + 1, normed, false, split)
}

/// Decode attention with queries, keys and values on the device and slabs on the host.
pub fn fused_decode_attention_device(
    split_setting: Option<&str>,
    lens: &DecodeAttnLens,
    opts: &FusedDecodeAttentionOpts,
) -> (r: DecodeAttnLaunch)
    requires
        decode_call_ok(*lens, *opts),
    ensures
        r == decode_launch(
            *opts,
            opts.pos + 1,
            lens.qk_normed(),
            false,
            d_split(split_setting, opts.num_q_heads, opts.head_dim),
        ),
        r.num_q_heads == opts.num_q_heads as i32 && r.cfg.grid_dim.0 == opts.num_q_heads as u32,
        r.num_kv_heads == opts.num_kv_heads as i32 && r.head_dim == opts.head_dim as i32,
        r.rotary_dim == opts.rotary_dim as i32 && r.pos == opts.pos as i32,
        r.cfg.grid_dim.1 == r.d_split && r.cfg.grid_dim.2 == 1,
        r.cfg.block_dim == (256u32, 1u32, 1u32),
        r.use_qk_norm == (if lens.q_norm is Some && lens.k_norm is Some {
            1i32
        } else {
            0i32
        }),
        !r.tiled && r.max_seq == (opts.pos + 1) as i32,
{
    fused_decode_attention(split_setting, lens, opts)
}

/// Decode attention with everything on the device. A context longer than the score
/// kernel's limit goes to the tiled kernel.
pub fn fused_decode_attention_device_kv(
    split_setting: Option<&str>,
    lens: &DecodeAttnLens,
    opts: &FusedDecodeAttentionOpts,
) -> (r: DecodeAttnLaunch)
    requires
        decode_call_ok(*lens, *opts),
    ensures
        r == decode_launch(
            *opts,
            opts.pos + 1,
            lens.qk_normed(),
            opts.pos + 1 > NON_TILED_DECODE_ATTN_N_CTX_MAX,
            d_split(split_setting, opts.num_q_heads, opts.head_dim),
        ),
        r.num_q_heads == opts.num_q_heads as i32 && r.cfg.grid_dim.0 == opts.num_q_heads as u32,
        r.num_kv_heads == opts.num_kv_heads as i32 && r.head_dim == opts.head_dim as i32,
        r.rotary_dim == opts.rotary_dim as i32 && r.pos == opts.pos as i32,
        r.cfg.grid_dim.1 == r.d_split && r.cfg.grid_dim.2 == 1,
        r.cfg.block_dim == (256u32, 1u32, 1u32),
        r.use_qk_norm == (if lens.q_norm is Some && lens.k_norm is Some {
            1i32
        } else {
            0i32
        }),
        r.tiled == (opts.pos >= 16_384),
        r.max_seq == (if opts.pos >= 16_384 {
            opts.max_seq as i32
        } else {
            (opts.pos + 1) as i32
        }),
{
    let split: i32 = choose_attn_d_split(split_setting, opts.num_q_heads, opts.head_dim);
    proof {
        law_pieces_cover_the_head(split_setting, opts.num_q_heads, opts.head_dim);
    }
    let tiled: bool = opts.pos + 1 > NON_TILED_DECODE_ATTN_N_CTX_MAX;
    let normed: bool = lens.q_norm.is_some() && lens.k_norm.is_some();
    make_decode_launch(opts, opts.pos + 1, normed, tiled, split)
}

/// The launch of the decode kernel at a position that the device holds. It has to be good
/// for every position of the slabs, so the slabs bound it and `opts.pos` does not. Slabs
/// that are longer than the score kernel's limit go to the tiled kernel.
pub open spec fn device_pos_launch(
    opts: FusedDecodeAttentionOpts,
    use_qk_norm: bool,
    split: int,
) -> DecodeAttnLaunch {
    decode_launch(
        opts,
        opts.max_seq as int,
        use_qk_norm,
        opts.max_seq > NON_TILED_DECODE_ATTN_N_CTX_MAX,
        split,
    )
}

/// What a decode call at a position that the device holds demands of its caller: both norm
/// weights are there whether or not they are used, and the position has one element.
pub open spec fn device_pos_call_ok(
    lens: DecodeAttnLens,
    pos_len: usize,
    out_len: usize,
    opts: FusedDecodeAttentionOpts,
) -> bool {
    &&& lens.match_shape(opts)
    &&& lens.qk_normed()
    &&& pos_len == 1
    &&& out_len == opts.q_dim()
    &&& (NON_TILED_DECODE_ATTN_N_CTX_MAX + ATTN_BLOCK + opts.head_dim) * 4 <= usize::MAX
}

/// Decode attention into a buffer of the caller, at a position that the device holds.
pub fn fused_decode_attention_device_kv_into(
    split_setting: Option<&str>,
    lens: &DecodeAttnLens,
    pos_len: usize,
    out_len: usize,
    use_qk_norm: bool,
    opts: &FusedDecodeAttentionOpts,
) -> (r: DecodeAttnLaunch)
    requires
        device_pos_call_ok(*lens, pos_len, out_len, *opts),
    ensures
        r == device_pos_launch(
            *opts,
            use_qk_norm,
            d_split(split_setting, opts.num_q_heads, opts.head_dim),
        ),
        r.num_q_heads == opts.num_q_heads as i32 && r.cfg.grid_dim.0 == opts.num_q_heads as u32,
        r.num_kv_heads == opts.num_kv_heads as i32 && r.head_dim == opts.head_dim as i32,
        r.rotary_dim == opts.rotary_dim as i32 && r.pos == opts.pos as i32,
        r.cfg.grid_dim.1 == r.d_split && r.cfg.grid_dim.2 == 1,
        r.cfg.block_dim == (256u32, 1u32, 1u32),
        r.use_qk_norm == (if use_qk_norm {
            1i32
        } else {
            0i32
        }),
        r.tiled == (opts.max_seq > 16_384) && r.max_seq == opts.max_seq as i32,
{
    let split: i32 = choose_attn_d_split(split_setting, opts.num_q_heads, opts.head_dim);
    proof {
        law_pieces_cover_the_head(split_setting, opts.num_q_heads, opts.head_dim);
    }
    let tiled: bool = opts.max_seq > NON_TILED_DECODE_ATTN_N_CTX_MAX;
    make_decode_launch(opts, opts.max_seq, use_qk_norm, tiled, split)
}

/// Whatever the context and however long the slabs, the kernel that is chosen stays within
/// the shared memory that the attention kernels may ask for, for heads of up to 7936
/// elements.
pub proof fn law_decode_shared_memory(
    lens: DecodeAttnLens,
    opts: FusedDecodeAttentionOpts,
    use_qk_norm: bool,
    split: int,
)
    requires
        opts.head_dim <= 7936,
    ensures
        decode_call_ok(lens, opts) ==> decode_launch(
            opts,
            opts.pos + 1,
            lens.qk_normed(),
            opts.pos + 1 > NON_TILED_DECODE_ATTN_N_CTX_MAX,
            split,
        ).cfg.shared_mem_bytes <= MAX_DYNAMIC_SHMEM_BYTES,
        device_pos_launch(opts, use_qk_norm, split).cfg.shared_mem_bytes
            <= MAX_DYNAMIC_SHMEM_BYTES,
{
}

/// A launch at a position that the device holds is that of a call at any position `pos`
/// of the slabs, but for the bound on the context and the kernel and shared memory that
/// follow from it. The bound lies above the position, and where all scores are kept there
/// is a slot for each position below the bound.
pub proof fn law_device_pos_covers_positions(
    opts: FusedDecodeAttentionOpts,
    lens: DecodeAttnLens,
    split: int,
    pos: usize,
)
    requires
        opts.max_seq <= i32::MAX,
        (NON_TILED_DECODE_ATTN_N_CTX_MAX + ATTN_BLOCK + opts.head_dim) * 4 <= u32::MAX,
        pos < opts.max_seq,
    ensures
        ({
            let at = FusedDecodeAttentionOpts { pos, ..opts };
            let l = device_pos_launch(opts, lens.qk_normed(), split);
            let m = decode_launch(
                at,
                at.pos + 1,
                lens.qk_normed(),
                at.pos + 1 > NON_TILED_DECODE_ATTN_N_CTX_MAX,
                split,
            );
            &&& pos < l.max_seq == opts.max_seq
            &&& pos < m.max_seq
            &&& l.cfg.shared_mem_bytes == ((if l.tiled {
                FUSED_DECODE_ATTN_TILED_TILE_K as int
            } else {
                l.max_seq as int
            }) + ATTN_BLOCK + opts.head_dim) * 4
            &&& l == (DecodeAttnLaunch {
                tiled: l.tiled,
                cfg: LaunchConfig { shared_mem_bytes: l.cfg.shared_mem_bytes, ..m.cfg },
                pos: l.pos,
                max_seq: l.max_seq,
                ..m
            })
        }),
{
}

/// Launch of the projections of a normalised row.
#[derive(Clone, Copy, Debug, PartialEq, Eq)]
pub struct QkvLaunch {
    pub cfg: LaunchConfig,
    pub hidden: i32,
    pub q_dim: i32,
    pub kv_dim: i32,
}

/// The three projections of a normalised row in one launch, one block for each output
/// row.
pub fn qkv_rms_proj(
    x_len: usize,
    norm_len: usize,
    wq_len: usize,
    wk_len: usize,
    wv_len: usize,
    dims: QkvProjDims,
) -> (r: QkvLaunch)
    requires
        x_len == dims.hidden,
        norm_len == dims.hidden,
        wq_len == dims.q_dim * dims.hidden,
        wk_len == dims.kv_dim * dims.hidden,
        wv_len == dims.kv_dim * dims.hidden,
        dims.q_dim + dims.kv_dim + dims.kv_dim <= usize::MAX,
    ensures
        r == (QkvLaunch {
            cfg: LaunchConfig {
                grid_dim: (((dims.q_dim + dims.kv_dim + dims.kv_dim) as usize) as u32, 1, 1),
                block_dim: (256, 1, 1),
                shared_mem_bytes: 1024,
            },
            hidden: dims.hidden as i32,
            q_dim: dims.q_dim as i32,
            kv_dim: dims.kv_dim as i32,
        }),
        r.hidden == dims.hidden as i32 && r.q_dim == dims.q_dim as i32 && r.kv_dim
            == dims.kv_dim as i32,
        dims.q_dim + 2 * dims.kv_dim <= u32::MAX ==> r.cfg.grid_dim.0 == dims.q_dim + 2
            * dims.kv_dim,
        r.cfg.grid_dim.1 == 1 && r.cfg.grid_dim.2 == 1 && r.cfg.shared_mem_bytes == 4
            * r.cfg.block_dim.0,
        r.cfg.block_dim == (256u32, 1u32, 1u32),
{
    let total_rows: usize = dims.q_dim + dims.kv_dim + dims.kv_dim;
    QkvLaunch {
        cfg: LaunchConfig {
            grid_dim: (#[verifier::truncate] (total_rows as u32), 1, 1),
            block_dim: (256, 1, 1),
            shared_mem_bytes: 1024,
        },
        hidden: #[verifier::truncate] (dims.hidden as i32),
        q_dim: #[verifier::truncate] (dims.q_dim as i32),
        kv_dim: #[verifier::truncate] (dims.kv_dim as i32),
    }
}

/// Launch of the row-wise softmax.
#[derive(Clone, Copy, Debug, PartialEq, Eq)]
pub struct SoftmaxLaunch {
    pub cfg: LaunchConfig,
    pub n_rows: i32,
    pub n_cols: i32,
    pub causal: i32,
}

pub open spec fn softmax_launch(n_rows: usize, n_cols: usize, causal: bool, serial: bool) -> SoftmaxLaunch {
    SoftmaxLaunch {
        cfg: LaunchConfig {
            grid_dim: (n_rows as u32, 1, 1),
            block_dim: (
                if serial {
                    1
                } else {
                    1024
                },
                1,
                1,
            ),
            shared_mem_bytes: if serial {
                0
            } else {
                4096
            },
        },
        n_rows: n_rows as i32,
        n_cols: n_cols as i32,
        causal: if causal {
            1
        } else {
            0
        },
    }
}

/// The softmax of each row, one block for each: a full block of threads, or a single
/// thread where `serial` is set.
pub fn softmax_inplace(n_rows: usize, n_cols: usize, causal: bool, serial: bool) -> (r: SoftmaxLaunch)
    ensures
        r == softmax_launch(n_rows, n_cols, causal, serial),
        r.n_rows == n_rows as i32 && r.n_cols == n_cols as i32,
        r.causal == (if causal {
            1i32
        } else {
            0i32
        }),
        r.cfg.grid_dim == (n_rows as u32, 1u32, 1u32),
        serial ==> r.cfg.block_dim == (1u32, 1u32, 1u32) && r.cfg.shared_mem_bytes == 0,
        !serial ==> r.cfg.block_dim == (1024u32, 1u32, 1u32) && r.cfg.shared_mem_bytes == 4096,
{
    let threads: u32 = if serial {
        1
    } else {
        1024
    };
    let bytes: u32 = if serial {
        0
    } else {
        4096
    };
    let flag: i32 = if causal {
        1
    } else {
        0
    };
    SoftmaxLaunch {
        cfg: LaunchConfig {
            grid_dim: (#[verifier::truncate] (n_rows as u32), 1, 1),
            block_dim: (threads, 1, 1),
            shared_mem_bytes: bytes,
        },
        n_rows: #[verifier::truncate] (n_rows as i32),
        n_cols: #[verifier::truncate] (n_cols as i32),
        causal: flag,
    }
}

/// The calls of the plain attention: scores, softmax, weighted sum.
#[derive(Clone, Copy, Debug, PartialEq, Eq)]
pub struct PlainAttention {
    /// `Q * K^T`, with `K` handed over first.
    pub scores: GemmConfig,
    pub softmax: SoftmaxLaunch,
    /// `P * V`, with `V` handed over first.
    pub weighted: GemmConfig,
}

/// The calls of single-head attention over row-major buffers.
pub fn decode_attention(
    q_len: usize,
    k_len: usize,
    v_len: usize,
    n_q: usize,
    n_kv: usize,
    head_dim: usize,
    opts: AttentionOpts,
    serial_softmax: bool,
) -> (r: PlainAttention)
    requires
        q_len == n_q * head_dim,
        k_len == n_kv * head_dim,
        v_len == n_kv * head_dim,
        n_q * n_kv <= usize::MAX,
    ensures
        r.scores == transb_config(n_q, n_kv, head_dim),
        r.softmax == softmax_launch(n_q, n_kv, opts.causal, serial_softmax),
        r.weighted == matmul_config(n_q, head_dim, n_kv),
        r.scores.m == n_kv as i32 && r.scores.n == n_q as i32 && r.scores.k == head_dim as i32,
        r.softmax.n_rows == n_q as i32 && r.softmax.n_cols == n_kv as i32,
        r.softmax.causal == (if opts.causal {
            1i32
        } else {
            0i32
        }),
        r.weighted.m == head_dim as i32 && r.weighted.n == n_q as i32 && r.weighted.k == n_kv as i32,
{
    PlainAttention {
        scores: matmul_transb(q_len, k_len, n_q, n_kv, head_dim),
        softmax: softmax_inplace(n_q, n_kv, opts.causal, serial_softmax),
        weighted: matmul(n_q * n_kv, v_len, n_q, head_dim, n_kv),
    }
}

/// Lengths of the buffers of a batched attention call.
#[derive(Clone, Copy, Debug, PartialEq, Eq, Structural)]
pub struct SeqAttnLens {
    pub q_seq: usize,
    pub k_seq: usize,
    pub v_seq: usize,
    pub k_cache: usize,
    pub v_cache: usize,
    pub out_seq: usize,
}

/// Launches of a batched attention call: the rows go into the cache, then each row is
/// attended to.
#[derive(Clone, Copy, Debug, PartialEq, Eq)]
pub struct SeqAttnLaunch {
    pub store: LaunchConfig,
    pub attend: LaunchConfig,
    /// Whether the kernel that goes through the cache in tiles is used.
    pub tiled: bool,
    pub num_q_heads: i32,
    pub num_kv_heads: i32,
    pub head_dim: i32,
    pub seq_len: i32,
    /// Bound on the positions: the kernels do nothing at a position that is not below it.
    pub max_seq: i32,
    pub rotary_dim: i32,
    pub use_qk_norm: i32,
}

/// The launches for a run that ends at or before position `end`.
pub open spec fn seq_launch(
    opts: FusedDecodeAttentionOpts,
    seq_len: usize,
    end: int,
    use_qk_norm: bool,
) -> SeqAttnLaunch {
    let tiled = end > NON_TILED_PREFILL_ATTN_N_CTX_MAX;
    let slots = (if tiled {
        FUSED_PREFILL_ATTN_TILED_TILE_K as int
    } else {
        end
    }) + ATTN_BLOCK + opts.head_dim;
    SeqAttnLaunch {
        store: LaunchConfig {
            grid_dim: (seq_len as u32, opts.num_kv_heads as u32, 1),
            block_dim: (ATTN_BLOCK as u32, 1, 1),
            shared_mem_bytes: 1024,
        },
        attend: LaunchConfig {
            grid_dim: (opts.num_q_heads as u32, seq_len as u32, 1),
            block_dim: (ATTN_BLOCK as u32, 1, 1),
            shared_mem_bytes: ((slots * 4) as usize) as u32,
        },
        tiled,
        num_q_heads: opts.num_q_heads as i32,
        num_kv_heads: opts.num_kv_heads as i32,
        head_dim: opts.head_dim as i32,
        seq_len: seq_len as i32,
        max_seq: end as i32,
        rotary_dim: opts.rotary_dim as i32,
        use_qk_norm: if use_qk_norm {
            1
        } else {
            0
        },
    }
}

/// The shared memory of a batched launch can be counted in a `usize`.
pub open spec fn seq_slots_fit(opts: FusedDecodeAttentionOpts) -> bool {
    (NON_TILED_PREFILL_ATTN_N_CTX_MAX + ATTN_BLOCK + opts.head_dim) * 4 <= usize::MAX
}

/// The launches for a run that ends at or before position `end`.
pub fn fused_prefill_attention_launch_pos_dev(
    opts: &FusedDecodeAttentionOpts,
    seq_len: usize,
    end: i32,
    use_qk_norm: bool,
) -> (r: SeqAttnLaunch)
    requires
        end >= 0,
        seq_slots_fit(*opts),
    ensures
        r == seq_launch(*opts, seq_len, end as int, use_qk_norm),
        r.num_q_heads == opts.num_q_heads as i32 && r.num_kv_heads == opts.num_kv_heads as i32,
        r.head_dim == opts.head_dim as i32 && r.rotary_dim == opts.rotary_dim as i32,
        r.seq_len == seq_len as i32 && r.max_seq == end,
        r.attend.grid_dim == (opts.num_q_heads as u32, seq_len as u32, 1u32),
        r.store.grid_dim == (seq_len as u32, opts.num_kv_heads as u32, 1u32),
        r.attend.block_dim == (256u32, 1u32, 1u32) && r.store.block_dim == (256u32, 1u32, 1u32),
        r.tiled == (end > 16_384),
        r.use_qk_norm == (if use_qk_norm {
            1i32
        } else {
            0i32
        }),
{
    let tiled: bool = end > NON_TILED_PREFILL_ATTN_N_CTX_MAX;
    let slots: usize = if tiled {
        FUSED_PREFILL_ATTN_TILED_TILE_K + ATTN_BLOCK + opts.head_dim
    } else {
        end as usize + ATTN_BLOCK + opts.head_dim
    };
    let bytes: usize = slots * 4;
    let norm: i32 = if use_qk_norm {
        1
    } else {
        0
    };
    SeqAttnLaunch {
        store: LaunchConfig {
            grid_dim: (
                #[verifier::truncate] (seq_len as u32),
                #[verifier::truncate] (opts.num_kv_heads as u32),
                1,
            ),
            block_dim: (ATTN_BLOCK as u32, 1, 1),
            shared_mem_bytes: 1024,
        },
        attend: LaunchConfig {
            grid_dim: (
                #[verifier::truncate] (opts.num_q_heads as u32),
                #[verifier::truncate] (seq_len as u32),
                1,
            ),
            block_dim: (ATTN_BLOCK as u32, 1, 1),
            shared_mem_bytes: #[verifier::truncate] (bytes as u32),
        },
        tiled,
        num_q_heads: #[verifier::truncate] (opts.num_q_heads as i32),
        num_kv_heads: #[verifier::truncate] (opts.num_kv_heads as i32),
        head_dim: #[verifier::truncate] (opts.head_dim as i32),
        seq_len: #[verifier::truncate] (seq_len as i32),
        max_seq: end,
        rotary_dim: #[verifier::truncate] (opts.rotary_dim as i32),
        use_qk_norm: norm,
    }
}

/// The chosen kernel of a batched call stays within the shared memory that the attention
/// kernels may ask for, wherever the run ends, for heads of up to 7936 elements.
pub proof fn law_seq_shared_memory(
    opts: FusedDecodeAttentionOpts,
    seq_len: usize,
    end: int,
    use_qk_norm: bool,
)
    requires
        0 <= end <= i32::MAX,
        opts.head_dim <= 7936,
    ensures
        seq_launch(opts, seq_len, end, use_qk_norm).attend.shared_mem_bytes
            <= MAX_DYNAMIC_SHMEM_BYTES,
{
}

/// Sizes of a batched call that its arithmetic can hold.
pub open spec fn seq_sizes_fit(opts: FusedDecodeAttentionOpts, seq_len: usize) -> bool {
    &&& opts.lengths_fit()
    &&& seq_len * opts.q_dim() <= usize::MAX
    &&& seq_len * opts.kv_dim() <= usize::MAX
    &&& seq_slots_fit(opts)
}

/// The complaint about the query rows.
pub open spec fn q_rows_text(len: usize, op: Seq<char>, seq_len: usize, q_dim: int) -> Seq<char> {
    "q_seq.len="@ + dec(len as nat) + op + "seq_len*q_dim="@ + dec(seq_len as nat) + "*"@ + dec(
        q_dim as nat,
    )
}

/// The complaint about the output rows.
pub open spec fn out_rows_text(len: usize, seq_len: usize, q_dim: int) -> Seq<char> {
    "out_seq.len="@ + dec(len as nat) + " < seq_len*q_dim="@ + dec(seq_len as nat) + "*"@ + dec(
        q_dim as nat,
    )
}

/// The complaint about the key and value rows.
pub open spec fn kv_rows_text(seq_len: usize, kv_dim: int) -> Seq<char> {
    "k_seq/v_seq.len mismatch for seq_len*kv_dim="@ + dec(seq_len as nat) + "*"@ + dec(
        kv_dim as nat,
    )
}

/// The complaint about the slabs.
pub open spec fn slab_text(cache_len: int) -> Seq<char> {
    "k_cache/v_cache.len mismatch for max_seq*num_kv_heads*head_dim="@ + dec(cache_len as nat)
}

/// The complaint about a run that ends behind the slabs.
pub open spec fn end_text(end: int, max_seq: usize) -> Seq<char> {
    "base_pos+seq_len="@ + dec(end as nat) + ">"@ + dec(max_seq as nat) + "=max_seq"@
}

fn q_rows_error(len: usize, op: &str, seq_len: usize, q_dim: usize) -> (e: CudaInitError)
    ensures
        e.says(q_rows_text(len, op@, seq_len, q_dim as int)),
        e.says(
            "q_seq.len="@ + dec(len as nat) + op@ + "seq_len*q_dim="@ + dec(seq_len as nat)
                + "*"@ + dec(q_dim as nat),
        ),
{
    let mut s: String = "q_seq.len=".to_owned();
    push_dec(&mut s, len as u64);
    s.append(op);
    s.append("seq_len*q_dim=");
    push_dec(&mut s, seq_len as u64);
    s.append("*");
    push_dec(&mut s, q_dim as u64);
    CudaInitError::DriverMissing(s)
}

fn out_rows_error(len: usize, seq_len: usize, q_dim: usize) -> (e: CudaInitError)
    ensures
        e.says(out_rows_text(len, seq_len, q_dim as int)),
        e.says(
            "out_seq.len="@ + dec(len as nat) + " < seq_len*q_dim="@ + dec(seq_len as nat)
                + "*"@ + dec(q_dim as nat),
        ),
{
    let mut s: String = "out_seq.len=".to_owned();
    push_dec(&mut s, len as u64);
    s.append(" < seq_len*q_dim=");
    push_dec(&mut s, seq_len as u64);
    s.append("*");
    push_dec(&mut s, q_dim as u64);
    CudaInitError::DriverMissing(s)
}

fn kv_rows_error(seq_len: usize, kv_dim: usize) -> (e: CudaInitError)
    ensures
        e.says(kv_rows_text(seq_len, kv_dim as int)),
        e.says(
            "k_seq/v_seq.len mismatch for seq_len*kv_dim="@ + dec(seq_len as nat) + "*"@
                + dec(kv_dim as nat),
        ),
{
    let mut s: String = "k_seq/v_seq.len mismatch for seq_len*kv_dim=".to_owned();
    push_dec(&mut s, seq_len as u64);
    s.append("*");
    push_dec(&mut s, kv_dim as u64);
    CudaInitError::DriverMissing(s)
}

fn slab_error(cache_len: usize) -> (e: CudaInitError)
    ensures
        e.says(slab_text(cache_len as int)),
        e.says(
            "k_cache/v_cache.len mismatch for max_seq*num_kv_heads*head_dim="@
                + dec(cache_len as nat),
        ),
{
    let mut s: String = "k_cache/v_cache.len mismatch for max_seq*num_kv_heads*head_dim=".to_owned();
    push_dec(&mut s, cache_len as u64);
    CudaInitError::DriverMissing(s)
}

fn end_error(end: usize, max_seq: usize) -> (e: CudaInitError)
    ensures
        e.says(end_text(end as int, max_seq)),
        e.says("base_pos+seq_len="@ + dec(end as nat) + ">"@ + dec(max_seq as nat) + "=max_seq"@),
{
    let mut s: String = "base_pos+seq_len=".to_owned();
    push_dec(&mut s, end as u64);
    s.append(">");
    push_dec(&mut s, max_seq as u64);
    s.append("=max_seq");
    CudaInitError::DriverMissing(s)
}

/// The first thing wrong with a batched call into a buffer of the caller, whose buffers
/// may be longer than needed.
pub open spec fn into_complaint(
    lens: SeqAttnLens,
    base_pos: usize,
    seq_len: usize,
    opts: FusedDecodeAttentionOpts,
) -> Option<Seq<char>> {
    if lens.q_seq < seq_len * opts.q_dim() {
        Some(q_rows_text(lens.q_seq, " < "@, seq_len, opts.q_dim()))
    } else if lens.k_seq < seq_len * opts.kv_dim() || lens.v_seq < seq_len * opts.kv_dim() {
        Some(kv_rows_text(seq_len, opts.kv_dim()))
    } else if lens.out_seq < seq_len * opts.q_dim() {
        Some(out_rows_text(lens.out_seq, seq_len, opts.q_dim()))
    } else if lens.k_cache != opts.cache_len() || lens.v_cache != opts.cache_len() {
        Some(slab_text(opts.cache_len()))
    } else if base_pos + seq_len > opts.max_seq {
        Some(end_text(base_pos + seq_len, opts.max_seq))
    } else {
        None
    }
}

/// The norm weights that are there have the width of a head.
pub open spec fn norms_of_width(
    q_norm: Option<usize>,
    k_norm: Option<usize>,
    head_dim: usize,
) -> bool {
    &&& q_norm matches Some(n) ==> n == head_dim
    &&& k_norm matches Some(n) ==> n == head_dim
}

/// The launches of a run from `base_pos` on. Queries and keys are normalised only where both
/// norm weights are there.
pub open spec fn run_launch(
    opts: FusedDecodeAttentionOpts,
    base_pos: usize,
    seq_len: usize,
    q_norm: Option<usize>,
    k_norm: Option<usize>,
) -> SeqAttnLaunch {
    seq_launch(opts, seq_len, base_pos + seq_len, q_norm is Some && k_norm is Some)
}

/// The launches of a run whose start the device holds. They have to be good for every run of
/// that length that the slabs hold, so the slabs bound them and `opts.pos` does not.
pub open spec fn device_run_launch(
    opts: FusedDecodeAttentionOpts,
    seq_len: usize,
    q_norm: Option<usize>,
    k_norm: Option<usize>,
) -> SeqAttnLaunch {
    seq_launch(opts, seq_len, opts.max_seq as int, q_norm is Some && k_norm is Some)
}

/// Batched attention into a buffer of the caller. Norm weights are given by their lengths.
pub fn fused_prefill_attention_seq_device_into(
    lens: &SeqAttnLens,
    q_norm: Option<usize>,
    k_norm: Option<usize>,
    base_pos: usize,
    seq_len: usize,
    opts: &FusedDecodeAttentionOpts,
) -> (r: Result<SeqAttnLaunch, CudaInitError>)
    requires
        seq_sizes_fit(*opts, seq_len),
        base_pos + seq_len <= usize::MAX,
        into_complaint(*lens, base_pos, seq_len, *opts) is None ==> {
            &&& opts.max_seq <= i32::MAX
            &&& norms_of_width(q_norm, k_norm, opts.head_dim)
        },
    ensures
        r is Ok == into_complaint(*lens, base_pos, seq_len, *opts) is None,
        r matches Ok(l) ==> l == run_launch(*opts, base_pos, seq_len, q_norm, k_norm),
        r matches Err(e) ==> into_complaint(*lens, base_pos, seq_len, *opts) matches Some(t)
            && e.says(t),
        r matches Ok(l) ==> {
            &&& l.num_q_heads == opts.num_q_heads as i32 && l.num_kv_heads == opts.num_kv_heads as i32
            &&& l.head_dim == opts.head_dim as i32 && l.rotary_dim == opts.rotary_dim as i32
            &&& l.seq_len == seq_len as i32 && l.max_seq == base_pos + seq_len
            &&& l.attend.grid_dim == (opts.num_q_heads as u32, seq_len as u32, 1u32)
            &&& l.store.grid_dim == (seq_len as u32, opts.num_kv_heads as u32, 1u32)
            &&& l.attend.block_dim == (256u32, 1u32, 1u32) && l.store.block_dim == (256u32, 1u32, 1u32)
            &&& l.tiled == (base_pos + seq_len > 16_384)
            &&& l.use_qk_norm == (if q_norm is Some && k_norm is Some {
                1i32
            } else {
                0i32
            })
        },
{
    let q_dim: usize = opts.num_q_heads * opts.head_dim;
    let kv_dim: usize = opts.num_kv_heads * opts.head_dim;
    let cache_len: usize = opts.max_seq * opts.num_kv_heads * opts.head_dim;
    if lens.q_seq < seq_len * q_dim {
        return Err(q_rows_error(lens.q_seq, " < ", seq_len, q_dim));
    }
    if lens.k_seq < seq_len * kv_dim || lens.v_seq < seq_len * kv_dim {
        return Err(kv_rows_error(seq_len, kv_dim));
    }
    if lens.out_seq < seq_len * q_dim {
        return Err(out_rows_error(lens.out_seq, seq_len, q_dim));
    }
    if lens.k_cache != cache_len || lens.v_cache != cache_len {
        return Err(slab_error(cache_len));
    }
    let end: usize = base_pos + seq_len;
    if end > opts.max_seq {
        return Err(end_error(end, opts.max_seq));
    }
    let used: bool = q_norm.is_some() && k_norm.is_some();
    Ok(fused_prefill_attention_launch_pos_dev(opts, seq_len, end as i32, used))
}

/// The buffers of a call that starts where the device says are long enough, and the slabs
/// have their exact length.
pub open spec fn pos_dev_lens_ok(
    lens: SeqAttnLens,
    seq_len: usize,
    opts: FusedDecodeAttentionOpts,
) -> bool {
    &&& lens.q_seq >= seq_len * opts.q_dim()
    &&& lens.k_seq >= seq_len * opts.kv_dim()
    &&& lens.v_seq >= seq_len * opts.kv_dim()
    &&& lens.out_seq >= seq_len * opts.q_dim()
    &&& lens.k_cache == opts.cache_len()
    &&& lens.v_cache == opts.cache_len()
}

fn pos_dev_lens_match(lens: &SeqAttnLens, seq_len: usize, opts: &FusedDecodeAttentionOpts) -> (r: bool)
    requires
        seq_sizes_fit(*opts, seq_len),
    ensures
        r == pos_dev_lens_ok(*lens, seq_len, *opts),
{
    let q_dim: usize = opts.num_q_heads * opts.head_dim;
    let kv_dim: usize = opts.num_kv_heads * opts.head_dim;
    let cache_len: usize = opts.max_seq * opts.num_kv_heads * opts.head_dim;
    lens.q_seq >= seq_len * q_dim && lens.k_seq >= seq_len * kv_dim && lens.v_seq >= seq_len
        * kv_dim && lens.out_seq >= seq_len * q_dim && lens.k_cache == cache_len && lens.v_cache
        == cache_len
}

/// Batched attention that starts where the device says.
pub fn fused_prefill_attention_seq_device_into_pos_dev(
    lens: &SeqAttnLens,
    q_norm: Option<usize>,
    k_norm: Option<usize>,
    seq_len: usize,
    opts: &FusedDecodeAttentionOpts,
) -> (r: Result<SeqAttnLaunch, CudaInitError>)
    requires
        seq_sizes_fit(*opts, seq_len),
        pos_dev_lens_ok(*lens, seq_len, *opts) ==> {
            &&& opts.max_seq <= i32::MAX
            &&& norms_of_width(q_norm, k_norm, opts.head_dim)
        },
    ensures
        r is Ok == pos_dev_lens_ok(*lens, seq_len, *opts),
        r matches Ok(l) ==> l == device_run_launch(*opts, seq_len, q_norm, k_norm),
        r matches Err(e) ==> e.says(
            "fused_prefill_attention_seq_device_into_pos_dev: shape mismatch"@,
        ),
        r matches Ok(l) ==> {
            &&& l.num_q_heads == opts.num_q_heads as i32 && l.num_kv_heads == opts.num_kv_heads as i32
            &&& l.head_dim == opts.head_dim as i32 && l.rotary_dim == opts.rotary_dim as i32
            &&& l.seq_len == seq_len as i32 && l.max_seq == opts.max_seq
            &&& l.attend.grid_dim == (opts.num_q_heads as u32, seq_len as u32, 1u32)
            &&& l.store.grid_dim == (seq_len as u32, opts.num_kv_heads as u32, 1u32)
            &&& l.attend.block_dim == (256u32, 1u32, 1u32) && l.store.block_dim == (256u32, 1u32, 1u32)
            &&& l.tiled == (opts.max_seq > 16_384)
            &&& l.use_qk_norm == (if q_norm is Some && k_norm is Some {
                1i32
            } else {
                0i32
            })
        },
        r is Ok <==> {
            &&& lens.q_seq >= seq_len * (opts.num_q_heads * opts.head_dim)
            &&& lens.out_seq >= seq_len * (opts.num_q_heads * opts.head_dim)
            &&& lens.k_seq >= seq_len * (opts.num_kv_heads * opts.head_dim)
            &&& lens.v_seq >= seq_len * (opts.num_kv_heads * opts.head_dim)
            &&& lens.k_cache == opts.max_seq * opts.num_kv_heads * opts.head_dim
            &&& lens.v_cache == lens.k_cache
        },
{
    if !pos_dev_lens_match(lens, seq_len, opts) {
        return Err(refused("fused_prefill_attention_seq_device_into_pos_dev: shape mismatch"));
    }
    let used: bool = q_norm.is_some() && k_norm.is_some();
    Ok(fused_prefill_attention_launch_pos_dev(opts, seq_len, opts.max_seq as i32, used))
}

/// Batched attention of a tree that starts where the device says. There must be an
/// ancestor set for each node, and no more nodes than a set has bits.
pub fn fused_prefill_attention_tree_seq_device_into_pos_dev(
    lens: &SeqAttnLens,
    ancestors_len: usize,
    q_norm: Option<usize>,
    k_norm: Option<usize>,
    seq_len: usize,
    opts: &FusedDecodeAttentionOpts,
) -> (r: Result<SeqAttnLaunch, CudaInitError>)
    requires
        seq_sizes_fit(*opts, seq_len),
        pos_dev_lens_ok(*lens, seq_len, *opts) && ancestors_len >= seq_len && seq_len <= 64 ==> {
            &&& opts.max_seq <= i32::MAX
            &&& norms_of_width(q_norm, k_norm, opts.head_dim)
        },
    ensures
        r is Ok == (pos_dev_lens_ok(*lens, seq_len, *opts) && ancestors_len >= seq_len && seq_len
            <= 64),
        r matches Ok(l) ==> l == device_run_launch(*opts, seq_len, q_norm, k_norm),
        r matches Err(e) ==> e.says(
            if pos_dev_lens_ok(*lens, seq_len, *opts) && ancestors_len >= seq_len {
                "fused_prefill_attention_tree_seq_device_into_pos_dev: seq_len > 64"@
            } else {
                "fused_prefill_attention_tree_seq_device_into_pos_dev: shape mismatch"@
            },
        ),
        r matches Ok(l) ==> {
            &&& l.num_q_heads == opts.num_q_heads as i32 && l.num_kv_heads == opts.num_kv_heads as i32
            &&& l.head_dim == opts.head_dim as i32 && l.rotary_dim == opts.rotary_dim as i32
            &&& l.seq_len == seq_len as i32 && l.max_seq == opts.max_seq
            &&& l.attend.grid_dim == (opts.num_q_heads as u32, seq_len as u32, 1u32)
            &&& l.store.grid_dim == (seq_len as u32, opts.num_kv_heads as u32, 1u32)
            &&& l.attend.block_dim == (256u32, 1u32, 1u32) && l.store.block_dim == (256u32, 1u32, 1u32)
            &&& l.tiled == (opts.max_seq > 16_384)
            &&& l.use_qk_norm == (if q_norm is Some && k_norm is Some {
                1i32
            } else {
                0i32
            })
        },
{
    if !pos_dev_lens_match(lens, seq_len, opts) || ancestors_len < seq_len {
        return Err(refused("fused_prefill_attention_tree_seq_device_into_pos_dev: shape mismatch"));
    }
    if seq_len > 64 {
        return Err(refused("fused_prefill_attention_tree_seq_device_into_pos_dev: seq_len > 64"));
    }
    let used: bool = q_norm.is_some() && k_norm.is_some();
    Ok(fused_prefill_attention_launch_pos_dev(opts, seq_len, opts.max_seq as i32, used))
}

/// The first thing wrong with a batched call whose buffers must have their exact length.
pub open spec fn exact_complaint(
    lens: SeqAttnLens,
    base_pos: usize,
    seq_len: usize,
    opts: FusedDecodeAttentionOpts,
) -> Option<Seq<char>> {
    if lens.q_seq != seq_len * opts.q_dim() {
        Some(q_rows_text(lens.q_seq, " != "@, seq_len, opts.q_dim()))
    } else if lens.k_seq != seq_len * opts.kv_dim() || lens.v_seq != seq_len * opts.kv_dim() {
        Some(kv_rows_text(seq_len, opts.kv_dim()))
    } else if lens.k_cache != opts.cache_len() || lens.v_cache != opts.cache_len() {
        Some(slab_text(opts.cache_len()))
    } else if base_pos + seq_len > opts.max_seq {
        Some(end_text(base_pos + seq_len, opts.max_seq))
    } else {
        None
    }
}

/// Batched attention into a fresh buffer of `seq_len` query rows.
pub fn fused_prefill_attention_seq_device(
    lens: &SeqAttnLens,
    q_norm: Option<usize>,
    k_norm: Option<usize>,
    base_pos: usize,
    seq_len: usize,
    opts: &FusedDecodeAttentionOpts,
) -> (r: Result<(SeqAttnLaunch, usize), CudaInitError>)
    requires
        seq_sizes_fit(*opts, seq_len),
        base_pos + seq_len <= usize::MAX,
        exact_complaint(*lens, base_pos, seq_len, *opts) is None ==> {
            &&& opts.max_seq <= i32::MAX
            &&& norms_of_width(q_norm, k_norm, opts.head_dim)
        },
    ensures
        r is Ok == exact_complaint(*lens, base_pos, seq_len, *opts) is None,
        r matches Ok((l, out_len)) ==> l == run_launch(*opts, base_pos, seq_len, q_norm, k_norm)
            && out_len == seq_len * opts.q_dim(),
        r matches Err(e) ==> exact_complaint(*lens, base_pos, seq_len, *opts) matches Some(t)
            && e.says(t),
        r matches Ok((l, out_len)) ==> {
            &&& l.num_q_heads == opts.num_q_heads as i32 && l.num_kv_heads == opts.num_kv_heads as i32
            &&& l.head_dim == opts.head_dim as i32 && l.rotary_dim == opts.rotary_dim as i32
            &&& l.seq_len == seq_len as i32 && l.max_seq == base_pos + seq_len
            &&& l.attend.grid_dim == (opts.num_q_heads as u32, seq_len as u32, 1u32)
            &&& l.store.grid_dim == (seq_len as u32, opts.num_kv_heads as u32, 1u32)
            &&& l.attend.block_dim == (256u32, 1u32, 1u32) && l.store.block_dim == (256u32, 1u32, 1u32)
            &&& l.tiled == (base_pos + seq_len > 16_384)
            &&& l.use_qk_norm == (if q_norm is Some && k_norm is Some {
                1i32
            } else {
                0i32
            })
        },
{
    let q_dim: usize = opts.num_q_heads * opts.head_dim;
    let kv_dim: usize = opts.num_kv_heads * opts.head_dim;
    let cache_len: usize = opts.max_seq * opts.num_kv_heads * opts.head_dim;
    if lens.q_seq != seq_len * q_dim {
        return Err(q_rows_error(lens.q_seq, " != ", seq_len, q_dim));
    }
    if lens.k_seq != seq_len * kv_dim || lens.v_seq != seq_len * kv_dim {
        return Err(kv_rows_error(seq_len, kv_dim));
    }
    if lens.k_cache != cache_len || lens.v_cache != cache_len {
        return Err(slab_error(cache_len));
    }
    let end: usize = base_pos + seq_len;
    if end > opts.max_seq {
        return Err(end_error(end, opts.max_seq));
    }
    let used: bool = q_norm.is_some() && k_norm.is_some();
    Ok((fused_prefill_attention_launch_pos_dev(opts, seq_len, end as i32, used), seq_len * q_dim))
}

/// What a call into a fresh buffer accepts, a call into a buffer of the caller accepts too,
/// where that buffer is long enough. By their contracts both then launch alike.
pub proof fn law_into_accepts_what_fresh_accepts(
    lens: SeqAttnLens,
    base_pos: usize,
    seq_len: usize,
    opts: FusedDecodeAttentionOpts,
)
    requires
        exact_complaint(lens, base_pos, seq_len, opts) is None,
        lens.out_seq >= seq_len * opts.q_dim(),
    ensures
        into_complaint(lens, base_pos, seq_len, opts) is None,
        pos_dev_lens_ok(lens, seq_len, opts),
{
}

/// The launches of a run whose start the device holds are those of the run at any start
/// that the slabs have room for, but for the bound on the context and the kernel and shared
/// memory that follow from it. The bound is not below the end of the run, and there is a
/// slot for each position below the bound, or for each position of a tile.
pub proof fn law_device_run_covers_positions(
    opts: FusedDecodeAttentionOpts,
    base_pos: usize,
    seq_len: usize,
    q_norm: Option<usize>,
    k_norm: Option<usize>,
)
    requires
        opts.max_seq <= i32::MAX,
        (NON_TILED_PREFILL_ATTN_N_CTX_MAX + ATTN_BLOCK + opts.head_dim) * 4 <= u32::MAX,
        base_pos + seq_len <= opts.max_seq,
    ensures
        ({
            let l = device_run_launch(opts, seq_len, q_norm, k_norm);
            let m = run_launch(opts, base_pos, seq_len, q_norm, k_norm);
            &&& base_pos + seq_len <= l.max_seq == opts.max_seq
            &&& m.max_seq == base_pos + seq_len
            &&& l.attend.shared_mem_bytes == ((if l.tiled {
                FUSED_PREFILL_ATTN_TILED_TILE_K as int
            } else {
                l.max_seq as int
            }) + ATTN_BLOCK + opts.head_dim) * 4
            &&& l == (SeqAttnLaunch {
                attend: LaunchConfig {
                    shared_mem_bytes: l.attend.shared_mem_bytes,
                    ..m.attend
                },
                tiled: l.tiled,
                max_seq: l.max_seq,
                ..m
            })
        }),
{
}

/// The key and value head that a query head reads, by the arguments of a launch.
pub open spec fn kv_head_read(num_q_heads: i32, num_kv_heads: i32, h: int) -> int {
    h / (num_q_heads as int / num_kv_heads as int)
}

/// Query heads in equal groups: every head falls to a key and value head that is there, and
/// the heads of a group to the same one.
pub proof fn lemma_groups_of_heads(heads: int, groups: int, h: int)
    requires
        0 < groups,
        0 <= h < heads,
        heads % groups == 0,
    ensures
        heads / groups > 0,
        0 <= h / (heads / groups) < groups,
{
    let reps = heads / groups;
    vstd::arithmetic::div_mod::lemma_fundamental_div_mod(heads, groups);
    assert(reps > 0) by (nonlinear_arith)
        requires
            heads == groups * reps,
            heads > 0,
            groups > 0,
    ;
    vstd::arithmetic::div_mod::lemma_fundamental_div_mod(h, reps);
    let q = h / reps;
    assert(0 <= q < groups) by (nonlinear_arith)
        requires
            h == reps * q + h % reps,
            0 <= h % reps < reps,
            0 <= h < groups * reps,
            reps > 0,
    ;
}

/// A decode launch covers the call: every query head has blocks, one for each piece of its
/// output, and passes the kernel's bound; it reads the key and value head of its group; and
/// every element of a head lies in the piece of one block.
pub proof fn law_decode_launch_covers_heads(
    opts: FusedDecodeAttentionOpts,
    n_ctx: usize,
    use_qk_norm: bool,
    tiled: bool,
    split: int,
    h: int,
    e: int,
)
    requires
        0 <= h < opts.num_q_heads <= i32::MAX,
        0 < opts.num_kv_heads <= opts.num_q_heads,
        opts.num_q_heads as int % opts.num_kv_heads as int == 0,
        0 <= e < opts.head_dim <= i32::MAX,
        1 <= split <= 16,
        opts.head_dim as int % split == 0,
    ensures
        ({
            let l = decode_launch(opts, n_ctx as int, use_qk_norm, tiled, split);
            let piece = e / (l.head_dim as int / l.d_split as int);
            &&& l.cfg.grid_dim.0 == l.num_q_heads == opts.num_q_heads
            &&& l.num_kv_heads == opts.num_kv_heads
            &&& l.head_dim == opts.head_dim
            &&& h < l.cfg.grid_dim.0 && h < l.num_q_heads
            &&& kv_head_read(l.num_q_heads, l.num_kv_heads, h) == h / (opts.num_q_heads as int
                / opts.num_kv_heads as int)
            &&& 0 <= kv_head_read(l.num_q_heads, l.num_kv_heads, h) < opts.num_kv_heads
            &&& 0 <= piece < l.cfg.grid_dim.1
            &&& l.cfg.grid_dim.1 == l.d_split == split
        }),
{
    lemma_groups_of_heads(opts.num_q_heads as int, opts.num_kv_heads as int, h);
    lemma_groups_of_heads(opts.head_dim as int, split, e);
}

/// What a decode launch leaves alone: position, rotated elements and the use of the norms are
/// the call's, the context has a slot for each score that is kept, and two calls that differ
/// in the number of pieces differ in nothing else.
pub proof fn law_decode_launch_settings(
    opts: FusedDecodeAttentionOpts,
    n_ctx: usize,
    use_qk_norm: bool,
    tiled: bool,
    split: int,
)
    requires
        opts.pos <= i32::MAX,
        opts.max_seq <= i32::MAX,
        opts.rotary_dim <= i32::MAX,
        n_ctx <= i32::MAX,
        1 <= split <= 16,
        (n_ctx + 2048 + opts.head_dim) * 4 <= u32::MAX,
    ensures
        ({
            let l = decode_launch(opts, n_ctx as int, use_qk_norm, tiled, split);
            let one = decode_launch(opts, n_ctx as int, use_qk_norm, tiled, 1);
            &&& l.tiled == tiled
            &&& l.pos == opts.pos
            &&& l.rotary_dim == opts.rotary_dim
            &&& (l.use_qk_norm != 0) == use_qk_norm && 0 <= l.use_qk_norm <= 1
            &&& tiled ==> l.max_seq == opts.max_seq && l.cfg.shared_mem_bytes == 4 * (1024 + 256
                + opts.head_dim)
            &&& !tiled ==> l.max_seq == n_ctx && l.cfg.shared_mem_bytes == 4 * (n_ctx + 256
                + opts.head_dim)
            &&& l.cfg.block_dim == (256u32, 1u32, 1u32)
            &&& one == (DecodeAttnLaunch {
                cfg: LaunchConfig { grid_dim: (l.cfg.grid_dim.0, 1, 1), ..l.cfg },
                d_split: 1,
                ..l
            })
        }),
{
}

/// Decode kernels keep all scores up to 16,384 positions and go in tiles above that, whether
/// the host or the device holds the position.
pub proof fn law_long_contexts_go_in_tiles(
    opts: FusedDecodeAttentionOpts,
    use_qk_norm: bool,
    split: int,
    seq_len: usize,
    end: int,
)
    ensures
        device_pos_launch(opts, use_qk_norm, split).tiled == (opts.max_seq >= 16_385),
        seq_launch(opts, seq_len, end, use_qk_norm).tiled == (end >= 16_385),
{
}

/// A batched launch covers the call: every row of the run has a block that stores it for each
/// key and value head, and one that attends for each query head; the heads and settings are the
/// call's, and a head reads the key and value head of its group.
pub proof fn law_seq_launch_covers_run(
    opts: FusedDecodeAttentionOpts,
    seq_len: usize,
    end: int,
    use_qk_norm: bool,
    h: int,
    g: int,
    r: int,
)
    requires
        0 <= h < opts.num_q_heads <= i32::MAX,
        0 <= g < opts.num_kv_heads <= opts.num_q_heads,
        opts.num_q_heads as int % opts.num_kv_heads as int == 0,
        0 <= r < seq_len <= i32::MAX,
        opts.head_dim <= i32::MAX,
        opts.rotary_dim <= i32::MAX,
        0 <= end <= i32::MAX,
    ensures
        ({
            let l = seq_launch(opts, seq_len, end, use_qk_norm);
            &&& h < l.attend.grid_dim.0 && h < l.num_q_heads
            &&& r < l.attend.grid_dim.1 && r < l.store.grid_dim.0 && r < l.seq_len
            &&& g < l.store.grid_dim.1 && g < l.num_kv_heads
            &&& l.num_q_heads == opts.num_q_heads && l.num_kv_heads == opts.num_kv_heads
            &&& l.head_dim == opts.head_dim && l.rotary_dim == opts.rotary_dim
            &&& l.seq_len == seq_len && l.max_seq == end
            &&& (l.use_qk_norm != 0) == use_qk_norm && 0 <= l.use_qk_norm <= 1
            &&& l.attend.grid_dim.0 * l.attend.grid_dim.1 * l.attend.grid_dim.2 == opts.num_q_heads
                * seq_len
            &&& l.store.grid_dim.0 * l.store.grid_dim.1 * l.store.grid_dim.2 == seq_len
                * opts.num_kv_heads
            &&& l.attend.block_dim == (256u32, 1u32, 1u32) && l.store.block_dim == (256u32, 1u32, 1u32)
            &&& 0 <= kv_head_read(l.num_q_heads, l.num_kv_heads, h) < opts.num_kv_heads
            &&& kv_head_read(l.num_q_heads, l.num_kv_heads, h) == h / (opts.num_q_heads as int
                / opts.num_kv_heads as int)
        }),
{
    lemma_groups_of_heads(opts.num_q_heads as int, opts.num_kv_heads as int, h);
}

/// Where all scores of a run are kept, there is a slot for each position before its end; the
/// store kernel has one for each of its threads.
pub proof fn law_seq_launch_slots(
    opts: FusedDecodeAttentionOpts,
    seq_len: usize,
    end: int,
    use_qk_norm: bool,
)
    requires
        0 <= end <= i32::MAX,
        (16_384 + 256 + opts.head_dim) * 4 <= u32::MAX,
    ensures
        ({
            let l = seq_launch(opts, seq_len, end, use_qk_norm);
            &&& end <= 16_384 ==> !l.tiled && l.attend.shared_mem_bytes == 4 * (end + 256
                + opts.head_dim)
            &&& end > 16_384 ==> l.tiled && l.attend.shared_mem_bytes == 4 * (1024 + 256
                + opts.head_dim)
            &&& l.store.shared_mem_bytes == 4 * l.store.block_dim.0
        }),
{
}

/// A run is normalised just where both norm weights are there.
pub proof fn law_run_normed_with_both_weights(
    opts: FusedDecodeAttentionOpts,
    lens: DecodeAttnLens,
    base_pos: usize,
    seq_len: usize,
    q_norm: Option<usize>,
    k_norm: Option<usize>,
)
    ensures
        run_launch(opts, base_pos, seq_len, q_norm, k_norm).use_qk_norm == 0 <==> (q_norm is None
            || k_norm is None),
        device_run_launch(opts, seq_len, q_norm, k_norm).use_qk_norm == 0 <==> (q_norm is None
            || k_norm is None),
        lens.qk_normed() <==> !(lens.q_norm is None || lens.k_norm is None),
{
}

/// Without a setting, heads are split into as many pieces as it takes for 32 blocks, counted in
/// powers of two up to 16: half as many pieces would not be enough unless there are 16, and one
/// piece less than these would leave blocks to fill. A width that the number does not divide is
/// not split.
pub proof fn law_split_fills_the_device(num_q_heads: usize, head_dim: usize)
    requires
        num_q_heads > 0,
    ensures
        ({
            let d = d_split(None, num_q_heads, head_dim);
            &&& d == 1 || d == 2 || d == 4 || d == 8 || d == 16
            &&& head_dim as int % 16 == 0 ==> (d - 1) * num_q_heads < 32
            &&& head_dim as int % 16 == 0 ==> d == 16 || (2 * d - 1) * num_q_heads >= 32
            &&& head_dim as int % d == 0
            &&& head_dim as int % 2 != 0 ==> d == 1
        }),
{
    let n = num_q_heads as int;
    crate::launch::lemma_ceil_div(32, n);
    crate::launch::law_blocks_cover(32, n);
    let c = ceil_div(32, n);
    let w = pow2_at_most_16(c);
    assert(wanted_split(None, num_q_heads) == w);
    assert((w - 1) * n < 32) by (nonlinear_arith)
        requires
            (c - 1) * n < 32,
            w <= c || w == 1,
            n > 0,
    ;
    if w < 16 {
        assert(c <= 2 * w - 1);
        assert((2 * w - 1) * n >= 32) by (nonlinear_arith)
            requires
                c * n >= 32,
                c <= 2 * w - 1,
                n > 0,
        ;
    }
    if head_dim as int % 16 == 0 {
        let q = head_dim as int / 16;
        assert(head_dim as int % w == 0);
    }
}

/// A setting that names a number of pieces gets it where the width can be split so; zero and
/// one leave the head whole; a setting that names none of the allowed numbers is as none.
pub proof fn law_split_setting(value: &str, num_q_heads: usize, head_dim: usize, n: int)
    requires
        signed_text(value@) == Some(n),
    ensures
        ({
            let d = d_split(Some(value), num_q_heads, head_dim);
            &&& (n == 2 || n == 4 || n == 8 || n == 16) && head_dim as int % n == 0 ==> d == n
            &&& (n == 2 || n == 4 || n == 8 || n == 16) && head_dim as int % n != 0 ==> d == 1
            &&& n == 0 || n == 1 ==> d == 1
            &&& n < 0 || n > 16 || n == 3 || n == 5 || n == 6 || n == 7 || 8 < n < 16 ==> d
                == d_split(None, num_q_heads, head_dim)
        }),
{
}

/// The softmax has a block for each row and hands on the matrix as it is. A block of several
/// threads has a slot of shared memory for each of them.
pub proof fn law_softmax_covers_rows(n_rows: usize, n_cols: usize, causal: bool, serial: bool)
    requires
        n_rows <= i32::MAX,
        n_cols <= i32::MAX,
    ensures
        ({
            let l = softmax_launch(n_rows, n_cols, causal, serial);
            &&& l.cfg.grid_dim == (n_rows as u32, 1u32, 1u32) && l.n_rows == n_rows
            &&& l.n_cols == n_cols
            &&& (l.causal != 0) == causal && 0 <= l.causal <= 1
            &&& serial <==> l.cfg.block_dim.0 == 1
            &&& !serial ==> l.cfg.block_dim.0 == 1024
            &&& l.cfg.block_dim.1 == 1 && l.cfg.block_dim.2 == 1
            &&& l.cfg.shared_mem_bytes == (if serial {
                0
            } else {
                4 * l.cfg.block_dim.0
            })
        }),
{
}

/// The lengths of a call follow from its shape: a query row has `head_dim` elements for each
/// query head, a key row as many for each key and value head, and a slab a key row for each
/// position.
pub proof fn law_call_lengths(opts: FusedDecodeAttentionOpts)
    ensures
        opts.q_dim() == opts.head_dim * opts.num_q_heads,
        opts.kv_dim() == opts.head_dim * opts.num_kv_heads,
        opts.cache_len() == opts.max_seq * opts.kv_dim(),
{
    assert(opts.max_seq * opts.num_kv_heads * opts.head_dim == opts.max_seq * (opts.num_kv_heads
        * opts.head_dim)) by (nonlinear_arith);
    assert(opts.num_q_heads * opts.head_dim == opts.head_dim * opts.num_q_heads) by (nonlinear_arith);
    assert(opts.num_kv_heads * opts.head_dim == opts.head_dim * opts.num_kv_heads)
        by (nonlinear_arith);
}

/// An accepted decode call has a query of `num_q_heads` rows of `head_dim`, new key and value
/// rows for each key and value head, slabs of `max_seq` such rows, and its position inside them.
pub proof fn law_decode_call_shape(lens: DecodeAttnLens, opts: FusedDecodeAttentionOpts)
    requires
        decode_call_ok(lens, opts),
    ensures
        lens.q == opts.num_q_heads * opts.head_dim,
        lens.k_new == opts.num_kv_heads * opts.head_dim && lens.v_new == lens.k_new,
        lens.k_cache == opts.max_seq * lens.k_new && lens.v_cache == lens.k_cache,
        (opts.pos + 1) * lens.k_new <= lens.k_cache,
{
    law_call_lengths(opts);
    let kv = opts.num_kv_heads * opts.head_dim;
    assert(0 <= kv) by (nonlinear_arith)
        requires
            kv == opts.num_kv_heads * opts.head_dim,
            0 <= opts.num_kv_heads,
            0 <= opts.head_dim,
    ;
    assert((opts.pos + 1) * kv <= opts.max_seq * kv) by (nonlinear_arith)
        requires
            opts.pos + 1 <= opts.max_seq,
            0 <= kv,
    ;
}

/// A batched call is accepted just where its rows are there and the run ends inside the slabs:
/// then every row `r` of the run lies inside the query, key, value and output rows, and its
/// position inside the slabs.
pub proof fn law_accepted_run_in_bounds(
    lens: SeqAttnLens,
    base_pos: usize,
    seq_len: usize,
    opts: FusedDecodeAttentionOpts,
    r: int,
)
    requires
        into_complaint(lens, base_pos, seq_len, opts) is None,
        0 <= r < seq_len,
    ensures
        (r + 1) * (opts.num_q_heads * opts.head_dim) <= lens.q_seq,
        (r + 1) * (opts.num_q_heads * opts.head_dim) <= lens.out_seq,
        (r + 1) * (opts.num_kv_heads * opts.head_dim) <= lens.k_seq,
        (r + 1) * (opts.num_kv_heads * opts.head_dim) <= lens.v_seq,
        lens.k_cache == opts.max_seq * (opts.num_kv_heads * opts.head_dim),
        lens.v_cache == lens.k_cache,
        base_pos + r < opts.max_seq,
{
    law_call_lengths(opts);
    let q = opts.num_q_heads * opts.head_dim;
    let kv = opts.num_kv_heads * opts.head_dim;
    assert(0 <= q && 0 <= kv) by (nonlinear_arith)
        requires
            q == opts.num_q_heads * opts.head_dim,
            kv == opts.num_kv_heads * opts.head_dim,
            0 <= opts.num_q_heads,
            0 <= opts.num_kv_heads,
            0 <= opts.head_dim,
    ;
    assert((r + 1) * q <= seq_len * q && (r + 1) * kv <= seq_len * kv) by (nonlinear_arith)
        requires
            r + 1 <= seq_len,
            0 <= q,
            0 <= kv,
    ;
}

/// A run with enough rows and slabs of the right length is refused only for where it ends, and
/// a run with all of these is not refused.
pub proof fn law_run_refused_only_for_cause(
    lens: SeqAttnLens,
    base_pos: usize,
    seq_len: usize,
    opts: FusedDecodeAttentionOpts,
)
    requires
        lens.q_seq >= seq_len * (opts.num_q_heads * opts.head_dim),
        lens.k_seq >= seq_len * (opts.num_kv_heads * opts.head_dim),
        lens.v_seq >= seq_len * (opts.num_kv_heads * opts.head_dim),
        lens.out_seq >= seq_len * (opts.num_q_heads * opts.head_dim),
        lens.k_cache == opts.max_seq * (opts.num_kv_heads * opts.head_dim),
        lens.v_cache == lens.k_cache,
    ensures
        into_complaint(lens, base_pos, seq_len, opts) is None <==> base_pos + seq_len
            <= opts.max_seq,
        pos_dev_lens_ok(lens, seq_len, opts),
        lens.q_seq == seq_len * (opts.num_q_heads * opts.head_dim) && lens.k_seq == seq_len * (
        opts.num_kv_heads * opts.head_dim) && lens.v_seq == lens.k_seq ==> (exact_complaint(
            lens,
            base_pos,
            seq_len,
            opts,
        ) is None <==> base_pos + seq_len <= opts.max_seq),
{
    law_call_lengths(opts);
}

/// What is wrong with a run is looked at in order: its queries, its keys and values, the output,
/// the slabs, and last where it ends. A call into a fresh buffer leaves the output out and wants
/// exact lengths; the complaints are the same otherwise.
pub proof fn law_run_complains_in_order(
    lens: SeqAttnLens,
    base_pos: usize,
    seq_len: usize,
    opts: FusedDecodeAttentionOpts,
)
    ensures
        ({
            let q = seq_len * (opts.num_q_heads * opts.head_dim);
            let kv = seq_len * (opts.num_kv_heads * opts.head_dim);
            let slab = opts.max_seq * (opts.num_kv_heads * opts.head_dim);
            let c = into_complaint(lens, base_pos, seq_len, opts);
            let x = exact_complaint(lens, base_pos, seq_len, opts);
            let kv_enough = lens.k_seq >= kv && lens.v_seq >= kv;
            let kv_exact = lens.k_seq == kv && lens.v_seq == kv;
            let slabs = lens.k_cache == slab && lens.v_cache == slab;
            let kv_says = Some(
                kv_rows_text(seq_len, (opts.num_kv_heads * opts.head_dim) as int),
            );
            &&& lens.q_seq < q ==> c == Some(
                q_rows_text(
                    lens.q_seq,
                    " < "@,
                    seq_len,
                    (opts.num_q_heads * opts.head_dim) as int,
                ),
            )
            &&& lens.q_seq != q ==> x == Some(
                q_rows_text(
                    lens.q_seq,
                    " != "@,
                    seq_len,
                    (opts.num_q_heads * opts.head_dim) as int,
                ),
            )
            &&& lens.q_seq >= q && !kv_enough ==> c == kv_says
            &&& lens.q_seq == q && !kv_exact ==> x == kv_says
            &&& lens.q_seq >= q && kv_enough && lens.out_seq < q ==> c == Some(
                out_rows_text(lens.out_seq, seq_len, (opts.num_q_heads * opts.head_dim) as int),
            )
            &&& lens.q_seq >= q && kv_enough && lens.out_seq >= q && !slabs ==> c == Some(
                slab_text(slab),
            )
            &&& lens.q_seq == q && kv_exact && !slabs ==> x == Some(slab_text(slab))
            &&& lens.q_seq >= q && kv_enough && lens.out_seq >= q && slabs && base_pos + seq_len
                > opts.max_seq ==> c == Some(end_text(base_pos + seq_len, opts.max_seq))
            &&& lens.q_seq == q && kv_exact && slabs && base_pos + seq_len > opts.max_seq ==> x
                == Some(end_text(base_pos + seq_len, opts.max_seq))
        }),
{
    law_call_lengths(opts);
}

/// The attention kernels may ask for 96 KiB of shared memory and run in blocks of 256 threads. The
/// decode and the batched kernels have the same limits.
pub proof fn law_attention_limits()
    ensures
        MAX_DYNAMIC_SHMEM_BYTES == 96 * 1024,
        ATTN_BLOCK == 256,
        NON_TILED_DECODE_ATTN_N_CTX_MAX == NON_TILED_PREFILL_ATTN_N_CTX_MAX,
        FUSED_DECODE_ATTN_TILED_TILE_K == FUSED_PREFILL_ATTN_TILED_TILE_K,
{
}

/// A call without query heads is split as one with a single head.
pub proof fn law_no_heads_split_as_one(head_dim: usize)
    ensures
        d_split(None, 0, head_dim) == d_split(None, 1, head_dim),
        head_dim as int % 16 == 0 ==> d_split(None, 0, head_dim) == 16,
{
    crate::launch::lemma_ceil_div(32, 1);
}

} // verus!
