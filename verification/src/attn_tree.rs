//! Attention of a few queries over a context, each query with a mask of its own.

use vstd::prelude::*;

use crate::error::CudaInitError;
use crate::launch::{ceil_div, div_ceil, LaunchConfig};
use crate::text::{dec, push_dec};

verus! {

/// Threads of a block.
pub const TREE_ATTN_THREADS: u32 = 128;

/// Shape and settings of a masked attention call. Floating-point settings are held as bit
/// patterns.
#[derive(Clone, Copy, Debug, PartialEq, Eq, Structural)]
pub struct TreeAttentionOpts {
    pub q_tokens: usize,
    pub num_q_heads: usize,
    pub num_kv_heads: usize,
    pub head_dim: usize,
    pub ctx_len: usize,
    /// 32-bit words in a row of the mask.
    pub words_per_row: usize,
    pub attn_scale_bits: u32,
    pub softcap_bits: u32,
}

impl TreeAttentionOpts {
    pub open spec fn q_len(self) -> int {
        self.q_tokens * self.num_q_heads * self.head_dim
    }

    pub open spec fn kv_len(self) -> int {
        self.ctx_len * self.num_kv_heads * self.head_dim
    }

    pub open spec fn mask_len(self) -> int {
        self.q_tokens * self.words_per_row
    }

    /// The lengths that follow from the shape can be held in a `usize`.
    pub open spec fn lengths_fit(self) -> bool {
        &&& self.q_tokens * self.num_q_heads <= usize::MAX
        &&& self.q_len() <= usize::MAX
        &&& self.ctx_len * self.num_kv_heads <= usize::MAX
        &&& self.kv_len() <= usize::MAX
        &&& self.mask_len() <= usize::MAX
    }

    /// The first thing wrong with a call.
    pub open spec fn complaint(self, q: usize, k: usize, v: usize, mask: usize) -> Option<Seq<char>> {
        if q != self.q_len() {
            Some(
                "tree_decode_attention: q len "@ + dec(q as nat) + " != expected "@ + dec(
                    self.q_len() as nat,
                ),
            )
        } else if k != self.kv_len() || v != self.kv_len() {
            Some(
                "tree_decode_attention: kv len mismatch ("@ + dec(k as nat) + ", "@ + dec(v as nat)
                    + ") vs "@ + dec(self.kv_len() as nat),
            )
        } else if mask != self.mask_len() {
            Some(
                "tree_decode_attention: mask len "@ + dec(mask as nat) + " != expected "@ + dec(
                    self.mask_len() as nat,
                ),
            )
        } else if self.words_per_row != ceil_div(self.ctx_len as int, 32) {
            Some(
                "tree_decode_attention: words_per_row "@ + dec(self.words_per_row as nat)
                    + " != ctx_len.div_ceil(32) "@ + dec(ceil_div(self.ctx_len as int, 32) as nat),
            )
        } else {
            None
        }
    }
}

/// Launch of a masked attention call, with its integer arguments.
#[derive(Clone, Copy, Debug, PartialEq, Eq)]
pub struct TreeAttnLaunch {
    pub cfg: LaunchConfig,
    /// Elements of the output.
    pub out_len: usize,
    pub q_tokens: i32,
    pub num_q_heads: i32,
    pub num_kv_heads: i32,
    pub head_dim: i32,
    pub ctx_len: i32,
    pub words_per_row: i32,
}

/// Checks a masked attention call and lays out its launch: one block of threads for each
/// head and query, with room for the scores of the context.
pub fn tree_decode_attention(
    q_len: usize,
    k_len: usize,
    v_len: usize,
    mask_len: usize,
    opts: &TreeAttentionOpts,
) -> (r: Result<TreeAttnLaunch, CudaInitError>)
    requires
        opts.lengths_fit(),
        opts.complaint(q_len, k_len, v_len, mask_len) is None ==> ((opts.ctx_len as u32)
            + TREE_ATTN_THREADS) * 4 <= u32::MAX,
    ensures
        r is Ok == opts.complaint(q_len, k_len, v_len, mask_len) is None,
        r matches Ok(l) ==> l == (TreeAttnLaunch {
            cfg: LaunchConfig {
                grid_dim: (opts.num_q_heads as u32, opts.q_tokens as u32, 1),
                block_dim: (TREE_ATTN_THREADS, 1, 1),
                shared_mem_bytes: (((opts.ctx_len as u32) + TREE_ATTN_THREADS) * 4) as u32,
            },
            out_len: opts.q_len() as usize,
            q_tokens: opts.q_tokens as i32,
            num_q_heads: opts.num_q_heads as i32,
            num_kv_heads: opts.num_kv_heads as i32,
            head_dim: opts.head_dim as i32,
            ctx_len: opts.ctx_len as i32,
            words_per_row: opts.words_per_row as i32,
        }),
        r matches Err(e) ==> opts.complaint(q_len, k_len, v_len, mask_len) matches Some(t)
            && e.says(t),
        r is Ok <==> {
            &&& q_len == opts.q_tokens * opts.num_q_heads * opts.head_dim
            &&& k_len == opts.ctx_len * opts.num_kv_heads * opts.head_dim && v_len == k_len
            &&& mask_len == opts.q_tokens * opts.words_per_row
            &&& opts.words_per_row == (opts.ctx_len + 31) / 32
        },
        r matches Ok(l) ==> l.out_len == q_len && l.cfg.block_dim == (128u32, 1u32, 1u32),
        r matches Ok(l) ==> {
            &&& l.cfg.grid_dim == (opts.num_q_heads as u32, opts.q_tokens as u32, 1u32)
            &&& opts.ctx_len <= u32::MAX ==> l.cfg.shared_mem_bytes == 4 * (opts.ctx_len + 128)
            &&& l.q_tokens == opts.q_tokens as i32 && l.num_q_heads == opts.num_q_heads as i32
            &&& l.num_kv_heads == opts.num_kv_heads as i32 && l.head_dim == opts.head_dim as i32
            &&& l.ctx_len == opts.ctx_len as i32 && l.words_per_row == opts.words_per_row as i32
        },
{
    let want_q: usize = opts.q_tokens * opts.num_q_heads * opts.head_dim;
    let want_kv: usize = opts.ctx_len * opts.num_kv_heads * opts.head_dim;
    let want_mask: usize = opts.q_tokens * opts.words_per_row;
    if q_len != want_q {
        let mut s: String = "tree_decode_attention: q len ".to_owned();
        push_dec(&mut s, q_len as u64);
        s.append(" != expected ");
        push_dec(&mut s, want_q as u64);
        return Err(CudaInitError::DriverMissing(s));
    }
    if k_len != want_kv || v_len != want_kv {
        let mut s: String = "tree_decode_attention: kv len mismatch (".to_owned();
        push_dec(&mut s, k_len as u64);
        s.append(", ");
        push_dec(&mut s, v_len as u64);
        s.append(") vs ");
        push_dec(&mut s, want_kv as u64);
        return Err(CudaInitError::DriverMissing(s));
    }
    if mask_len != want_mask {
        let mut s: String = "tree_decode_attention: mask len ".to_owned();
        push_dec(&mut s, mask_len as u64);
        s.append(" != expected ");
        push_dec(&mut s, want_mask as u64);
        return Err(CudaInitError::DriverMissing(s));
    }
    let words: usize = div_ceil(opts.ctx_len, 32);
    if opts.words_per_row != words {
        let mut s: String = "tree_decode_attention: words_per_row ".to_owned();
        push_dec(&mut s, opts.words_per_row as u64);
        s.append(" != ctx_len.div_ceil(32) ");
        push_dec(&mut s, words as u64);
        return Err(CudaInitError::DriverMissing(s));
    }
    let ctx: u32 = #[verifier::truncate] (opts.ctx_len as u32);
    Ok(
        TreeAttnLaunch {
            cfg: LaunchConfig {
                grid_dim: (
                    #[verifier::truncate] (opts.num_q_heads as u32),
                    #[verifier::truncate] (opts.q_tokens as u32),
                    1,
                ),
                block_dim: (TREE_ATTN_THREADS, 1, 1),
                shared_mem_bytes: (ctx + TREE_ATTN_THREADS) * 4,
            },
            out_len: want_q,
            q_tokens: #[verifier::truncate] (opts.q_tokens as i32),
            num_q_heads: #[verifier::truncate] (opts.num_q_heads as i32),
            num_kv_heads: #[verifier::truncate] (opts.num_kv_heads as i32),
            head_dim: #[verifier::truncate] (opts.head_dim as i32),
            ctx_len: #[verifier::truncate] (opts.ctx_len as i32),
            words_per_row: #[verifier::truncate] (opts.words_per_row as i32),
        },
    )
}

/// Every position of the context has its bit in a row of an accepted mask, and no row has
/// a word without a position.
pub proof fn law_mask_covers_context(opts: TreeAttentionOpts, q: usize, k: usize, v: usize, mask: usize)
    requires
        opts.complaint(q, k, v, mask) is None,
    ensures
        opts.words_per_row * 32 >= opts.ctx_len,
        opts.ctx_len > 0 ==> (opts.words_per_row - 1) * 32 < opts.ctx_len,
{
    crate::launch::law_blocks_cover(opts.ctx_len as int, 32);
}

/// A call is accepted just where queries, keys, values and mask have the lengths of its shape,
/// and the mask a bit for each position in the fewest words.
pub proof fn law_tree_call_accepts(opts: TreeAttentionOpts, q: usize, k: usize, v: usize, mask: usize)
    ensures
        opts.complaint(q, k, v, mask) is None <==> {
            &&& q == opts.q_tokens * (opts.num_q_heads * opts.head_dim)
            &&& k == opts.ctx_len * (opts.num_kv_heads * opts.head_dim)
            &&& v == k
            &&& mask == opts.words_per_row * opts.q_tokens
            &&& opts.words_per_row * 32 >= opts.ctx_len
            &&& opts.words_per_row * 32 < opts.ctx_len + 32
        },
{
    assert(opts.q_tokens * opts.num_q_heads * opts.head_dim == opts.q_tokens * (opts.num_q_heads
        * opts.head_dim)) by (nonlinear_arith);
    assert(opts.ctx_len * opts.num_kv_heads * opts.head_dim == opts.ctx_len * (opts.num_kv_heads
        * opts.head_dim)) by (nonlinear_arith);
    assert(opts.words_per_row * opts.q_tokens == opts.q_tokens * opts.words_per_row)
        by (nonlinear_arith);
}

/// What is said of a masked attention call, in the order in which it is looked at.
pub proof fn law_tree_call_says(opts: TreeAttentionOpts, q: usize, k: usize, v: usize, mask: usize)
    ensures
        ({
            let c = opts.complaint(q, k, v, mask);
            let q_want = opts.q_tokens * opts.num_q_heads * opts.head_dim;
            let kv_want = opts.ctx_len * opts.num_kv_heads * opts.head_dim;
            let mask_want = opts.q_tokens * opts.words_per_row;
            let words = (opts.ctx_len + 31) / 32;
            let kv_ok = k == kv_want && v == kv_want;
            &&& q != q_want ==> c == Some(
                "tree_decode_attention: q len "@ + dec(q as nat) + " != expected "@ + dec(
                    q_want as nat,
                ),
            )
            &&& q == q_want && !kv_ok ==> c == Some(
                "tree_decode_attention: kv len mismatch ("@ + dec(k as nat) + ", "@ + dec(v as nat)
                    + ") vs "@ + dec(kv_want as nat),
            )
            &&& q == q_want && kv_ok && mask != mask_want ==> c == Some(
                "tree_decode_attention: mask len "@ + dec(mask as nat) + " != expected "@ + dec(
                    mask_want as nat,
                ),
            )
            &&& q == q_want && kv_ok && mask == mask_want && opts.words_per_row != words ==> c
                == Some(
                "tree_decode_attention: words_per_row "@ + dec(opts.words_per_row as nat)
                    + " != ctx_len.div_ceil(32) "@ + dec(words as nat),
            )
        }),
{
}

/// Where the query heads fall into equal groups, every head of a launch with the call's heads
/// reads the key and value head of its group.
pub proof fn law_tree_heads_read_their_group(opts: TreeAttentionOpts, l: TreeAttnLaunch, h: int)
    requires
        l.num_q_heads == opts.num_q_heads,
        l.num_kv_heads == opts.num_kv_heads,
        0 <= h < opts.num_q_heads,
        0 < opts.num_kv_heads,
        opts.num_q_heads as int % opts.num_kv_heads as int == 0,
    ensures
        0 <= crate::attn::kv_head_read(l.num_q_heads, l.num_kv_heads, h) < opts.num_kv_heads,
{
    crate::attn::lemma_groups_of_heads(opts.num_q_heads as int, opts.num_kv_heads as int, h);
}

} // verus!
