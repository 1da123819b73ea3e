//! Which path a decode, prefill or verification call takes, and what it leaves in the
//! cache.

use vstd::prelude::*;

use crate::flags::DecodeFlags;
use crate::kv_cache::KvCacheSlot;
use crate::layer::{
    all_batchable, all_capturable, all_device, batched_supports_layers, decode_device_supports_layers,
    decode_graph_supports_layers, FullPipelineLayer,
};
use crate::prefill::{SeqAttn, SeqPass};

verus! {

/// A way to decode a token.
#[derive(Clone, Copy, Debug, PartialEq, Eq, Structural)]
pub enum DecodeAttempt {
    /// On the device, with a graph where one can be had.
    Graph,
    /// On the device, kernel by kernel.
    Eager,
    /// Through the host.
    Host,
}

/// The ways to decode a token on the device, in the order in which they are tried.
pub open spec fn device_attempts(
    flags: DecodeFlags,
    layers: Seq<FullPipelineLayer>,
    x_len: usize,
    hidden: usize,
) -> Seq<DecodeAttempt> {
    if x_len != hidden || layers.len() == 0 {
        seq![]
    } else if flags.decode_graph && !flags.host_fallback && all_capturable(layers) {
        seq![DecodeAttempt::Graph, DecodeAttempt::Eager]
    } else {
        seq![DecodeAttempt::Eager]
    }
}

/// The ways to decode a token, in the order in which they are tried. The first one
/// that delivers a row ends the call; if none does, the call fails.
pub open spec fn decode_attempts(
    flags: DecodeFlags,
    layers: Seq<FullPipelineLayer>,
    x_len: usize,
    hidden: usize,
) -> Seq<DecodeAttempt> {
    if x_len != hidden || layers.len() == 0 {
        seq![]
    } else if !flags.host_fallback && all_device(layers) {
        device_attempts(flags, layers, x_len, hidden).push(DecodeAttempt::Host)
    } else {
        seq![DecodeAttempt::Host]
    }
}

/// The ways to decode a token on the device.
pub fn decode_token_device(
    flags: &DecodeFlags,
    layers: &[FullPipelineLayer],
    x_len: usize,
    hidden: usize,
) -> (r: Vec<DecodeAttempt>)
    ensures
        r@ == device_attempts(*flags, layers@, x_len, hidden),
        x_len != hidden || layers@.len() == 0 ==> r@.len() == 0,
        x_len == hidden && layers@.len() > 0 ==> r@.len() > 0 && r@.last() == DecodeAttempt::Eager,
        r@.contains(DecodeAttempt::Graph) ==> r@ == seq![DecodeAttempt::Graph, DecodeAttempt::Eager]
            && flags.decode_graph && !flags.host_fallback,
{
    let mut r: Vec<DecodeAttempt> = Vec::new();
    if x_len != hidden || layers.len() == 0 {
        return r;
    }
    if flags.decode_graph && !flags.host_fallback && decode_graph_supports_layers(layers) {
        r.push(DecodeAttempt::Graph);
    }
    r.push(DecodeAttempt::Eager);
    assert(r@ =~= device_attempts(*flags, layers@, x_len, hidden));
    r
}

/// The ways to decode a token.
pub fn decode_token(
    flags: &DecodeFlags,
    layers: &[FullPipelineLayer],
    x_len: usize,
    hidden: usize,
) -> (r: Vec<DecodeAttempt>)
    ensures
        r@ == decode_attempts(*flags, layers@, x_len, hidden),
        x_len != hidden || layers@.len() == 0 ==> r@.len() == 0,
        x_len == hidden && layers@.len() > 0 ==> r@.len() > 0 && r@.last() == DecodeAttempt::Host,
        flags.host_fallback && x_len == hidden && layers@.len() > 0 ==> r@
            == seq![DecodeAttempt::Host],
{
    if x_len != hidden || layers.len() == 0 {
        return Vec::new();
    }
    let mut r: Vec<DecodeAttempt> = if !flags.host_fallback && decode_device_supports_layers(
        layers,
    ) {
        decode_token_device(flags, layers, x_len, hidden)
    } else {
        Vec::new()
    };
    r.push(DecodeAttempt::Host);
    assert(r@ =~= decode_attempts(*flags, layers@, x_len, hidden));
    r
}

/// The position that a token is decoded at: the first that is not filled, `None` if
/// the cache is full or not there.
pub open spec fn token_position(kv: KvCacheSlot) -> Option<usize> {
    match kv.cache {
        Some(c) => if c.len < c.max_seq {
            Some(c.len)
        } else {
            None
        },
        None => None,
    }
}

pub fn next_position(kv: &KvCacheSlot) -> (r: Option<usize>)
    ensures
        r == token_position(*kv),
        match kv.cache {
            None => r is None,
            Some(c) => if c.len >= c.max_seq {
                r is None
            } else {
                r == Some(c.len)
            },
        },
{
    match &kv.cache {
        Some(c) => if c.len < c.max_seq {
            Some(c.len)
        } else {
            None
        },
        None => None,
    }
}

/// A token that was decoded at the next position is counted, and the count stays
/// within the slabs.
pub fn token_done(kv: &mut KvCacheSlot, pos: usize)
    requires
        old(kv).wf(),
        token_position(*old(kv)) == Some(pos),
    ensures
        final(kv).wf(),
        final(kv).bounded(),
        final(kv).positions() == old(kv).positions() + 1,
        final(kv).positions() == pos + 1,
        final(kv).same_slabs(*old(kv)),
{
    kv.advance(pos + 1);
}

/// The rows of a batched pass that was run are counted, and the count stays within the slabs.
pub fn pass_done(kv: &mut KvCacheSlot, pass: &SeqPass)
    requires
        old(kv).wf(),
        old(kv).cache matches Some(c) && pass.base_pos + pass.seq_len <= c.max_seq,
    ensures
        final(kv).wf(),
        final(kv).bounded(),
        final(kv).positions() == pass.base_pos + pass.seq_len,
        final(kv).same_slabs(*old(kv)),
{
    kv.advance(pass.base_pos + pass.seq_len);
}

/// A way to take in a prompt.
#[derive(Clone, Copy, Debug, PartialEq, Eq, Structural)]
pub enum PrefillAttempt {
    /// One batched pass.
    SeqDevice,
    /// Token by token, from an empty cache.
    PerToken,
}

/// The ways to take in a prompt, in the order in which they are tried.
pub open spec fn prefill_attempts(
    flags: DecodeFlags,
    layers: Seq<FullPipelineLayer>,
    x_len: usize,
    seq_len: usize,
    hidden: usize,
) -> Seq<PrefillAttempt> {
    if x_len != seq_len * hidden {
        seq![]
    } else if !flags.prefill_host_fallback && all_batchable(layers) {
        seq![PrefillAttempt::SeqDevice, PrefillAttempt::PerToken]
    } else {
        seq![PrefillAttempt::PerToken]
    }
}

/// The ways to take in a prompt.
pub fn prefill_q4(
    flags: &DecodeFlags,
    layers: &[FullPipelineLayer],
    x_len: usize,
    seq_len: usize,
    hidden: usize,
) -> (r: Vec<PrefillAttempt>)
    requires
        seq_len * hidden <= usize::MAX,
    ensures
        r@ == prefill_attempts(*flags, layers@, x_len, seq_len, hidden),
        x_len != seq_len * hidden ==> r@.len() == 0,
        x_len == seq_len * hidden ==> r@.len() > 0 && r@.last() == PrefillAttempt::PerToken,
        flags.prefill_host_fallback && x_len == seq_len * hidden ==> r@
            == seq![PrefillAttempt::PerToken],
{
    let mut r: Vec<PrefillAttempt> = Vec::new();
    if x_len != seq_len * hidden {
        return r;
    }
    if !flags.prefill_host_fallback && batched_supports_layers(layers) {
        r.push(PrefillAttempt::SeqDevice);
    }
    r.push(PrefillAttempt::PerToken);
    assert(r@ =~= prefill_attempts(*flags, layers@, x_len, seq_len, hidden));
    r
}

/// How a batched prefill begins.
#[derive(Clone, Copy, Debug, PartialEq, Eq, Structural)]
pub enum SeqPrefill {
    Refused,
    /// A prompt of one token is decoded as a token.
    SingleToken,
    Batched,
}

/// Begins a batched prefill: the prompt goes into an empty cache.
pub fn prefill_q4_seq_device(
    kv: &mut KvCacheSlot,
    layers: &[FullPipelineLayer],
    x_len: usize,
    seq_len: usize,
    hidden: usize,
) -> (r: SeqPrefill)
    requires
        old(kv).wf(),
        seq_len * hidden <= usize::MAX,
    ensures
        r == if x_len != seq_len * hidden || layers@.len() == 0 || seq_len == 0 {
            SeqPrefill::Refused
        } else if seq_len == 1 {
            SeqPrefill::SingleToken
        } else {
            SeqPrefill::Batched
        },
        r == SeqPrefill::Refused ==> *final(kv) == *old(kv),
        r != SeqPrefill::Refused ==> final(kv).positions() == 0 && final(kv).bounded(),
        final(kv).wf(),
        final(kv).same_slabs(*old(kv)),
{
    if x_len != seq_len * hidden || layers.len() == 0 || seq_len == 0 {
        return SeqPrefill::Refused;
    }
    kv.reset_kv_cache();
    if seq_len == 1 {
        SeqPrefill::SingleToken
    } else {
        SeqPrefill::Batched
    }
}

/// The pass of a batched prefill, `None` if the prompt is longer than the cache.
pub fn prefill_pass(flags: &DecodeFlags, kv: &KvCacheSlot, seq_len: usize) -> (r: Option<SeqPass>)
    ensures
        r == match kv.cache {
            Some(c) => if seq_len <= c.max_seq {
                Some(
                    SeqPass {
                        base_pos: 0,
                        seq_len,
                        attn: if flags.prefill_batched_attn {
                            SeqAttn::Batched
                        } else {
                            SeqAttn::PerPosition
                        },
                    },
                )
            } else {
                None
            },
            None => None,
        },
        r matches Some(p) ==> p.base_pos + p.seq_len == seq_len && seq_len <= kv.cache->0.max_seq,
{
    match &kv.cache {
        Some(c) => if seq_len <= c.max_seq {
            let attn: SeqAttn = if flags.prefill_batched_attn {
                SeqAttn::Batched
            } else {
                SeqAttn::PerPosition
            };
            Some(SeqPass { base_pos: 0, seq_len, attn })
        } else {
            None
        },
        None => None,
    }
}

/// How drafted tokens are verified.
#[derive(Clone, Copy, Debug, PartialEq, Eq, Structural)]
pub enum SpecRoute {
    /// Nothing was drafted: an empty result.
    Empty,
    Refused,
    /// Token by token.
    Sequential,
    /// One batched pass.
    Batched,
}

/// Every row has the same width.
pub open spec fn rows_of_width<T>(rows: Seq<Vec<T>>, width: usize) -> bool {
    forall|i: int| 0 <= i < rows.len() ==> (#[trigger] rows[i])@.len() == width
}

fn all_rows_of_width<T>(rows: &[Vec<T>], width: usize) -> (r: bool)
    ensures
        r == rows_of_width(rows@, width),
{
    let mut i: usize = 0;
    while i < rows.len()
        invariant
            i <= rows@.len(),
            forall|k: int| 0 <= k < i ==> (#[trigger] rows@[k])@.len() == width,
        decreases rows@.len() - i,
    {
        if rows[i].len() != width {
            return false;
        }
        i = i + 1;
    }
    true
}

/// The route of a run of drafted tokens.
pub open spec fn chain_route<T>(
    flags: DecodeFlags,
    layers: Seq<FullPipelineLayer>,
    rows: Seq<Vec<T>>,
    hidden: usize,
) -> SpecRoute {
    if rows.len() == 0 {
        SpecRoute::Empty
    } else if !rows_of_width(rows, hidden) {
        SpecRoute::Refused
    } else if !all_batchable(layers) || !flags.spec_batched || rows.len() < flags.spec_batched_min_n {
        SpecRoute::Sequential
    } else {
        SpecRoute::Batched
    }
}

/// The route of a run of drafted tokens. It is the same whether or not the tokens stay
/// in the cache.
pub fn decode_tokens_speculative<T>(
    flags: &DecodeFlags,
    layers: &[FullPipelineLayer],
    x_per_token: &[Vec<T>],
    hidden: usize,
) -> (r: SpecRoute)
    ensures
        r == chain_route(*flags, layers@, x_per_token@, hidden),
        r == SpecRoute::Empty <==> x_per_token@.len() == 0,
        r == SpecRoute::Refused ==> exists|i: int|
            0 <= i < x_per_token@.len() && (#[trigger] x_per_token@[i])@.len() != hidden,
        r == SpecRoute::Batched ==> flags.spec_batched && x_per_token@.len()
            >= flags.spec_batched_min_n,
{
    let n: usize = x_per_token.len();
    if n == 0 {
        return SpecRoute::Empty;
    }
    if !all_rows_of_width(x_per_token, hidden) {
        return SpecRoute::Refused;
    }
    if !batched_supports_layers(layers) || !flags.spec_batched || n < flags.spec_batched_min_n {
        SpecRoute::Sequential
    } else {
        SpecRoute::Batched
    }
}

/// Nodes that an ancestor set has room for.
pub const MAX_TREE_NODES: usize = 64;

/// Whether a drafted tree can be verified in one batched pass.
pub fn decode_tokens_speculative_tree_keep_cache<T>(
    layers: &[FullPipelineLayer],
    x_per_node: &[Vec<T>],
    ancestors: &[u64],
    hidden: usize,
) -> (r: bool)
    ensures
        r == (0 < x_per_node@.len() <= MAX_TREE_NODES && x_per_node@.len() == ancestors@.len()
            && rows_of_width(x_per_node@, hidden) && all_batchable(layers@)),
        r ==> 1 <= x_per_node@.len() <= 64 && ancestors@.len() == x_per_node@.len() && all_batchable(
            layers@,
        ),
        x_per_node@.len() == 64 && ancestors@.len() == 64 && all_batchable(layers@) && rows_of_width(
            x_per_node@,
            hidden,
        ) ==> r,
{
    let n: usize = x_per_node.len();
    if n == 0 || n > MAX_TREE_NODES || n != ancestors.len() {
        return false;
    }
    all_rows_of_width(x_per_node, hidden) && batched_supports_layers(layers)
}

/// Whether a batched verification is begun at all.
pub fn decode_tokens_speculative_seq_device(
    layers: &[FullPipelineLayer],
    x_len: usize,
    seq_len: usize,
    hidden: usize,
) -> (r: bool)
    requires
        seq_len * hidden <= usize::MAX,
    ensures
        r == (x_len == seq_len * hidden && layers@.len() > 0 && seq_len > 0),
{
    x_len == seq_len * hidden && layers.len() > 0 && seq_len > 0
}

/// Whether a batched verification of a tree is begun at all: there must be one ancestor
/// set for each node.
pub fn decode_tokens_speculative_tree_seq_device(
    layers: &[FullPipelineLayer],
    x_len: usize,
    seq_len: usize,
    hidden: usize,
    ancestors: &[u64],
) -> (r: bool)
    requires
        seq_len * hidden <= usize::MAX,
    ensures
        r == (ancestors@.len() == seq_len && x_len == seq_len * hidden && layers@.len() > 0
            && seq_len > 0),
{
    ancestors.len() == seq_len && decode_tokens_speculative_seq_device(
        layers,
        x_len,
        seq_len,
        hidden,
    )
}

/// How a batched verification goes on once the cache is in shape.
#[derive(Clone, Copy, Debug, PartialEq, Eq, Structural)]
pub enum InnerRoute {
    Refused,
    /// Over fixed buffers, with a graph where one can be had.
    Scratch(SeqPass),
    /// Over buffers that are allocated on the way.
    Plain(SeqPass),
}

/// The route of a batched verification that starts at `base_pos`. A tree needs the fixed
/// buffers.
pub open spec fn inner_route(
    flags: DecodeFlags,
    kv: KvCacheSlot,
    base_pos: usize,
    seq_len: usize,
    tree: bool,
) -> InnerRoute {
    match kv.cache {
        None => InnerRoute::Refused,
        Some(c) => if base_pos + seq_len > c.max_seq {
            InnerRoute::Refused
        } else if flags.spec_scratch {
            InnerRoute::Scratch(
                SeqPass {
                    base_pos,
                    seq_len,
                    attn: if tree {
                        SeqAttn::Tree
                    } else {
                        SeqAttn::AtDevicePos
                    },
                },
            )
        } else if tree {
            InnerRoute::Refused
        } else {
            InnerRoute::Plain(SeqPass { base_pos, seq_len, attn: SeqAttn::Batched })
        },
    }
}

/// The route of a batched verification that starts at `base_pos`.
pub fn decode_tokens_speculative_seq_device_inner(
    flags: &DecodeFlags,
    kv: &KvCacheSlot,
    base_pos: usize,
    seq_len: usize,
    tree: bool,
) -> (r: InnerRoute)
    ensures
        r == inner_route(*flags, *kv, base_pos, seq_len, tree),
        r matches InnerRoute::Scratch(p) ==> p.base_pos + p.seq_len == base_pos + seq_len
            && base_pos + seq_len <= kv.cache->0.max_seq,
        r matches InnerRoute::Plain(p) ==> p.base_pos + p.seq_len == base_pos + seq_len
            && base_pos + seq_len <= kv.cache->0.max_seq,
        r is Refused <==> (kv.cache is None || base_pos + seq_len > kv.cache->0.max_seq || (tree
            && !flags.spec_scratch)),
        tree && !(r is Refused) ==> r == InnerRoute::Scratch(
            SeqPass { base_pos, seq_len, attn: SeqAttn::Tree },
        ),
        !tree && flags.spec_scratch && !(r is Refused) ==> r == InnerRoute::Scratch(
            SeqPass { base_pos, seq_len, attn: SeqAttn::AtDevicePos },
        ),
        !tree && !flags.spec_scratch && !(r is Refused) ==> r == InnerRoute::Plain(
            SeqPass { base_pos, seq_len, attn: SeqAttn::Batched },
        ),
{
    let c = match &kv.cache {
        Some(c) => c,
        None => return InnerRoute::Refused,
    };
    if base_pos > c.max_seq || seq_len > c.max_seq - base_pos {
        return InnerRoute::Refused;
    }
    if flags.spec_scratch {
        let attn: SeqAttn = if tree {
            SeqAttn::Tree
        } else {
            SeqAttn::AtDevicePos
        };
        return InnerRoute::Scratch(SeqPass { base_pos, seq_len, attn });
    }
    if tree {
        return InnerRoute::Refused;
    }
    InnerRoute::Plain(SeqPass { base_pos, seq_len, attn: SeqAttn::Batched })
}

/// What happens to the cache when a run of tokens ends or fails.
#[derive(Clone, Copy, Debug, PartialEq, Eq, Structural)]
pub enum RunPolicy {
    /// A prompt: the tokens stay.
    Prompt,
    /// Drafted tokens that are only looked at: the cache goes back to where it was.
    Restore,
    /// Drafted tokens that stay unless one of them fails.
    Keep,
}

/// A run of tokens that are decoded one after the other.
#[derive(Clone, Copy, Debug, PartialEq, Eq, Structural)]
pub struct TokenRun {
    pub n: usize,
    pub done: usize,
    /// Positions in the cache before the run.
    pub pre_len: usize,
    pub policy: RunPolicy,
}

/// What a run needs next.
#[derive(Clone, Copy, Debug, PartialEq, Eq, Structural)]
pub enum RunNext {
    /// Decode the row with this index.
    Decode(usize),
    /// All rows have been decoded.
    Finished,
    /// A row could not be decoded.
    Failed,
}

/// Positions that are left once everything from `len` on is forgotten.
pub open spec fn cut(positions: nat, len: usize) -> nat {
    if len < positions {
        len as nat
    } else {
        positions
    }
}

/// A run once it has been told whether the row at hand was decoded: the run, the positions
/// in the cache, and what the run needs next.
pub open spec fn run_next(run: TokenRun, positions: nat, ok: bool) -> (TokenRun, nat, RunNext) {
    if !ok {
        (
            run,
            if run.policy == RunPolicy::Prompt {
                positions
            } else {
                cut(positions, run.pre_len)
            },
            RunNext::Failed,
        )
    } else {
        let r = TokenRun { done: (run.done + 1) as usize, ..run };
        if r.done < r.n {
            (r, positions, RunNext::Decode(r.done))
        } else {
            (
                r,
                if run.policy == RunPolicy::Restore {
                    cut(positions, run.pre_len)
                } else {
                    positions
                },
                RunNext::Finished,
            )
        }
    }
}

impl TokenRun {
    /// Begins a run of `n` tokens. A prompt begins with an empty cache.
    pub fn begin(kv: &mut KvCacheSlot, n: usize, policy: RunPolicy) -> (r: (TokenRun, RunNext))
        requires
            old(kv).wf(),
        ensures
            final(kv).wf(),
            r.0.n == n && r.0.done == 0 && r.0.policy == policy,
            r.1 == if n == 0 {
                RunNext::Finished
            } else {
                RunNext::Decode(0)
            },
            policy == RunPolicy::Prompt ==> final(kv).positions() == 0,
            policy != RunPolicy::Prompt ==> *final(kv) == *old(kv),
            r.0.pre_len == final(kv).positions(),
            final(kv).same_slabs(*old(kv)),
    {
        if let RunPolicy::Prompt = policy {
            kv.reset_kv_cache();
        }
        let run = TokenRun { n, done: 0, pre_len: kv.kv_cache_len(), policy };
        let next: RunNext = if n == 0 {
            RunNext::Finished
        } else {
            RunNext::Decode(0)
        };
        (run, next)
    }

    /// Takes over whether the row at hand was decoded.
    pub fn on_token(&mut self, kv: &mut KvCacheSlot, ok: bool) -> (next: RunNext)
        requires
            old(kv).wf(),
            old(self).done < old(self).n,
        ensures
            final(kv).wf(),
            (*final(self), final(kv).positions(), next) == run_next(
                *old(self),
                old(kv).positions(),
                ok,
            ),
            next is Decode ==> *final(kv) == *old(kv),
            final(kv).same_slabs(*old(kv)),
    {
        if !ok {
            match self.policy {
                RunPolicy::Prompt => {},
                _ => {
                    kv.truncate_kv_cache(self.pre_len);
                },
            }
            return RunNext::Failed;
        }
        self.done = self.done + 1;
        if self.done < self.n {
            return RunNext::Decode(self.done);
        }
        if let RunPolicy::Restore = self.policy {
            kv.truncate_kv_cache(self.pre_len);
        }
        RunNext::Finished
    }
}

/// Takes over the outcome of a batched verification that began with `pre_len` positions:
/// the length of what came back, or nothing. Tells whether the call delivers its rows. Where
/// the tokens are not to be kept, the cache goes back to where it was, whatever the outcome.
/// Where they are, it does so only if what came back is not whole.
pub fn finish_batched(
    kv: &mut KvCacheSlot,
    pre_len: usize,
    flat_len: Option<usize>,
    n: usize,
    hidden: usize,
    keep: bool,
) -> (r: bool)
    requires
        old(kv).wf(),
        n * hidden <= usize::MAX,
    ensures
        final(kv).wf(),
        r == (flat_len == Some((n * hidden) as usize)),
        keep && (r || flat_len is None) ==> *final(kv) == *old(kv),
        !(keep && (r || flat_len is None)) ==> final(kv).positions() == cut(
            old(kv).positions(),
            pre_len,
        ),
        final(kv).same_slabs(*old(kv)),
{
    let whole: bool = match flat_len {
        Some(len) => len == n * hidden,
        None => false,
    };
    if !(keep && (whole || flat_len.is_none())) {
        kv.truncate_kv_cache(pre_len);
    }
    whole
}

/// A batched verification whose tokens are not kept leaves the cache as long as it was,
/// whether or not its pass has counted its `n` tokens.
pub proof fn law_batched_verification_leaves_no_trace(pre_len: usize, n: usize, passed: bool)
    ensures
        cut(
            if passed {
                (pre_len + n) as nat
            } else {
                pre_len as nat
            },
            pre_len,
        ) == pre_len,
{
}

/// The rows one behind the other.
pub open spec fn flat<T>(rows: Seq<Vec<T>>) -> Seq<T>
    decreases rows.len(),
{
    if rows.len() == 0 {
        seq![]
    } else {
        flat(rows.drop_last()) + rows.last()@
    }
}

/// Lays the rows one behind the other.
pub fn flatten_rows<T: Copy>(rows: &[Vec<T>]) -> (out: Vec<T>)
    ensures
        out@ == flat(rows@),
{
    let mut out: Vec<T> = Vec::new();
    let mut i: usize = 0;
    assert(rows@.take(0) =~= Seq::<Vec<T>>::empty());
    while i < rows.len()
        invariant
            i <= rows@.len(),
            out@ == flat(rows@.take(i as int)),
        decreases rows@.len() - i,
    {
        let row = &rows[i];
        let ghost before = out@;
        let mut k: usize = 0;
        while k < row.len()
            invariant
                k <= row@.len(),
                out@ == before + row@.take(k as int),
            decreases row@.len() - k,
        {
            out.push(row[k]);
            assert(row@.take(k + 1) =~= row@.take(k as int).push(row@[k as int]));
            k = k + 1;
        }
        assert(row@.take(row@.len() as int) =~= row@);
        assert(rows@.take(i + 1).drop_last() =~= rows@.take(i as int));
        assert(rows@.take(i + 1).last() == rows@[i as int]);
        i = i + 1;
    }
    assert(rows@.take(rows@.len() as int) =~= rows@);
    out
}

/// Row `i` of rows of the given width that lie one behind the other.
pub open spec fn row_at<T>(data: Seq<T>, i: int, width: int) -> Seq<T> {
    data.subrange(i * width, (i + 1) * width)
}

/// Cuts `n` rows of the given width apart.
pub fn split_rows<T: Copy>(data: &[T], n: usize, width: usize) -> (rows: Vec<Vec<T>>)
    requires
        data@.len() == n * width,
    ensures
        rows@.len() == n,
        forall|i: int| 0 <= i < n ==> (#[trigger] rows@[i])@ == row_at(data@, i, width as int),
{
    let mut rows: Vec<Vec<T>> = Vec::new();
    let total: usize = data.len();
    let mut i: usize = 0;
    while i < n
        invariant
            i <= n,
            total == n * width,
            data@.len() == n * width,
            rows@.len() == i,
            forall|k: int| 0 <= k < i ==> (#[trigger] rows@[k])@ == row_at(data@, k, width as int),
        decreases n - i,
    {
        assert(i * width + width <= n * width && (i + 1) * width == i * width + width)
            by (nonlinear_arith)
            requires
                i < n,
        ;
        let start: usize = i * width;
        let mut row: Vec<T> = Vec::new();
        let mut k: usize = 0;
        while k < width
            invariant
                k <= width,
                start + width <= total,
                total == data@.len(),
                row@ == data@.subrange(start as int, start + k),
            decreases width - k,
        {
            row.push(data[start + k]);
            k = k + 1;
            assert(row@ =~= data@.subrange(start as int, start + k));
        }
        rows.push(row);
        i = i + 1;
    }
    rows
}

proof fn lemma_flat_rows<T>(rows: Seq<Vec<T>>, width: usize, i: int)
    requires
        rows_of_width(rows, width),
        0 <= i < rows.len(),
    ensures
        flat(rows).len() == rows.len() * width,
        row_at(flat(rows), i, width as int) == rows[i]@,
    decreases rows.len(),
{
    let front = rows.drop_last();
    let n = rows.len() as int;
    assert(rows_of_width(front, width));
    assert(rows.last()@.len() == width);
    if front.len() > 0 {
        lemma_flat_rows(front, width, 0);
    } else {
        assert(flat(front).len() == 0);
    }
    assert(front.len() * width + width == rows.len() * width) by (nonlinear_arith)
        requires
            front.len() + 1 == rows.len(),
    ;
    assert(front.len() == 0 ==> front.len() * width == 0);
    assert(flat(front).len() == front.len() * width);
    if i == n - 1 {
        assert(i * width == front.len() * width);
        assert((i + 1) * width == i * width + width) by (nonlinear_arith);
        assert(row_at(flat(rows), i, width as int) =~= rows[i]@);
    } else {
        lemma_flat_rows(front, width, i);
        assert((i + 1) * width <= front.len() * width && i * width >= 0 && i * width <= (i + 1)
            * width) by (nonlinear_arith)
            requires
                0 <= i,
                i + 1 <= front.len(),
        ;
        assert(row_at(flat(rows), i, width as int) =~= row_at(flat(front), i, width as int));
        assert(front[i] == rows[i]);
    }
}

/// Rows that were laid one behind the other are cut apart into the same rows.
pub proof fn law_split_undoes_flatten<T>(rows: Seq<Vec<T>>, width: usize)
    requires
        rows_of_width(rows, width),
        rows.len() > 0,
    ensures
        flat(rows).len() == rows.len() * width,
        forall|i: int|
            0 <= i < rows.len() ==> row_at(flat(rows), i, width as int) == (#[trigger] rows[i])@,
{
    lemma_flat_rows(rows, width, 0);
    assert forall|i: int| 0 <= i < rows.len() implies row_at(flat(rows), i, width as int) == (
    #[trigger] rows[i])@ by {
        lemma_flat_rows(rows, width, i);
    }
}

/// Where a run stands after a list of answers: a row that was decoded has been counted in
/// the cache before the run is told of it. A run that has ended stays as it is.
pub open spec fn run_all(run: TokenRun, positions: nat, answers: Seq<bool>) -> (
    TokenRun,
    nat,
    RunNext,
)
    decreases answers.len(),
{
    if answers.len() == 0 {
        (
            run,
            positions,
            if run.done < run.n {
                RunNext::Decode(run.done)
            } else {
                RunNext::Finished
            },
        )
    } else {
        let (r, p, next) = run_all(run, positions, answers.drop_last());
        let ok = answers.last();
        if next is Decode {
            run_next(
                r,
                if ok {
                    p + 1
                } else {
                    p
                },
                ok,
            )
        } else {
            (r, p, next)
        }
    }
}

/// Looking at drafted tokens leaves no trace: however the run ends, the cache has the
/// positions that it had before. Tokens that are kept are all kept or none. A prompt is
/// counted as far as it came.
pub proof fn law_runs_leave_the_cache_in_order(run: TokenRun, answers: Seq<bool>)
    requires
        run.done == 0,
        run.n > 0,
    ensures
        ({
            let (r, p, next) = run_all(run, run.pre_len as nat, answers);
            &&& r == (TokenRun { done: r.done, ..run })
            &&& r.done <= r.n
            &&& match next {
                RunNext::Decode(i) => i == r.done && r.done < r.n && p == run.pre_len + r.done,
                RunNext::Finished => r.done == r.n && p == if run.policy == RunPolicy::Restore {
                    run.pre_len as int
                } else {
                    run.pre_len + run.n
                },
                RunNext::Failed => r.done < r.n && p == if run.policy == RunPolicy::Prompt {
                    run.pre_len + r.done
                } else {
                    run.pre_len as int
                },
            }
        }),
    decreases answers.len(),
{
    if answers.len() > 0 {
        law_runs_leave_the_cache_in_order(run, answers.drop_last());
    }
}

/// Every call that is begun ends with the way that needs least, and no way is tried twice. A
/// graph comes first where it can be had, and is tried only for layers that it can hold; the
/// device comes in only for layers that it takes; nothing but the host is tried where the host
/// was asked for.
pub proof fn law_decode_attempts_in_order(
    flags: DecodeFlags,
    layers: Seq<FullPipelineLayer>,
    x_len: usize,
    hidden: usize,
)
    ensures
        ({
            let a = decode_attempts(flags, layers, x_len, hidden);
            let d = device_attempts(flags, layers, x_len, hidden);
            &&& a.len() == 0 <==> x_len != hidden || layers.len() == 0
            &&& d.len() == 0 <==> a.len() == 0
            &&& a.len() > 0 ==> a.last() == DecodeAttempt::Host && d.last()
                == DecodeAttempt::Eager
            &&& a.no_duplicates() && d.no_duplicates()
            &&& !d.contains(DecodeAttempt::Host)
            &&& a.len() > 0 ==> (a.contains(DecodeAttempt::Eager) <==> !flags.host_fallback
                && all_device(layers))
            &&& a.len() > 0 ==> (a.contains(DecodeAttempt::Graph) <==> !flags.host_fallback
                && flags.decode_graph && all_capturable(layers))
            &&& a.contains(DecodeAttempt::Graph) ==> a[0] == DecodeAttempt::Graph && a.len() == 3
            &&& d.contains(DecodeAttempt::Graph) <==> a.contains(DecodeAttempt::Graph)
            &&& d.len() > 1 ==> d[0] == DecodeAttempt::Graph && d.len() == 2
        }),
{
    crate::layer::law_paths_nest(layers);
    let a = decode_attempts(flags, layers, x_len, hidden);
    let d = device_attempts(flags, layers, x_len, hidden);
    if a.len() > 0 {
        if d.len() == 2 {
            assert(d[0] == DecodeAttempt::Graph && d[1] == DecodeAttempt::Eager);
        } else {
            assert(d[0] == DecodeAttempt::Eager);
        }
        if a.len() == 3 {
            assert(a[0] == DecodeAttempt::Graph && a[1] == DecodeAttempt::Eager && a[2]
                == DecodeAttempt::Host);
        } else if a.len() == 2 {
            assert(a[0] == DecodeAttempt::Eager && a[1] == DecodeAttempt::Host);
        } else {
            assert(a[0] == DecodeAttempt::Host);
        }
    }
}

/// A prompt of the right length is always taken in token by token in the end. One batched pass
/// is tried first, just where the layers allow it and the host was not asked for.
pub proof fn law_prefill_attempts_in_order(
    flags: DecodeFlags,
    layers: Seq<FullPipelineLayer>,
    x_len: usize,
    seq_len: usize,
    hidden: usize,
)
    ensures
        ({
            let a = prefill_attempts(flags, layers, x_len, seq_len, hidden);
            &&& a.len() == 0 <==> x_len != seq_len * hidden
            &&& a.len() > 0 ==> a.last() == PrefillAttempt::PerToken
            &&& a.no_duplicates()
            &&& a.len() > 0 ==> (a.contains(PrefillAttempt::SeqDevice) <==> all_batchable(layers)
                && !flags.prefill_host_fallback)
            &&& a.contains(PrefillAttempt::SeqDevice) ==> a[0] == PrefillAttempt::SeqDevice
        }),
{
    let a = prefill_attempts(flags, layers, x_len, seq_len, hidden);
    if a.len() == 2 {
        assert(a[0] == PrefillAttempt::SeqDevice && a[1] == PrefillAttempt::PerToken);
    } else if a.len() == 1 {
        assert(a[0] == PrefillAttempt::PerToken);
    }
}

/// A token goes to the first free position of the cache, and there is none just where the cache
/// is full or missing. Decoding tokens until there is none fills the cache.
pub proof fn law_token_position(kv: KvCacheSlot)
    requires
        kv.cache is Some,
    ensures
        token_position(kv) matches Some(p) ==> p == kv.cache->0.len && p < kv.cache->0.max_seq,
        token_position(kv) is None ==> kv.cache->0.len >= kv.cache->0.max_seq,
        token_position(KvCacheSlot { cache: None, ..kv }) is None,
{
}

/// Drafted tokens are refused only for a row of another width, go in one batch only where all
/// layers allow it, the switch is on and there are enough of them, and one by one otherwise.
pub proof fn law_chain_route<T>(
    flags: DecodeFlags,
    layers: Seq<FullPipelineLayer>,
    rows: Seq<Vec<T>>,
    hidden: usize,
)
    ensures
        ({
            let r = chain_route(flags, layers, rows, hidden);
            &&& r == SpecRoute::Empty <==> rows.len() == 0
            &&& r == SpecRoute::Refused <==> exists|i: int|
                0 <= i < rows.len() && (#[trigger] rows[i])@.len() != hidden
            &&& r == SpecRoute::Batched <==> {
                &&& 0 < rows.len() && rows.len() >= flags.spec_batched_min_n
                &&& forall|i: int| 0 <= i < rows.len() ==> (#[trigger] rows[i])@.len() == hidden
                &&& all_batchable(layers) && flags.spec_batched
            }
        }),
{
}

/// What a run is told changes it one row at a time. A row that was decoded brings the next one,
/// or the end behind the last; one that was not ends the run. The cache is cut back to where the
/// run began just where drafted tokens fail or were only looked at.
pub proof fn law_run_step(run: TokenRun, positions: nat, ok: bool)
    requires
        run.done < run.n,
        run.pre_len <= positions,
    ensures
        ({
            let (r, p, next) = run_next(run, positions, ok);
            &&& r.n == run.n && r.pre_len == run.pre_len && r.policy == run.policy
            &&& r.done == run.done + (if ok {
                1int
            } else {
                0int
            })
            &&& next is Failed <==> !ok
            &&& next is Finished <==> ok && run.done + 1 == run.n
            &&& next is Decode <==> ok && run.done + 1 < run.n
            &&& next matches RunNext::Decode(i) ==> i == run.done + 1 && p == positions
            &&& next is Failed ==> p == (if run.policy == RunPolicy::Prompt {
                positions as int
            } else {
                run.pre_len as int
            })
            &&& next is Finished ==> p == (if run.policy == RunPolicy::Restore {
                run.pre_len as int
            } else {
                positions as int
            })
        }),
{
}

/// Cutting back never lengthens, never leaves more than asked for, and twice is as good as once.
pub proof fn law_cut(positions: nat, len: usize)
    ensures
        cut(positions, len) <= positions,
        cut(positions, len) <= len,
        cut(positions, len) == positions || cut(positions, len) == len,
        cut(cut(positions, len), len) == cut(positions, len),
{
}

/// Element `c` of row `i` is element `i * width + c` of the rows one behind the other.
pub proof fn law_rows_are_row_major<T>(rows: Seq<Vec<T>>, width: usize, i: int, c: int)
    requires
        rows_of_width(rows, width),
        0 <= i < rows.len(),
        0 <= c < width,
    ensures
        0 <= i * width + c < flat(rows).len(),
        flat(rows)[i * width + c] == rows[i]@[c],
{
    lemma_flat_rows(rows, width, i);
    assert(rows[i]@[c] == row_at(flat(rows), i, width as int)[c]);
    assert(0 <= i * width && i * width + c < rows.len() * width && (i + 1) * width == i * width
        + width) by (nonlinear_arith)
        requires
            0 <= i < rows.len(),
            0 <= c < width,
    ;
    assert((i + 1) * width <= rows.len() * width) by (nonlinear_arith)
        requires
            i + 1 <= rows.len(),
            0 <= width,
    ;
}

} // verus!
