//! Key and value slabs of the hybrid model's attention layers.
//!
//! The host holds all rows of a layer. The device holds a slab for each layer, with a
//! count of the rows that it is caught up to. A step brings the slab up to date if it is
//! stale, then computes attention with the newest row.

use std::collections::HashMap;
use vstd::prelude::*;

use crate::flags::{kv_format_is_iso3, number_or, number_setting, set_to};

verus! {

broadcast use vstd::std_specs::hash::group_hash_axioms;

/// Elements in a block of packed keys or values.
pub const ISO3_BLOCK_ELEMS: usize = 128;

/// The slab of one layer.
#[derive(Clone, Copy, Debug, PartialEq, Eq, Structural)]
pub struct KvSlab {
    /// Elements that the key and the value buffer hold.
    pub k_len: usize,
    pub v_len: usize,
    pub max_seq: usize,
    pub kv_dim: usize,
    /// Rows that the slab is caught up to.
    pub cached_seq_len: usize,
}

impl KvSlab {
    /// The buffers are as long as the slab says.
    pub open spec fn sound(self) -> bool {
        self.k_len == self.max_seq * self.kv_dim && self.v_len == self.max_seq * self.kv_dim
    }
}

/// A step of one layer.
#[derive(Clone, Copy, Debug, PartialEq, Eq, Structural)]
pub struct GqaCall {
    pub cache_id: u64,
    pub max_seq: usize,
    pub q_dim: usize,
    pub kv_dim: usize,
    /// Rows that the host has, the newest one counted.
    pub seq_len: usize,
    /// Rows of zeros that stand in front of the host's rows.
    pub preseed: usize,
}

impl GqaCall {
    pub open spec fn ok(self) -> bool {
        &&& 0 < self.seq_len
        &&& self.preseed + self.seq_len <= self.max_seq
        &&& self.max_seq * self.kv_dim <= usize::MAX
    }

    /// Where the newest row goes.
    pub open spec fn new_row(self) -> int {
        self.preseed + (self.seq_len - 1)
    }

    fn new_row_idx(&self) -> (r: usize)
        requires
            self.ok(),
        ensures
            r == self.new_row(),
    {
        self.preseed + (self.seq_len - 1)
    }
}

/// Which slab a step goes to.
#[derive(Clone, Copy, Debug, PartialEq, Eq, Structural)]
pub enum GqaRoute {
    Half(GqaCall),
    Iso3(GqaCall),
}

/// Rows in front, as far as there is room for them.
pub open spec fn preseed_rows(value: Option<&str>, max_seq: usize, seq_len: usize) -> int {
    let room = if seq_len <= max_seq {
        max_seq - seq_len
    } else {
        0
    };
    let n = number_or(value, 0) as int;
    if n <= room {
        n
    } else {
        room
    }
}

/// Rows of a step fit its shape.
pub open spec fn gqa_lens_fit(
    q: usize,
    k: usize,
    v: usize,
    max_seq: usize,
    num_q_heads: usize,
    num_kv_heads: usize,
    head_dim: usize,
    seq_len: usize,
) -> bool {
    let kv_dim = num_kv_heads * head_dim;
    &&& q == num_q_heads * head_dim
    &&& k == seq_len * kv_dim
    &&& v == seq_len * kv_dim
    &&& seq_len != 0
    &&& seq_len <= max_seq
}

/// Checks a step and says which slab it goes to. `kv_format` and `preseed` are what
/// `LARQL_QWEN35_KV_FORMAT` and `LARQL_QWEN35_KV_PRESEED` hold.
pub fn qwen35_gqa_decode_step(
    cache_id: u64,
    max_seq: usize,
    q: usize,
    k: usize,
    v: usize,
    num_q_heads: usize,
    num_kv_heads: usize,
    head_dim: usize,
    seq_len: usize,
    kv_format: Option<&str>,
    preseed: Option<&str>,
) -> (r: Option<GqaRoute>)
    requires
        num_q_heads * head_dim <= usize::MAX,
        num_kv_heads * head_dim <= usize::MAX,
        seq_len * (num_kv_heads * head_dim) <= usize::MAX,
    ensures
        r is Some == gqa_lens_fit(q, k, v, max_seq, num_q_heads, num_kv_heads, head_dim, seq_len),
        r matches Some(route) ==> {
            let call = GqaCall {
                cache_id,
                max_seq,
                q_dim: (num_q_heads * head_dim) as usize,
                kv_dim: (num_kv_heads * head_dim) as usize,
                seq_len,
                preseed: preseed_rows(preseed, max_seq, seq_len) as usize,
            };
            &&& call.preseed + call.seq_len <= call.max_seq
            &&& route == if set_to(kv_format, "iso3"@) {
                GqaRoute::Iso3(call)
            } else {
                GqaRoute::Half(call)
            }
        },
        r is Some <==> {
            &&& q == num_q_heads * head_dim
            &&& k == seq_len * (num_kv_heads * head_dim) && v == k
            &&& 1 <= seq_len <= max_seq
        },
        r matches Some(GqaRoute::Iso3(c)) ==> kv_format is Some && kv_format->0@ == "iso3"@ && c.seq_len
            == seq_len && c.cache_id == cache_id && c.max_seq == max_seq,
        r matches Some(GqaRoute::Half(c)) ==> !(kv_format is Some && kv_format->0@ == "iso3"@)
            && c.seq_len == seq_len && c.cache_id == cache_id && c.max_seq == max_seq,
        r matches Some(GqaRoute::Iso3(c)) ==> c.q_dim == q && c.kv_dim == num_kv_heads * head_dim,
        r matches Some(GqaRoute::Half(c)) ==> c.q_dim == q && c.kv_dim == num_kv_heads * head_dim,
{
    let q_dim: usize = num_q_heads * head_dim;
    let kv_dim: usize = num_kv_heads * head_dim;
    if q != q_dim || k != seq_len * kv_dim || v != seq_len * kv_dim || seq_len == 0 || seq_len
        > max_seq {
        return None;
    }
    let wanted: usize = number_setting(preseed, 0);
    let room: usize = max_seq - seq_len;
    let rows: usize = if wanted <= room {
        wanted
    } else {
        room
    };
    let call = GqaCall { cache_id, max_seq, q_dim, kv_dim, seq_len, preseed: rows };
    if kv_format_is_iso3(kv_format) {
        return Some(GqaRoute::Iso3(call));
    }
    Some(GqaRoute::Half(call))
}

/// Where a step stands.
#[derive(Clone, Copy, Debug, PartialEq, Eq, Structural)]
pub enum GqaPhase {
    /// A key buffer of `len` zeros. For a layer without a slab a failure is fatal.
    AllocK { len: usize, fresh: bool },
    /// A value buffer of `len` zeros.
    AllocV { len: usize, fresh: bool },
    /// The first `len` key elements of the host to the place `dst` in the slab.
    UploadK { dst: usize, len: usize },
    /// The same for the values.
    UploadV { dst: usize, len: usize },
    /// Attention at row `pos`, whose host elements start at `row_start`. Writes the row
    /// to the slab.
    Attend { pos: usize, row_start: usize },
    /// The output back to the host.
    Fetch,
    Done,
    Failed,
}

/// The slab once its buffers have the shape of the call.
pub open spec fn seeded(slab: KvSlab, call: GqaCall) -> KvSlab {
    if slab.cached_seq_len == 0 && call.preseed > 0 {
        KvSlab { cached_seq_len: call.preseed, ..slab }
    } else {
        slab
    }
}

pub open spec fn attend_phase(call: GqaCall) -> GqaPhase {
    GqaPhase::Attend {
        pos: call.new_row() as usize,
        row_start: ((call.seq_len - 1) * call.kv_dim) as usize,
    }
}

/// From a slab of the call's shape: mark the rows in front, and see whether the slab is
/// stale.
pub open spec fn settle(slab: KvSlab, call: GqaCall) -> (Option<KvSlab>, GqaPhase) {
    let s = seeded(slab, call);
    if s.cached_seq_len == call.new_row() {
        (Some(s), attend_phase(call))
    } else if call.seq_len > 1 {
        (
            Some(s),
            GqaPhase::UploadK {
                dst: (call.preseed * call.kv_dim) as usize,
                len: ((call.seq_len - 1) * call.kv_dim) as usize,
            },
        )
    } else {
        (Some(KvSlab { cached_seq_len: call.new_row() as usize, ..s }), attend_phase(call))
    }
}

pub open spec fn fits_shape(slab: KvSlab, max_seq: usize, kv_dim: usize) -> bool {
    slab.max_seq == max_seq && slab.kv_dim == kv_dim
}

/// The first phase of a step.
pub open spec fn gqa_first(slab: Option<KvSlab>, call: GqaCall) -> (Option<KvSlab>, GqaPhase) {
    match slab {
        None => (
            None,
            GqaPhase::AllocK { len: (call.max_seq * call.kv_dim) as usize, fresh: true },
        ),
        Some(s) => if fits_shape(s, call.max_seq, call.kv_dim) {
            settle(s, call)
        } else {
            (
                Some(s),
                GqaPhase::AllocK { len: (call.max_seq * call.kv_dim) as usize, fresh: false },
            )
        },
    }
}

/// A new slab whose buffers hold `len` elements.
pub open spec fn empty_slab(len: usize, max_seq: usize, kv_dim: usize) -> KvSlab {
    KvSlab { k_len: len, v_len: len, max_seq, kv_dim, cached_seq_len: 0 }
}

/// A slab whose key buffer has been replaced.
pub open spec fn with_k(slab: Option<KvSlab>, len: usize) -> Option<KvSlab> {
    match slab {
        Some(s) => Some(KvSlab { k_len: len, ..s }),
        None => None,
    }
}

pub open spec fn with_rows(slab: Option<KvSlab>, rows: int) -> Option<KvSlab> {
    match slab {
        Some(s) => Some(KvSlab { cached_seq_len: rows as usize, ..s }),
        None => None,
    }
}

/// The phase that follows, given how a phase went.
pub open spec fn gqa_next(slab: Option<KvSlab>, call: GqaCall, phase: GqaPhase, ok: bool) -> (
    Option<KvSlab>,
    GqaPhase,
) {
    match phase {
        GqaPhase::Done => (slab, GqaPhase::Done),
        GqaPhase::Failed => (slab, GqaPhase::Failed),
        _ => if !ok {
            (slab, GqaPhase::Failed)
        } else {
            match phase {
                GqaPhase::AllocK { len, fresh } => (
                    with_k(slab, len),
                    GqaPhase::AllocV { len, fresh },
                ),
                GqaPhase::AllocV { len, .. } => settle(
                    empty_slab(len, call.max_seq, call.kv_dim),
                    call,
                ),
                GqaPhase::UploadK { dst, len } => (slab, GqaPhase::UploadV { dst, len }),
                GqaPhase::UploadV { .. } => (with_rows(slab, call.new_row()), attend_phase(call)),
                GqaPhase::Attend { .. } => (with_rows(slab, call.new_row() + 1), GqaPhase::Fetch),
                _ => (slab, GqaPhase::Done),
            }
        },
    }
}

/// The slab of a layer, if there is one.
pub open spec fn slot<T>(slabs: Map<u64, T>, id: u64) -> Option<T> {
    if slabs.dom().contains(id) {
        Some(slabs[id])
    } else {
        None
    }
}

/// The slabs with that of one layer set.
pub open spec fn put<T>(slabs: Map<u64, T>, id: u64, slab: Option<T>) -> Map<u64, T> {
    match slab {
        Some(s) => slabs.insert(id, s),
        None => slabs,
    }
}

/// A prefill of one layer: `seq_len` rows that start at row `base_pos`.
#[derive(Clone, Copy, Debug, PartialEq, Eq, Structural)]
pub struct PrefillCall {
    pub cache_id: u64,
    pub max_seq: usize,
    pub base_pos: usize,
    pub q_dim: usize,
    pub kv_dim: usize,
    pub seq_len: usize,
}

impl PrefillCall {
    pub open spec fn ok(self) -> bool {
        &&& 0 < self.seq_len
        &&& self.base_pos + self.seq_len <= self.max_seq
        &&& self.max_seq * self.kv_dim <= usize::MAX
    }
}

/// Rows of a prefill fit its shape.
pub open spec fn prefill_lens_fit(
    q: usize,
    k: usize,
    v: usize,
    max_seq: usize,
    base_pos: usize,
    num_q_heads: usize,
    num_kv_heads: usize,
    head_dim: usize,
    seq_len: usize,
) -> bool {
    &&& q == seq_len * (num_q_heads * head_dim)
    &&& k == seq_len * (num_kv_heads * head_dim)
    &&& v == seq_len * (num_kv_heads * head_dim)
    &&& seq_len != 0
    &&& base_pos + seq_len <= max_seq
}

/// Checks a prefill.
pub fn qwen35_attention_prefill_batch(
    cache_id: u64,
    max_seq: usize,
    base_pos: usize,
    q: usize,
    k: usize,
    v: usize,
    num_q_heads: usize,
    num_kv_heads: usize,
    head_dim: usize,
    seq_len: usize,
) -> (r: Option<PrefillCall>)
    requires
        num_q_heads * head_dim <= usize::MAX,
        num_kv_heads * head_dim <= usize::MAX,
        seq_len * (num_q_heads * head_dim) <= usize::MAX,
        seq_len * (num_kv_heads * head_dim) <= usize::MAX,
        base_pos + seq_len <= usize::MAX,
    ensures
        r is Some == prefill_lens_fit(
            q,
            k,
            v,
            max_seq,
            base_pos,
            num_q_heads,
            num_kv_heads,
            head_dim,
            seq_len,
        ),
        r matches Some(call) ==> call == (PrefillCall {
            cache_id,
            max_seq,
            base_pos,
            q_dim: (num_q_heads * head_dim) as usize,
            kv_dim: (num_kv_heads * head_dim) as usize,
            seq_len,
        }),
        r is Some <==> {
            &&& q == seq_len * (num_q_heads * head_dim)
            &&& k == seq_len * (num_kv_heads * head_dim) && v == k
            &&& seq_len >= 1 && base_pos + seq_len <= max_seq
        },
{
    let q_dim: usize = num_q_heads * head_dim;
    let kv_dim: usize = num_kv_heads * head_dim;
    if q != seq_len * q_dim || k != seq_len * kv_dim || v != seq_len * kv_dim || seq_len == 0
        || base_pos + seq_len > max_seq {
        return None;
    }
    Some(PrefillCall { cache_id, max_seq, base_pos, q_dim, kv_dim, seq_len })
}

/// The first phase of a prefill. Its attention takes all its rows and starts at the
/// first of them.
pub open spec fn prefill_first(slab: Option<KvSlab>, call: PrefillCall) -> (
    Option<KvSlab>,
    GqaPhase,
) {
    let len = (call.max_seq * call.kv_dim) as usize;
    match slab {
        None => (None, GqaPhase::AllocK { len, fresh: true }),
        Some(s) => if fits_shape(s, call.max_seq, call.kv_dim) {
            (Some(s), GqaPhase::Attend { pos: call.base_pos, row_start: 0 })
        } else {
            (Some(s), GqaPhase::AllocK { len, fresh: false })
        },
    }
}

pub open spec fn prefill_next(slab: Option<KvSlab>, call: PrefillCall, phase: GqaPhase, ok: bool) -> (
    Option<KvSlab>,
    GqaPhase,
) {
    match phase {
        GqaPhase::Done => (slab, GqaPhase::Done),
        GqaPhase::Failed => (slab, GqaPhase::Failed),
        _ => if !ok {
            (slab, GqaPhase::Failed)
        } else {
            match phase {
                GqaPhase::AllocK { len, fresh } => (
                    with_k(slab, len),
                    GqaPhase::AllocV { len, fresh },
                ),
                GqaPhase::AllocV { len, .. } => (
                    Some(empty_slab(len, call.max_seq, call.kv_dim)),
                    GqaPhase::Attend { pos: call.base_pos, row_start: 0 },
                ),
                GqaPhase::Attend { .. } => (
                    with_rows(slab, call.base_pos + call.seq_len),
                    GqaPhase::Fetch,
                ),
                _ => (slab, GqaPhase::Done),
            }
        },
    }
}

fn seed(slab: KvSlab, call: &GqaCall) -> (s: KvSlab)
    ensures
        s == seeded(slab, *call),
{
    if slab.cached_seq_len == 0 && call.preseed > 0 {
        KvSlab { cached_seq_len: call.preseed, ..slab }
    } else {
        slab
    }
}

proof fn lemma_call_products(call: GqaCall)
    requires
        call.ok(),
    ensures
        0 <= (call.seq_len - 1) * call.kv_dim <= usize::MAX,
        0 <= call.preseed * call.kv_dim <= usize::MAX,
        0 <= call.max_seq * call.kv_dim,
{
    assert(0 <= (call.seq_len - 1) * call.kv_dim <= call.max_seq * call.kv_dim && 0 <= call.preseed
        * call.kv_dim <= call.max_seq * call.kv_dim && 0 <= call.max_seq * call.kv_dim)
        by (nonlinear_arith)
        requires
            0 < call.seq_len <= call.max_seq,
            0 <= call.preseed <= call.max_seq,
    ;
}

fn settle_slab(slab: KvSlab, call: &GqaCall) -> (r: (KvSlab, GqaPhase))
    requires
        call.ok(),
    ensures
        (Some(r.0), r.1) == settle(slab, *call),
{
    proof {
        lemma_call_products(*call);
    }
    let s = seed(slab, call);
    let row: usize = call.new_row_idx();
    let attend = GqaPhase::Attend { pos: row, row_start: (call.seq_len - 1) * call.kv_dim };
    if s.cached_seq_len == row {
        (s, attend)
    } else if call.seq_len > 1 {
        (
            s,
            GqaPhase::UploadK {
                dst: call.preseed * call.kv_dim,
                len: (call.seq_len - 1) * call.kv_dim,
            },
        )
    } else {
        (KvSlab { cached_seq_len: row, ..s }, attend)
    }
}

/// All slabs of a model.
#[derive(Debug)]
pub struct KvSlabs {
    pub slabs: HashMap<u64, KvSlab>,
}

impl KvSlabs {
    pub open spec fn view(self) -> Map<u64, KvSlab> {
        self.slabs@
    }

    pub fn new() -> (s: KvSlabs)
        ensures
            s@ == Map::<u64, KvSlab>::empty(),
    {
        KvSlabs { slabs: HashMap::new() }
    }

    /// The slab of a layer.
    pub fn get(&self, id: u64) -> (r: Option<KvSlab>)
        ensures
            r == slot(self@, id),
    {
        match self.slabs.get(&id) {
            Some(s) => Some(*s),
            None => None,
        }
    }

    fn set(&mut self, id: u64, slab: KvSlab)
        ensures
            final(self)@ == old(self)@.insert(id, slab),
    {
        self.slabs.insert(id, slab);
    }

    /// The first phase of a step.
    pub fn gqa_begin(&mut self, call: &GqaCall) -> (phase: GqaPhase)
        requires
            call.ok(),
        ensures
            phase == gqa_first(slot(old(self)@, call.cache_id), *call).1,
            final(self)@ == put(
                old(self)@,
                call.cache_id,
                gqa_first(slot(old(self)@, call.cache_id), *call).0,
            ),
    {
        proof {
            lemma_call_products(*call);
        }
        match self.get(call.cache_id) {
            None => GqaPhase::AllocK { len: call.max_seq * call.kv_dim, fresh: true },
            Some(s) => {
                if s.max_seq != call.max_seq || s.kv_dim != call.kv_dim {
                    assert(self@.insert(call.cache_id, s) =~= self@);
                    return GqaPhase::AllocK { len: call.max_seq * call.kv_dim, fresh: false };
                }
                let (next, phase) = settle_slab(s, call);
                self.set(call.cache_id, next);
                phase
            },
        }
    }

    /// The phase that follows `phase`, which went well or not.
    pub fn gqa_advance(&mut self, call: &GqaCall, phase: GqaPhase, ok: bool) -> (next: GqaPhase)
        requires
            call.ok(),
        ensures
            next == gqa_next(slot(old(self)@, call.cache_id), *call, phase, ok).1,
            final(self)@ == put(
                old(self)@,
                call.cache_id,
                gqa_next(slot(old(self)@, call.cache_id), *call, phase, ok).0,
            ),
    {
        proof {
            lemma_call_products(*call);
            if self@.dom().contains(call.cache_id) {
                assert(self@.insert(call.cache_id, self@[call.cache_id]) =~= self@);
            }
        }
        let slab = self.get(call.cache_id);
        let row: usize = call.new_row_idx();
        match phase {
            GqaPhase::Done => GqaPhase::Done,
            GqaPhase::Failed => GqaPhase::Failed,
            _ => {
                if !ok {
                    return GqaPhase::Failed;
                }
                match phase {
                    GqaPhase::AllocK { len, fresh } => {
                        if let Some(s) = slab {
                            self.set(call.cache_id, KvSlab { k_len: len, ..s });
                        }
                        GqaPhase::AllocV { len, fresh }
                    },
                    GqaPhase::AllocV { len, .. } => {
                        let empty = KvSlab {
                            k_len: len,
                            v_len: len,
                            max_seq: call.max_seq,
                            kv_dim: call.kv_dim,
                            cached_seq_len: 0,
                        };
                        let (s, next) = settle_slab(empty, call);
                        self.set(call.cache_id, s);
                        next
                    },
                    GqaPhase::UploadK { dst, len } => GqaPhase::UploadV { dst, len },
                    GqaPhase::UploadV { .. } => {
                        if let Some(s) = slab {
                            self.set(call.cache_id, KvSlab { cached_seq_len: row, ..s });
                        }
                        GqaPhase::Attend { pos: row, row_start: (call.seq_len - 1) * call.kv_dim }
                    },
                    GqaPhase::Attend { .. } => {
                        if let Some(s) = slab {
                            self.set(call.cache_id, KvSlab { cached_seq_len: row + 1, ..s });
                        }
                        GqaPhase::Fetch
                    },
                    _ => GqaPhase::Done,
                }
            },
        }
    }

    /// The first phase of a prefill.
    pub fn prefill_begin(&mut self, call: &PrefillCall) -> (phase: GqaPhase)
        requires
            call.ok(),
        ensures
            phase == prefill_first(slot(old(self)@, call.cache_id), *call).1,
            final(self)@ == put(
                old(self)@,
                call.cache_id,
                prefill_first(slot(old(self)@, call.cache_id), *call).0,
            ),
    {
        assert(0 <= call.max_seq * call.kv_dim) by (nonlinear_arith);
        match self.get(call.cache_id) {
            None => GqaPhase::AllocK { len: call.max_seq * call.kv_dim, fresh: true },
            Some(s) => {
                assert(self@.insert(call.cache_id, s) =~= self@);
                if s.max_seq != call.max_seq || s.kv_dim != call.kv_dim {
                    return GqaPhase::AllocK { len: call.max_seq * call.kv_dim, fresh: false };
                }
                GqaPhase::Attend { pos: call.base_pos, row_start: 0 }
            },
        }
    }

    /// The phase that follows in a prefill.
    pub fn prefill_advance(&mut self, call: &PrefillCall, phase: GqaPhase, ok: bool) -> (next:
        GqaPhase)
        requires
            call.ok(),
        ensures
            next == prefill_next(slot(old(self)@, call.cache_id), *call, phase, ok).1,
            final(self)@ == put(
                old(self)@,
                call.cache_id,
                prefill_next(slot(old(self)@, call.cache_id), *call, phase, ok).0,
            ),
    {
        proof {
            if self@.dom().contains(call.cache_id) {
                assert(self@.insert(call.cache_id, self@[call.cache_id]) =~= self@);
            }
        }
        let slab = self.get(call.cache_id);
        match phase {
            GqaPhase::Done => GqaPhase::Done,
            GqaPhase::Failed => GqaPhase::Failed,
            _ => {
                if !ok {
                    return GqaPhase::Failed;
                }
                match phase {
                    GqaPhase::AllocK { len, fresh } => {
                        if let Some(s) = slab {
                            self.set(call.cache_id, KvSlab { k_len: len, ..s });
                        }
                        GqaPhase::AllocV { len, fresh }
                    },
                    GqaPhase::AllocV { len, .. } => {
                        self.set(
                            call.cache_id,
                            KvSlab {
                                k_len: len,
                                v_len: len,
                                max_seq: call.max_seq,
                                kv_dim: call.kv_dim,
                                cached_seq_len: 0,
                            },
                        );
                        GqaPhase::Attend { pos: call.base_pos, row_start: 0 }
                    },
                    GqaPhase::Attend { .. } => {
                        if let Some(s) = slab {
                            self.set(
                                call.cache_id,
                                KvSlab { cached_seq_len: call.base_pos + call.seq_len, ..s },
                            );
                        }
                        GqaPhase::Fetch
                    },
                    _ => GqaPhase::Done,
                }
            },
        }
    }

    /// Drops the slab of a layer.
    pub fn reset(&mut self, id: u64)
        ensures
            final(self)@ == old(self)@.remove(id),
    {
        self.slabs.remove(&id);
    }
}

/// The newest row has room in the slab, and a stale slab is filled up to just below it,
/// from host rows that are there.
pub proof fn law_rows_in_bounds(call: GqaCall)
    requires
        call.ok(),
    ensures
        0 <= call.new_row() < call.max_seq,
        call.preseed * call.kv_dim + (call.seq_len - 1) * call.kv_dim == call.new_row()
            * call.kv_dim,
        call.new_row() * call.kv_dim + call.kv_dim <= call.max_seq * call.kv_dim,
        (call.seq_len - 1) * call.kv_dim + call.kv_dim == call.seq_len * call.kv_dim,
{
    assert(call.preseed * call.kv_dim + (call.seq_len - 1) * call.kv_dim == (call.preseed + (
    call.seq_len - 1)) * call.kv_dim) by (nonlinear_arith);
    assert((call.preseed + (call.seq_len - 1)) * call.kv_dim + call.kv_dim <= call.max_seq
        * call.kv_dim) by (nonlinear_arith)
        requires
            call.preseed + call.seq_len <= call.max_seq,
    ;
    assert((call.seq_len - 1) * call.kv_dim + call.kv_dim == call.seq_len * call.kv_dim)
        by (nonlinear_arith);
}

/// Where a step that nothing goes wrong in ends.
pub open spec fn gqa_run(slab: Option<KvSlab>, call: GqaCall, phase: GqaPhase, fuel: nat) -> (
    Option<KvSlab>,
    GqaPhase,
)
    decreases fuel,
{
    if fuel == 0 {
        (slab, phase)
    } else {
        let n = gqa_next(slab, call, phase, true);
        gqa_run(n.0, call, n.1, (fuel - 1) as nat)
    }
}

/// A step in which nothing goes wrong ends after at most six phases. It leaves a slab of
/// the call's shape that is caught up to all the host's rows, with buffers of the right
/// length where they were right before.
pub proof fn law_step_ends_caught_up(slab: Option<KvSlab>, call: GqaCall)
    requires
        call.ok(),
    ensures
        ({
            let f = gqa_first(slab, call);
            let end = gqa_run(f.0, call, f.1, 6);
            &&& end.1 == GqaPhase::Done
            &&& end.0 matches Some(s) && fits_shape(s, call.max_seq, call.kv_dim)
                && s.cached_seq_len == call.preseed + call.seq_len
            &&& (slab matches Some(b) ==> b.sound()) ==> end.0->0.sound()
        }),
{
    reveal_with_fuel(gqa_run, 7);
    lemma_call_products(call);
    assert(call.max_seq * call.kv_dim <= usize::MAX);
}

/// The step that follows a good one, with one row more, finds the slab caught up: it goes
/// straight to its attention, at the next row.
pub proof fn law_next_step_uploads_nothing(slab: KvSlab, call: GqaCall, next: GqaCall)
    requires
        call.ok(),
        next.ok(),
        fits_shape(slab, call.max_seq, call.kv_dim),
        slab.cached_seq_len == call.preseed + call.seq_len,
        next == (GqaCall { seq_len: next.seq_len, ..call }),
        next.seq_len == call.seq_len + 1,
    ensures
        gqa_first(Some(slab), next) == (Some(slab), attend_phase(next)),
        next.new_row() == call.new_row() + 1,
{
}

/// Where a prefill that nothing goes wrong in ends.
pub open spec fn prefill_run(slab: Option<KvSlab>, call: PrefillCall, phase: GqaPhase, fuel: nat) -> (
    Option<KvSlab>,
    GqaPhase,
)
    decreases fuel,
{
    if fuel == 0 {
        (slab, phase)
    } else {
        let n = prefill_next(slab, call, phase, true);
        prefill_run(n.0, call, n.1, (fuel - 1) as nat)
    }
}

/// A step behind a good prefill lands at the right row: it finds the slab caught up and
/// goes straight to its attention.
pub proof fn law_step_behind_prefill(slab: Option<KvSlab>, call: PrefillCall, next: GqaCall)
    requires
        call.ok(),
        next.ok(),
        next.cache_id == call.cache_id,
        next.max_seq == call.max_seq,
        next.kv_dim == call.kv_dim,
        next.preseed == 0,
        next.seq_len == call.base_pos + call.seq_len + 1,
    ensures
        ({
            let f = prefill_first(slab, call);
            let end = prefill_run(f.0, call, f.1, 4);
            &&& end.1 == GqaPhase::Done
            &&& gqa_first(end.0, next) == (end.0, attend_phase(next))
            &&& next.new_row() == call.base_pos + call.seq_len
        }),
{
    reveal_with_fuel(prefill_run, 5);
    assert(0 <= call.max_seq * call.kv_dim) by (nonlinear_arith);
}

/// The rows on the device, once a phase of a step has gone well. `host` gives the host's
/// rows.
pub open spec fn rows_after(dev: spec_fn(int) -> int, host: spec_fn(int) -> int, call: GqaCall, phase: GqaPhase) -> spec_fn(int) -> int {
    match phase {
        GqaPhase::UploadK { .. } => |r: int|
            if call.preseed <= r < call.new_row() {
                host(r - call.preseed)
            } else {
                dev(r)
            },
        GqaPhase::Attend { .. } => |r: int|
            if r == call.new_row() {
                host(call.seq_len - 1)
            } else {
                dev(r)
            },
        _ => dev,
    }
}

/// The device has the first `n` rows of the host behind the rows in front.
pub open spec fn holds_rows(dev: spec_fn(int) -> int, host: spec_fn(int) -> int, preseed: int, n: int) -> bool {
    forall|i: int| 0 <= i < n ==> #[trigger] dev(preseed + i) == host(i)
}

/// A step on a slab of its shape leaves all the host's rows on the device, whether the
/// slab was stale or not. A slab that is not stale has to hold what its count says.
pub proof fn law_step_catches_up(slab: KvSlab, call: GqaCall, dev: spec_fn(int) -> int, host: spec_fn(int) -> int)
    requires
        call.ok(),
        fits_shape(slab, call.max_seq, call.kv_dim),
        seeded(slab, call).cached_seq_len == call.new_row() ==> holds_rows(
            dev,
            host,
            call.preseed as int,
            call.seq_len - 1,
        ),
    ensures
        ({
            let first = settle(slab, call).1;
            let mid = rows_after(dev, host, call, first);
            let end = if first is Attend {
                mid
            } else {
                rows_after(mid, host, call, attend_phase(call))
            };
            holds_rows(end, host, call.preseed as int, call.seq_len as int)
        }),
{
}

/// The rows in front are as many as were asked for, as far as there is room behind the host's
/// rows; without a setting there are none.
pub proof fn law_preseed(value: Option<&str>, max_seq: usize, seq_len: usize)
    ensures
        ({
            let n = preseed_rows(value, max_seq, seq_len);
            &&& 0 <= n <= number_or(value, 0)
            &&& seq_len <= max_seq ==> n + seq_len <= max_seq
            &&& seq_len <= max_seq ==> n == number_or(value, 0) || n + seq_len == max_seq
            &&& seq_len > max_seq ==> n == 0
        }),
        preseed_rows(None, max_seq, seq_len) == 0,
{
}

/// The elements of the slab once a phase has gone well. `host` gives the host's elements: an
/// upload copies its first ones to where the phase says, and attention writes one row, from where
/// the phase says, to the row of its position.
pub open spec fn elems_after(
    dev: spec_fn(int) -> int,
    host: spec_fn(int) -> int,
    kv_dim: int,
    phase: GqaPhase,
) -> spec_fn(int) -> int {
    match phase {
        GqaPhase::UploadK { dst, len } | GqaPhase::UploadV { dst, len } => |e: int|
            if dst <= e < dst + len {
                host(e - dst)
            } else {
                dev(e)
            },
        GqaPhase::Attend { pos, row_start } => |e: int|
            if pos * kv_dim <= e < pos * kv_dim + kv_dim {
                host(row_start + (e - pos * kv_dim))
            } else {
                dev(e)
            },
        _ => dev,
    }
}

/// The slab holds the first `n` rows of the host, element by element, behind the rows in front.
pub open spec fn holds_elems(
    dev: spec_fn(int) -> int,
    host: spec_fn(int) -> int,
    call: GqaCall,
    n: int,
) -> bool {
    forall|e: int|
        call.preseed * call.kv_dim <= e < (call.preseed + n) * call.kv_dim ==> #[trigger] dev(e)
            == host(e - call.preseed * call.kv_dim)
}

/// By the numbers that its phases carry, a step on a slab of its shape leaves every element of
/// every row of the host where it belongs, for keys and for values, whether the slab was stale
/// or not. A slab that is not stale has to hold what its count says.
pub proof fn law_step_places_every_element(
    slab: KvSlab,
    call: GqaCall,
    dev: spec_fn(int) -> int,
    host: spec_fn(int) -> int,
)
    requires
        call.ok(),
        seeded(slab, call).cached_seq_len == call.preseed + call.seq_len - 1 ==> holds_elems(
            dev,
            host,
            call,
            call.seq_len - 1,
        ),
    ensures
        ({
            let first = settle(slab, call).1;
            let kd = call.kv_dim as int;
            match first {
                GqaPhase::Attend { .. } => holds_elems(
                    elems_after(dev, host, kd, first),
                    host,
                    call,
                    call.seq_len as int,
                ),
                GqaPhase::UploadK { .. } => {
                    let second = gqa_next(Some(slab), call, first, true).1;
                    let third = gqa_next(Some(slab), call, second, true).1;
                    &&& second is UploadV && third is Attend
                    &&& holds_elems(
                        elems_after(elems_after(dev, host, kd, first), host, kd, third),
                        host,
                        call,
                        call.seq_len as int,
                    )
                    &&& holds_elems(
                        elems_after(elems_after(dev, host, kd, second), host, kd, third),
                        host,
                        call,
                        call.seq_len as int,
                    )
                },
                _ => false,
            }
        }),
{
    law_rows_in_bounds(call);
    lemma_call_products(call);
    let kd = call.kv_dim as int;
    let pre = call.preseed as int;
    let n = call.seq_len as int;
    assert((pre + n) * kd == pre * kd + (n - 1) * kd + kd) by (nonlinear_arith);
    assert((pre + (n - 1)) * kd == pre * kd + (n - 1) * kd) by (nonlinear_arith);
    let row = call.new_row();
    assert(row * kd == pre * kd + (n - 1) * kd);
    assert(row * kd + kd <= call.max_seq * kd);
    if n == 1 {
        assert((n - 1) * kd == 0) by (nonlinear_arith)
            requires
                n == 1,
        ;
    }
}

/// A failure ends a step or a prefill and leaves the slab as it was; an end stays one.
pub proof fn law_failure_changes_nothing(
    slab: Option<KvSlab>,
    call: GqaCall,
    pre: PrefillCall,
    phase: GqaPhase,
    ok: bool,
)
    ensures
        phase is Done || phase is Failed ==> gqa_next(slab, call, phase, ok) == (slab, phase)
            && prefill_next(slab, pre, phase, ok) == (slab, phase),
        !(phase is Done) ==> gqa_next(slab, call, phase, false) == (slab, GqaPhase::Failed)
            && prefill_next(slab, pre, phase, false) == (slab, GqaPhase::Failed),
{
}

/// Buffers are made for all positions of the call, keys before values, with the same length; a
/// slab of another shape, or none, brings them about.
pub proof fn law_buffers_are_made_whole(slab: Option<KvSlab>, call: GqaCall, pre: PrefillCall)
    requires
        call.ok(),
        pre.ok(),
    ensures
        ({
            let f = gqa_first(slab, call);
            let g = prefill_first(slab, pre);
            &&& f.1 is AllocK <==> slab is None || slab->0.max_seq != call.max_seq
                || slab->0.kv_dim != call.kv_dim
            &&& g.1 is AllocK <==> slab is None || slab->0.max_seq != pre.max_seq
                || slab->0.kv_dim != pre.kv_dim
            &&& f.1 matches GqaPhase::AllocK { len, fresh } ==> {
                &&& len == call.max_seq * call.kv_dim
                &&& fresh <==> slab is None
                &&& f.0 == slab
                &&& gqa_next(slab, call, f.1, true).1 == (GqaPhase::AllocV { len, fresh })
                &&& prefill_next(slab, pre, f.1, true).1 == (GqaPhase::AllocV { len, fresh })
                &&& gqa_next(slab, call, f.1, true).0 == (match slab {
                    Some(s) => Some(KvSlab { k_len: len, ..s }),
                    None => None,
                })
            }
            &&& g.1 matches GqaPhase::AllocK { len, fresh } ==> {
                &&& len == pre.max_seq * pre.kv_dim
                &&& fresh <==> slab is None
                &&& g.0 == slab
            }
        }),
{
    lemma_call_products(call);
    assert(0 <= pre.max_seq * pre.kv_dim) by (nonlinear_arith)
        requires
            0 <= pre.max_seq,
            0 <= pre.kv_dim,
    ;
}

/// A prefill attends once, from its first position and its first row on, and is counted up to its
/// last row. Its slab is new, or the one of its shape that was there.
pub proof fn law_prefill_counts_its_rows(slab: Option<KvSlab>, call: PrefillCall, len: usize, fresh: bool)
    requires
        call.ok(),
    ensures
        ({
            let at = GqaPhase::Attend { pos: call.base_pos, row_start: 0 };
            let made = prefill_next(slab, call, GqaPhase::AllocV { len, fresh }, true);
            let done = prefill_next(made.0, call, at, true);
            &&& made.1 == at
            &&& made.0 == Some(
                KvSlab {
                    k_len: len,
                    v_len: len,
                    max_seq: call.max_seq,
                    kv_dim: call.kv_dim,
                    cached_seq_len: 0,
                },
            )
            &&& done.1 is Fetch
            &&& done.0 matches Some(s) && s.cached_seq_len == call.base_pos + call.seq_len
            &&& prefill_next(done.0, call, done.1, true) == (done.0, GqaPhase::Done)
            &&& prefill_first(slab, call).1 is Attend ==> prefill_first(slab, call) == (slab, at)
        }),
{
}

/// A row that was attended to is counted, and a slab that was filled up is counted up to the
/// row in front of it.
pub proof fn law_counts_follow_the_rows(slab: KvSlab, call: GqaCall, dst: usize, len: usize)
    requires
        call.ok(),
    ensures
        ({
            let up = gqa_next(Some(slab), call, GqaPhase::UploadV { dst, len }, true);
            let at = gqa_next(Some(slab), call, attend_phase(call), true);
            &&& up.0 == Some(
                KvSlab { cached_seq_len: (call.preseed + call.seq_len - 1) as usize, ..slab },
            )
            &&& at.0 == Some(
                KvSlab { cached_seq_len: (call.preseed + call.seq_len) as usize, ..slab },
            )
            &&& at.1 is Fetch
            &&& gqa_next(at.0, call, GqaPhase::Fetch, true) == (at.0, GqaPhase::Done)
        }),
{
}

/// A step looks only at its own layer's slab and changes no other.
pub proof fn law_layers_are_apart(
    slabs: Map<u64, KvSlab>,
    id: u64,
    other: u64,
    slab: Option<KvSlab>,
)
    requires
        other != id,
    ensures
        slot(put(slabs, id, slab), other) == slot(slabs, other),
        slab is Some ==> slot(put(slabs, id, slab), id) == slab,
        slab is None ==> put(slabs, id, slab) == slabs,
{
}

/// A call is taken just where its rows have its shape, the newest one is there, and the slab has
/// room for all of them.
pub proof fn law_lengths_of_a_step(
    q: usize,
    k: usize,
    v: usize,
    max_seq: usize,
    num_q_heads: usize,
    num_kv_heads: usize,
    head_dim: usize,
    seq_len: usize,
    base_pos: usize,
)
    ensures
        gqa_lens_fit(q, k, v, max_seq, num_q_heads, num_kv_heads, head_dim, seq_len) <==> {
            &&& q == num_q_heads * head_dim
            &&& k == seq_len * (num_kv_heads * head_dim)
            &&& v == k
            &&& 0 < seq_len <= max_seq
        },
        prefill_lens_fit(
            q,
            k,
            v,
            max_seq,
            base_pos,
            num_q_heads,
            num_kv_heads,
            head_dim,
            seq_len,
        ) <==> {
            &&& q == seq_len * (num_q_heads * head_dim)
            &&& k == seq_len * (num_kv_heads * head_dim)
            &&& v == k
            &&& 0 < seq_len
            &&& base_pos + seq_len <= max_seq
        },
{
}

/// A stale slab is told from one that is caught up by its count: only a slab that has just the
/// rows before the newest one, or that has none to catch up with, goes straight to attention. An
/// empty slab counts the rows in front as there.
pub proof fn law_stale_slab_is_filled(slab: KvSlab, call: GqaCall)
    requires
        call.ok(),
    ensures
        ({
            let have = if slab.cached_seq_len == 0 && call.preseed > 0 {
                call.preseed
            } else {
                slab.cached_seq_len
            };
            let r = settle(slab, call);
            let row = call.preseed + call.seq_len - 1;
            &&& r.1 is UploadK <==> have != row && call.seq_len > 1
            &&& r.1 is UploadK || r.1 is Attend
            &&& r.0 matches Some(s) && s == (KvSlab { cached_seq_len: s.cached_seq_len, ..slab })
            &&& r.1 is UploadK ==> r.0->0.cached_seq_len == have
            &&& r.1 is Attend ==> r.0->0.cached_seq_len == row
            &&& r.1 matches GqaPhase::Attend { pos, row_start } ==> pos == row && row_start
                + call.kv_dim == call.seq_len * call.kv_dim
            &&& r.1 matches GqaPhase::UploadK { dst, len } ==> dst == call.preseed * call.kv_dim
                && len + call.kv_dim == call.seq_len * call.kv_dim
        }),
{
    law_rows_in_bounds(call);
    lemma_call_products(call);
}

/// A slab whose buffers are new holds nothing yet: every row of the host but the newest one is
/// uploaded before attention.
pub proof fn law_new_slab_is_filled(slab: Option<KvSlab>, call: GqaCall, len: usize, fresh: bool)
    requires
        call.ok(),
    ensures
        ({
            let r = gqa_next(slab, call, GqaPhase::AllocV { len, fresh }, true);
            &&& call.seq_len > 1 ==> r.1 is UploadK
            &&& call.seq_len == 1 ==> r.1 is Attend
            &&& r.0 matches Some(s) && s.k_len == len && s.v_len == len && s.max_seq == call.max_seq
                && s.kv_dim == call.kv_dim && s.cached_seq_len == call.preseed
        }),
{
}

} // verus!
