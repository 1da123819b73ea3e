//! Packed key and value slabs of the hybrid model's attention layers.
//!
//! A slab holds a packed row for each position. A step packs what is missing, expands all
//! rows into scratch buffers that the layers share, and computes attention on those.

use std::collections::HashMap;
use vstd::prelude::*;

use crate::qwen35_kv::{put, slot, GqaCall, ISO3_BLOCK_ELEMS};

verus! {

broadcast use vstd::std_specs::hash::group_hash_axioms;

/// The packed slab of one layer.
#[derive(Clone, Copy, Debug, PartialEq, Eq, Structural)]
pub struct QuantSlab {
    /// Bytes that the key and the value buffer hold.
    pub k_len: usize,
    pub v_len: usize,
    pub max_seq: usize,
    pub kv_dim: usize,
    pub packed_row_bytes: usize,
    /// Rows that the slab is caught up to.
    pub cached_seq_len: usize,
}

impl QuantSlab {
    /// The buffers are as long as the slab says.
    pub open spec fn sound(self) -> bool {
        self.k_len == self.max_seq * self.packed_row_bytes && self.v_len == self.max_seq
            * self.packed_row_bytes
    }
}

/// A step on a packed slab.
#[derive(Clone, Copy, Debug, PartialEq, Eq, Structural)]
pub struct IsoCall {
    pub call: GqaCall,
    pub packed_row_bytes: usize,
}

impl IsoCall {
    pub open spec fn ok(self) -> bool {
        &&& self.call.ok()
        &&& self.call.max_seq * self.packed_row_bytes <= usize::MAX
    }

    pub open spec fn total_bytes(self) -> int {
        self.call.max_seq * self.packed_row_bytes
    }
}

/// Takes a step on a packed slab: rows have to be made of whole blocks, and the slab's
/// size has to be a number. `packed_row_bytes` is the packed length of a row, where the
/// format has one for it.
pub fn qwen35_gqa_decode_step_iso3(call: &GqaCall, packed_row_bytes: Option<usize>) -> (r: Option<
    IsoCall,
>)
    ensures
        match r {
            Some(c) => {
                &&& call.kv_dim % 128 == 0
                &&& c.call == *call && packed_row_bytes == Some(c.packed_row_bytes)
                &&& c.total_bytes() <= usize::MAX
            },
            None => {
                ||| call.kv_dim % 128 != 0
                ||| packed_row_bytes is None
                ||| call.max_seq * packed_row_bytes->0 > usize::MAX
            },
        },
        r is Some <==> {
            &&& call.kv_dim % 128 == 0 && packed_row_bytes is Some
            &&& call.max_seq * packed_row_bytes->0 <= usize::MAX
        },
        r matches Some(c) ==> c.call == *call && c.packed_row_bytes == packed_row_bytes->0,
{
    if call.kv_dim % ISO3_BLOCK_ELEMS != 0 {
        return None;
    }
    match packed_row_bytes {
        Some(bytes) => match bytes.checked_mul(call.max_seq) {
            Some(_) => {
                assert(bytes * call.max_seq == call.max_seq * bytes) by (nonlinear_arith);
                Some(IsoCall { call: *call, packed_row_bytes: bytes })
            },
            None => {
                assert(bytes * call.max_seq == call.max_seq * bytes) by (nonlinear_arith);
                None
            },
        },
        None => None,
    }
}

/// The scratch buffers' lengths.
#[derive(Clone, Copy, Debug, PartialEq, Eq, Structural)]
pub struct IsoScratch {
    pub wide: Option<usize>,
    pub k: Option<usize>,
    pub v: Option<usize>,
}

/// Where a step on a packed slab stands.
#[derive(Clone, Copy, Debug, PartialEq, Eq, Structural)]
pub enum IsoPhase {
    /// A key buffer of `bytes` zeros. For a layer without a slab a failure is fatal.
    AllocK { bytes: usize, fresh: bool },
    AllocV { bytes: usize, fresh: bool },
    /// The host's earlier rows, `elems` elements each of keys and values, to the device.
    UploadPrev { elems: usize },
    /// Packs those keys into `bytes` bytes from `dst` on.
    PackPrevK { dst: usize, bytes: usize, elems: usize },
    PackPrevV { dst: usize, bytes: usize, elems: usize },
    /// The newest row, whose host elements start at `row_start`, to the device.
    UploadRow { row_start: usize },
    /// Packs the newest key row to the place `dst`.
    PackRowK { dst: usize },
    PackRowV { dst: usize },
    /// Scratch buffers of `elems` elements.
    AllocWide { elems: usize },
    AllocScratchK { elems: usize },
    AllocScratchV { elems: usize },
    /// Expands the first `elems` key elements.
    ExpandK { elems: usize },
    /// Converts what was expanded for the attention kernel.
    ConvertK,
    ExpandV { elems: usize },
    ConvertV,
    /// Attention at row `pos`, whose host elements start at `row_start`.
    Attend { pos: usize, row_start: usize },
    /// The output back to the host.
    Fetch,
    Done,
    Failed,
}

/// What a step can change: the layer's slab and the scratch buffers.
#[derive(Clone, Copy, Debug, PartialEq, Eq, Structural)]
pub struct IsoState {
    pub slab: Option<QuantSlab>,
    pub scratch: IsoScratch,
}

pub open spec fn fits_iso(slab: QuantSlab, c: IsoCall) -> bool {
    slab.max_seq == c.call.max_seq && slab.kv_dim == c.call.kv_dim && slab.packed_row_bytes
        == c.packed_row_bytes
}

pub open spec fn iso_seeded(slab: QuantSlab, c: IsoCall) -> QuantSlab {
    if slab.cached_seq_len == 0 && c.call.preseed > 0 {
        QuantSlab { cached_seq_len: c.call.preseed, ..slab }
    } else {
        slab
    }
}

pub open spec fn upload_row(c: IsoCall) -> IsoPhase {
    IsoPhase::UploadRow { row_start: ((c.call.seq_len - 1) * c.call.kv_dim) as usize }
}

/// From a slab of the call's shape: mark the rows in front, and see whether the slab is
/// stale.
pub open spec fn iso_settle(slab: QuantSlab, c: IsoCall) -> (QuantSlab, IsoPhase) {
    let s = iso_seeded(slab, c);
    if s.cached_seq_len == c.call.new_row() {
        (s, upload_row(c))
    } else if c.call.seq_len > 1 {
        (
            s,
            IsoPhase::UploadPrev { elems: ((c.call.seq_len - 1) * c.call.kv_dim) as usize },
        )
    } else {
        (QuantSlab { cached_seq_len: c.call.new_row() as usize, ..s }, upload_row(c))
    }
}

pub open spec fn iso_first(st: IsoState, c: IsoCall) -> (IsoState, IsoPhase) {
    match st.slab {
        None => (st, IsoPhase::AllocK { bytes: c.total_bytes() as usize, fresh: true }),
        Some(s) => if fits_iso(s, c) {
            let r = iso_settle(s, c);
            (IsoState { slab: Some(r.0), ..st }, r.1)
        } else {
            (st, IsoPhase::AllocK { bytes: c.total_bytes() as usize, fresh: false })
        },
    }
}

/// A scratch buffer is missing or too short.
pub open spec fn too_short(len: Option<usize>, elems: int) -> bool {
    match len {
        Some(n) => n < elems,
        None => true,
    }
}

/// The first scratch buffer that has to be made, or the expansion of the keys.
pub open spec fn scratch_phase(sc: IsoScratch, c: IsoCall) -> IsoPhase {
    let elems = c.call.max_seq * c.call.kv_dim;
    if too_short(sc.wide, elems) {
        IsoPhase::AllocWide { elems: elems as usize }
    } else if too_short(sc.k, elems) {
        IsoPhase::AllocScratchK { elems: elems as usize }
    } else if too_short(sc.v, elems) {
        IsoPhase::AllocScratchV { elems: elems as usize }
    } else {
        IsoPhase::ExpandK { elems: ((c.call.new_row() + 1) * c.call.kv_dim) as usize }
    }
}

pub open spec fn iso_rows(slab: Option<QuantSlab>, rows: int) -> Option<QuantSlab> {
    match slab {
        Some(s) => Some(QuantSlab { cached_seq_len: rows as usize, ..s }),
        None => None,
    }
}

/// The phase that follows, given that a phase went well.
pub open spec fn iso_good(st: IsoState, c: IsoCall, phase: IsoPhase) -> (IsoState, IsoPhase) {
    let row_dst = (c.call.new_row() * c.packed_row_bytes) as usize;
    match phase {
        IsoPhase::AllocK { bytes, fresh } => (
            IsoState {
                slab: match st.slab {
                    Some(s) => Some(QuantSlab { k_len: bytes, ..s }),
                    None => None,
                },
                ..st
            },
            IsoPhase::AllocV { bytes, fresh },
        ),
        IsoPhase::AllocV { bytes, .. } => {
            let r = iso_settle(
                QuantSlab {
                    k_len: bytes,
                    v_len: bytes,
                    max_seq: c.call.max_seq,
                    kv_dim: c.call.kv_dim,
                    packed_row_bytes: c.packed_row_bytes,
                    cached_seq_len: 0,
                },
                c,
            );
            (IsoState { slab: Some(r.0), ..st }, r.1)
        },
        IsoPhase::UploadPrev { elems } => (
            st,
            IsoPhase::PackPrevK {
                dst: (c.call.preseed * c.packed_row_bytes) as usize,
                bytes: ((c.call.seq_len - 1) * c.packed_row_bytes) as usize,
                elems,
            },
        ),
        IsoPhase::PackPrevK { dst, bytes, elems } => (st, IsoPhase::PackPrevV { dst, bytes, elems }),
        IsoPhase::PackPrevV { .. } => (
            IsoState { slab: iso_rows(st.slab, c.call.new_row()), ..st },
            upload_row(c),
        ),
        IsoPhase::UploadRow { .. } => (st, IsoPhase::PackRowK { dst: row_dst }),
        IsoPhase::PackRowK { dst } => (st, IsoPhase::PackRowV { dst }),
        IsoPhase::PackRowV { .. } => (
            IsoState { slab: iso_rows(st.slab, c.call.new_row() + 1), ..st },
            scratch_phase(st.scratch, c),
        ),
        IsoPhase::AllocWide { elems } => {
            let sc = IsoScratch { wide: Some(elems), ..st.scratch };
            (IsoState { scratch: sc, ..st }, scratch_phase(sc, c))
        },
        IsoPhase::AllocScratchK { elems } => {
            let sc = IsoScratch { k: Some(elems), ..st.scratch };
            (IsoState { scratch: sc, ..st }, scratch_phase(sc, c))
        },
        IsoPhase::AllocScratchV { elems } => {
            let sc = IsoScratch { v: Some(elems), ..st.scratch };
            (IsoState { scratch: sc, ..st }, scratch_phase(sc, c))
        },
        IsoPhase::ExpandK { .. } => (st, IsoPhase::ConvertK),
        IsoPhase::ConvertK => (
            st,
            IsoPhase::ExpandV { elems: ((c.call.new_row() + 1) * c.call.kv_dim) as usize },
        ),
        IsoPhase::ExpandV { .. } => (st, IsoPhase::ConvertV),
        IsoPhase::ConvertV => (
            st,
            IsoPhase::Attend {
                pos: c.call.new_row() as usize,
                row_start: ((c.call.seq_len - 1) * c.call.kv_dim) as usize,
            },
        ),
        IsoPhase::Attend { .. } => (st, IsoPhase::Fetch),
        IsoPhase::Fetch => (st, IsoPhase::Done),
        IsoPhase::Done => (st, IsoPhase::Done),
        IsoPhase::Failed => (st, IsoPhase::Failed),
    }
}

/// The phase that follows, given how a phase went.
pub open spec fn iso_next(st: IsoState, c: IsoCall, phase: IsoPhase, ok: bool) -> (
    IsoState,
    IsoPhase,
) {
    if ok || phase is Done {
        iso_good(st, c, phase)
    } else {
        (st, IsoPhase::Failed)
    }
}

proof fn lemma_iso_products(c: IsoCall)
    requires
        c.ok(),
    ensures
        0 <= (c.call.seq_len - 1) * c.call.kv_dim <= usize::MAX,
        0 <= (c.call.new_row() + 1) * c.call.kv_dim <= c.call.max_seq * c.call.kv_dim,
        0 <= c.call.max_seq * c.call.kv_dim <= usize::MAX,
        0 <= c.call.preseed * c.packed_row_bytes <= usize::MAX,
        0 <= (c.call.seq_len - 1) * c.packed_row_bytes <= usize::MAX,
        0 <= c.call.new_row() * c.packed_row_bytes <= usize::MAX,
        0 <= c.total_bytes() <= usize::MAX,
{
    let n = c.call.max_seq as int;
    let d = c.call.kv_dim as int;
    let b = c.packed_row_bytes as int;
    let s = c.call.seq_len as int;
    let p = c.call.preseed as int;
    assert(0 <= (s - 1) * d <= n * d && 0 <= (p + s) * d <= n * d && 0 <= n * d) by (nonlinear_arith)
        requires
            0 < s,
            0 <= p,
            p + s <= n,
            0 <= d,
    ;
    assert(0 <= p * b <= n * b && 0 <= (s - 1) * b <= n * b && 0 <= (p + (s - 1)) * b <= n * b)
        by (nonlinear_arith)
        requires
            0 < s,
            0 <= p,
            p + s <= n,
            0 <= b,
    ;
}

fn settle_iso(slab: QuantSlab, c: &IsoCall) -> (r: (QuantSlab, IsoPhase))
    requires
        c.ok(),
    ensures
        r == iso_settle(slab, *c),
{
    proof {
        lemma_iso_products(*c);
    }
    let s = if slab.cached_seq_len == 0 && c.call.preseed > 0 {
        QuantSlab { cached_seq_len: c.call.preseed, ..slab }
    } else {
        slab
    };
    let row: usize = c.call.preseed + (c.call.seq_len - 1);
    let up = IsoPhase::UploadRow { row_start: (c.call.seq_len - 1) * c.call.kv_dim };
    if s.cached_seq_len == row {
        (s, up)
    } else if c.call.seq_len > 1 {
        (s, IsoPhase::UploadPrev { elems: (c.call.seq_len - 1) * c.call.kv_dim })
    } else {
        (QuantSlab { cached_seq_len: row, ..s }, up)
    }
}

fn is_too_short(len: Option<usize>, elems: usize) -> (r: bool)
    ensures
        r == too_short(len, elems as int),
{
    match len {
        Some(n) => n < elems,
        None => true,
    }
}

fn next_scratch(sc: &IsoScratch, c: &IsoCall) -> (p: IsoPhase)
    requires
        c.ok(),
    ensures
        p == scratch_phase(*sc, *c),
{
    proof {
        lemma_iso_products(*c);
    }
    let elems: usize = c.call.max_seq * c.call.kv_dim;
    if is_too_short(sc.wide, elems) {
        IsoPhase::AllocWide { elems }
    } else if is_too_short(sc.k, elems) {
        IsoPhase::AllocScratchK { elems }
    } else if is_too_short(sc.v, elems) {
        IsoPhase::AllocScratchV { elems }
    } else {
        IsoPhase::ExpandK { elems: (c.call.preseed + (c.call.seq_len - 1) + 1) * c.call.kv_dim }
    }
}

/// All packed slabs of a model, and the scratch buffers that they share.
#[derive(Debug)]
pub struct QuantSlabs {
    pub slabs: HashMap<u64, QuantSlab>,
    pub scratch: IsoScratch,
}

impl QuantSlabs {
    pub open spec fn view(self) -> Map<u64, QuantSlab> {
        self.slabs@
    }

    /// What a step on a layer works with.
    pub open spec fn state(self, id: u64) -> IsoState {
        IsoState { slab: slot(self@, id), scratch: self.scratch }
    }

    pub fn new() -> (s: QuantSlabs)
        ensures
            s@ == Map::<u64, QuantSlab>::empty(),
            s.scratch == (IsoScratch { wide: None, k: None, v: None }),
    {
        QuantSlabs {
            slabs: HashMap::new(),
            scratch: IsoScratch { wide: None, k: None, v: None },
        }
    }

    /// The slab of a layer.
    pub fn get(&self, id: u64) -> (r: Option<QuantSlab>)
        ensures
            r == slot(self@, id),
    {
        match self.slabs.get(&id) {
            Some(s) => Some(*s),
            None => None,
        }
    }

    fn set(&mut self, id: u64, slab: QuantSlab)
        ensures
            final(self)@ == old(self)@.insert(id, slab),
            final(self).scratch == old(self).scratch,
    {
        self.slabs.insert(id, slab);
    }

    fn set_rows(&mut self, id: u64, rows: usize)
        ensures
            final(self)@ == put(old(self)@, id, iso_rows(slot(old(self)@, id), rows as int)),
            final(self).scratch == old(self).scratch,
    {
        if let Some(s) = self.get(id) {
            self.set(id, QuantSlab { cached_seq_len: rows, ..s });
        }
    }

    /// The first phase of a step.
    pub fn iso_begin(&mut self, c: &IsoCall) -> (phase: IsoPhase)
        requires
            c.ok(),
        ensures
            phase == iso_first(old(self).state(c.call.cache_id), *c).1,
            final(self)@ == put(
                old(self)@,
                c.call.cache_id,
                iso_first(old(self).state(c.call.cache_id), *c).0.slab,
            ),
            final(self).scratch == old(self).scratch,
    {
        proof {
            lemma_iso_products(*c);
        }
        match self.get(c.call.cache_id) {
            None => IsoPhase::AllocK { bytes: c.call.max_seq * c.packed_row_bytes, fresh: true },
            Some(s) => {
                if s.max_seq != c.call.max_seq || s.kv_dim != c.call.kv_dim || s.packed_row_bytes
                    != c.packed_row_bytes {
                    assert(self@.insert(c.call.cache_id, s) =~= self@);
                    return IsoPhase::AllocK {
                        bytes: c.call.max_seq * c.packed_row_bytes,
                        fresh: false,
                    };
                }
                let (next, phase) = settle_iso(s, c);
                self.set(c.call.cache_id, next);
                phase
            },
        }
    }

    /// The phase that follows `phase`, which went well or not.
    pub fn iso_advance(&mut self, c: &IsoCall, phase: IsoPhase, ok: bool) -> (next: IsoPhase)
        requires
            c.ok(),
        ensures
            next == iso_next(old(self).state(c.call.cache_id), *c, phase, ok).1,
            final(self)@ == put(
                old(self)@,
                c.call.cache_id,
                iso_next(old(self).state(c.call.cache_id), *c, phase, ok).0.slab,
            ),
            final(self).scratch == iso_next(
                old(self).state(c.call.cache_id),
                *c,
                phase,
                ok,
            ).0.scratch,
    {
        proof {
            lemma_iso_products(*c);
            if self@.dom().contains(c.call.cache_id) {
                assert(self@.insert(c.call.cache_id, self@[c.call.cache_id]) =~= self@);
            }
        }
        let id: u64 = c.call.cache_id;
        let row: usize = c.call.preseed + (c.call.seq_len - 1);
        let row_start: usize = (c.call.seq_len - 1) * c.call.kv_dim;
        if !ok {
            return match phase {
                IsoPhase::Done => IsoPhase::Done,
                _ => IsoPhase::Failed,
            };
        }
        match phase {
            IsoPhase::AllocK { bytes, fresh } => {
                if let Some(s) = self.get(id) {
                    self.set(id, QuantSlab { k_len: bytes, ..s });
                }
                IsoPhase::AllocV { bytes, fresh }
            },
            IsoPhase::AllocV { bytes, .. } => {
                let empty = QuantSlab {
                    k_len: bytes,
                    v_len: bytes,
                    max_seq: c.call.max_seq,
                    kv_dim: c.call.kv_dim,
                    packed_row_bytes: c.packed_row_bytes,
                    cached_seq_len: 0,
                };
                let (s, next) = settle_iso(empty, c);
                self.set(id, s);
                next
            },
            IsoPhase::UploadPrev { elems } => IsoPhase::PackPrevK {
                dst: c.call.preseed * c.packed_row_bytes,
                bytes: (c.call.seq_len - 1) * c.packed_row_bytes,
                elems,
            },
            IsoPhase::PackPrevK { dst, bytes, elems } => IsoPhase::PackPrevV { dst, bytes, elems },
            IsoPhase::PackPrevV { .. } => {
                self.set_rows(id, row);
                IsoPhase::UploadRow { row_start }
            },
            IsoPhase::UploadRow { .. } => IsoPhase::PackRowK { dst: row * c.packed_row_bytes },
            IsoPhase::PackRowK { dst } => IsoPhase::PackRowV { dst },
            IsoPhase::PackRowV { .. } => {
                self.set_rows(id, row + 1);
                next_scratch(&self.scratch, c)
            },
            IsoPhase::AllocWide { elems } => {
                self.scratch.wide = Some(elems);
                next_scratch(&self.scratch, c)
            },
            IsoPhase::AllocScratchK { elems } => {
                self.scratch.k = Some(elems);
                next_scratch(&self.scratch, c)
            },
            IsoPhase::AllocScratchV { elems } => {
                self.scratch.v = Some(elems);
                next_scratch(&self.scratch, c)
            },
            IsoPhase::ExpandK { .. } => IsoPhase::ConvertK,
            IsoPhase::ConvertK => IsoPhase::ExpandV { elems: (row + 1) * c.call.kv_dim },
            IsoPhase::ExpandV { .. } => IsoPhase::ConvertV,
            IsoPhase::ConvertV => IsoPhase::Attend { pos: row, row_start },
            IsoPhase::Attend { .. } => IsoPhase::Fetch,
            IsoPhase::Fetch => IsoPhase::Done,
            IsoPhase::Done => IsoPhase::Done,
            IsoPhase::Failed => IsoPhase::Failed,
        }
    }

    /// Drops the slab of a layer. The scratch buffers stay.
    pub fn reset(&mut self, id: u64)
        ensures
            final(self)@ == old(self)@.remove(id),
            final(self).scratch == old(self).scratch,
    {
        self.slabs.remove(&id);
    }
}

/// A packed row has room in the slab, stale rows are packed up to just below it, and what
/// is expanded has room in the scratch buffers.
pub proof fn law_packed_rows_in_bounds(c: IsoCall)
    requires
        c.ok(),
    ensures
        c.call.new_row() * c.packed_row_bytes + c.packed_row_bytes <= c.total_bytes(),
        c.call.preseed * c.packed_row_bytes + (c.call.seq_len - 1) * c.packed_row_bytes
            == c.call.new_row() * c.packed_row_bytes,
        (c.call.new_row() + 1) * c.call.kv_dim <= c.call.max_seq * c.call.kv_dim,
{
    lemma_iso_products(c);
    let n = c.call.max_seq as int;
    let b = c.packed_row_bytes as int;
    let s = c.call.seq_len as int;
    let p = c.call.preseed as int;
    assert((p + (s - 1)) * b + b <= n * b && p * b + (s - 1) * b == (p + (s - 1)) * b)
        by (nonlinear_arith)
        requires
            p + s <= n,
            0 <= b,
    ;
}

/// Where a step that nothing goes wrong in ends.
pub open spec fn iso_run(st: IsoState, c: IsoCall, phase: IsoPhase, fuel: nat) -> (
    IsoState,
    IsoPhase,
)
    decreases fuel,
{
    if fuel == 0 {
        (st, phase)
    } else {
        let n = iso_next(st, c, phase, true);
        iso_run(n.0, c, n.1, (fuel - 1) as nat)
    }
}

pub proof fn lemma_iso_run_split(st: IsoState, c: IsoCall, phase: IsoPhase, a: nat, b: nat)
    ensures
        iso_run(st, c, phase, a + b) == ({
            let m = iso_run(st, c, phase, a);
            iso_run(m.0, c, m.1, b)
        }),
    decreases a,
{
    if a > 0 {
        let n = iso_next(st, c, phase, true);
        lemma_iso_run_split(n.0, c, n.1, (a - 1) as nat, b);
    }
}

proof fn lemma_iso_done(st: IsoState, c: IsoCall, fuel: nat)
    ensures
        iso_run(st, c, IsoPhase::Done, fuel) == (st, IsoPhase::Done),
    decreases fuel,
{
    if fuel > 0 {
        lemma_iso_done(st, c, (fuel - 1) as nat);
    }
}

/// Scratch buffers hold at least this much.
pub open spec fn roomy(sc: IsoScratch, elems: int) -> bool {
    !too_short(sc.wide, elems) && !too_short(sc.k, elems) && !too_short(sc.v, elems)
}

spec fn shorts(sc: IsoScratch, elems: int) -> nat {
    (if too_short(sc.wide, elems) {
        1nat
    } else {
        0
    }) + (if too_short(sc.k, elems) {
        1nat
    } else {
        0
    }) + (if too_short(sc.v, elems) {
        1nat
    } else {
        0
    })
}

proof fn lemma_iso_expand(st: IsoState, c: IsoCall, elems: usize)
    ensures
        iso_run(st, c, IsoPhase::ExpandK { elems }, 6) == (st, IsoPhase::Done),
{
    reveal_with_fuel(iso_run, 7);
}

proof fn lemma_iso_tail(st: IsoState, c: IsoCall, fuel: nat)
    requires
        c.ok(),
        fuel >= 6 + shorts(st.scratch, c.call.max_seq * c.call.kv_dim),
    ensures
        ({
            let end = iso_run(st, c, scratch_phase(st.scratch, c), fuel);
            &&& end.1 == IsoPhase::Done
            &&& end.0.slab == st.slab
            &&& roomy(end.0.scratch, c.call.max_seq * c.call.kv_dim)
        }),
    decreases shorts(st.scratch, c.call.max_seq * c.call.kv_dim),
{
    lemma_iso_products(c);
    let elems = c.call.max_seq * c.call.kv_dim;
    let p = scratch_phase(st.scratch, c);
    if roomy(st.scratch, elems) {
        lemma_iso_expand(st, c, p->ExpandK_elems);
        lemma_iso_run_split(st, c, p, 6, (fuel - 6) as nat);
        lemma_iso_done(st, c, (fuel - 6) as nat);
    } else {
        let n = iso_next(st, c, p, true);
        lemma_iso_tail(n.0, c, (fuel - 1) as nat);
    }
}

/// A step in which nothing goes wrong ends. It leaves a slab of the call's shape that is
/// caught up to all the host's rows, and scratch buffers that are long enough; the
/// slab's buffers are of the right length where they were right before.
pub proof fn law_iso_step_ends_caught_up(st: IsoState, c: IsoCall)
    requires
        c.ok(),
    ensures
        ({
            let f = iso_first(st, c);
            let end = iso_run(f.0, c, f.1, 17);
            &&& end.1 == IsoPhase::Done
            &&& end.0.slab matches Some(s) && fits_iso(s, c) && s.cached_seq_len == c.call.preseed
                + c.call.seq_len
            &&& (st.slab matches Some(b) ==> b.sound()) ==> end.0.slab->0.sound()
            &&& roomy(end.0.scratch, c.call.max_seq * c.call.kv_dim)
        }),
{
    lemma_iso_products(c);
    let f = iso_first(st, c);
    let k = lemma_iso_head(st, c);
    let m = iso_run(f.0, c, f.1, k);
    lemma_iso_run_split(f.0, c, f.1, k, (17 - k) as nat);
    lemma_iso_tail(m.0, c, 9);
    lemma_iso_run_split(m.0, c, m.1, 9, (8 - k) as nat);
    let t = iso_run(m.0, c, m.1, 9);
    lemma_iso_done(t.0, c, (8 - k) as nat);
}

proof fn lemma_iso_head(st: IsoState, c: IsoCall) -> (k: nat)
    requires
        c.ok(),
    ensures
        k <= 8,
        ({
            let f = iso_first(st, c);
            let m = iso_run(f.0, c, f.1, k);
            &&& m.1 == scratch_phase(m.0.scratch, c)
            &&& m.0.scratch == st.scratch
            &&& m.0.slab matches Some(s) && fits_iso(s, c) && s.cached_seq_len == c.call.preseed
                + c.call.seq_len
            &&& (st.slab matches Some(b) ==> b.sound()) ==> m.0.slab->0.sound()
        }),
{
    lemma_iso_products(c);
    reveal_with_fuel(iso_run, 9);
    let fits = st.slab matches Some(s) && fits_iso(s, c);
    let alloc: nat = if fits {
        0
    } else {
        2
    };
    let base = if fits {
        st.slab->0.cached_seq_len as int
    } else {
        0
    };
    let seen = if base == 0 && c.call.preseed > 0 {
        c.call.preseed as int
    } else {
        base
    };
    let stale: nat = if seen != c.call.new_row() && c.call.seq_len > 1 {
        3
    } else {
        0
    };
    alloc + stale + 3
}

/// A scratch buffer is never replaced by a shorter one.
pub proof fn law_scratch_never_shrinks(st: IsoState, c: IsoCall, n: int)
    requires
        c.ok(),
        roomy(st.scratch, n),
    ensures
        ({
            let f = iso_first(st, c);
            roomy(iso_run(f.0, c, f.1, 17).0.scratch, n)
        }),
{
    let f = iso_first(st, c);
    lemma_iso_scratch(f.0, c, f.1, 17, n);
}

/// A phase that makes a scratch buffer makes one that was too short longer.
pub open spec fn grows(sc: IsoScratch, phase: IsoPhase) -> bool {
    match phase {
        IsoPhase::AllocWide { elems } => too_short(sc.wide, elems as int),
        IsoPhase::AllocScratchK { elems } => too_short(sc.k, elems as int),
        IsoPhase::AllocScratchV { elems } => too_short(sc.v, elems as int),
        _ => true,
    }
}

proof fn lemma_iso_scratch(st: IsoState, c: IsoCall, phase: IsoPhase, fuel: nat, n: int)
    requires
        c.ok(),
        roomy(st.scratch, n),
        grows(st.scratch, phase),
    ensures
        roomy(iso_run(st, c, phase, fuel).0.scratch, n),
    decreases fuel,
{
    if fuel > 0 {
        lemma_iso_products(c);
        let r = iso_next(st, c, phase, true);
        lemma_iso_scratch(r.0, c, r.1, (fuel - 1) as nat, n);
    }
}

/// The step that follows a good one, with one row more, packs nothing but its own row.
pub proof fn law_next_iso_step_packs_one_row(slab: QuantSlab, sc: IsoScratch, c: IsoCall, next: IsoCall)
    requires
        c.ok(),
        next.ok(),
        fits_iso(slab, c),
        slab.cached_seq_len == c.call.preseed + c.call.seq_len,
        next.packed_row_bytes == c.packed_row_bytes,
        next.call == (GqaCall { seq_len: next.call.seq_len, ..c.call }),
        next.call.seq_len == c.call.seq_len + 1,
    ensures
        iso_first(IsoState { slab: Some(slab), scratch: sc }, next) == (
            IsoState { slab: Some(slab), scratch: sc },
            upload_row(next),
        ),
{
}

/// Where the phases of a step put things. The newest row comes from the end of the host's rows
/// and goes behind the packed rows before it; stale rows come from the front and go behind the
/// rows in front; everything up to the newest row is expanded, for keys and values alike; and
/// attention is at the newest row.
pub proof fn law_places_of_a_step(st: IsoState, c: IsoCall, at: usize, many: usize)
    requires
        c.ok(),
    ensures
        ({
            let row = c.call.preseed + c.call.seq_len - 1;
            let next = |p: IsoPhase| iso_good(st, c, p).1;
            &&& upload_row(c) matches IsoPhase::UploadRow { row_start } && row_start
                + c.call.kv_dim == c.call.seq_len * c.call.kv_dim
            &&& next(IsoPhase::UploadPrev { elems: at }) matches IsoPhase::PackPrevK {
                dst,
                bytes,
                elems,
            } && dst == c.call.preseed * c.packed_row_bytes && dst + bytes == row
                * c.packed_row_bytes && elems == at
            &&& next(IsoPhase::PackPrevK { dst: at, bytes: many, elems: at })
                == (IsoPhase::PackPrevV { dst: at, bytes: many, elems: at })
            &&& next(IsoPhase::PackPrevV { dst: at, bytes: many, elems: at }) == upload_row(c)
            &&& next(IsoPhase::UploadRow { row_start: at }) matches IsoPhase::PackRowK { dst }
                && dst == row * c.packed_row_bytes
            &&& next(IsoPhase::PackRowK { dst: at }) == (IsoPhase::PackRowV { dst: at })
            &&& next(IsoPhase::ExpandK { elems: at }) is ConvertK
            &&& next(IsoPhase::ConvertK) matches IsoPhase::ExpandV { elems } && elems == (
            c.call.preseed + c.call.seq_len) * c.call.kv_dim
            &&& next(IsoPhase::ExpandV { elems: at }) is ConvertV
            &&& next(IsoPhase::ConvertV) matches IsoPhase::Attend { pos, row_start } && pos == row
                && row_start + c.call.kv_dim == c.call.seq_len * c.call.kv_dim
            &&& next(IsoPhase::Attend { pos: at, row_start: many }) is Fetch
            &&& next(IsoPhase::Fetch) is Done
        }),
{
    lemma_iso_products(c);
    let kd = c.call.kv_dim as int;
    let n = c.call.seq_len as int;
    let pre = c.call.preseed as int;
    let b = c.packed_row_bytes as int;
    assert((n - 1) * kd + kd == n * kd) by (nonlinear_arith);
    assert(pre * b + (n - 1) * b == (pre + n - 1) * b) by (nonlinear_arith);
    assert(c.call.new_row() + 1 == pre + n);
}

/// Of the scratch buffers, the first that is too short is made, with room for every element of
/// the slab: the wide one, then that for keys, then that for values. Where all are long enough,
/// every row is expanded.
pub proof fn law_scratch_in_order(sc: IsoScratch, c: IsoCall)
    requires
        c.ok(),
    ensures
        ({
            let need = c.call.max_seq * c.call.kv_dim;
            let short = |len: Option<usize>| len is None || len->0 < need;
            match scratch_phase(sc, c) {
                IsoPhase::AllocWide { elems } => elems == need && short(sc.wide),
                IsoPhase::AllocScratchK { elems } => elems == need && !short(sc.wide) && short(sc.k),
                IsoPhase::AllocScratchV { elems } => elems == need && !short(sc.wide) && !short(sc.k)
                    && short(sc.v),
                IsoPhase::ExpandK { elems } => elems == (c.call.preseed + c.call.seq_len)
                    * c.call.kv_dim && !short(sc.wide) && !short(sc.k) && !short(sc.v),
                _ => false,
            }
        }),
{
    lemma_iso_products(c);
}

/// A stale slab is told from one that is caught up by its count: only a slab that has just the
/// rows before the newest one, or that has none to catch up with, goes straight to it.
pub proof fn law_stale_rows_are_packed(slab: QuantSlab, c: IsoCall)
    requires
        c.ok(),
    ensures
        ({
            let have = if slab.cached_seq_len == 0 && c.call.preseed > 0 {
                c.call.preseed
            } else {
                slab.cached_seq_len
            };
            let r = iso_settle(slab, c);
            &&& r.1 is UploadPrev <==> have != c.call.preseed + c.call.seq_len - 1 && c.call.seq_len
                > 1
            &&& !(r.1 is UploadPrev) ==> r.1 == upload_row(c) && r.0.cached_seq_len
                == c.call.preseed + c.call.seq_len - 1
            &&& r.1 matches IsoPhase::UploadPrev { elems } ==> elems + c.call.kv_dim
                == c.call.seq_len * c.call.kv_dim && r.0.cached_seq_len == have
            &&& r.0 == (QuantSlab { cached_seq_len: r.0.cached_seq_len, ..slab })
        }),
{
    lemma_iso_products(c);
    let kd = c.call.kv_dim as int;
    let n = c.call.seq_len as int;
    assert((n - 1) * kd + kd == n * kd) by (nonlinear_arith);
}

/// Slabs are made for every position of the call, keys before values, with the same bytes; a
/// slab of another shape, or none, brings that about.
pub proof fn law_packed_buffers_are_made_whole(st: IsoState, c: IsoCall)
    requires
        c.ok(),
    ensures
        ({
            let f = iso_first(st, c);
            &&& f.1 is AllocK <==> st.slab is None || st.slab->0.max_seq != c.call.max_seq
                || st.slab->0.kv_dim != c.call.kv_dim || st.slab->0.packed_row_bytes
                != c.packed_row_bytes
            &&& f.1 matches IsoPhase::AllocK { bytes, fresh } ==> {
                &&& bytes == c.call.max_seq * c.packed_row_bytes
                &&& fresh <==> st.slab is None
                &&& f.0 == st
                &&& iso_good(st, c, f.1).1 == (IsoPhase::AllocV { bytes, fresh })
                &&& iso_good(st, c, f.1).0.scratch == st.scratch
            }
            &&& f.0.scratch == st.scratch
        }),
{
    lemma_iso_products(c);
}

/// Counts follow the rows: packed stale rows are counted up to the newest one, and that one when
/// it has been packed. No other phase but the making of a slab changes a count.
pub proof fn law_iso_counts(slab: QuantSlab, sc: IsoScratch, c: IsoCall, phase: IsoPhase)
    requires
        c.ok(),
        !(phase is AllocK) && !(phase is AllocV),
    ensures
        ({
            let st = IsoState { slab: Some(slab), scratch: sc };
            let after = iso_good(st, c, phase).0;
            let have = after.slab->0.cached_seq_len;
            &&& after.slab is Some && after.slab->0 == (QuantSlab { cached_seq_len: have, ..slab })
            &&& phase is PackPrevV ==> have == c.call.preseed + c.call.seq_len - 1
            &&& phase is PackRowV ==> have == c.call.preseed + c.call.seq_len
            &&& !(phase is PackPrevV) && !(phase is PackRowV) ==> have == slab.cached_seq_len
            &&& phase matches IsoPhase::AllocWide { elems } ==> after.scratch == (IsoScratch {
                wide: Some(elems),
                ..sc
            })
            &&& phase matches IsoPhase::AllocScratchK { elems } ==> after.scratch == (IsoScratch {
                k: Some(elems),
                ..sc
            })
            &&& phase matches IsoPhase::AllocScratchV { elems } ==> after.scratch == (IsoScratch {
                v: Some(elems),
                ..sc
            })
            &&& !(phase is AllocWide) && !(phase is AllocScratchK) && !(phase is AllocScratchV)
                ==> after.scratch == sc
        }),
{
}

/// A failure ends a step and leaves slab and scratch as they were; an end stays one.
pub proof fn law_iso_failure_changes_nothing(st: IsoState, c: IsoCall, phase: IsoPhase, ok: bool)
    ensures
        !(phase is Done) ==> iso_next(st, c, phase, false) == (st, IsoPhase::Failed),
        phase is Done ==> iso_next(st, c, phase, ok) == (st, IsoPhase::Done),
        phase is Failed ==> iso_next(st, c, phase, ok) == (st, IsoPhase::Failed),
        ok ==> iso_next(st, c, phase, ok) == iso_good(st, c, phase),
{
}

/// A slab whose buffers are new holds nothing yet: every row of the host but the newest one is
/// packed before that one.
pub proof fn law_new_packed_slab_is_filled(st: IsoState, c: IsoCall, bytes: usize, fresh: bool)
    requires
        c.ok(),
    ensures
        ({
            let r = iso_good(st, c, IsoPhase::AllocV { bytes, fresh });
            &&& c.call.seq_len > 1 ==> r.1 is UploadPrev
            &&& c.call.seq_len == 1 ==> r.1 == upload_row(c)
            &&& r.0.scratch == st.scratch
            &&& r.0.slab matches Some(s) && s.k_len == bytes && s.v_len == bytes && s.max_seq
                == c.call.max_seq && s.kv_dim == c.call.kv_dim && s.packed_row_bytes
                == c.packed_row_bytes && s.cached_seq_len == c.call.preseed
        }),
{
}

} // verus!
