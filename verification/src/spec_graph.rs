//! Graphs of the batched pass that verifies drafted tokens.
//!
//! There is one set of buffers and one graph for each run length, buffer shape and
//! kind of attention. The warm-up is that of the decode step, counted for each on its
//! own.

use vstd::prelude::*;

use crate::graph::{GraphMode, Warmup};
use crate::kv_cache::KvCacheSlot;
use crate::pipeline::DecodeScratchShape;

verus! {

/// What a set of buffers and its graph are kept by.
#[derive(Clone, Copy, Debug, PartialEq, Eq, Structural)]
pub struct SpecScratchKey {
    pub seq_len: usize,
    pub shape: DecodeScratchShape,
    pub tree: bool,
}

impl SpecScratchKey {
    pub fn linear(seq_len: usize, shape: DecodeScratchShape) -> (k: SpecScratchKey)
        ensures
            k == (SpecScratchKey { seq_len, shape, tree: false }),
    {
        SpecScratchKey { seq_len, shape, tree: false }
    }

    pub fn tree(seq_len: usize, shape: DecodeScratchShape) -> (k: SpecScratchKey)
        ensures
            k == (SpecScratchKey { seq_len, shape, tree: true }),
    {
        SpecScratchKey { seq_len, shape, tree: true }
    }
}

/// One set of buffers and the warm-up of its graph.
#[derive(Clone, Copy, Debug, PartialEq, Eq, Structural)]
pub struct SpecSlot {
    pub key: SpecScratchKey,
    pub warmup: Warmup,
}

/// All sets of buffers.
#[derive(Debug)]
pub struct SpecGraphs {
    pub slots: Vec<SpecSlot>,
}

/// Where a batched pass over fixed buffers stands.
#[derive(Clone, Copy, Debug, PartialEq, Eq, Structural)]
pub enum SpecPhase {
    /// Allocate the buffers.
    AllocScratch,
    /// Write the rows, the start and, for a tree, the ancestor sets.
    Place,
    /// Launch the graph and wait for the device.
    Replay,
    /// Wait for the device before the capture.
    Settle,
    BeginCapture,
    /// Run the layers.
    RunLayers { capture: bool },
    /// End the capture; success is that it delivered a graph.
    EndCapture,
    /// Launch the fresh graph.
    LaunchFresh,
    /// Bring the rows back.
    Fetch,
    /// The pass is over, with or without rows.
    Done(bool),
}

/// One batched pass: its buffers, where it starts, and whether graphs are in use.
#[derive(Clone, Copy, Debug, PartialEq, Eq, Structural)]
pub struct SpecCall {
    pub key: SpecScratchKey,
    pub base_pos: usize,
    pub graphs: bool,
}

impl SpecGraphs {
    /// No two sets of buffers have the same key.
    pub open spec fn wf(self) -> bool {
        forall|i: int, j: int|
            0 <= i < j < self.slots@.len() ==> (#[trigger] self.slots@[i]).key != (
            #[trigger] self.slots@[j]).key
    }

    /// The warm-up of each set of buffers.
    pub open spec fn view(self) -> Map<SpecScratchKey, Warmup> {
        Map::new(
            |k: SpecScratchKey| exists|i: int|
                0 <= i < self.slots@.len() && (#[trigger] self.slots@[i]).key == k,
            |k: SpecScratchKey|
                self.slots@[choose|i: int|
                    0 <= i < self.slots@.len() && (#[trigger] self.slots@[i]).key == k].warmup,
        )
    }

    proof fn lemma_slot(self, i: int)
        requires
            self.wf(),
            0 <= i < self.slots@.len(),
        ensures
            self@.dom().contains(self.slots@[i].key),
            self@[self.slots@[i].key] == self.slots@[i].warmup,
    {
        let k = self.slots@[i].key;
        let c = choose|c: int| 0 <= c < self.slots@.len() && (#[trigger] self.slots@[c]).key == k;
        assert(0 <= c < self.slots@.len() && self.slots@[c].key == k);
        if c < i {
            assert(self.slots@[c].key != self.slots@[i].key);
        }
        if i < c {
            assert(self.slots@[i].key != self.slots@[c].key);
        }
    }

    pub fn new() -> (s: SpecGraphs)
        ensures
            s.wf(),
            s@ == Map::<SpecScratchKey, Warmup>::empty(),
    {
        let s = SpecGraphs { slots: Vec::new() };
        assert(s@ =~= Map::<SpecScratchKey, Warmup>::empty());
        s
    }

    fn find(&self, key: &SpecScratchKey) -> (r: Option<usize>)
        requires
            self.wf(),
        ensures
            match r {
                Some(i) => i < self.slots@.len() && self.slots@[i as int].key == *key
                    && self@.dom().contains(*key) && self@[*key] == self.slots@[i as int].warmup,
                None => !self@.dom().contains(*key),
            },
    {
        let mut i: usize = 0;
        while i < self.slots.len()
            invariant
                self.wf(),
                i <= self.slots@.len(),
                forall|j: int| 0 <= j < i ==> (#[trigger] self.slots@[j]).key != *key,
            decreases self.slots@.len() - i,
        {
            if self.slots[i].key == *key {
                proof {
                    self.lemma_slot(i as int);
                }
                return Some(i);
            }
            i = i + 1;
        }
        None
    }

    /// Whether there are buffers for the key.
    pub fn has(&self, key: &SpecScratchKey) -> (r: bool)
        requires
            self.wf(),
        ensures
            r == self@.dom().contains(*key),
    {
        self.find(key).is_some()
    }

    fn insert_fresh(&mut self, key: SpecScratchKey)
        requires
            old(self).wf(),
            !old(self)@.dom().contains(key),
        ensures
            final(self).wf(),
            final(self)@ == old(self)@.insert(key, Warmup::fresh()),
    {
        let ghost before = *self;
        self.slots.push(SpecSlot { key, warmup: Warmup::new() });
        proof {
            let n = before.slots@.len() as int;
            assert forall|i: int, j: int| 0 <= i < j < self.slots@.len() implies (
            #[trigger] self.slots@[i]).key != (#[trigger] self.slots@[j]).key by {
                if j == n {
                    assert(before.slots@[i] == self.slots@[i]);
                    before.lemma_slot(i);
                } else {
                    assert(before.slots@[i] == self.slots@[i]);
                    assert(before.slots@[j] == self.slots@[j]);
                }
            }
            Self::lemma_view_step(before, *self, n, key, Warmup::fresh());
        }
    }

    /// Setting one slot, or appending one, sets that key's warm-up.
    proof fn lemma_view_step(a: SpecGraphs, b: SpecGraphs, n: int, key: SpecScratchKey, w: Warmup)
        requires
            a.wf(),
            b.wf(),
            0 <= n < b.slots@.len(),
            b.slots@[n] == (SpecSlot { key, warmup: w }),
            a.slots@.len() <= b.slots@.len() <= a.slots@.len() + 1,
            b.slots@.len() > a.slots@.len() ==> n == a.slots@.len(),
            n < a.slots@.len() ==> a.slots@[n].key == key,
            forall|i: int| 0 <= i < a.slots@.len() && i != n ==> #[trigger] b.slots@[i] == a.slots@[i],
        ensures
            b@ == a@.insert(key, w),
    {
        b.lemma_slot(n);
        assert forall|k: SpecScratchKey| #[trigger] b@.dom().contains(k) == a@.insert(
            key,
            w,
        ).dom().contains(k) by {
            if b@.dom().contains(k) && k != key {
                let i = choose|i: int|
                    0 <= i < b.slots@.len() && (#[trigger] b.slots@[i]).key == k;
                assert(a.slots@[i] == b.slots@[i]);
                a.lemma_slot(i);
            }
            if a@.dom().contains(k) && k != key {
                let i = choose|i: int|
                    0 <= i < a.slots@.len() && (#[trigger] a.slots@[i]).key == k;
                assert(a.slots@[i] == b.slots@[i]);
                b.lemma_slot(i);
            }
        }
        assert forall|k: SpecScratchKey| #[trigger] b@.dom().contains(k) implies b@[k] == a@.insert(
            key,
            w,
        )[k] by {
            if k != key {
                let i = choose|i: int|
                    0 <= i < b.slots@.len() && (#[trigger] b.slots@[i]).key == k;
                assert(a.slots@[i] == b.slots@[i]);
                a.lemma_slot(i);
                b.lemma_slot(i);
            }
        }
        assert(b@ =~= a@.insert(key, w));
    }

    fn set(&mut self, key: &SpecScratchKey, warmup: Warmup)
        requires
            old(self).wf(),
            old(self)@.dom().contains(*key),
        ensures
            final(self).wf(),
            final(self)@ == old(self)@.insert(*key, warmup),
    {
        let ghost before = *self;
        if let Some(i) = self.find(key) {
            let slot = SpecSlot { key: *key, warmup };
            self.slots.set(i, slot);
            proof {
                assert forall|a: int, b: int| 0 <= a < b < self.slots@.len() implies (
                #[trigger] self.slots@[a]).key != (#[trigger] self.slots@[b]).key by {
                    assert(before.slots@[a].key == self.slots@[a].key);
                    assert(before.slots@[b].key == self.slots@[b].key);
                }
                Self::lemma_view_step(before, *self, i as int, *key, warmup);
            }
        }
    }

    /// State once a phase's work has succeeded or failed, whether the cache is
    /// advanced to the end of the run, and the phase after it.
    pub open spec fn next(
        graphs: Map<SpecScratchKey, Warmup>,
        call: SpecCall,
        phase: SpecPhase,
        ok: bool,
    ) -> (Map<SpecScratchKey, Warmup>, bool, SpecPhase) {
        let w = graphs[call.key];
        let lost = (graphs, false, SpecPhase::Done(false));
        match phase {
            SpecPhase::Done(_) => (graphs, false, phase),
            SpecPhase::EndCapture => if ok {
                (graphs, false, SpecPhase::LaunchFresh)
            } else {
                (
                    graphs.insert(call.key, Warmup { count: 0, ..w }),
                    false,
                    SpecPhase::RunLayers { capture: false },
                )
            },
            _ => if !ok {
                lost
            } else {
                match phase {
                    SpecPhase::AllocScratch => (
                        graphs.insert(call.key, Warmup::fresh()),
                        false,
                        SpecPhase::Place,
                    ),
                    SpecPhase::Place => if !call.graphs {
                        (graphs, false, SpecPhase::RunLayers { capture: false })
                    } else {
                        (
                            graphs.insert(call.key, w.begun()),
                            false,
                            match w.mode() {
                                GraphMode::Replay => SpecPhase::Replay,
                                GraphMode::Capture => SpecPhase::Settle,
                                GraphMode::Eager => SpecPhase::RunLayers { capture: false },
                            },
                        )
                    },
                    SpecPhase::Settle => (graphs, false, SpecPhase::BeginCapture),
                    SpecPhase::BeginCapture => (
                        graphs,
                        false,
                        SpecPhase::RunLayers { capture: true },
                    ),
                    SpecPhase::RunLayers { capture: true } => (
                        graphs,
                        false,
                        SpecPhase::EndCapture,
                    ),
                    SpecPhase::RunLayers { capture: false } => (graphs, true, SpecPhase::Fetch),
                    SpecPhase::LaunchFresh => (
                        graphs.insert(call.key, Warmup { captured: true, ..w }),
                        true,
                        SpecPhase::Fetch,
                    ),
                    SpecPhase::Replay => (graphs, true, SpecPhase::Fetch),
                    SpecPhase::Fetch => (graphs, false, SpecPhase::Done(true)),
                    _ => lost,
                }
            },
        }
    }

    /// The first phase of a pass.
    pub fn decode_tokens_speculative_seq_device_scratch(&self, call: &SpecCall) -> (p: SpecPhase)
        requires
            self.wf(),
        ensures
            p == if self@.dom().contains(call.key) {
                SpecPhase::Place
            } else {
                SpecPhase::AllocScratch
            },
    {
        if self.has(&call.key) {
            SpecPhase::Place
        } else {
            SpecPhase::AllocScratch
        }
    }

    /// Takes over the outcome of a phase's work and says what comes next.
    pub fn advance(
        &mut self,
        kv: &mut KvCacheSlot,
        call: &SpecCall,
        phase: SpecPhase,
        ok: bool,
    ) -> (next: SpecPhase)
        requires
            old(self).wf(),
            old(kv).wf(),
            old(kv).cache is Some,
            call.base_pos + call.key.seq_len <= usize::MAX,
            phase is AllocScratch == !old(self)@.dom().contains(call.key),
            old(self)@.dom().contains(call.key) ==> old(self)@[call.key].captured || old(self)@[call.key].count < u32::MAX,
        ensures
            ({
                let (graphs, advanced, want) = SpecGraphs::next(old(self)@, *call, phase, ok);
                &&& final(self)@ == graphs
                &&& next == want
                &&& advanced ==> final(kv).positions() == call.base_pos + call.key.seq_len
                &&& !advanced ==> *final(kv) == *old(kv)
            }),
            call.base_pos + call.key.seq_len <= old(kv).cache->0.max_seq && old(kv).bounded()
                ==> final(kv).bounded(),
            final(self).wf(),
            final(kv).wf(),
            final(kv).same_slabs(*old(kv)),
    {
        let end: usize = call.base_pos + call.key.seq_len;
        match phase {
            SpecPhase::Done(_) => {
                return phase;
            },
            SpecPhase::AllocScratch => {
                if !ok {
                    return SpecPhase::Done(false);
                }
                self.insert_fresh(call.key);
                return SpecPhase::Place;
            },
            _ => {},
        }
        let mut w: Warmup = match self.find(&call.key) {
            Some(i) => self.slots[i].warmup,
            None => return SpecPhase::Done(false),
        };
        if let SpecPhase::EndCapture = phase {
            if ok {
                return SpecPhase::LaunchFresh;
            }
            w.start_over();
            self.set(&call.key, w);
            return SpecPhase::RunLayers { capture: false };
        }
        if !ok {
            return SpecPhase::Done(false);
        }
        match phase {
            SpecPhase::Place => {
                if !call.graphs {
                    return SpecPhase::RunLayers { capture: false };
                }
                let mode = w.begin();
                self.set(&call.key, w);
                match mode {
                    GraphMode::Replay => SpecPhase::Replay,
                    GraphMode::Capture => SpecPhase::Settle,
                    GraphMode::Eager => SpecPhase::RunLayers { capture: false },
                }
            },
            SpecPhase::Settle => SpecPhase::BeginCapture,
            SpecPhase::BeginCapture => SpecPhase::RunLayers { capture: true },
            SpecPhase::RunLayers { capture } => if capture {
                SpecPhase::EndCapture
            } else {
                kv.advance(end);
                SpecPhase::Fetch
            },
            SpecPhase::LaunchFresh => {
                w.keep_graph();
                self.set(&call.key, w);
                kv.advance(end);
                SpecPhase::Fetch
            },
            SpecPhase::Replay => {
                kv.advance(end);
                SpecPhase::Fetch
            },
            SpecPhase::Fetch => SpecPhase::Done(true),
            _ => SpecPhase::Done(false),
        }
    }
}

/// Where `n` phases that all succeed lead to. The second part tells whether the cache
/// has been advanced on the way.
pub open spec fn spec_run(
    graphs: Map<SpecScratchKey, Warmup>,
    call: SpecCall,
    phase: SpecPhase,
    n: nat,
) -> (Map<SpecScratchKey, Warmup>, bool, SpecPhase)
    decreases n,
{
    if n == 0 {
        (graphs, false, phase)
    } else {
        let (g, advanced, p) = spec_run(graphs, call, phase, (n - 1) as nat);
        let (h, now, q) = SpecGraphs::next(g, call, p, true);
        (h, advanced || now, q)
    }
}

/// Where a pass stands after a list of outcomes. The second part tells whether the cache
/// has been advanced on the way.
pub open spec fn spec_outcomes(
    graphs: Map<SpecScratchKey, Warmup>,
    call: SpecCall,
    phase: SpecPhase,
    oks: Seq<bool>,
) -> (Map<SpecScratchKey, Warmup>, bool, SpecPhase)
    decreases oks.len(),
{
    if oks.len() == 0 {
        (graphs, false, phase)
    } else {
        let (g, advanced, p) = spec_outcomes(graphs, call, phase, oks.drop_last());
        let (h, now, q) = SpecGraphs::next(g, call, p, oks.last());
        (h, advanced || now, q)
    }
}

/// However a pass goes, its tokens are counted once its rows have been computed and not
/// before: a pass that is still short of its last copy, or that never came to it, has left
/// the cache as it was.
pub proof fn law_computed_rows_are_counted(
    graphs: Map<SpecScratchKey, Warmup>,
    call: SpecCall,
    phase: SpecPhase,
    oks: Seq<bool>,
)
    requires
        phase is AllocScratch || phase is Place,
    ensures
        ({
            let (g, advanced, p) = spec_outcomes(graphs, call, phase, oks);
            match p {
                SpecPhase::Fetch | SpecPhase::Done(true) => advanced,
                SpecPhase::Done(false) => advanced ==> exists|k: int|
                    0 <= k < oks.len() && (#[trigger] spec_outcomes(
                        graphs,
                        call,
                        phase,
                        oks.take(k),
                    )).2 is Fetch,
                _ => !advanced,
            }
        }),
    decreases oks.len(),
{
    if oks.len() > 0 {
        let fewer = oks.drop_last();
        law_computed_rows_are_counted(graphs, call, phase, fewer);
        let (g, advanced, p) = spec_outcomes(graphs, call, phase, fewer);
        let n = fewer.len() as int;
        assert(oks.take(n) =~= fewer);
        if p is Fetch {
            assert(spec_outcomes(graphs, call, phase, oks.take(n)).2 is Fetch);
        }
        if p == SpecPhase::Done(false) && advanced {
            let k = choose|k: int|
                0 <= k < fewer.len() && (#[trigger] spec_outcomes(
                    graphs,
                    call,
                    phase,
                    fewer.take(k),
                )).2 is Fetch;
            assert(oks.take(k) =~= fewer.take(k));
            assert(spec_outcomes(graphs, call, phase, oks.take(k)).2 is Fetch);
        }
    }
}

/// A capture that delivers no graph costs the pass nothing: the layers are run without one,
/// and the rows come back and are counted all the same. The warm-up starts over: the next
/// pass runs the layers, and the one after it captures again.
pub proof fn law_failed_spec_capture_is_retried(
    graphs: Map<SpecScratchKey, Warmup>,
    call: SpecCall,
)
    requires
        call.graphs,
        graphs.dom().contains(call.key),
        graphs[call.key].mode() == GraphMode::Capture,
    ensures
        ({
            let begun = graphs.insert(call.key, graphs[call.key].begun());
            let (g, advanced, p) = spec_outcomes(
                begun,
                call,
                SpecPhase::EndCapture,
                seq![false, true, true],
            );
            &&& p == SpecPhase::Done(true)
            &&& advanced
            &&& g[call.key].mode() == GraphMode::Eager
            &&& g[call.key].succeeded().mode() == GraphMode::Capture
        }),
{
    let oks = seq![false, true, true];
    reveal_with_fuel(spec_outcomes, 4);
    assert(oks.drop_last() =~= seq![false, true]);
    assert(oks.drop_last().drop_last() =~= seq![false]);
    assert(oks.drop_last().drop_last().drop_last() =~= Seq::<bool>::empty());
}

/// A pass whose work all succeeds ends with its rows and the cache advanced. It leaves
/// the warm-up of its own key one call further, and every other key alone.
pub proof fn law_pass_without_failure(graphs: Map<SpecScratchKey, Warmup>, call: SpecCall)
    requires
        graphs.dom().contains(call.key),
    ensures
        ({
            let (g, advanced, p) = spec_run(graphs, call, SpecPhase::Place, 7);
            &&& p == SpecPhase::Done(true)
            &&& advanced
            &&& call.graphs ==> g == graphs.insert(call.key, graphs[call.key].succeeded())
            &&& !call.graphs ==> g == graphs
        }),
{
    reveal_with_fuel(spec_run, 8);
    let w = graphs[call.key];
    let (g, advanced, p) = spec_run(graphs, call, SpecPhase::Place, 7);
    if call.graphs {
        assert(g =~= graphs.insert(call.key, w.succeeded()));
    }
}

/// The phases of a pass in which nothing fails. A pass without graphs, and the first one with
/// them, runs the layers; the next one records them and launches the fresh graph; those after it
/// replay the graph. Rows come back last.
pub proof fn law_phases_of_a_pass(graphs: Map<SpecScratchKey, Warmup>, call: SpecCall)
    requires
        graphs.dom().contains(call.key),
    ensures
        ({
            let w = graphs[call.key];
            let at = |k: nat| spec_run(graphs, call, SpecPhase::Place, k).2;
            &&& !call.graphs || (!w.captured && w.count != 1) ==> {
                &&& at(1) == SpecPhase::RunLayers { capture: false }
                &&& at(2) == SpecPhase::Fetch
                &&& at(3) == SpecPhase::Done(true)
            }
            &&& call.graphs && w.captured ==> {
                &&& at(1) == SpecPhase::Replay
                &&& at(2) == SpecPhase::Fetch
                &&& at(3) == SpecPhase::Done(true)
            }
            &&& call.graphs && !w.captured && w.count == 1 ==> {
                &&& at(1) == SpecPhase::Settle
                &&& at(2) == SpecPhase::BeginCapture
                &&& at(3) == SpecPhase::RunLayers { capture: true }
                &&& at(4) == SpecPhase::EndCapture
                &&& at(5) == SpecPhase::LaunchFresh
                &&& at(6) == SpecPhase::Fetch
                &&& at(7) == SpecPhase::Done(true)
            }
        }),
{
    reveal_with_fuel(spec_run, 8);
}

/// A failure ends a pass without rows and counts nothing, and no graph comes of it. Only a
/// capture that delivers no graph lets the pass go on; it then starts the warm-up of its own key
/// over.
pub proof fn law_failure_ends_a_pass(
    graphs: Map<SpecScratchKey, Warmup>,
    call: SpecCall,
    phase: SpecPhase,
)
    requires
        !(phase is Done),
    ensures
        ({
            let (g, advanced, next) = SpecGraphs::next(graphs, call, phase, false);
            &&& !advanced
            &&& !(phase is EndCapture) ==> g == graphs && next == SpecPhase::Done(false)
            &&& phase is EndCapture ==> g == graphs.insert(
                call.key,
                Warmup { captured: graphs[call.key].captured, count: 0 },
            ) && next == (SpecPhase::RunLayers { capture: false })
        }),
{
}

/// Fresh buffers begin their own warm-up. A phase never touches another key's.
pub proof fn law_keys_are_apart(
    graphs: Map<SpecScratchKey, Warmup>,
    call: SpecCall,
    phase: SpecPhase,
    ok: bool,
    other: SpecScratchKey,
)
    requires
        other != call.key,
    ensures
        ({
            let g = SpecGraphs::next(graphs, call, phase, ok).0;
            &&& g.dom().contains(other) <==> graphs.dom().contains(other)
            &&& graphs.dom().contains(other) ==> g[other] == graphs[other]
            &&& phase is AllocScratch && ok ==> g.dom().contains(call.key) && g[call.key]
                == (Warmup { captured: false, count: 0 })
        }),
{
}

} // verus!
