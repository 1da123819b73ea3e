//! When a decode step is run, captured or replayed.
//!
//! A step on a fresh set of buffers runs plainly once, so that every weight is on the
//! device. The next one is captured in a graph, and those after it replay the graph.

use vstd::prelude::*;

use crate::kv_cache::KvCacheSlot;
use crate::layer::{CallDims, FullPipelineLayer};
use crate::pipeline::{graph_dims, graph_layer_dims, graph_widths_fit, DecodeScratchShape};

verus! {

/// How a call is carried out.
#[derive(Clone, Copy, Debug, PartialEq, Eq, Structural)]
pub enum GraphMode {
    /// The captured graph is launched.
    Replay,
    /// The kernels are recorded, and the fresh graph is launched.
    Capture,
    /// The kernels are launched one by one.
    Eager,
}

/// Whether a graph has been captured, and how many calls came before it.
#[derive(Clone, Copy, Debug, PartialEq, Eq, Structural)]
pub struct Warmup {
    pub captured: bool,
    pub count: u32,
}

impl Warmup {
    pub open spec fn fresh() -> Warmup {
        Warmup { captured: false, count: 0 }
    }

    /// How the next call is carried out.
    pub open spec fn mode(self) -> GraphMode {
        if self.captured {
            GraphMode::Replay
        } else if self.count == 1 {
            GraphMode::Capture
        } else {
            GraphMode::Eager
        }
    }

    /// The state once the next call has begun.
    pub open spec fn begun(self) -> Warmup {
        if self.captured {
            self
        } else {
            Warmup { captured: false, count: (self.count + 1) as u32 }
        }
    }

    /// The state once the next call has come to its end without a failure.
    pub open spec fn succeeded(self) -> Warmup {
        if self.mode() == GraphMode::Capture {
            Warmup { captured: true, ..self.begun() }
        } else {
            self.begun()
        }
    }

    pub fn new() -> (w: Warmup)
        ensures
            w == Warmup::fresh(),
            !w.captured && w.count == 0,
    {
        Warmup { captured: false, count: 0 }
    }

    /// Decides how the call that begins now is carried out, and counts it.
    pub fn begin(&mut self) -> (m: GraphMode)
        requires
            old(self).captured || old(self).count < u32::MAX,
        ensures
            m == old(self).mode(),
            *final(self) == old(self).begun(),
            old(self).captured ==> m == GraphMode::Replay && *final(self) == *old(self),
            !old(self).captured ==> (m == GraphMode::Capture <==> old(self).count == 1),
            !old(self).captured ==> (m == GraphMode::Eager <==> old(self).count != 1),
            !old(self).captured ==> !final(self).captured && final(self).count == old(self).count + 1,
    {
        if self.captured {
            return GraphMode::Replay;
        }
        let count: u32 = self.count;
        self.count = count + 1;
        if count == 1 {
            GraphMode::Capture
        } else {
            GraphMode::Eager
        }
    }

    /// A graph was captured and launched.
    pub fn keep_graph(&mut self)
        ensures
            *final(self) == (Warmup { captured: true, ..*old(self) }),
    {
        self.captured = true;
    }

    /// The capture came to nothing: warming up starts over.
    pub fn start_over(&mut self)
        ensures
            *final(self) == (Warmup { count: 0, ..*old(self) }),
    {
        self.count = 0;
    }
}

/// The state after `n` calls that all succeeded.
pub open spec fn after_calls(w: Warmup, n: nat) -> Warmup
    decreases n,
{
    if n == 0 {
        w
    } else {
        after_calls(w, (n - 1) as nat).succeeded()
    }
}

/// From a fresh state the first call is plain, the second is captured, and every later
/// one replays the graph.
pub proof fn law_warm_capture_replay(n: nat)
    ensures
        after_calls(Warmup::fresh(), n).mode() == if n == 0 {
            GraphMode::Eager
        } else if n == 1 {
            GraphMode::Capture
        } else {
            GraphMode::Replay
        },
        n >= 2 ==> after_calls(Warmup::fresh(), n) == (Warmup { captured: true, count: 2 }),
    decreases n,
{
    if n > 0 {
        law_warm_capture_replay((n - 1) as nat);
        if n == 1 {
            assert(after_calls(Warmup::fresh(), 0) == Warmup::fresh());
        }
        if n == 2 {
            assert(after_calls(Warmup::fresh(), 0) == Warmup::fresh());
            assert(after_calls(Warmup::fresh(), 1) == (Warmup { captured: false, count: 1 }));
        }
    }
}

/// A capture that came to nothing is tried again on the second call after it.
pub proof fn law_failed_capture_is_retried(w: Warmup)
    requires
        w.mode() == GraphMode::Capture,
    ensures
        ({
            let failed = Warmup { count: 0, ..w.begun() };
            &&& failed.mode() == GraphMode::Eager
            &&& failed.succeeded().mode() == GraphMode::Capture
        }),
{
}

/// Graph state of the decode step: the buffers it runs on, and the warm-up.
#[derive(Clone, Copy, Debug, PartialEq, Eq, Structural)]
pub struct DecodeGraphState {
    pub scratch: Option<DecodeScratchShape>,
    pub warmup: Warmup,
}

/// Where a decode step that may use a graph stands. Each phase but the last names the
/// work that has to be done next; its success or failure leads to the next phase.
#[derive(Clone, Copy, Debug, PartialEq, Eq, Structural)]
pub enum GraphPhase {
    /// Allocate buffers of this shape.
    AllocScratch(DecodeScratchShape),
    /// Bring the key/value cache into shape.
    PrepareCache,
    /// Bring every weight and norm to the device.
    Prefetch { pos: usize },
    /// Write the token's row and its position into the buffers.
    Place { pos: usize },
    /// Launch the graph and bring the row back.
    Replay { pos: usize },
    /// Wait for the device.
    Settle { pos: usize, capture: bool },
    /// Begin the capture.
    BeginCapture { pos: usize },
    /// Run the pipeline.
    RunPipeline { pos: usize, capture: bool },
    /// End the capture; success is that it delivered a graph.
    EndCapture { pos: usize, ran: bool },
    /// Launch the fresh graph.
    LaunchFresh { pos: usize },
    /// Wait for the device and bring the row back.
    Fetch { pos: usize },
    /// The step is over, with or without a row.
    Done(bool),
}

/// What a decode step needs of its sizes before it can use a graph.
pub open spec fn graph_sizes_ok(call: CallDims, first: FullPipelineLayer) -> bool {
    &&& call.hidden % 32 == 0
    &&& graph_dims(call, first).q_dim % 32 == 0
    &&& call.inter % 32 == 0
}

/// The buffers that a decode step with a graph runs on.
pub open spec fn graph_shape(call: CallDims, first: FullPipelineLayer) -> DecodeScratchShape {
    let d = graph_dims(call, first);
    DecodeScratchShape {
        hidden: call.hidden,
        q_dim: d.q_dim,
        kv_dim: d.kv_dim,
        inter: call.inter,
        head_dim: d.head_dim,
    }
}

/// State and cache once a phase's work has succeeded or failed, and the phase after it.
pub open spec fn graph_next(st: DecodeGraphState, kv: KvCacheSlot, phase: GraphPhase, ok: bool) -> (
    DecodeGraphState,
    Option<usize>,
    GraphPhase,
) {
    let lost = (st, None, GraphPhase::Done(false));
    match phase {
        GraphPhase::Done(_) => (st, None, phase),
        GraphPhase::EndCapture { pos, ran } => if ran && ok {
            (st, None, GraphPhase::LaunchFresh { pos })
        } else {
            (
                DecodeGraphState { warmup: Warmup { count: 0, ..st.warmup }, ..st },
                None,
                GraphPhase::Done(false),
            )
        },
        GraphPhase::RunPipeline { pos, capture: true } => (
            st,
            None,
            GraphPhase::EndCapture { pos, ran: ok },
        ),
        _ => if !ok {
            lost
        } else {
            match phase {
                GraphPhase::AllocScratch(shape) => (
                    DecodeGraphState { scratch: Some(shape), warmup: Warmup::fresh() },
                    None,
                    GraphPhase::PrepareCache,
                ),
                GraphPhase::PrepareCache => match kv.cache {
                    Some(c) => if c.len < c.max_seq {
                        (st, None, GraphPhase::Prefetch { pos: c.len })
                    } else {
                        lost
                    },
                    None => lost,
                },
                GraphPhase::Prefetch { pos } => (st, None, GraphPhase::Place { pos }),
                GraphPhase::Place { pos } => (
                    DecodeGraphState { warmup: st.warmup.begun(), ..st },
                    None,
                    if st.warmup.captured {
                        GraphPhase::Replay { pos }
                    } else {
                        GraphPhase::Settle { pos, capture: st.warmup.mode() == GraphMode::Capture }
                    },
                ),
                GraphPhase::Settle { pos, capture: true } => (
                    st,
                    None,
                    GraphPhase::BeginCapture { pos },
                ),
                GraphPhase::Settle { pos, capture: false } => (
                    st,
                    None,
                    GraphPhase::RunPipeline { pos, capture: false },
                ),
                GraphPhase::BeginCapture { pos } => (
                    st,
                    None,
                    GraphPhase::RunPipeline { pos, capture: true },
                ),
                GraphPhase::RunPipeline { pos, .. } => (st, None, GraphPhase::Fetch { pos }),
                GraphPhase::LaunchFresh { pos } => (
                    DecodeGraphState { warmup: Warmup { captured: true, ..st.warmup }, ..st },
                    None,
                    GraphPhase::Fetch { pos },
                ),
                GraphPhase::Replay { pos } | GraphPhase::Fetch { pos } => (
                    st,
                    Some((pos + 1) as usize),
                    GraphPhase::Done(true),
                ),
                _ => lost,
            }
        },
    }
}

impl DecodeGraphState {
    pub fn new() -> (s: DecodeGraphState)
        ensures
            s.scratch is None,
            s.warmup == Warmup::fresh(),
    {
        DecodeGraphState { scratch: None, warmup: Warmup::new() }
    }

    /// The first phase of a decode step with a graph. The step is refused for a row of
    /// the wrong length, without layers, and for sizes that cannot be packed.
    pub fn decode_token_device_graph_attempt(
        &self,
        call: &CallDims,
        layers: &[FullPipelineLayer],
        x_len: usize,
    ) -> (p: GraphPhase)
        requires
            layers@.len() > 0 ==> graph_widths_fit(*call, layers@[0]),
        ensures
            p == if x_len != call.hidden || layers@.len() == 0 || !graph_sizes_ok(
                *call,
                layers@[0],
            ) {
                GraphPhase::Done(false)
            } else if self.scratch == Some(graph_shape(*call, layers@[0])) {
                GraphPhase::PrepareCache
            } else {
                GraphPhase::AllocScratch(graph_shape(*call, layers@[0]))
            },
            p == GraphPhase::Done(false) <==> {
                ||| x_len != call.hidden
                ||| layers@.len() == 0
                ||| call.hidden % 32 != 0
                ||| call.inter % 32 != 0
                ||| graph_dims(*call, layers@[0]).q_dim % 32 != 0
            },
            p matches GraphPhase::AllocScratch(s) ==> self.scratch != Some(s) && s.hidden
                == call.hidden && s.inter == call.inter,
            p is PrepareCache || p is AllocScratch || p is Done,
    {
        if x_len != call.hidden || layers.len() == 0 {
            return GraphPhase::Done(false);
        }
        let d = graph_layer_dims(call, &layers[0]);
        if call.hidden % 32 != 0 || d.q_dim % 32 != 0 || call.inter % 32 != 0 {
            return GraphPhase::Done(false);
        }
        let shape = DecodeScratchShape {
            hidden: call.hidden,
            q_dim: d.q_dim,
            kv_dim: d.kv_dim,
            inter: call.inter,
            head_dim: d.head_dim,
        };
        let fits: bool = match &self.scratch {
            Some(s) => s.matches(&shape),
            None => false,
        };
        if fits {
            GraphPhase::PrepareCache
        } else {
            GraphPhase::AllocScratch(shape)
        }
    }

    /// Takes over the outcome of a phase's work and says what comes next. The last
    /// phase that brings a row back counts the token's position in the cache.
    pub fn advance(&mut self, kv: &mut KvCacheSlot, phase: GraphPhase, ok: bool) -> (next:
        GraphPhase)
        requires
            old(kv).wf(),
            old(self).warmup.captured || old(self).warmup.count < u32::MAX,
            phase matches GraphPhase::Replay { pos } ==> pos < usize::MAX && old(kv).cache is Some,
            phase matches GraphPhase::Fetch { pos } ==> pos < usize::MAX && old(kv).cache is Some,
        ensures
            ({
                let (st, len, want) = graph_next(*old(self), *old(kv), phase, ok);
                &&& *final(self) == st
                &&& next == want
                &&& len matches Some(n) ==> final(kv).positions() == n
                &&& len is None ==> *final(kv) == *old(kv)
                &&& old(kv).bounded() && (len matches Some(n) ==> n <= old(kv).cache->0.max_seq)
                    ==> final(kv).bounded()
            }),
            final(kv).wf(),
            final(kv).same_slabs(*old(kv)),
    {
        match phase {
            GraphPhase::Done(_) => phase,
            GraphPhase::EndCapture { pos, ran } => if ran && ok {
                GraphPhase::LaunchFresh { pos }
            } else {
                self.warmup.start_over();
                GraphPhase::Done(false)
            },
            GraphPhase::RunPipeline { pos, capture } => if capture {
                GraphPhase::EndCapture { pos, ran: ok }
            } else if ok {
                GraphPhase::Fetch { pos }
            } else {
                GraphPhase::Done(false)
            },
            _ => {
                if !ok {
                    return GraphPhase::Done(false);
                }
                match phase {
                    GraphPhase::AllocScratch(shape) => {
                        self.scratch = Some(shape);
                        self.warmup = Warmup::new();
                        GraphPhase::PrepareCache
                    },
                    GraphPhase::PrepareCache => match &kv.cache {
                        Some(c) => if c.len < c.max_seq {
                            GraphPhase::Prefetch { pos: c.len }
                        } else {
                            GraphPhase::Done(false)
                        },
                        None => GraphPhase::Done(false),
                    },
                    GraphPhase::Prefetch { pos } => GraphPhase::Place { pos },
                    GraphPhase::Place { pos } => match self.warmup.begin() {
                        GraphMode::Replay => GraphPhase::Replay { pos },
                        GraphMode::Capture => GraphPhase::Settle { pos, capture: true },
                        GraphMode::Eager => GraphPhase::Settle { pos, capture: false },
                    },
                    GraphPhase::Settle { pos, capture } => if capture {
                        GraphPhase::BeginCapture { pos }
                    } else {
                        GraphPhase::RunPipeline { pos, capture: false }
                    },
                    GraphPhase::BeginCapture { pos } => GraphPhase::RunPipeline {
                        pos,
                        capture: true,
                    },
                    GraphPhase::LaunchFresh { pos } => {
                        self.warmup.keep_graph();
                        GraphPhase::Fetch { pos }
                    },
                    GraphPhase::Replay { pos } => {
                        kv.advance(pos + 1);
                        GraphPhase::Done(true)
                    },
                    GraphPhase::Fetch { pos } => {
                        kv.advance(pos + 1);
                        GraphPhase::Done(true)
                    },
                    _ => GraphPhase::Done(false),
                }
            },
        }
    }
}

/// Where `n` phases that all succeed lead to, from the phase in which the cache is
/// prepared.
pub open spec fn graph_run(st: DecodeGraphState, kv: KvCacheSlot, phase: GraphPhase, n: nat) -> (
    DecodeGraphState,
    Option<usize>,
    GraphPhase,
)
    decreases n,
{
    if n == 0 {
        (st, None, phase)
    } else {
        let (s, len, p) = graph_run(st, kv, phase, (n - 1) as nat);
        if p is Done {
            (s, len, p)
        } else {
            graph_next(s, kv, p, true)
        }
    }
}

/// A step whose work all succeeds ends with a row, counts its position, and leaves the
/// warm-up one call further.
pub proof fn law_step_without_failure(st: DecodeGraphState, kv: KvCacheSlot)
    requires
        kv.cache matches Some(c) && c.len < c.max_seq,
    ensures
        ({
            let (s, len, p) = graph_run(st, kv, GraphPhase::PrepareCache, 9);
            &&& p == GraphPhase::Done(true)
            &&& len == Some((kv.cache->0.len + 1) as usize)
            &&& s == (DecodeGraphState { warmup: st.warmup.succeeded(), ..st })
        }),
{
    reveal_with_fuel(graph_run, 10);
    let pos = kv.cache->0.len;
    let a = graph_run(st, kv, GraphPhase::PrepareCache, 3);
    assert(a.0 == (DecodeGraphState { warmup: st.warmup.begun(), ..st }));
    match st.warmup.mode() {
        GraphMode::Replay => {
            assert(a.2 == GraphPhase::Replay { pos });
        },
        GraphMode::Capture => {
            assert(a.2 == GraphPhase::Settle { pos, capture: true });
        },
        GraphMode::Eager => {
            assert(a.2 == GraphPhase::Settle { pos, capture: false });
        },
    }
}

/// The phases of a step in which nothing fails. Behind the preparations and the token's row, a
/// step with a graph replays it; one without runs the pipeline plainly; the one that captures
/// records the pipeline, launches the fresh graph and brings its row back.
pub proof fn law_phases_of_a_step(st: DecodeGraphState, kv: KvCacheSlot)
    requires
        kv.cache matches Some(c) && c.len < c.max_seq,
    ensures
        ({
            let pos = kv.cache->0.len;
            let at = |k: nat| graph_run(st, kv, GraphPhase::PrepareCache, k).2;
            &&& at(1) == GraphPhase::Prefetch { pos }
            &&& at(2) == GraphPhase::Place { pos }
            &&& st.warmup.captured ==> at(3) == GraphPhase::Replay { pos } && at(4)
                == GraphPhase::Done(true)
            &&& !st.warmup.captured && st.warmup.count != 1 ==> {
                &&& at(3) == GraphPhase::Settle { pos, capture: false }
                &&& at(4) == GraphPhase::RunPipeline { pos, capture: false }
                &&& at(5) == GraphPhase::Fetch { pos }
                &&& at(6) == GraphPhase::Done(true)
            }
            &&& !st.warmup.captured && st.warmup.count == 1 ==> {
                &&& at(3) == GraphPhase::Settle { pos, capture: true }
                &&& at(4) == GraphPhase::BeginCapture { pos }
                &&& at(5) == GraphPhase::RunPipeline { pos, capture: true }
                &&& at(6) == GraphPhase::EndCapture { pos, ran: true }
                &&& at(7) == GraphPhase::LaunchFresh { pos }
                &&& at(8) == GraphPhase::Fetch { pos }
                &&& at(9) == GraphPhase::Done(true)
            }
        }),
{
    reveal_with_fuel(graph_run, 10);
}

/// A failure ends a step without a row and without counting a position. What was recorded so far
/// is ended first. Nothing that was there is lost but the count of a capture that came to
/// nothing, and no failure makes a graph.
pub proof fn law_failure_ends_a_step(st: DecodeGraphState, kv: KvCacheSlot, phase: GraphPhase)
    requires
        !(phase is Done),
    ensures
        ({
            let (s, len, next) = graph_next(st, kv, phase, false);
            &&& len is None
            &&& s.scratch == st.scratch
            &&& s.warmup.captured == st.warmup.captured
            &&& s.warmup.count == (if phase is EndCapture {
                0
            } else {
                st.warmup.count
            })
            &&& match phase {
                GraphPhase::RunPipeline { pos, capture: true } => next == (GraphPhase::EndCapture {
                    pos,
                    ran: false,
                }),
                _ => next == GraphPhase::Done(false),
            }
        }),
{
}

/// A capture whose pipeline failed makes no graph, even where the capture itself ends well: the
/// warm-up starts over.
pub proof fn law_broken_capture_is_dropped(
    st: DecodeGraphState,
    kv: KvCacheSlot,
    pos: usize,
    ok: bool,
)
    ensures
        graph_next(st, kv, GraphPhase::EndCapture { pos, ran: false }, ok) == (
            DecodeGraphState {
                scratch: st.scratch,
                warmup: Warmup { captured: st.warmup.captured, count: 0 },
            },
            None::<usize>,
            GraphPhase::Done(false),
        ),
{
}

/// Fresh buffers start the warm-up over. A cache that is missing or full ends the step.
pub proof fn law_fresh_buffers_start_over(
    st: DecodeGraphState,
    kv: KvCacheSlot,
    shape: DecodeScratchShape,
)
    ensures
        graph_next(st, kv, GraphPhase::AllocScratch(shape), true) == (
            DecodeGraphState {
                scratch: Some(shape),
                warmup: Warmup { captured: false, count: 0 },
            },
            None::<usize>,
            GraphPhase::PrepareCache,
        ),
        kv.cache is None || kv.cache->0.len >= kv.cache->0.max_seq ==> graph_next(
            st,
            kv,
            GraphPhase::PrepareCache,
            true,
        ) == (st, None::<usize>, GraphPhase::Done(false)),
{
}

/// The buffers of a step hold the rows that its pipeline makes, and every row that is packed has
/// whole blocks.
pub proof fn law_graph_buffers(call: CallDims, first: FullPipelineLayer)
    requires
        graph_widths_fit(call, first),
    ensures
        ({
            let s = graph_shape(call, first);
            let d = graph_dims(call, first);
            &&& s.hidden == call.hidden && s.inter == call.inter
            &&& s.q_dim == d.num_q_heads * d.head_dim
            &&& s.kv_dim == d.num_kv_heads * d.head_dim
            &&& s.head_dim == d.head_dim
            &&& graph_sizes_ok(call, first) <==> s.hidden % 32 == 0 && s.q_dim % 32 == 0 && s.inter
                % 32 == 0
        }),
{
    crate::pipeline::law_graph_dims(call, first);
}

} // verus!
