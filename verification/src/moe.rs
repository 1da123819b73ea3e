//! Feed-forward blocks of the hybrid model: one at a time, and the experts of a layer on
//! streams of their own.

use vstd::prelude::*;

use crate::layer::QuantFormat;

verus! {

/// A kernel that reads a packed weight.
#[derive(Clone, Copy, Debug, PartialEq, Eq, Structural)]
pub enum DirectKernel {
    Q4k,
    Q5k,
}

/// The kernel for a format, if it has one.
pub open spec fn kernel(format: QuantFormat) -> Option<DirectKernel> {
    match format {
        QuantFormat::Q4_K => Some(DirectKernel::Q4k),
        QuantFormat::Q5_K => Some(DirectKernel::Q5k),
        _ => None,
    }
}

pub fn kernel_for(format: QuantFormat) -> (k: Option<DirectKernel>)
    ensures
        k == kernel(format),
        k == Some(DirectKernel::Q4k) <==> format == QuantFormat::Q4_K,
        k == Some(DirectKernel::Q5k) <==> format == QuantFormat::Q5_K,
{
    match format {
        QuantFormat::Q4_K => Some(DirectKernel::Q4k),
        QuantFormat::Q5_K => Some(DirectKernel::Q5k),
        _ => None,
    }
}

/// The weights of a feed-forward block.
#[derive(Clone, Copy, Debug, PartialEq, Eq, Structural)]
pub enum FfnWeight {
    Gate,
    Up,
    Down,
}

/// An operation of a single feed-forward block.
#[derive(Clone, Copy, Debug, PartialEq, Eq, Structural)]
pub enum FfnOp {
    /// The input row to the device.
    Upload { len: usize },
    /// A product with a weight of `rows` rows. The down projection reads the activation,
    /// the others the input.
    Matvec { weight: FfnWeight, kernel: DirectKernel, rows: usize, cols: usize },
    /// Activated gate projection, times the up projection.
    GateUp { n: usize },
    /// Wait for the device and bring the output back.
    Fetch,
    /// The weight has no kernel: the block has no result.
    GiveUp { weight: FfnWeight },
}

/// A product, or the end of the block.
pub open spec fn ffn_product(weight: FfnWeight, format: QuantFormat, rows: usize, cols: usize) -> FfnOp {
    match kernel(format) {
        Some(k) => FfnOp::Matvec { weight, kernel: k, rows, cols },
        None => FfnOp::GiveUp { weight },
    }
}

/// The block up to the first weight that has no kernel.
pub open spec fn ffn_ops(
    gate: QuantFormat,
    up: QuantFormat,
    down: QuantFormat,
    ffn_dim: usize,
    down_rows: usize,
    hidden: usize,
) -> Seq<FfnOp> {
    let g = ffn_product(FfnWeight::Gate, gate, ffn_dim, hidden);
    let u = ffn_product(FfnWeight::Up, up, ffn_dim, hidden);
    let d = ffn_product(FfnWeight::Down, down, down_rows, ffn_dim);
    if kernel(gate) is None {
        seq![FfnOp::Upload { len: hidden }, g]
    } else if kernel(up) is None {
        seq![FfnOp::Upload { len: hidden }, g, u]
    } else if kernel(down) is None {
        seq![FfnOp::Upload { len: hidden }, g, u, FfnOp::GateUp { n: ffn_dim }, d]
    } else {
        seq![FfnOp::Upload { len: hidden }, g, u, FfnOp::GateUp { n: ffn_dim }, d, FfnOp::Fetch]
    }
}

/// Lays out a feed-forward block. Gate and up projection have to have the same number of
/// rows.
pub fn qwen35_ffn_lazy_block(
    x_len: usize,
    gate_format: QuantFormat,
    gate_rows: usize,
    up_format: QuantFormat,
    up_rows: usize,
    down_format: QuantFormat,
    down_rows: usize,
    hidden: usize,
) -> (r: Option<Vec<FfnOp>>)
    ensures
        match r {
            Some(ops) => x_len == hidden && gate_rows == up_rows && ops@ == ffn_ops(
                gate_format,
                up_format,
                down_format,
                gate_rows,
                down_rows,
                hidden,
            ),
            None => x_len != hidden || gate_rows != up_rows,
        },
{
    if x_len != hidden || gate_rows != up_rows {
        return None;
    }
    let ghost want = ffn_ops(gate_format, up_format, down_format, gate_rows, down_rows, hidden);
    let mut ops: Vec<FfnOp> = Vec::new();
    ops.push(FfnOp::Upload { len: hidden });
    match kernel_for(gate_format) {
        Some(k) => {
            ops.push(
                FfnOp::Matvec { weight: FfnWeight::Gate, kernel: k, rows: gate_rows, cols: hidden },
            );
        },
        None => {
            ops.push(FfnOp::GiveUp { weight: FfnWeight::Gate });
            assert(ops@ =~= want);
            return Some(ops);
        },
    }
    match kernel_for(up_format) {
        Some(k) => {
            ops.push(
                FfnOp::Matvec { weight: FfnWeight::Up, kernel: k, rows: gate_rows, cols: hidden },
            );
        },
        None => {
            ops.push(FfnOp::GiveUp { weight: FfnWeight::Up });
            assert(ops@ =~= want);
            return Some(ops);
        },
    }
    ops.push(FfnOp::GateUp { n: gate_rows });
    match kernel_for(down_format) {
        Some(k) => {
            ops.push(
                FfnOp::Matvec {
                    weight: FfnWeight::Down,
                    kernel: k,
                    rows: down_rows,
                    cols: gate_rows,
                },
            );
        },
        None => {
            ops.push(FfnOp::GiveUp { weight: FfnWeight::Down });
            assert(ops@ =~= want);
            return Some(ops);
        },
    }
    ops.push(FfnOp::Fetch);
    assert(ops@ =~= want);
    Some(ops)
}

/// The formats of an expert's weights.
#[derive(Clone, Copy, Debug, PartialEq, Eq, Structural)]
pub struct MoeFfnExpert {
    pub gate_format: QuantFormat,
    pub up_format: QuantFormat,
    pub down_format: QuantFormat,
}

impl MoeFfnExpert {
    pub open spec fn format(self, w: FfnWeight) -> QuantFormat {
        match w {
            FfnWeight::Gate => self.gate_format,
            FfnWeight::Up => self.up_format,
            FfnWeight::Down => self.down_format,
        }
    }

    /// Every weight of the expert has a kernel.
    pub open spec fn supported(self) -> bool {
        kernel(self.gate_format) is Some && kernel(self.up_format) is Some && kernel(
            self.down_format,
        ) is Some
    }

    fn is_supported(&self) -> (r: bool)
        ensures
            r == self.supported(),
    {
        kernel_for(self.gate_format).is_some() && kernel_for(self.up_format).is_some()
            && kernel_for(self.down_format).is_some()
    }
}

/// An operation of a batch of experts. The main stream uploads; each expert runs on a
/// worker stream.
#[derive(Clone, Copy, Debug, PartialEq, Eq, Structural)]
pub enum MoeOp {
    /// The input row to the device, on the main stream.
    Upload { len: usize },
    /// A weight into its device cache, on the main stream.
    Prewarm { expert: usize, weight: FfnWeight, kernel: DirectKernel },
    /// Wait for the main stream.
    Sync,
    Matvec {
        stream: usize,
        expert: usize,
        weight: FfnWeight,
        kernel: DirectKernel,
        rows: usize,
        cols: usize,
    },
    GateUp { stream: usize, expert: usize, n: usize },
    /// Wait for a worker stream, bring the expert's output back on it, and wait again.
    Fetch { stream: usize, expert: usize },
}

/// The kernel for a weight of an expert whose weights all have one.
pub open spec fn kernel_of(e: MoeFfnExpert, w: FfnWeight) -> DirectKernel {
    kernel(e.format(w))->0
}

pub open spec fn prewarm_expert(e: MoeFfnExpert, i: usize) -> Seq<MoeOp> {
    seq![
        MoeOp::Prewarm {
            expert: i,
            weight: FfnWeight::Gate,
            kernel: kernel_of(e, FfnWeight::Gate),
        },
        MoeOp::Prewarm { expert: i, weight: FfnWeight::Up, kernel: kernel_of(e, FfnWeight::Up) },
        MoeOp::Prewarm {
            expert: i,
            weight: FfnWeight::Down,
            kernel: kernel_of(e, FfnWeight::Down),
        },
    ]
}

pub open spec fn prewarm_ops(experts: Seq<MoeFfnExpert>, n: nat) -> Seq<MoeOp>
    decreases n,
{
    if n == 0 {
        seq![]
    } else {
        prewarm_ops(experts, (n - 1) as nat) + prewarm_expert(experts[n - 1], (n - 1) as usize)
    }
}

/// The stream of an expert: the streams are handed out in turn.
pub open spec fn stream_of(i: int, streams: usize) -> usize {
    (i % streams as int) as usize
}

pub open spec fn expert_ops(e: MoeFfnExpert, i: usize, streams: usize, hidden: usize, ffn_dim: usize) -> Seq<MoeOp> {
    let stream = stream_of(i as int, streams);
    seq![
        MoeOp::Matvec {
            stream,
            expert: i,
            weight: FfnWeight::Gate,
            kernel: kernel_of(e, FfnWeight::Gate),
            rows: ffn_dim,
            cols: hidden,
        },
        MoeOp::Matvec {
            stream,
            expert: i,
            weight: FfnWeight::Up,
            kernel: kernel_of(e, FfnWeight::Up),
            rows: ffn_dim,
            cols: hidden,
        },
        MoeOp::GateUp { stream, expert: i, n: ffn_dim },
        MoeOp::Matvec {
            stream,
            expert: i,
            weight: FfnWeight::Down,
            kernel: kernel_of(e, FfnWeight::Down),
            rows: hidden,
            cols: ffn_dim,
        },
    ]
}

pub open spec fn experts_ops(experts: Seq<MoeFfnExpert>, n: nat, streams: usize, hidden: usize, ffn_dim: usize) -> Seq<MoeOp>
    decreases n,
{
    if n == 0 {
        seq![]
    } else {
        experts_ops(experts, (n - 1) as nat, streams, hidden, ffn_dim) + expert_ops(
            experts[n - 1],
            (n - 1) as usize,
            streams,
            hidden,
            ffn_dim,
        )
    }
}

pub open spec fn fetch_ops(n: nat, streams: usize) -> Seq<MoeOp>
    decreases n,
{
    if n == 0 {
        seq![]
    } else {
        fetch_ops((n - 1) as nat, streams).push(
            MoeOp::Fetch { stream: stream_of(n - 1, streams), expert: (n - 1) as usize },
        )
    }
}

/// What comes before any worker stream is used.
pub open spec fn moe_main(experts: Seq<MoeFfnExpert>, hidden: usize) -> Seq<MoeOp> {
    seq![MoeOp::Upload { len: hidden }] + prewarm_ops(experts, experts.len()) + seq![MoeOp::Sync]
}

/// A batch of experts.
pub open spec fn moe_program(experts: Seq<MoeFfnExpert>, streams: usize, hidden: usize, ffn_dim: usize) -> Seq<MoeOp> {
    moe_main(experts, hidden) + experts_ops(experts, experts.len(), streams, hidden, ffn_dim)
        + fetch_ops(experts.len(), streams)
}

/// A batch of experts can be run.
pub open spec fn moe_accepts(x_len: usize, hidden: usize, experts: Seq<MoeFfnExpert>, streams: usize) -> bool {
    &&& x_len == hidden
    &&& experts.len() > 0
    &&& streams > 0
    &&& forall|i: int| 0 <= i < experts.len() ==> (#[trigger] experts[i]).supported()
}

/// The kernel for a format that has one.
fn sure_kernel(format: QuantFormat) -> (k: DirectKernel)
    requires
        kernel(format) is Some,
    ensures
        k == kernel(format)->0,
{
    match kernel_for(format) {
        Some(k) => k,
        None => DirectKernel::Q4k,
    }
}

/// Lays out a batch of experts over `streams` worker streams. Without worker streams
/// there is no batch.
pub fn qwen35_moe_ffn_batch(
    x_len: usize,
    hidden: usize,
    ffn_dim: usize,
    experts: &[MoeFfnExpert],
    streams: usize,
) -> (r: Option<Vec<MoeOp>>)
    ensures
        match r {
            Some(ops) => moe_accepts(x_len, hidden, experts@, streams) && ops@ == moe_program(
                experts@,
                streams,
                hidden,
                ffn_dim,
            ),
            None => !moe_accepts(x_len, hidden, experts@, streams),
        },
{
    let n: usize = experts.len();
    if x_len != hidden || n == 0 {
        return None;
    }
    if streams == 0 {
        return None;
    }
    let mut i: usize = 0;
    while i < n
        invariant
            i <= n == experts@.len(),
            forall|j: int| 0 <= j < i ==> (#[trigger] experts@[j]).supported(),
        decreases n - i,
    {
        if !experts[i].is_supported() {
            assert(!experts@[i as int].supported());
            return None;
        }
        i = i + 1;
    }
    let mut ops: Vec<MoeOp> = Vec::new();
    ops.push(MoeOp::Upload { len: hidden });
    let ghost head = seq![MoeOp::Upload { len: hidden }];
    assert(ops@ =~= head + prewarm_ops(experts@, 0));
    let mut i: usize = 0;
    while i < n
        invariant
            i <= n == experts@.len(),
            forall|j: int| 0 <= j < n ==> (#[trigger] experts@[j]).supported(),
            ops@ == head + prewarm_ops(experts@, i as nat),
        decreases n - i,
    {
        let e = &experts[i];
        let ghost before = ops@;
        ops.push(
            MoeOp::Prewarm {
                expert: i,
                weight: FfnWeight::Gate,
                kernel: sure_kernel(e.gate_format),
            },
        );
        ops.push(
            MoeOp::Prewarm { expert: i, weight: FfnWeight::Up, kernel: sure_kernel(e.up_format) },
        );
        ops.push(
            MoeOp::Prewarm {
                expert: i,
                weight: FfnWeight::Down,
                kernel: sure_kernel(e.down_format),
            },
        );
        assert(ops@ =~= before + prewarm_expert(experts@[i as int], i));
        i = i + 1;
        assert(ops@ =~= head + prewarm_ops(experts@, i as nat));
    }
    ops.push(MoeOp::Sync);
    let ghost main = moe_main(experts@, hidden);
    assert(ops@ =~= main);
    assert(ops@ =~= main + experts_ops(experts@, 0, streams, hidden, ffn_dim));
    let mut i: usize = 0;
    while i < n
        invariant
            i <= n == experts@.len(),
            streams > 0,
            forall|j: int| 0 <= j < n ==> (#[trigger] experts@[j]).supported(),
            ops@ == main + experts_ops(experts@, i as nat, streams, hidden, ffn_dim),
        decreases n - i,
    {
        let e = &experts[i];
        let stream: usize = i % streams;
        let ghost before = ops@;
        ops.push(
            MoeOp::Matvec {
                stream,
                expert: i,
                weight: FfnWeight::Gate,
                kernel: sure_kernel(e.gate_format),
                rows: ffn_dim,
                cols: hidden,
            },
        );
        ops.push(
            MoeOp::Matvec {
                stream,
                expert: i,
                weight: FfnWeight::Up,
                kernel: sure_kernel(e.up_format),
                rows: ffn_dim,
                cols: hidden,
            },
        );
        ops.push(MoeOp::GateUp { stream, expert: i, n: ffn_dim });
        ops.push(
            MoeOp::Matvec {
                stream,
                expert: i,
                weight: FfnWeight::Down,
                kernel: sure_kernel(e.down_format),
                rows: hidden,
                cols: ffn_dim,
            },
        );
        assert(ops@ =~= before + expert_ops(experts@[i as int], i, streams, hidden, ffn_dim));
        i = i + 1;
        assert(ops@ =~= main + experts_ops(experts@, i as nat, streams, hidden, ffn_dim));
    }
    let ghost body = ops@;
    assert(ops@ =~= body + fetch_ops(0, streams));
    let mut i: usize = 0;
    while i < n
        invariant
            i <= n == experts@.len(),
            streams > 0,
            ops@ == body + fetch_ops(i as nat, streams),
        decreases n - i,
    {
        ops.push(MoeOp::Fetch { stream: i % streams, expert: i });
        i = i + 1;
        assert(ops@ =~= body + fetch_ops(i as nat, streams));
    }
    Some(ops)
}

/// An operation on a worker stream.
pub open spec fn on_worker(op: MoeOp) -> bool {
    op is Matvec || op is GateUp || op is Fetch
}

proof fn lemma_prewarm_kinds(experts: Seq<MoeFfnExpert>, n: nat)
    requires
        n <= experts.len() <= usize::MAX,
    ensures
        prewarm_ops(experts, n).len() == 3 * n,
        forall|j: int| 0 <= j < 3 * n ==> (#[trigger] prewarm_ops(experts, n)[j]) is Prewarm,
        forall|i: int, w: FfnWeight|
            0 <= i < n ==> prewarm_ops(experts, n).contains(
                #[trigger] prewarm_of(experts, i, w),
            ),
    decreases n,
{
    if n > 0 {
        let m = (n - 1) as nat;
        let before = prewarm_ops(experts, m);
        let last = prewarm_expert(experts[m as int], m as usize);
        lemma_prewarm_kinds(experts, m);
        assert forall|j: int| 0 <= j < 3 * n implies (#[trigger] prewarm_ops(experts, n)[j]) is
            Prewarm by {
            if j < 3 * m {
                assert(prewarm_ops(experts, n)[j] == before[j]);
            }
        }
        assert forall|i: int, w: FfnWeight| 0 <= i < n implies prewarm_ops(experts, n).contains(
            #[trigger] prewarm_of(experts, i, w),
        ) by {
            let all = prewarm_ops(experts, n);
            let op = prewarm_of(experts, i, w);
            if i < m {
                assert(before.contains(op));
                let k = choose|k: int| 0 <= k < before.len() && before[k] == op;
                assert(all[k] == op);
            } else {
                let k = match w {
                    FfnWeight::Gate => 0int,
                    FfnWeight::Up => 1,
                    FfnWeight::Down => 2,
                };
                assert(all[3 * m + k] == last[k]);
            }
        }
    }
}

/// The operation that brings a weight of an expert to the device.
pub open spec fn prewarm_of(experts: Seq<MoeFfnExpert>, i: int, w: FfnWeight) -> MoeOp {
    MoeOp::Prewarm { expert: i as usize, weight: w, kernel: kernel_of(experts[i], w) }
}

/// No worker stream starts before the input and every weight of every expert are on the
/// device: the operations up to the wait for the main stream upload them all, and none of
/// them is on a worker stream.
pub proof fn law_weights_are_there_first(
    experts: Seq<MoeFfnExpert>,
    streams: usize,
    hidden: usize,
    ffn_dim: usize,
)
    requires
        experts.len() <= usize::MAX,
    ensures
        ({
            let main = moe_main(experts, hidden);
            let p = moe_program(experts, streams, hidden, ffn_dim);
            &&& p.take(main.len() as int) == main
            &&& main.last() == MoeOp::Sync
            &&& main[0] == MoeOp::Upload { len: hidden }
            &&& forall|j: int| 0 <= j < main.len() ==> !on_worker(#[trigger] main[j])
            &&& forall|i: int, w: FfnWeight|
                0 <= i < experts.len() ==> main.contains(#[trigger] prewarm_of(experts, i, w))
            &&& forall|j: int| main.len() <= j < p.len() ==> on_worker(#[trigger] p[j])
        }),
{
    let n = experts.len();
    let main = moe_main(experts, hidden);
    let warm = prewarm_ops(experts, n);
    let work = experts_ops(experts, n, streams, hidden, ffn_dim);
    let back = fetch_ops(n, streams);
    let p = moe_program(experts, streams, hidden, ffn_dim);
    lemma_prewarm_kinds(experts, n);
    lemma_experts_kinds(experts, n, streams, hidden, ffn_dim);
    lemma_fetch_kinds(n, streams);
    assert(p.take(main.len() as int) =~= main);
    assert forall|j: int| 0 <= j < main.len() implies !on_worker(#[trigger] main[j]) by {
        if 0 < j < main.len() - 1 {
            assert(main[j] == warm[j - 1]);
        }
    }
    assert forall|i: int, w: FfnWeight| 0 <= i < experts.len() implies main.contains(
        #[trigger] prewarm_of(experts, i, w),
    ) by {
        let op = prewarm_of(experts, i, w);
        assert(warm.contains(op));
        let k = choose|k: int| 0 <= k < warm.len() && warm[k] == op;
        assert(main[k + 1] == op);
    }
    assert forall|j: int| main.len() <= j < p.len() implies on_worker(#[trigger] p[j]) by {
        let k = j - main.len();
        if k < work.len() {
            assert(p[j] == work[k]);
        } else {
            assert(p[j] == back[k - work.len()]);
        }
    }
}

proof fn lemma_experts_kinds(
    experts: Seq<MoeFfnExpert>,
    n: nat,
    streams: usize,
    hidden: usize,
    ffn_dim: usize,
)
    ensures
        experts_ops(experts, n, streams, hidden, ffn_dim).len() == 4 * n,
        forall|j: int|
            0 <= j < 4 * n ==> on_worker(
                #[trigger] experts_ops(experts, n, streams, hidden, ffn_dim)[j],
            ) && !(experts_ops(experts, n, streams, hidden, ffn_dim)[j] is Fetch),
    decreases n,
{
    if n > 0 {
        let m = (n - 1) as nat;
        let before = experts_ops(experts, m, streams, hidden, ffn_dim);
        lemma_experts_kinds(experts, m, streams, hidden, ffn_dim);
        assert forall|j: int| 0 <= j < 4 * n implies on_worker(
            #[trigger] experts_ops(experts, n, streams, hidden, ffn_dim)[j],
        ) && !(experts_ops(experts, n, streams, hidden, ffn_dim)[j] is Fetch) by {
            if j < 4 * m {
                assert(experts_ops(experts, n, streams, hidden, ffn_dim)[j] == before[j]);
            }
        }
    }
}

proof fn lemma_expert_chain(
    experts: Seq<MoeFfnExpert>,
    n: nat,
    streams: usize,
    hidden: usize,
    ffn_dim: usize,
    i: int,
)
    requires
        0 <= i < n,
    ensures
        experts_ops(experts, n, streams, hidden, ffn_dim).subrange(4 * i, 4 * i + 4) == expert_ops(
            experts[i],
            i as usize,
            streams,
            hidden,
            ffn_dim,
        ),
    decreases n,
{
    let m = (n - 1) as nat;
    let all = experts_ops(experts, n, streams, hidden, ffn_dim);
    let before = experts_ops(experts, m, streams, hidden, ffn_dim);
    lemma_experts_kinds(experts, m, streams, hidden, ffn_dim);
    lemma_experts_kinds(experts, n, streams, hidden, ffn_dim);
    if i < m {
        lemma_expert_chain(experts, m, streams, hidden, ffn_dim, i);
        assert(all.subrange(4 * i, 4 * i + 4) =~= before.subrange(4 * i, 4 * i + 4));
    } else {
        assert(all.subrange(4 * i, 4 * i + 4) =~= expert_ops(
            experts[i],
            i as usize,
            streams,
            hidden,
            ffn_dim,
        ));
    }
}

/// The operations of an expert stand together, in the order in which they need each
/// other, all on the expert's stream.
pub proof fn law_expert_runs_in_order(
    experts: Seq<MoeFfnExpert>,
    streams: usize,
    hidden: usize,
    ffn_dim: usize,
    i: int,
)
    requires
        0 <= i < experts.len(),
    ensures
        ({
            let at = moe_main(experts, hidden).len() + 4 * i;
            moe_program(experts, streams, hidden, ffn_dim).subrange(at, at + 4) == expert_ops(
                experts[i],
                i as usize,
                streams,
                hidden,
                ffn_dim,
            )
        }),
{
    let n = experts.len();
    let at = moe_main(experts, hidden).len() + 4 * i;
    let work = experts_ops(experts, n, streams, hidden, ffn_dim);
    lemma_experts_kinds(experts, n, streams, hidden, ffn_dim);
    lemma_expert_chain(experts, n, streams, hidden, ffn_dim, i);
    assert(moe_program(experts, streams, hidden, ffn_dim).subrange(at, at + 4) =~= work.subrange(
        4 * i,
        4 * i + 4,
    ));
}

proof fn lemma_fetch_kinds(n: nat, streams: usize)
    ensures
        fetch_ops(n, streams).len() == n,
        forall|j: int|
            0 <= j < n ==> (#[trigger] fetch_ops(n, streams)[j]) == (MoeOp::Fetch {
                stream: stream_of(j, streams),
                expert: j as usize,
            }),
    decreases n,
{
    if n > 0 {
        lemma_fetch_kinds((n - 1) as nat, streams);
    }
}

/// The outputs come back in the order of the experts, each on the stream that its expert
/// ran on, after all experts have been started.
pub proof fn law_outputs_in_order(
    experts: Seq<MoeFfnExpert>,
    streams: usize,
    hidden: usize,
    ffn_dim: usize,
    i: int,
)
    requires
        0 <= i < experts.len(),
        experts.len() <= usize::MAX,
    ensures
        ({
            let p = moe_program(experts, streams, hidden, ffn_dim);
            let start = p.len() - experts.len();
            &&& p[start + i] == (MoeOp::Fetch {
                stream: stream_of(i, streams),
                expert: i as usize,
            })
            &&& forall|j: int| 0 <= j < start ==> !((#[trigger] p[j]) is Fetch)
        }),
{
    let n = experts.len();
    let main = moe_main(experts, hidden);
    let warm = prewarm_ops(experts, n);
    let work = experts_ops(experts, n, streams, hidden, ffn_dim);
    let back = fetch_ops(n, streams);
    let p = moe_program(experts, streams, hidden, ffn_dim);
    lemma_prewarm_kinds(experts, n);
    lemma_experts_kinds(experts, n, streams, hidden, ffn_dim);
    lemma_fetch_kinds(n, streams);
    let start = main.len() + work.len();
    assert(p[start + i] == back[i]);
    assert forall|j: int| 0 <= j < start implies !((#[trigger] p[j]) is Fetch) by {
        if j < main.len() {
            assert(p[j] == main[j]);
            if 0 < j < main.len() - 1 {
                assert(main[j] == warm[j - 1]);
            }
        } else {
            assert(p[j] == work[j - main.len()]);
        }
    }
}

/// A kernel reads its own format; no format has two kernels, and only these two have one.
pub proof fn law_kernel_reads_its_format(format: QuantFormat)
    ensures
        kernel(format) == Some(DirectKernel::Q4k) <==> format == QuantFormat::Q4_K,
        kernel(format) == Some(DirectKernel::Q5k) <==> format == QuantFormat::Q5_K,
        kernel(format) is None <==> format != QuantFormat::Q4_K && format != QuantFormat::Q5_K,
{
}

/// A block whose weights all have kernels: the input goes up, gate and up projection read it,
/// the activation joins them, the down projection reads that, and the output comes back. Gate
/// and up projection go from `hidden` to `ffn_dim`, the down projection from there to its rows.
pub proof fn law_block_in_order(
    gate: QuantFormat,
    up: QuantFormat,
    down: QuantFormat,
    ffn_dim: usize,
    down_rows: usize,
    hidden: usize,
)
    requires
        kernel(gate) is Some && kernel(up) is Some && kernel(down) is Some,
    ensures
        ({
            let p = ffn_ops(gate, up, down, ffn_dim, down_rows, hidden);
            &&& p.len() == 6
            &&& p[0] == (FfnOp::Upload { len: hidden })
            &&& p[1] == (FfnOp::Matvec {
                weight: FfnWeight::Gate,
                kernel: kernel(gate)->0,
                rows: ffn_dim,
                cols: hidden,
            })
            &&& p[2] == (FfnOp::Matvec {
                weight: FfnWeight::Up,
                kernel: kernel(up)->0,
                rows: ffn_dim,
                cols: hidden,
            })
            &&& p[3] == (FfnOp::GateUp { n: ffn_dim })
            &&& p[4] == (FfnOp::Matvec {
                weight: FfnWeight::Down,
                kernel: kernel(down)->0,
                rows: down_rows,
                cols: ffn_dim,
            })
            &&& p[5] == FfnOp::Fetch
        }),
{
}

/// A block is given up at the first of its weights that has no kernel, in the order in which
/// they are used, and brings nothing back; everything before that is as in a whole block.
pub proof fn law_block_given_up(
    gate: QuantFormat,
    up: QuantFormat,
    down: QuantFormat,
    ffn_dim: usize,
    down_rows: usize,
    hidden: usize,
)
    ensures
        ({
            let p = ffn_ops(gate, up, down, ffn_dim, down_rows, hidden);
            let whole = ffn_ops(
                QuantFormat::Q4_K,
                QuantFormat::Q4_K,
                QuantFormat::Q4_K,
                ffn_dim,
                down_rows,
                hidden,
            );
            &&& p.last() == (FfnOp::GiveUp { weight: FfnWeight::Gate }) <==> kernel(gate) is None
            &&& p.last() == (FfnOp::GiveUp { weight: FfnWeight::Up }) <==> kernel(gate) is Some
                && kernel(up) is None
            &&& p.last() == (FfnOp::GiveUp { weight: FfnWeight::Down }) <==> kernel(gate) is Some
                && kernel(up) is Some && kernel(down) is None
            &&& p.len() <= whole.len()
            &&& p[0] == whole[0]
            &&& p.len() > 3 ==> p[3] == whole[3]
            &&& p.len() == 2 <==> kernel(gate) is None
            &&& p.len() == 3 <==> kernel(gate) is Some && kernel(up) is None
        }),
{
}

/// Expert `i` runs on stream `i` modulo their number: gate and up projection from the input, the
/// activation, then the down projection back to the input's width, each with the kernel of its
/// weight.
pub proof fn law_expert_steps(
    experts: Seq<MoeFfnExpert>,
    streams: usize,
    hidden: usize,
    ffn_dim: usize,
    i: int,
)
    requires
        0 <= i < experts.len() <= usize::MAX,
        streams > 0,
    ensures
        ({
            let p = moe_program(experts, streams, hidden, ffn_dim);
            let at = 2 + 3 * experts.len() + 4 * i;
            let stream = (i % (streams as int)) as usize;
            &&& p[at] == (MoeOp::Matvec {
                stream,
                expert: i as usize,
                weight: FfnWeight::Gate,
                kernel: kernel(experts[i].gate_format)->0,
                rows: ffn_dim,
                cols: hidden,
            })
            &&& p[at + 1] == (MoeOp::Matvec {
                stream,
                expert: i as usize,
                weight: FfnWeight::Up,
                kernel: kernel(experts[i].up_format)->0,
                rows: ffn_dim,
                cols: hidden,
            })
            &&& p[at + 2] == (MoeOp::GateUp { stream, expert: i as usize, n: ffn_dim })
            &&& p[at + 3] == (MoeOp::Matvec {
                stream,
                expert: i as usize,
                weight: FfnWeight::Down,
                kernel: kernel(experts[i].down_format)->0,
                rows: hidden,
                cols: ffn_dim,
            })
            &&& p[p.len() - experts.len() + i] == (MoeOp::Fetch { stream, expert: i as usize })
            &&& p.len() == 2 + 8 * experts.len()
            &&& stream < streams
        }),
{
    let p = moe_program(experts, streams, hidden, ffn_dim);
    lemma_prewarm_kinds(experts, experts.len());
    lemma_experts_kinds(experts, experts.len(), streams, hidden, ffn_dim);
    lemma_fetch_kinds(experts.len(), streams);
    law_expert_runs_in_order(experts, streams, hidden, ffn_dim, i);
    law_outputs_in_order(experts, streams, hidden, ffn_dim, i);
    let at = 2 + 3 * experts.len() + 4 * i;
    let four = p.subrange(at, at + 4);
    assert(moe_main(experts, hidden).len() == 2 + 3 * experts.len());
    assert(four[0] == p[at] && four[1] == p[at + 1] && four[2] == p[at + 2] && four[3] == p[at + 3]);
}

/// A batch is run just where there are experts and streams, the row fits, and every weight of
/// every expert has a kernel.
pub proof fn law_batch_accepts(
    x_len: usize,
    hidden: usize,
    experts: Seq<MoeFfnExpert>,
    streams: usize,
)
    ensures
        moe_accepts(x_len, hidden, experts, streams) <==> {
            &&& x_len == hidden && experts.len() > 0 && streams > 0
            &&& forall|i: int|
                0 <= i < experts.len() ==> {
                    &&& kernel((#[trigger] experts[i]).gate_format) is Some
                    &&& kernel(experts[i].up_format) is Some
                    &&& kernel(experts[i].down_format) is Some
                }
        },
{
}

} // verus!
