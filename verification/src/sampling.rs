//! Verification of drafted tokens on the device: checks and launch geometry.

use vstd::prelude::*;

use crate::dispatch::{flat, flatten_rows, rows_of_width};
use crate::error::CudaInitError;
use crate::launch::LaunchConfig;
use crate::text::{dec, push_dec};

verus! {

/// What the verification kernel decided. `-1` stands for no token.
#[derive(Clone, Debug, PartialEq)]
pub struct GpuAcceptedSpan {
    pub accepted: Vec<i32>,
    pub corrected: i32,
    pub bonus: i32,
}

impl GpuAcceptedSpan {
    /// The decision as the three output buffers hold it: the first element of each of the
    /// last two counts.
    pub fn from_device(accepted: Vec<i32>, corrected: &[i32], bonus: &[i32]) -> (s: GpuAcceptedSpan)
        requires
            corrected@.len() > 0,
            bonus@.len() > 0,
        ensures
            s.accepted == accepted,
            s.corrected == corrected@[0],
            s.bonus == bonus@[0],
    {
        GpuAcceptedSpan { accepted, corrected: corrected[0], bonus: bonus[0] }
    }
}

/// Launch of a verification kernel: the rows of the target one behind the other, and the
/// integer arguments.
#[derive(Debug)]
pub struct VerifyLaunch<T> {
    pub cfg: LaunchConfig,
    pub p_target: Vec<T>,
    /// Elements of the buffer for accepted tokens.
    pub accepted_len: usize,
    pub path_len: i32,
    pub vocab: i32,
}

/// Lengths of the path's parts agree, and the path is not empty.
pub open spec fn path_ok(path_len: nat, drafts: nat, pdraft: nat) -> bool {
    path_len > 0 && drafts == path_len && pdraft == path_len
}

/// A drafted path can be verified: its parts agree, and every row spans the vocabulary.
pub open spec fn verifiable<T>(
    rows: Seq<Vec<T>>,
    drafts: Seq<i32>,
    pdraft: Seq<T>,
    vocab: usize,
) -> bool {
    path_ok(rows.len(), drafts.len(), pdraft.len()) && rows_of_width(rows, vocab)
}

/// The complaint about a row that does not span the vocabulary.
pub open spec fn row_text(name: Seq<char>, i: int, got: nat, vocab: usize) -> Seq<char> {
    name + " row "@ + dec(i as nat) + ": got vocab="@ + dec(got) + ", expected "@ + dec(vocab as nat)
}

fn row_error(name: &str, i: usize, got: usize, vocab: usize) -> (e: CudaInitError)
    ensures
        e.says(row_text(name@, i as int, got as nat, vocab)),
        e.says(
            name@ + " row "@ + dec(i as nat) + ": got vocab="@ + dec((got as nat))
                + ", expected "@ + dec(vocab as nat),
        ),
{
    let mut s: String = name.to_owned();
    s.append(" row ");
    push_dec(&mut s, i as u64);
    s.append(": got vocab=");
    push_dec(&mut s, got as u64);
    s.append(", expected ");
    push_dec(&mut s, vocab as u64);
    CudaInitError::DriverMissing(s)
}

/// The first row that does not span the vocabulary.
pub open spec fn first_bad_row<T>(rows: Seq<Vec<T>>, vocab: usize, i: int) -> bool {
    &&& 0 <= i < rows.len()
    &&& rows[i]@.len() != vocab
    &&& forall|k: int| 0 <= k < i ==> (#[trigger] rows[k])@.len() == vocab
}

fn find_bad_row<T>(rows: &[Vec<T>], vocab: usize) -> (r: Option<usize>)
    ensures
        match r {
            Some(i) => first_bad_row(rows@, vocab, i as int),
            None => rows_of_width(rows@, vocab),
        },
{
    let mut i: usize = 0;
    while i < rows.len()
        invariant
            i <= rows@.len(),
            forall|k: int| 0 <= k < i ==> (#[trigger] rows@[k])@.len() == vocab,
        decreases rows@.len() - i,
    {
        if rows[i].len() != vocab {
            return Some(i);
        }
        i = i + 1;
    }
    None
}

/// Checks the verification of a drafted path by a single thread, and lays out its launch.
pub fn verify_tree_gpu<T: Copy>(
    p_target_rows: &[Vec<T>],
    path_drafts: &[i32],
    path_pdraft: &[T],
    vocab: usize,
) -> (r: Result<VerifyLaunch<T>, CudaInitError>)
    ensures
        r is Ok == verifiable(p_target_rows@, path_drafts@, path_pdraft@, vocab),
        r matches Ok(l) ==> {
            &&& l.cfg == (LaunchConfig {
                grid_dim: (1, 1, 1),
                block_dim: (1, 1, 1),
                shared_mem_bytes: 0,
            })
            &&& l.p_target@ == flat(p_target_rows@)
            &&& l.accepted_len == p_target_rows@.len()
            &&& l.path_len == (p_target_rows@.len() as usize) as i32
            &&& l.vocab == vocab as i32
        },
        r matches Err(e) ==> if !path_ok(
            p_target_rows@.len(),
            path_drafts@.len(),
            path_pdraft@.len(),
        ) {
            e.says(
                "verify_tree_gpu shape mismatch: path_len="@ + dec(p_target_rows@.len()) + " drafts="@
                    + dec(path_drafts@.len()) + " pdraft="@ + dec(path_pdraft@.len()),
            )
        } else {
            exists|i: int| #[trigger]
                first_bad_row(p_target_rows@, vocab, i) && e.says(
                    row_text("verify_tree_gpu"@, i, p_target_rows@[i]@.len(), vocab),
                )
        },
        r is Ok <==> {
            &&& p_target_rows@.len() > 0 && path_drafts@.len() == p_target_rows@.len()
            &&& path_pdraft@.len() == p_target_rows@.len()
            &&& forall|i: int| 0 <= i < p_target_rows@.len() ==> (#[trigger] p_target_rows@[i])@.len()
                == vocab
        },
{
    let path_len: usize = p_target_rows.len();
    if path_len == 0 || path_drafts.len() != path_len || path_pdraft.len() != path_len {
        let mut s: String = "verify_tree_gpu shape mismatch: path_len=".to_owned();
        push_dec(&mut s, path_len as u64);
        s.append(" drafts=");
        push_dec(&mut s, path_drafts.len() as u64);
        s.append(" pdraft=");
        push_dec(&mut s, path_pdraft.len() as u64);
        return Err(CudaInitError::DriverMissing(s));
    }
    if let Some(i) = find_bad_row(p_target_rows, vocab) {
        return Err(row_error("verify_tree_gpu", i, p_target_rows[i].len(), vocab));
    }
    Ok(
        VerifyLaunch {
            cfg: LaunchConfig { grid_dim: (1, 1, 1), block_dim: (1, 1, 1), shared_mem_bytes: 0 },
            p_target: flatten_rows(p_target_rows),
            accepted_len: path_len,
            path_len: #[verifier::truncate] (path_len as i32),
            vocab: #[verifier::truncate] (vocab as i32),
        },
    )
}

/// Checks the verification of a drafted path by a block of threads that sum together, and
/// lays out its launch.
pub fn verify_tree_gpu_parallel<T: Copy>(
    p_target_rows: &[Vec<T>],
    path_drafts: &[i32],
    path_pdraft: &[T],
    vocab: usize,
) -> (r: Result<VerifyLaunch<T>, CudaInitError>)
    ensures
        r is Ok == verifiable(p_target_rows@, path_drafts@, path_pdraft@, vocab),
        r matches Ok(l) ==> {
            &&& l.cfg == (LaunchConfig {
                grid_dim: (1, 1, 1),
                block_dim: (1024, 1, 1),
                shared_mem_bytes: 4096,
            })
            &&& l.p_target@ == flat(p_target_rows@)
            &&& l.accepted_len == p_target_rows@.len()
            &&& l.path_len == (p_target_rows@.len() as usize) as i32
            &&& l.vocab == vocab as i32
        },
        r matches Err(e) ==> if !path_ok(
            p_target_rows@.len(),
            path_drafts@.len(),
            path_pdraft@.len(),
        ) {
            e.says(
                "verify_tree_gpu_parallel shape mismatch: path_len="@ + dec(p_target_rows@.len()),
            )
        } else {
            exists|i: int| #[trigger]
                first_bad_row(p_target_rows@, vocab, i) && e.says(
                    row_text("verify_tree_gpu_parallel"@, i, p_target_rows@[i]@.len(), vocab),
                )
        },
        r is Ok <==> {
            &&& p_target_rows@.len() > 0 && path_drafts@.len() == p_target_rows@.len()
            &&& path_pdraft@.len() == p_target_rows@.len()
            &&& forall|i: int| 0 <= i < p_target_rows@.len() ==> (#[trigger] p_target_rows@[i])@.len()
                == vocab
        },
{
    let path_len: usize = p_target_rows.len();
    if path_len == 0 || path_drafts.len() != path_len || path_pdraft.len() != path_len {
        let mut s: String = "verify_tree_gpu_parallel shape mismatch: path_len=".to_owned();
        push_dec(&mut s, path_len as u64);
        return Err(CudaInitError::DriverMissing(s));
    }
    if let Some(i) = find_bad_row(p_target_rows, vocab) {
        return Err(row_error("verify_tree_gpu_parallel", i, p_target_rows[i].len(), vocab));
    }
    Ok(
        VerifyLaunch {
            cfg: LaunchConfig {
                grid_dim: (1, 1, 1),
                block_dim: (1024, 1, 1),
                shared_mem_bytes: 4096,
            },
            p_target: flatten_rows(p_target_rows),
            accepted_len: path_len,
            path_len: #[verifier::truncate] (path_len as i32),
            vocab: #[verifier::truncate] (vocab as i32),
        },
    )
}

/// How a verification kernel decides. The first test is that of a drafted token: by the
/// seed, its place in the path, the target's probability of it and the draft's. The other two
/// pick a token from a row of the target, where a draft was rejected or where none was.
#[verifier::reject_recursive_types(T)]
pub struct VerifyRules<T> {
    pub accepts: spec_fn(u64, int, T, T) -> bool,
    pub corrected: spec_fn(u64, int, Seq<T>, int) -> int,
    pub bonus: spec_fn(u64, Seq<T>) -> int,
}

/// What goes into a verification kernel.
pub struct VerifyInput<T> {
    pub p_target: Seq<T>,
    pub drafts: Seq<i32>,
    pub pdraft: Seq<T>,
    pub path_len: int,
    pub vocab: int,
    pub seed: u64,
}

impl<T> VerifyInput<T> {
    /// Row `k` of the target.
    pub open spec fn row(self, k: int) -> Seq<T> {
        self.p_target.subrange(k * self.vocab, (k + 1) * self.vocab)
    }

    /// Token `k` of the path passes its test.
    pub open spec fn passes(self, rules: VerifyRules<T>, k: int) -> bool {
        (rules.accepts)(self.seed, k, self.row(k)[self.drafts[k] as int], self.pdraft[k])
    }

    /// The number of tokens that are accepted among the first `k`: those up to the first
    /// that does not pass.
    pub open spec fn accepted(self, rules: VerifyRules<T>, k: nat) -> nat
        decreases k,
    {
        if k == 0 {
            0
        } else {
            let before = self.accepted(rules, (k - 1) as nat);
            if before == k - 1 && self.passes(rules, k - 1) {
                k
            } else {
                before
            }
        }
    }
}

/// What a verification kernel delivers: the accepted tokens, the token in place of the first
/// that was rejected, and the token behind a path that was accepted whole.
pub open spec fn verdict<T>(x: VerifyInput<T>, rules: VerifyRules<T>) -> (Seq<i32>, int, int) {
    let n = x.path_len;
    let a = x.accepted(rules, n as nat) as int;
    (
        Seq::new(
            n as nat,
            |k: int|
                if k < a {
                    x.drafts[k]
                } else {
                    -1i32
                },
        ),
        if a < n {
            (rules.corrected)(x.seed, a, x.row(a), x.drafts[a] as int)
        } else {
            -1
        },
        if a < n {
            -1
        } else {
            (rules.bonus)(x.seed, x.row(n - 1))
        },
    )
}

/// What a launch hands to its kernel.
pub open spec fn handed_over<T>(
    l: VerifyLaunch<T>,
    drafts: Seq<i32>,
    pdraft: Seq<T>,
    seed: u64,
) -> VerifyInput<T> {
    VerifyInput {
        p_target: l.p_target@,
        drafts,
        pdraft,
        path_len: l.path_len as int,
        vocab: l.vocab as int,
        seed,
    }
}

/// The two kernels differ in how they sum a row, and so in how they pick a token from it; they
/// test drafted tokens alike. On what the two launches hand over they accept the same tokens,
/// and the same one of corrected and bonus token is there.
pub proof fn law_both_kernels_accept_the_same<T>(
    serial: VerifyLaunch<T>,
    parallel: VerifyLaunch<T>,
    drafts: Seq<i32>,
    pdraft: Seq<T>,
    seed: u64,
    a: VerifyRules<T>,
    b: VerifyRules<T>,
)
    requires
        serial.p_target@ == parallel.p_target@,
        serial.path_len == parallel.path_len,
        serial.vocab == parallel.vocab,
        a.accepts == b.accepts,
        forall|s: u64, k: int, row: Seq<T>, d: int| #[trigger] (a.corrected)(s, k, row, d) >= 0,
        forall|s: u64, k: int, row: Seq<T>, d: int| #[trigger] (b.corrected)(s, k, row, d) >= 0,
        forall|s: u64, row: Seq<T>| #[trigger] (a.bonus)(s, row) >= 0,
        forall|s: u64, row: Seq<T>| #[trigger] (b.bonus)(s, row) >= 0,
    ensures
        ({
            let x = verdict(handed_over(serial, drafts, pdraft, seed), a);
            let y = verdict(handed_over(parallel, drafts, pdraft, seed), b);
            &&& x.0 == y.0
            &&& (x.1 == -1) == (y.1 == -1)
            &&& (x.2 == -1) == (y.2 == -1)
            &&& (x.1 == -1) != (x.2 == -1)
        }),
{
    let x = handed_over(serial, drafts, pdraft, seed);
    lemma_accepted_alike(x, a, b, x.path_len as nat);
    assert(verdict(x, a).0 =~= verdict(x, b).0);
}

proof fn lemma_accepted_alike<T>(x: VerifyInput<T>, a: VerifyRules<T>, b: VerifyRules<T>, k: nat)
    requires
        a.accepts == b.accepts,
    ensures
        x.accepted(a, k) == x.accepted(b, k),
    decreases k,
{
    if k > 0 {
        lemma_accepted_alike(x, a, b, (k - 1) as nat);
    }
}

/// A path can be verified just where it is not empty, each of its tokens has a probability and a
/// row of the target, and every row spans the vocabulary. Where it cannot and its parts agree,
/// there is one row that is complained of: the first that does not.
pub proof fn law_verifiable<T>(rows: Seq<Vec<T>>, drafts: Seq<i32>, pdraft: Seq<T>, vocab: usize, i: int, j: int)
    ensures
        verifiable(rows, drafts, pdraft, vocab) <==> {
            &&& rows.len() > 0 && rows.len() == drafts.len() && drafts.len() == pdraft.len()
            &&& forall|k: int| 0 <= k < rows.len() ==> (#[trigger] rows[k])@.len() == vocab
        },
        first_bad_row(rows, vocab, i) ==> !verifiable(rows, drafts, pdraft, vocab),
        first_bad_row(rows, vocab, i) && first_bad_row(rows, vocab, j) ==> i == j,
        first_bad_row(rows, vocab, i) && 0 <= j < i ==> rows[j]@.len() == vocab,
{
}

} // verus!
