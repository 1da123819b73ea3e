//! Which ways a product with a packed weight is computed, and in which order they are
//! tried.

use vstd::prelude::*;

use crate::flags::set_to;

verus! {

/// A way to compute a product of one row with a packed weight.
#[derive(Clone, Copy, Debug, PartialEq, Eq, Structural)]
pub enum MatvecWay {
    /// The kernel that reads the packed weight.
    Direct,
    /// Weight expanded once into a device cache, then a GEMM with one row.
    CachedGemm,
    /// Weight expanded once into the `f32` device cache, then a GEMV.
    CachedGemv,
    /// Weight expanded on the host for this call, then a GEMV.
    ExpandGemv,
}

/// A product of one row: the ways in the order in which they are tried. The first that
/// works gives the result; where none works there is none.
pub type MatvecWays = Vec<MatvecWay>;

/// Elements of a packed input that share a scale.
pub const Q8_BLOCK: usize = 32;

/// Whether a packed input row fits a weight of `hidden` columns: a code for each column,
/// and a scale for each block of them.
pub fn q4_matvec(codes: usize, scales: usize, hidden: usize) -> (r: bool)
    ensures
        r == (codes == hidden && scales * 32 == hidden),
{
    codes == hidden && hidden % Q8_BLOCK == 0 && scales == hidden / Q8_BLOCK
}

fn asks(setting: Option<&str>) -> (r: bool)
    ensures
        r == set_to(setting, "1"@),
{
    crate::flags::off_unless_one(setting)
}

pub open spec fn q4k_ways(host_dequant: Option<&str>) -> Seq<MatvecWay> {
    if set_to(host_dequant, "1"@) {
        seq![MatvecWay::ExpandGemv]
    } else {
        seq![MatvecWay::Direct, MatvecWay::CachedGemm]
    }
}

/// `LARQL_CUDA_Q4K_HOST_DEQUANT` is in `host_dequant`.
pub fn q4k_matvec(x_len: usize, hidden: usize, host_dequant: Option<&str>) -> (r: Option<MatvecWays>)
    ensures
        match r {
            Some(ways) => x_len == hidden && ways@ == q4k_ways(host_dequant),
            None => x_len != hidden,
        },
        r matches Some(ways) ==> (host_dequant is Some && host_dequant->0@ == "1"@ ==> ways@
            == seq![MatvecWay::ExpandGemv]),
        r matches Some(ways) ==> (!(host_dequant is Some && host_dequant->0@ == "1"@) ==> ways@
            == seq![MatvecWay::Direct, MatvecWay::CachedGemm]),
{
    if x_len != hidden {
        return None;
    }
    let mut ways: Vec<MatvecWay> = Vec::new();
    if asks(host_dequant) {
        ways.push(MatvecWay::ExpandGemv);
    } else {
        ways.push(MatvecWay::Direct);
        ways.push(MatvecWay::CachedGemm);
    }
    assert(ways@ =~= q4k_ways(host_dequant));
    Some(ways)
}

pub fn q4kf_matvec(x_len: usize, hidden: usize) -> (r: Option<MatvecWay>)
    ensures
        r == if x_len == hidden {
            Some(MatvecWay::ExpandGemv)
        } else {
            None::<MatvecWay>
        },
{
    if x_len != hidden {
        return None;
    }
    Some(MatvecWay::ExpandGemv)
}

pub fn q5k_matvec(x_len: usize, hidden: usize) -> (r: Option<MatvecWay>)
    ensures
        r == if x_len == hidden {
            Some(MatvecWay::Direct)
        } else {
            None::<MatvecWay>
        },
{
    if x_len != hidden {
        return None;
    }
    Some(MatvecWay::Direct)
}

pub open spec fn q8_0_ways(host_dequant: Option<&str>) -> Seq<MatvecWay> {
    if set_to(host_dequant, "1"@) {
        seq![MatvecWay::CachedGemv]
    } else {
        seq![MatvecWay::Direct, MatvecWay::CachedGemv]
    }
}

/// `LARQL_CUDA_Q8_0_HOST_DEQUANT` is in `host_dequant`.
pub fn q8_0_matvec(x_len: usize, hidden: usize, host_dequant: Option<&str>) -> (r: Option<
    MatvecWays,
>)
    ensures
        match r {
            Some(ways) => x_len == hidden && ways@ == q8_0_ways(host_dequant),
            None => x_len != hidden,
        },
        r matches Some(ways) ==> (host_dequant is Some && host_dequant->0@ == "1"@ ==> ways@
            == seq![MatvecWay::CachedGemv]),
        r matches Some(ways) ==> (!(host_dequant is Some && host_dequant->0@ == "1"@) ==> ways@
            == seq![MatvecWay::Direct, MatvecWay::CachedGemv]),
{
    if x_len != hidden {
        return None;
    }
    let mut ways: Vec<MatvecWay> = Vec::new();
    if !asks(host_dequant) {
        ways.push(MatvecWay::Direct);
    }
    ways.push(MatvecWay::CachedGemv);
    assert(ways@ =~= q8_0_ways(host_dequant));
    Some(ways)
}

/// `LARQL_CUDA_Q6K_HOST_DEQUANT` is in `host_dequant`.
pub fn q6k_matvec(x_len: usize, hidden: usize, host_dequant: Option<&str>) -> (r: Option<MatvecWay>)
    ensures
        r == if x_len != hidden {
            None::<MatvecWay>
        } else if set_to(host_dequant, "1"@) {
            Some(MatvecWay::ExpandGemv)
        } else {
            Some(MatvecWay::CachedGemv)
        },
{
    if x_len != hidden {
        return None;
    }
    if asks(host_dequant) {
        return Some(MatvecWay::ExpandGemv);
    }
    Some(MatvecWay::CachedGemv)
}

/// How a product of several rows is computed.
#[derive(Clone, Copy, Debug, PartialEq, Eq, Structural)]
pub enum MatmulWay {
    /// One row: the product of a row.
    OneRow,
    /// A GEMM, and where that is refused each row on its own.
    GemmOrRows,
}

/// The rows of an input fit a weight of `hidden` columns.
pub open spec fn rows_fit(x_len: usize, hidden: usize, seq_len: usize) -> bool {
    seq_len != 0 && x_len == seq_len * hidden
}

pub fn q4k_matmul(x_len: usize, hidden: usize, seq_len: usize) -> (r: Option<MatmulWay>)
    requires
        seq_len * hidden <= usize::MAX,
    ensures
        r == if !rows_fit(x_len, hidden, seq_len) {
            None::<MatmulWay>
        } else if seq_len == 1 {
            Some(MatmulWay::OneRow)
        } else {
            Some(MatmulWay::GemmOrRows)
        },
        r is Some <==> seq_len >= 1 && x_len == seq_len * hidden,
{
    if seq_len == 0 || x_len != seq_len * hidden {
        return None;
    }
    if seq_len == 1 {
        return Some(MatmulWay::OneRow);
    }
    Some(MatmulWay::GemmOrRows)
}

/// How a product of several rows with a softmax behind it is computed.
#[derive(Clone, Copy, Debug, PartialEq, Eq, Structural)]
pub enum SoftmaxWay {
    /// The product first, then the softmax of what came back.
    ProductThenSoftmax,
    /// A GEMM and the softmax on the device, without a way back in between.
    Fused,
}

pub fn q4k_matmul_softmax(x_len: usize, hidden: usize, seq_len: usize) -> (r: Option<SoftmaxWay>)
    requires
        seq_len * hidden <= usize::MAX,
    ensures
        r == if !rows_fit(x_len, hidden, seq_len) {
            None::<SoftmaxWay>
        } else if seq_len == 1 {
            Some(SoftmaxWay::ProductThenSoftmax)
        } else {
            Some(SoftmaxWay::Fused)
        },
        r is Some <==> seq_len >= 1 && x_len == seq_len * hidden,
{
    if seq_len == 0 || x_len != seq_len * hidden {
        return None;
    }
    if seq_len == 1 {
        return Some(SoftmaxWay::ProductThenSoftmax);
    }
    Some(SoftmaxWay::Fused)
}

/// Whether a matrix can go through the softmax.
pub fn softmax_inplace_batched(x_len: usize, n_rows: usize, n_cols: usize) -> (r: bool)
    requires
        n_rows * n_cols <= usize::MAX,
    ensures
        r == (x_len == n_rows * n_cols && n_rows != 0 && n_cols != 0),
{
    !(x_len != n_rows * n_cols || n_rows == 0 || n_cols == 0)
}

pub fn has_q4() -> (r: bool)
    ensures
        r,
{
    true
}

/// The scores of the rows so far with those of one more row, which has to have
/// `num_rows` of them.
pub open spec fn with_row<T>(out: Seq<T>, scores: Option<Seq<T>>, num_rows: nat) -> Option<Seq<T>> {
    match scores {
        Some(s) => if s.len() == num_rows {
            Some(out + s)
        } else {
            None
        },
        None => None,
    }
}

/// Where a product row by row stands.
#[derive(Clone, Copy, Debug, PartialEq, Eq, Structural)]
pub enum RowStep {
    /// Compute the row whose input is the elements from the first number up to the second.
    Row(usize, usize),
    /// All rows are there.
    Done,
    /// A row could not be computed: there is no result.
    Failed,
}

/// A product computed row by row.
#[derive(Debug)]
pub struct RowRun<T> {
    pub out: Vec<T>,
    pub done: usize,
    pub seq_len: usize,
    pub hidden: usize,
    pub num_rows: usize,
    pub failed: bool,
}

impl<T> RowRun<T> {
    pub open spec fn wf(self) -> bool {
        &&& self.done <= self.seq_len
        &&& self.seq_len * self.hidden <= usize::MAX
    }

    pub open spec fn step_of(self) -> RowStep {
        if self.failed {
            RowStep::Failed
        } else if self.done < self.seq_len {
            RowStep::Row(
                (self.done * self.hidden) as usize,
                ((self.done + 1) * self.hidden) as usize,
            )
        } else {
            RowStep::Done
        }
    }

    /// The scores so far, unless a row has failed.
    pub open spec fn result(self) -> Option<Seq<T>> {
        if self.failed {
            None
        } else {
            Some(self.out@)
        }
    }

    pub fn begin(seq_len: usize, hidden: usize, num_rows: usize) -> (r: RowRun<T>)
        requires
            seq_len * hidden <= usize::MAX,
        ensures
            r.wf(),
            r.out@ == Seq::<T>::empty(),
            r.done == 0 && !r.failed,
            r.seq_len == seq_len && r.hidden == hidden && r.num_rows == num_rows,
    {
        RowRun { out: Vec::new(), done: 0, seq_len, hidden, num_rows, failed: false }
    }

    /// What to do next.
    pub fn step(&self) -> (r: RowStep)
        requires
            self.wf(),
        ensures
            r == self.step_of(),
            r matches RowStep::Row(a, b) ==> a == self.done * self.hidden && b == a + self.hidden
                && b <= self.seq_len * self.hidden,
    {
        if self.failed {
            return RowStep::Failed;
        }
        if self.done < self.seq_len {
            assert(self.done * self.hidden + self.hidden == (self.done + 1) * self.hidden && (
            self.done + 1) * self.hidden <= self.seq_len * self.hidden && 0 <= self.done
                * self.hidden) by (nonlinear_arith)
                requires
                    self.done < self.seq_len,
            ;
            return RowStep::Row(self.done * self.hidden, (self.done + 1) * self.hidden);
        }
        RowStep::Done
    }

    /// Takes the scores of the row that was asked for. A row without scores, or with too
    /// few or too many, ends the run without a result.
    pub fn on_row(&mut self, scores: Option<Vec<T>>)
        requires
            old(self).wf(),
            old(self).step_of() is Row,
        ensures
            final(self).wf(),
            final(self).seq_len == old(self).seq_len && final(self).hidden == old(self).hidden
                && final(self).num_rows == old(self).num_rows,
            final(self).result() == with_row(
                old(self).out@,
                match scores {
                    Some(s) => Some(s@),
                    None => None,
                },
                old(self).num_rows as nat,
            ),
            final(self).done == old(self).done + if final(self).failed {
                0int
            } else {
                1int
            },
    {
        match scores {
            Some(s) => {
                if s.len() != self.num_rows {
                    self.failed = true;
                    return ;
                }
                let mut s = s;
                self.out.append(&mut s);
                self.done = self.done + 1;
            },
            None => {
                self.failed = true;
            },
        }
    }
}

/// The result of a run that is given these answers, one after the other.
pub open spec fn run_rows<T>(answers: Seq<Option<Seq<T>>>, num_rows: nat) -> Option<Seq<T>>
    decreases answers.len(),
{
    if answers.len() == 0 {
        Some(Seq::empty())
    } else {
        match run_rows(answers.drop_last(), num_rows) {
            Some(out) => with_row(out, answers.last(), num_rows),
            None => None,
        }
    }
}

/// A product row by row has a result just if every row has the right number of scores,
/// and then score `c` of row `r` lies where a row-major matrix has it.
pub proof fn law_rows_line_up<T>(answers: Seq<Option<Seq<T>>>, num_rows: nat)
    ensures
        run_rows(answers, num_rows) is Some == (forall|r: int|
            0 <= r < answers.len() ==> ((#[trigger] answers[r]) matches Some(s) && s.len()
                == num_rows)),
        run_rows(answers, num_rows) matches Some(out) ==> {
            &&& out.len() == answers.len() * num_rows
            &&& forall|r: int, c: int|
                0 <= r < answers.len() && 0 <= c < num_rows ==> #[trigger] out[r * num_rows + c]
                    == answers[r]->0[c]
        },
    decreases answers.len(),
{
    if answers.len() > 0 {
        let fewer = answers.drop_last();
        let n = fewer.len();
        law_rows_line_up(fewer, num_rows);
        assert(answers == fewer.push(answers.last()));
        assert(forall|r: int| 0 <= r < n ==> fewer[r] == #[trigger] answers[r]);
        match run_rows(answers, num_rows) {
            Some(out) => {
                let head = run_rows(fewer, num_rows)->0;
                assert(answers.len() * num_rows == n * num_rows + num_rows) by (nonlinear_arith)
                    requires
                        answers.len() == n + 1,
                ;
                assert forall|r: int, c: int|
                    0 <= r < answers.len() && 0 <= c < num_rows implies #[trigger] out[r * num_rows
                    + c] == answers[r]->0[c] by {
                    if r < n {
                        assert(0 <= r * num_rows && r * num_rows + c < n * num_rows)
                            by (nonlinear_arith)
                            requires
                                0 <= r < n,
                                0 <= c < num_rows,
                        ;
                        assert(out[r * num_rows + c] == head[r * num_rows + c]);
                    } else {
                        assert(r == n);
                    }
                }
            },
            None => {
                if forall|r: int|
                    0 <= r < answers.len() ==> ((#[trigger] answers[r]) matches Some(s) && s.len()
                        == num_rows) {
                    assert(answers[n as int] == answers.last());
                    assert forall|r: int| 0 <= r < n implies ((#[trigger] fewer[r]) matches Some(s)
                        && s.len() == num_rows) by {
                        assert(fewer[r] == answers[r]);
                    }
                }
            },
        }
    }
}

/// The packed weight is read where it lies unless the host was asked to expand it, and then
/// never. No way is tried twice, and there is always one.
pub proof fn law_ways(host_dequant: Option<&str>)
    ensures
        ({
            let q4 = q4k_ways(host_dequant);
            let q8 = q8_0_ways(host_dequant);
            let asked = set_to(host_dequant, "1"@);
            &&& q4.len() > 0 && q8.len() > 0
            &&& q4.contains(MatvecWay::Direct) <==> !asked
            &&& q8.contains(MatvecWay::Direct) <==> !asked
            &&& !asked ==> q4[0] == MatvecWay::Direct && q8[0] == MatvecWay::Direct
            &&& q4.contains(MatvecWay::ExpandGemv) <==> asked
            &&& !q8.contains(MatvecWay::ExpandGemv)
            &&& q4.last() == (if asked {
                MatvecWay::ExpandGemv
            } else {
                MatvecWay::CachedGemm
            })
            &&& q8.last() == MatvecWay::CachedGemv
            &&& q4.no_duplicates() && q8.no_duplicates()
            &&& q4.len() == q8.len() == (if asked {
                1int
            } else {
                2int
            })
        }),
{
    let q4 = q4k_ways(host_dequant);
    let q8 = q8_0_ways(host_dequant);
    if !set_to(host_dequant, "1"@) {
        assert(q4[0] == MatvecWay::Direct && q4[1] == MatvecWay::CachedGemm);
        assert(q8[0] == MatvecWay::Direct && q8[1] == MatvecWay::CachedGemv);
    } else {
        assert(q4[0] == MatvecWay::ExpandGemv);
        assert(q8[0] == MatvecWay::CachedGemv);
    }
}

/// The rows that a run asks for lie one behind the other and fill the input: row `done` begins
/// where the row before it ended, and the last one ends where the input does.
pub proof fn law_rows_are_asked_for_in_order<T>(run: RowRun<T>)
    requires
        run.wf(),
        !run.failed,
    ensures
        run.step_of() is Done <==> run.done == run.seq_len,
        run.step_of() matches RowStep::Row(a, b) ==> {
            &&& run.done < run.seq_len
            &&& a == run.done * run.hidden
            &&& b - a == run.hidden
            &&& b <= run.seq_len * run.hidden
            &&& run.done + 1 == run.seq_len ==> b == run.seq_len * run.hidden
        },
{
    let d = run.done as int;
    let s = run.seq_len as int;
    let h = run.hidden as int;
    if d < s {
        assert(0 <= d * h && (d + 1) * h == d * h + h && (d + 1) * h <= s * h) by (nonlinear_arith)
            requires
                0 <= d,
                d + 1 <= s,
                0 <= h,
        ;
    }
}

/// A failed run has nothing to ask for and nothing to give.
pub proof fn law_failed_run_is_over<T>(run: RowRun<T>)
    ensures
        run.failed ==> run.step_of() is Failed && run.result() is None,
        !run.failed ==> run.result() == Some(run.out@),
{
}

/// One more row adds its scores behind the others, all of them or none.
pub proof fn law_row_adds_its_scores<T>(out: Seq<T>, scores: Seq<T>, num_rows: nat)
    ensures
        with_row(out, Some(scores), num_rows) is Some <==> scores.len() == num_rows,
        with_row(out, Some(scores), num_rows) matches Some(all) ==> {
            &&& all.len() == out.len() + num_rows
            &&& all.take(out.len() as int) =~= out
            &&& all.skip(out.len() as int) =~= scores
        },
        with_row(out, None, num_rows) is None,
{
}

} // verus!
