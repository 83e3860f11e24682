use vstd::prelude::*;

verus! {

/// `starts` cuts `0..total` into `n` consecutive runs of `min..=max`
/// items each: run `i` is `starts[i]..starts[i + 1]`.
pub open spec fn runs(starts: Seq<int>, n: int, total: int, min: int, max: int) -> bool {
    &&& starts.len() == n + 1
    &&& starts[0] == 0
    &&& starts[n] == total
    &&& forall|i: int| 0 <= i < n ==> starts[i] + min <= #[trigger] starts[i + 1] <= starts[i] + max
}

/// Run `j` lies within `0..total`.
pub proof fn lemma_runs_bounds(starts: Seq<int>, n: int, total: int, min: int, max: int, j: int)
    requires
        runs(starts, n, total, min, max),
        min >= 0,
        0 <= j < n,
    ensures
        0 <= starts[j],
        starts[j] + min <= starts[j + 1] <= total,
{
    lemma_runs_end(starts, n, total, min, max, j);
    lemma_runs_start(starts, n, total, min, max, j);
}

proof fn lemma_runs_end(starts: Seq<int>, n: int, total: int, min: int, max: int, j: int)
    requires
        runs(starts, n, total, min, max),
        min >= 0,
        0 <= j < n,
    ensures
        starts[j + 1] <= total,
    decreases n - j,
{
    if j + 1 < n {
        lemma_runs_end(starts, n, total, min, max, j + 1);
        assert(starts[j + 1] + min <= starts[j + 2]);
    }
}

proof fn lemma_runs_start(starts: Seq<int>, n: int, total: int, min: int, max: int, j: int)
    requires
        runs(starts, n, total, min, max),
        min >= 0,
        0 <= j < n,
    ensures
        0 <= starts[j],
    decreases j,
{
    if j > 0 {
        let i = j - 1;
        assert(starts[i] + min <= starts[i + 1]);
        lemma_runs_start(starts, n, total, min, max, j - 1);
    }
}

} // verus!
