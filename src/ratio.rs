use vstd::prelude::*;
use crate::error::PipelineError;

verus! {

/// Basis points in a whole (100%).
pub const WHOLE: u32 = 10000;

/// A percentage, held exactly as basis points (hundredths of a percent).
#[derive(Clone, Copy, Debug, PartialEq, Eq, Structural)]
pub struct Percent {
    pub basis_points: u32,
}

impl Percent {
    pub open spec fn wf(self) -> bool {
        self.basis_points <= WHOLE
    }

    /// Builds a percentage; more than 100% is a configuration error.
    pub fn from_basis_points(basis_points: u32) -> (r: Result<Percent, PipelineError>)
        ensures
            basis_points <= WHOLE ==> r == Ok::<Percent, PipelineError>(Percent { basis_points }),
            basis_points > WHOLE ==> r == Err::<Percent, PipelineError>(PipelineError::Configuration),
    {
        if basis_points <= WHOLE {
            Ok(Percent { basis_points })
        } else {
            Err(PipelineError::Configuration)
        }
    }
}

/// ⌊n · ratio / 100%⌋.
pub open spec fn ratio_count_spec(n: nat, ratio: Percent) -> nat {
    (n * ratio.basis_points as nat / WHOLE as nat) as nat
}

/// The number of rows that a ratio of a population of `n` asks for.
pub fn ratio_count(n: usize, ratio: Percent) -> (r: usize)
    requires
        ratio.wf(),
    ensures
        r as nat == ratio_count_spec(n as nat, ratio),
        r <= n,
{
    assert(n as int * ratio.basis_points as int <= u128::MAX) by (nonlinear_arith)
        requires 0 <= n <= u64::MAX, ratio.basis_points <= WHOLE;
    let product: u128 = n as u128 * ratio.basis_points as u128;
    let q: u128 = product / (WHOLE as u128);
    proof {
        let bp = ratio.basis_points as int;
        assert(n as int * bp <= n as int * WHOLE as int) by (nonlinear_arith)
            requires 0 <= bp <= WHOLE as int, n >= 0;
        assert((n as int * bp) / (WHOLE as int) <= n as int) by (nonlinear_arith)
            requires n as int * bp <= n as int * WHOLE as int, n >= 0, bp >= 0;
    }
    q as usize
}

} // verus!
