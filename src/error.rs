use vstd::prelude::*;

verus! {

/// Why a run of the pipeline stops.
#[derive(Clone, Copy, Debug, PartialEq, Eq, Structural)]
pub enum PipelineError {
    /// A ratio, count or range of the configuration is missing or out of bounds.
    Configuration,
    /// A stage's mandatory foreign-key pool is empty.
    DependencyUnavailable,
    /// The store rejected a bulk load, an id fetch or an insert.
    Sink,
    /// A row cannot be framed for bulk transfer.
    Serialization,
    /// A programming defect, such as a transition out of a terminal state.
    InvariantViolation,
}

} // verus!
