use population::error::PipelineError;
use population::pipeline::{Phase, Pipeline, Stage, NUM_STAGES};

#[test]
fn stage_without_its_pool_raises_dependency_error() {
    let mut p = Pipeline::new();
    // Sexes, plans, interests, cities, search preferences: nothing committed.
    for expected in [Stage::Sexes, Stage::Plans, Stage::Interests, Stage::Cities, Stage::SearchPreferences] {
        assert_eq!(p.start_next(), Ok(Some(expected)));
        assert_eq!(p.finish(Ok(0)), Ok(()));
    }
    // Billing addresses need a city.
    assert_eq!(p.start_next(), Err(PipelineError::DependencyUnavailable));
    assert_eq!(p.phase, Phase::Aborted);
    assert_eq!(p.start_next(), Err(PipelineError::InvariantViolation));
}

#[test]
fn full_run_completes_in_order() {
    let mut p = Pipeline::new();
    let mut seen = Vec::new();
    loop {
        match p.start_next() {
            Ok(Some(stage)) => {
                seen.push(stage);
                assert_eq!(p.finish(Ok(3)), Ok(()));
            }
            Ok(None) => break,
            Err(e) => panic!("unexpected {:?}", e),
        }
    }
    assert_eq!(seen.len(), NUM_STAGES);
    assert_eq!(seen[0], Stage::Sexes);
    assert_eq!(seen[9], Stage::Users);
    assert_eq!(seen[11], Stage::Interactions);
    assert_eq!(seen[NUM_STAGES - 1], Stage::Blocks);
    assert_eq!(p.phase, Phase::Complete);
}

#[test]
fn failed_stage_aborts_with_its_error() {
    let mut p = Pipeline::new();
    assert_eq!(p.start_next(), Ok(Some(Stage::Sexes)));
    assert_eq!(p.finish(Err(PipelineError::Sink)), Err(PipelineError::Sink));
    assert_eq!(p.phase, Phase::Aborted);
}

#[test]
fn finishing_outside_a_stage_is_a_defect() {
    let mut p = Pipeline::new();
    assert_eq!(p.finish(Ok(1)), Err(PipelineError::InvariantViolation));
    assert_eq!(p.phase, Phase::Idle);
}
