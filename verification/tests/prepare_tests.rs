use pvf_prepare_worker::error::PrepareError;
use pvf_prepare_worker::job::PrepareJobKind;
use pvf_prepare_worker::prepare::JobAction;
use pvf_prepare_worker::prepare::JobEvent;
use pvf_prepare_worker::prepare::PrepareJob;

#[test]
fn lenient_succeeds_iff_the_compiler_succeeds() {
    // Success path: prevalidation, then compilation, and nothing more.
    let mut job = PrepareJob::new(PrepareJobKind::Lenient);
    assert_eq!(job.next_action(), JobAction::RunPrevalidation);
    job.step(JobEvent::PrevalidationDone(Ok(())));
    assert_eq!(job.next_action(), JobAction::RunCompilation);
    job.step(JobEvent::CompilationDone(Ok(vec![1, 2, 3])));
    // Runtime construction is never requested under Lenient.
    assert_eq!(job.next_action(), JobAction::Finish);
    assert_eq!(job.into_result(), Ok(vec![1, 2, 3]));

    // Failure path: the compiler's failure is the job's failure.
    let mut job = PrepareJob::new(PrepareJobKind::Lenient);
    job.step(JobEvent::PrevalidationDone(Ok(())));
    job.step(JobEvent::CompilationDone(Err(b"no codegen".to_vec())));
    assert_eq!(job.next_action(), JobAction::Finish);
    assert_eq!(
        job.into_result(),
        Err(PrepareError::Preparation(b"no codegen".to_vec()))
    );
}

#[test]
fn precheck_requires_construction_to_succeed_as_well() {
    // Compiles and instantiates: success.
    let mut job = PrepareJob::new(PrepareJobKind::Precheck);
    job.step(JobEvent::PrevalidationDone(Ok(())));
    job.step(JobEvent::CompilationDone(Ok(vec![7, 7])));
    assert_eq!(job.next_action(), JobAction::RunConstruction);
    job.step(JobEvent::ConstructionDone(Ok(())));
    assert_eq!(job.into_result(), Ok(vec![7, 7]));

    // Compiles but cannot be instantiated: RuntimeConstruction, never
    // Preparation.
    let mut job = PrepareJob::new(PrepareJobKind::Precheck);
    job.step(JobEvent::PrevalidationDone(Ok(())));
    job.step(JobEvent::CompilationDone(Ok(vec![7, 7])));
    job.step(JobEvent::ConstructionDone(Err(b"no instance".to_vec())));
    assert_eq!(
        job.into_result(),
        Err(PrepareError::RuntimeConstruction(b"no instance".to_vec()))
    );
}

#[test]
fn precheck_compilation_failure_is_preparation() {
    let mut job = PrepareJob::new(PrepareJobKind::Precheck);
    job.step(JobEvent::PrevalidationDone(Ok(())));
    job.step(JobEvent::CompilationDone(Err(b"bad op".to_vec())));
    assert_eq!(job.next_action(), JobAction::Finish);
    assert_eq!(job.into_result(), Err(PrepareError::Preparation(b"bad op".to_vec())));
}

#[test]
fn malformed_input_fails_prevalidation_under_both_kinds() {
    for kind in [PrepareJobKind::Precheck, PrepareJobKind::Lenient] {
        let mut job = PrepareJob::new(kind);
        job.step(JobEvent::PrevalidationDone(Err(b"not wasm".to_vec())));
        assert_eq!(job.next_action(), JobAction::Finish);
        assert_eq!(
            job.into_result(),
            Err(PrepareError::Prevalidation(b"not wasm".to_vec()))
        );
    }
}
