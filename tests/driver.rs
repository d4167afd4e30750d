use nova_circom::backend::{
    blocking_generator_path, select_backend, DriverError, FileLocation, WitnessBackend,
};
use nova_circom::codec::FieldElement;
use nova_circom::driver::{Action, IvcDriver};

fn element(v: u64) -> FieldElement {
    let mut repr = v.to_le_bytes().to_vec();
    repr.resize(32, 0);
    FieldElement { repr }
}

fn value(e: &FieldElement) -> u64 {
    let mut b = [0u8; 8];
    b.copy_from_slice(&e.repr[..8]);
    u64::from_le_bytes(b)
}

#[test]
fn remote_artifacts_use_the_suspendable_backend() {
    let loc = FileLocation::URL("http://localhost:3000/toy.wasm".to_string());
    assert_eq!(select_backend(&loc), WitnessBackend::Suspendable);
    let loc = FileLocation::URL("http://localhost:3000/toy".to_string());
    assert_eq!(select_backend(&loc), WitnessBackend::Suspendable);
}

#[test]
fn local_modules_use_the_suspendable_backend() {
    let loc = FileLocation::PathBuf("examples/toy/toy_js/toy.wasm".to_string());
    assert_eq!(select_backend(&loc), WitnessBackend::Suspendable);
}

#[test]
fn other_local_paths_use_the_blocking_backend() {
    for p in ["examples/toy/toy_cpp/toy", "toy.wasmx", "dir/.wasm", "wasm", ""] {
        let loc = FileLocation::PathBuf(p.to_string());
        assert_eq!(select_backend(&loc), WitnessBackend::Blocking, "{}", p);
    }
}

#[test]
fn blocking_backend_refuses_urls() {
    let loc = FileLocation::URL("http://localhost:3000/toy".to_string());
    assert!(matches!(
        blocking_generator_path(&loc),
        Err(DriverError::ConfigurationViolation)
    ));
    let loc = FileLocation::PathBuf("bin/toy".to_string());
    assert_eq!(blocking_generator_path(&loc).unwrap(), "bin/toy");
}

#[test]
fn zero_iterations_are_refused() {
    let r = IvcDriver::new(0, WitnessBackend::Blocking, vec![element(10)], None);
    assert!(matches!(r, Err(DriverError::ConfigurationViolation)));
}

/// Runs the adder relation `[a, b] -> [b, a + b]`, checking each step's input
/// document, and returns the actions seen.
fn run_adder(backend: WitnessBackend, n: usize) -> (Vec<Action>, Vec<String>, IvcDriver) {
    let mut d = IvcDriver::new(n, backend, vec![element(10), element(10)], None).unwrap();
    let mut actions = Vec::new();
    let mut docs = Vec::new();
    loop {
        let a = d.next_action();
        actions.push(a);
        match a {
            Action::GenerateWitness(i) => {
                let private = vec![("adder".to_string(), i.to_string())];
                docs.push(d.primary_input(&private));
                assert!(d.secondary_input(&private).is_none());
                let a = value(&d.primary.current[0]);
                let b = value(&d.primary.current[1]);
                d.record_witness(vec![element(b), element(a + b)], None);
            }
            Action::Fold(_) => d.record_fold(Ok(())),
            Action::Finish | Action::Stop => break,
        }
    }
    (actions, docs, d)
}

#[test]
fn blocking_run_interleaves_witness_and_fold() {
    let (actions, _, d) = run_adder(WitnessBackend::Blocking, 2);
    assert_eq!(
        actions,
        vec![
            Action::GenerateWitness(0),
            Action::Fold(0),
            Action::GenerateWitness(1),
            Action::Fold(1),
            Action::Finish
        ]
    );
    assert_eq!(d.folded, 2);
}

#[test]
fn suspendable_run_generates_every_witness_first() {
    let (actions, _, d) = run_adder(WitnessBackend::Suspendable, 2);
    assert_eq!(
        actions,
        vec![
            Action::GenerateWitness(0),
            Action::GenerateWitness(1),
            Action::Fold(0),
            Action::Fold(1),
            Action::Finish
        ]
    );
    assert_eq!(d.witnessed, 2);
}

#[test]
fn adder_threads_public_output_into_next_input() {
    let (_, docs, d) = run_adder(WitnessBackend::Blocking, 5);
    assert_eq!(
        docs,
        vec![
            r#"{"step_in":["10","10"],"adder":0}"#,
            r#"{"step_in":["10","20"],"adder":1}"#,
            r#"{"step_in":["20","30"],"adder":2}"#,
            r#"{"step_in":["30","50"],"adder":3}"#,
            r#"{"step_in":["50","80"],"adder":4}"#,
        ]
    );
    assert_eq!(value(&d.primary.current[0]), 80);
    assert_eq!(value(&d.primary.current[1]), 130);
    assert_eq!(value(&d.primary.start[0]), 10);
    assert_eq!(value(&d.primary.start[1]), 10);
    assert_eq!(d.next_action(), Action::Finish);
}

#[test]
fn witness_failure_aborts_the_run() {
    let mut d = IvcDriver::new(3, WitnessBackend::Blocking, vec![element(1)], None).unwrap();
    assert_eq!(d.next_action(), Action::GenerateWitness(0));
    d.record_witness_failure("unsatisfied".to_string());
    assert_eq!(d.next_action(), Action::Stop);
    assert!(matches!(
        &d.error,
        Some(DriverError::WitnessGenerationFailure(m)) if m == "unsatisfied"
    ));
}

#[test]
fn fold_failure_aborts_before_any_later_step() {
    let mut d = IvcDriver::new(3, WitnessBackend::Blocking, vec![element(1)], None).unwrap();
    d.record_witness(vec![element(2)], None);
    assert_eq!(d.next_action(), Action::Fold(0));
    d.record_fold(Err("shape mismatch".to_string()));
    assert_eq!(d.next_action(), Action::Stop);
    assert_eq!(d.folded, 0);
    assert!(matches!(&d.error, Some(DriverError::FoldFailure(m)) if m == "shape mismatch"));
}

#[test]
fn output_arity_mismatch_aborts_the_run() {
    let mut d =
        IvcDriver::new(2, WitnessBackend::Blocking, vec![element(1), element(2)], None).unwrap();
    d.record_witness(vec![element(2)], None);
    assert_eq!(d.next_action(), Action::Stop);
    assert_eq!(d.witnessed, 0);
    assert!(matches!(d.error, Some(DriverError::ConfigurationViolation)));
}

#[test]
fn dual_run_threads_both_tracks() {
    let mut d = IvcDriver::new(
        2,
        WitnessBackend::Blocking,
        vec![element(3)],
        Some(vec![element(5)]),
    )
    .unwrap();
    let private = vec![("k".to_string(), "1".to_string())];
    assert_eq!(d.primary_input(&private), r#"{"step_in":["3"],"k":1}"#);
    assert_eq!(
        d.secondary_input(&private).unwrap(),
        r#"{"step_in":["5"],"k":1}"#
    );
    d.record_witness(vec![element(4)], Some(vec![element(6)]));
    assert_eq!(d.next_action(), Action::Fold(0));
    d.record_fold(Ok(()));
    assert_eq!(d.primary_input(&vec![]), r#"{"step_in":["4"]}"#);
    assert_eq!(d.secondary_input(&vec![]).unwrap(), r#"{"step_in":["6"]}"#);
    assert_eq!(value(&d.secondary.as_ref().unwrap().start[0]), 5);
}

#[test]
fn missing_secondary_output_aborts_the_dual_run() {
    let mut d = IvcDriver::new(
        1,
        WitnessBackend::Suspendable,
        vec![element(3)],
        Some(vec![element(5)]),
    )
    .unwrap();
    d.record_witness(vec![element(4)], None);
    assert_eq!(d.next_action(), Action::Stop);
}
