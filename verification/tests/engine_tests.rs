use cosim::engine::{
    EngineError, Executor, OpClass, PcPolicy, StepKind, StepOutcome, Verdict,
};
use cosim::port::Port;

fn zeros() -> Vec<u32> {
    vec![0u32; 32]
}

fn clean_step(pc_after: u32, rf_after: Vec<u32>) -> StepOutcome {
    StepOutcome { kind: StepKind::Clean(OpClass::Other), pc_after, rf_after, mmio: false }
}

#[test]
fn matching_step_passes() {
    let mut eng = Executor::new();
    let commit = Port { pc: 0, reg_write: Some((5, 77)) };
    eng.reconcile_pc(&commit).unwrap();
    let mut rf = zeros();
    rf[5] = 77;
    let r = eng.next(commit, clean_step(4, rf.clone()));
    assert!(matches!(r, Ok(Verdict::Match)));
    assert_eq!(eng.pc, 4);
    assert_eq!(eng.rf, rf);
    assert_eq!(eng.remote_rf, rf);
    assert_eq!(eng.inst_count, 1);
}

#[test]
fn write_to_slot_zero_is_a_no_op() {
    // The write record targets slot 0; the trace-expected file must not
    // change, so an interpreter that also left slot 0 alone still matches.
    let mut eng = Executor::new();
    let commit = Port { pc: 0, reg_write: Some((0, 99)) };
    let r = eng.next(commit, clean_step(4, zeros()));
    assert!(matches!(r, Ok(Verdict::Match)));
    assert_eq!(eng.remote_rf[0], 0);
    assert_eq!(eng.rf[0], 0);
}

#[test]
fn silent_mismatch_aborts() {
    // No memory-mapped I/O, no control/status-register instruction: a
    // register-file mismatch must be fatal.
    let mut eng = Executor::new();
    let commit = Port { pc: 0, reg_write: None };
    let mut rf = zeros();
    rf[3] = 1;
    let r = eng.next(commit, clean_step(4, rf));
    assert!(matches!(r, Err(EngineError::RegfileMismatch { .. })));
    // The engine is untouched, for diagnosis.
    assert_eq!(eng.pc, 0);
    assert_eq!(eng.rf, zeros());
    assert_eq!(eng.inst_count, 0);
}

#[test]
fn csr_mismatch_is_corrected_not_fatal() {
    // A control/status-register instruction executed; the divergent local
    // file must be overwritten from the trace and the run must go on.
    let mut eng = Executor::new();
    let commit = Port { pc: 0, reg_write: Some((7, 123)) };
    let mut rf = zeros();
    rf[3] = 1; // the interpreter computed something else entirely
    let outcome = StepOutcome {
        kind: StepKind::Clean(OpClass::Csr),
        pc_after: 4,
        rf_after: rf,
        mmio: false,
    };
    let r = eng.next(commit, outcome);
    assert!(matches!(r, Ok(Verdict::AcceptedDivergence)));
    let mut expected = zeros();
    expected[7] = 123;
    assert_eq!(eng.rf, expected);
    assert_eq!(eng.remote_rf, expected);
    assert_eq!(eng.pc, 4);
}

#[test]
fn mmio_mismatch_is_corrected_not_fatal() {
    let mut eng = Executor::new();
    let commit = Port { pc: 0, reg_write: Some((2, 5)) };
    let mut rf = zeros();
    rf[2] = 6;
    let outcome = StepOutcome {
        kind: StepKind::Clean(OpClass::Other),
        pc_after: 4,
        rf_after: rf,
        mmio: true,
    };
    let r = eng.next(commit, outcome);
    assert!(matches!(r, Ok(Verdict::AcceptedDivergence)));
    assert_eq!(eng.rf[2], 5);
}

#[test]
fn tolerated_csr_fault_continues() {
    // The interpreter could not execute a control/status-register
    // instruction natively; that is a side effect, not a fatal fault.
    let mut eng = Executor::new();
    let commit = Port { pc: 0, reg_write: None };
    let outcome = StepOutcome {
        kind: StepKind::Fault(Some(OpClass::Csr)),
        pc_after: 4,
        rf_after: zeros(),
        mmio: false,
    };
    let r = eng.next(commit, outcome);
    assert!(matches!(r, Ok(Verdict::Match)));
}

#[test]
fn fatal_fault_aborts() {
    let mut eng = Executor::new();
    let commit = Port { pc: 0, reg_write: None };
    let outcome = StepOutcome {
        kind: StepKind::Fault(None),
        pc_after: 0,
        rf_after: zeros(),
        mmio: false,
    };
    let r = eng.next(commit, outcome);
    assert!(matches!(r, Err(EngineError::SimFault { pc: 0 })));

    let mut eng2 = Executor::new();
    let outcome2 = StepOutcome {
        kind: StepKind::Fault(Some(OpClass::Other)),
        pc_after: 0,
        rf_after: zeros(),
        mmio: false,
    };
    let r2 = eng2.next(commit, outcome2);
    assert!(matches!(r2, Err(EngineError::SimFault { .. })));
}

#[test]
fn strict_policy_rejects_pc_mismatch() {
    let mut eng = Executor::new();
    let commit = Port { pc: 8, reg_write: None };
    let r = eng.reconcile_pc(&commit);
    assert!(matches!(r, Err(EngineError::PcMismatch { trace_pc: 8, local_pc: 0 })));
    assert_eq!(eng.pc, 0);
}

#[test]
fn tolerant_policy_rectifies_pc() {
    let mut eng = Executor::with_policy(PcPolicy::Tolerant);
    let commit = Port { pc: 8, reg_write: None };
    assert!(eng.reconcile_pc(&commit).is_ok());
    assert_eq!(eng.pc, 8);
}

#[test]
fn scripted_run_succeeds_and_accumulates_writes() {
    // A consistent script with no side effects: every step passes and the
    // final local register file is exactly the cumulative writes.
    let mut eng = Executor::new();
    let writes: [(u8, u32); 5] = [(1, 10), (2, 20), (1, 30), (31, 40), (0, 50)];
    let mut cumulative = zeros();
    let mut pc: u32 = 0;
    for (idx, val) in writes.iter() {
        if *idx != 0 {
            cumulative[*idx as usize] = *val;
        }
        let commit = Port { pc, reg_write: Some((*idx, *val)) };
        eng.reconcile_pc(&commit).unwrap();
        let r = eng.next(commit, clean_step(pc + 4, cumulative.clone()));
        assert!(matches!(r, Ok(Verdict::Match)));
        pc += 4;
    }
    assert_eq!(eng.rf, cumulative);
    assert_eq!(eng.inst_count, 5);
}

#[test]
fn report_due_every_million() {
    let mut eng = Executor::new();
    assert!(!eng.report_due());
    eng.inst_count = 1000000;
    assert!(eng.report_due());
    eng.inst_count = 1000001;
    assert!(!eng.report_due());
}

#[test]
fn port_well_formedness() {
    assert!(Port { pc: 0, reg_write: None }.is_wf());
    assert!(Port { pc: 0, reg_write: Some((31, 1)) }.is_wf());
    assert!(!Port { pc: 0, reg_write: Some((32, 1)) }.is_wf());
    let good = StepOutcome {
        kind: StepKind::Clean(OpClass::Other),
        pc_after: 0,
        rf_after: vec![0u32; 32],
        mmio: false,
    };
    assert!(good.is_wf());
    let bad = StepOutcome {
        kind: StepKind::Clean(OpClass::Other),
        pc_after: 0,
        rf_after: vec![1u32; 32],
        mmio: false,
    };
    assert!(!bad.is_wf());
}
