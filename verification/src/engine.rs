//! The reconciliation engine: the architectural state mirror and the
//! accept/reject policy for divergences between the hardware trace and the
//! reference interpreter.
//!
//! The interpreter itself runs outside the library; each of its steps is
//! reported back as a [`StepOutcome`] of plain values, and the engine decides
//! from state and outcome alone.

use vstd::prelude::*;
use crate::port::Port;

verus! {

/// How a mismatch between the trace's committed program counter and the
/// engine's local program counter is treated.
#[derive(Debug, Copy, Clone, PartialEq, Eq, Structural)]
pub enum PcPolicy {
    /// Any mismatch is fatal.
    Strict,
    /// The local program counter is rectified to the trace value and the run
    /// continues.
    Tolerant,
}

/// Whether the executed instruction belongs to the control/status-register
/// family, the one family whose register-file effects the reference
/// interpreter cannot be trusted to reproduce.
#[derive(Debug, Copy, Clone, PartialEq, Eq, Structural)]
pub enum OpClass {
    Csr,
    Other,
}

/// How one interpreter step ended.
#[derive(Debug, Copy, Clone)]
pub enum StepKind {
    /// The instruction was fully modeled and executed.
    Clean(OpClass),
    /// The interpreter faulted; the decoded operation, if any, is attached.
    /// A fault on a control/status-register instruction is tolerated; any
    /// other fault is fatal.
    Fault(Option<OpClass>),
}

/// Everything the engine needs to know about one interpreter step: how it
/// ended, the program counter and register file it left behind, and whether
/// the step touched the memory-mapped I/O range.
#[derive(Debug, Clone)]
pub struct StepOutcome {
    pub kind: StepKind,
    pub pc_after: u32,
    pub rf_after: Vec<u32>,
    pub mmio: bool,
}

impl StepOutcome {
    /// A well-formed outcome: a full 32-slot register file with slot 0 zero.
    pub open spec fn wf(self) -> bool {
        self.rf_after@.len() == 32 && self.rf_after@[0] == 0
    }

    /// Executable form of the same check, for unverified callers that must
    /// test it before handing an outcome to the engine.
    pub fn is_wf(&self) -> (r: bool)
        ensures
            r == self.wf(),
    {
        if self.rf_after.len() == 32 {
            self.rf_after[0] == 0
        } else {
            false
        }
    }
}

/// The executed operation belongs to the control/status-register family.
pub open spec fn class_is_csr(k: StepKind) -> bool {
    match k {
        StepKind::Clean(c) => c == OpClass::Csr,
        StepKind::Fault(c) => c == Some(OpClass::Csr),
    }
}

/// The step faulted and the fault is not the tolerated control/status-register
/// kind.
pub open spec fn fatal_fault(k: StepKind) -> bool {
    match k {
        StepKind::Clean(_) => false,
        StepKind::Fault(c) => c != Some(OpClass::Csr),
    }
}

/// The step touched state that direct register comparison cannot verify:
/// a memory-mapped I/O access or a control/status-register instruction.
pub open spec fn side_effect(o: StepOutcome) -> bool {
    o.mmio || class_is_csr(o.kind)
}

/// One trace-authoritative register write applied to a register file.
/// Writes to slot 0 are no-ops: that slot is hardwired to zero.
pub open spec fn apply_write(rf: Seq<u32>, w: Option<(u8, u32)>) -> Seq<u32> {
    match w {
        None => rf,
        Some((idx, val)) => if idx == 0 {
            rf
        } else {
            rf.update(idx as int, val)
        },
    }
}

/// Law: no write record ever alters register slot 0, whatever the record says.
pub proof fn lemma_reg0_never_written(rf: Seq<u32>, w: Option<(u8, u32)>)
    requires
        rf.len() > 0,
        w matches Some((idx, _)) ==> idx < rf.len(),
    ensures
        apply_write(rf, w).len() == rf.len(),
        apply_write(rf, w)[0] == rf[0],
{
}

/// The engine's state, abstracted: local program counter, local register
/// file, and the trace-expected register file.
pub struct Model {
    pub pc: u32,
    pub rf: Seq<u32>,
    pub remote: Seq<u32>,
}

/// What the engine decides about one step.
#[derive(Debug, Copy, Clone, PartialEq, Eq, Structural)]
pub enum StepCase {
    /// Register files agree.
    Match,
    /// Register files disagree, but a side effect excuses it; local state is
    /// overwritten from the trace.
    Accepted,
    /// The interpreter faulted fatally.
    FatalFault,
    /// Register files disagree with no side effect to excuse it.
    Mismatch,
}

/// Program-counter reconciliation succeeds: always under the tolerant
/// policy, only on agreement under the strict one.
pub open spec fn recon_ok(m: Model, c: Port, p: PcPolicy) -> bool {
    p == PcPolicy::Tolerant || c.pc == m.pc
}

/// The state after program-counter reconciliation succeeded.
pub open spec fn recon_state(m: Model, c: Port) -> Model {
    Model { pc: c.pc, rf: m.rf, remote: m.remote }
}

/// The engine's verdict on one reconciled commit record and its step outcome.
pub open spec fn next_verdict(m: Model, c: Port, o: StepOutcome) -> StepCase {
    if fatal_fault(o.kind) {
        StepCase::FatalFault
    } else {
        let expected = apply_write(m.remote, c.reg_write);
        if o.rf_after@ == expected {
            StepCase::Match
        } else if side_effect(o) {
            StepCase::Accepted
        } else {
            StepCase::Mismatch
        }
    }
}

/// The engine's state after one reconciled commit record: on success the
/// step's state is adopted (corrected from the trace where a side effect
/// excused a divergence); on a fatal verdict nothing changes.
pub open spec fn next_state(m: Model, c: Port, o: StepOutcome) -> Model {
    let expected = apply_write(m.remote, c.reg_write);
    match next_verdict(m, c, o) {
        StepCase::Match => Model { pc: o.pc_after, rf: o.rf_after@, remote: expected },
        StepCase::Accepted => Model { pc: o.pc_after, rf: expected, remote: expected },
        StepCase::FatalFault => m,
        StepCase::Mismatch => m,
    }
}

/// Law: a register-file mismatch with no side effect in the same step is
/// never tolerated: the verdict is the fatal mismatch, and the state is
/// left as it was.
pub proof fn lemma_silent_mismatch_is_fatal(m: Model, c: Port, o: StepOutcome)
    requires
        !fatal_fault(o.kind),
        !side_effect(o),
        o.rf_after@ != apply_write(m.remote, c.reg_write),
    ensures
        next_verdict(m, c, o) == StepCase::Mismatch,
        next_state(m, c, o) == m,
{
}

/// Law: a register-file mismatch in a step that executed a
/// control/status-register instruction is auto-corrected, not fatal: the
/// local register file is overwritten with the trace-expected one.
pub proof fn lemma_csr_mismatch_is_accepted(m: Model, c: Port, o: StepOutcome)
    requires
        class_is_csr(o.kind),
        o.rf_after@ != apply_write(m.remote, c.reg_write),
    ensures
        next_verdict(m, c, o) == StepCase::Accepted,
        next_state(m, c, o).rf == apply_write(m.remote, c.reg_write),
{
}

/// Success verdict of [`Executor::next`].
#[derive(Debug, Copy, Clone, PartialEq, Eq, Structural)]
pub enum Verdict {
    /// Local and trace-expected register files are bit-identical.
    Match,
    /// They differ, a side effect excuses it, and the local file was
    /// overwritten from the trace; worth a diagnostic, not an abort.
    AcceptedDivergence,
}

/// A fatal condition; the caller is expected to end the run. The engine
/// leaves its state untouched when it returns one of these, so both register
/// files can still be read for diagnosis.
#[derive(Debug, Clone)]
pub enum EngineError {
    /// The trace's committed program counter disagrees with the local one
    /// under the strict policy.
    PcMismatch { trace_pc: u32, local_pc: u32 },
    /// The reference interpreter faulted on something other than a
    /// control/status-register instruction.
    SimFault { pc: u32 },
    /// The register files disagree and no side effect excuses it. Both files
    /// are attached: the interpreter's and the trace-expected one.
    RegfileMismatch { pc: u32, local_rf: Vec<u32>, expected_rf: Vec<u32> },
}

/// A fresh 32-slot register file, all zeros.
fn zero_regs() -> (r: Vec<u32>)
    ensures
        r@.len() == 32,
        forall|i: int| 0 <= i < 32 ==> r@[i] == 0,
{
    let mut v: Vec<u32> = Vec::new();
    let mut i: usize = 0;
    while i < 32
        invariant
            i <= 32,
            v@.len() == i,
            forall|j: int| 0 <= j < i ==> v@[j] == 0,
        decreases 32 - i,
    {
        v.push(0);
        i = i + 1;
    }
    v
}

/// An element-for-element copy of a register file.
fn copy_regs(a: &Vec<u32>) -> (r: Vec<u32>)
    ensures
        r@ == a@,
{
    let mut v: Vec<u32> = Vec::new();
    let mut i: usize = 0;
    while i < a.len()
        invariant
            i <= a@.len(),
            v@.len() == i,
            forall|j: int| 0 <= j < i ==> v@[j] == a@[j],
        decreases a@.len() - i,
    {
        v.push(a[i]);
        i = i + 1;
    }
    proof {
        assert(v@ =~= a@);
    }
    v
}

/// Bit-exact comparison of two register files.
fn regs_eq(a: &Vec<u32>, b: &Vec<u32>) -> (r: bool)
    ensures
        r == (a@ == b@),
{
    if a.len() != b.len() {
        return false;
    }
    let mut i: usize = 0;
    while i < a.len()
        invariant
            i <= a@.len(),
            a@.len() == b@.len(),
            forall|j: int| 0 <= j < i ==> a@[j] == b@[j],
        decreases a@.len() - i,
    {
        if a[i] != b[i] {
            return false;
        }
        i = i + 1;
    }
    proof {
        assert(a@ =~= b@);
    }
    true
}

/// The reconciliation engine. It exclusively owns the architectural state
/// mirror: the local program counter and register file the reference
/// interpreter is expected to reproduce, and the trace-expected register
/// file built from the commit records' authoritative writes.
pub struct Executor {
    /// Local program counter.
    pub pc: u32,
    /// Local register file, as the reference interpreter computed it.
    pub rf: Vec<u32>,
    /// Trace-expected register file, built from the commit records.
    pub remote_rf: Vec<u32>,
    /// Program-counter reconciliation policy.
    pub policy: PcPolicy,
    /// Retired instructions so far; progress reporting only.
    pub inst_count: u64,
}

impl Executor {
    /// Both register files have 32 slots and keep slot 0 hardwired to zero.
    pub open spec fn wf(self) -> bool {
        &&& self.rf@.len() == 32
        &&& self.rf@[0] == 0
        &&& self.remote_rf@.len() == 32
        &&& self.remote_rf@[0] == 0
    }

    /// The engine's state, abstracted.
    pub open spec fn model(self) -> Model {
        Model { pc: self.pc, rf: self.rf@, remote: self.remote_rf@ }
    }

    /// A fresh engine under the strict policy: program counter 0, both
    /// register files all zeros. Strict is the default because silently
    /// rectifying a diverged program counter can mask real hardware bugs.
    pub fn new() -> (r: Executor)
        ensures
            r.wf(),
            r.pc == 0,
            forall|i: int| 0 <= i < 32 ==> r.rf@[i] == 0,
            forall|i: int| 0 <= i < 32 ==> r.remote_rf@[i] == 0,
            r.policy == PcPolicy::Strict,
            r.inst_count == 0,
    {
        Executor::with_policy(PcPolicy::Strict)
    }

    /// A fresh engine under an explicit program-counter policy.
    pub fn with_policy(policy: PcPolicy) -> (r: Executor)
        ensures
            r.wf(),
            r.pc == 0,
            forall|i: int| 0 <= i < 32 ==> r.rf@[i] == 0,
            forall|i: int| 0 <= i < 32 ==> r.remote_rf@[i] == 0,
            r.policy == policy,
            r.inst_count == 0,
    {
        Executor { pc: 0, rf: zero_regs(), remote_rf: zero_regs(), policy, inst_count: 0 }
    }

    /// Program-counter reconciliation, the step that must precede every
    /// interpreter step: compare the record's committed program counter to
    /// the local one and apply the configured policy.
    pub fn reconcile_pc(&mut self, commit: &Port) -> (r: Result<(), EngineError>)
        ensures
            final(self).rf@ == old(self).rf@,
            final(self).remote_rf@ == old(self).remote_rf@,
            final(self).policy == old(self).policy,
            final(self).inst_count == old(self).inst_count,
            r is Ok <==> recon_ok(old(self).model(), *commit, old(self).policy),
            r is Ok ==> final(self).pc == commit.pc,
            r matches Err(EngineError::PcMismatch { trace_pc, local_pc })
                ==> trace_pc == commit.pc && local_pc == old(self).pc
                    && final(self).pc == old(self).pc,
            r is Err ==> (r matches Err(EngineError::PcMismatch { .. })
                && final(self).pc == old(self).pc),
    {
        match self.policy {
            PcPolicy::Strict => {
                if commit.pc == self.pc {
                    Ok(())
                } else {
                    Err(EngineError::PcMismatch { trace_pc: commit.pc, local_pc: self.pc })
                }
            },
            PcPolicy::Tolerant => {
                self.pc = commit.pc;
                Ok(())
            },
        }
    }

    /// Reconcile one commit record with the interpreter step it drove.
    ///
    /// In order: a fatal interpreter fault aborts untouched; the record's
    /// authoritative write is applied to the trace-expected register file,
    /// with slot 0 left alone; the interpreter's register file is compared
    /// against it; equality is a pass, inequality is accepted (and the local
    /// file corrected from the trace) exactly when the step carried a side
    /// effect, and fatal otherwise.
    pub fn next(&mut self, commit: Port, outcome: StepOutcome) -> (r: Result<
        Verdict,
        EngineError,
    >)
        requires
            old(self).wf(),
            commit.wf(),
            outcome.wf(),
            commit.pc == old(self).pc,
            old(self).inst_count < u64::MAX,
        ensures
            final(self).wf(),
            final(self).policy == old(self).policy,
            ({
                let v = next_verdict(old(self).model(), commit, outcome);
                let m2 = next_state(old(self).model(), commit, outcome);
                &&& final(self).pc == m2.pc
                &&& final(self).rf@ == m2.rf
                &&& final(self).remote_rf@ == m2.remote
                &&& final(self).inst_count == (if v == StepCase::Match || v == StepCase::Accepted {
                    old(self).inst_count + 1
                } else {
                    old(self).inst_count as int
                })
                &&& (match r {
                    Ok(Verdict::Match) => v == StepCase::Match,
                    Ok(Verdict::AcceptedDivergence) => v == StepCase::Accepted,
                    Err(EngineError::SimFault { pc }) => v == StepCase::FatalFault
                        && pc == old(self).pc,
                    Err(EngineError::RegfileMismatch { pc, local_rf, expected_rf }) => v
                        == StepCase::Mismatch && pc == old(self).pc
                        && local_rf@ == outcome.rf_after@
                        && expected_rf@ == apply_write(old(self).remote_rf@, commit.reg_write),
                    _ => false,
                })
            }),
    {
        let is_fatal = match outcome.kind {
            StepKind::Clean(_) => false,
            StepKind::Fault(Some(OpClass::Csr)) => false,
            StepKind::Fault(_) => true,
        };
        if is_fatal {
            return Err(EngineError::SimFault { pc: self.pc });
        }
        let mut expected = copy_regs(&self.remote_rf);
        if let Some((idx, val)) = commit.reg_write {
            if idx != 0 {
                expected[idx as usize] = val;
            }
        }
        let se = outcome.mmio || match outcome.kind {
            StepKind::Clean(OpClass::Csr) => true,
            StepKind::Fault(Some(OpClass::Csr)) => true,
            _ => false,
        };
        if regs_eq(&outcome.rf_after, &expected) {
            self.rf = outcome.rf_after;
            self.remote_rf = expected;
            self.pc = outcome.pc_after;
            self.inst_count = self.inst_count + 1;
            Ok(Verdict::Match)
        } else if se {
            self.rf = copy_regs(&expected);
            self.remote_rf = expected;
            self.pc = outcome.pc_after;
            self.inst_count = self.inst_count + 1;
            Ok(Verdict::AcceptedDivergence)
        } else {
            Err(
                EngineError::RegfileMismatch {
                    pc: self.pc,
                    local_rf: outcome.rf_after,
                    expected_rf: expected,
                },
            )
        }
    }

    /// True when a progress line is due: every million retired instructions.
    pub fn report_due(&self) -> (r: bool)
        ensures
            r == (self.inst_count % 1000000 == 0 && self.inst_count > 0),
    {
        self.inst_count % 1000000 == 0 && self.inst_count > 0
    }
}

/// The first `n` commit records' writes applied in order.
pub open spec fn apply_writes(rf: Seq<u32>, cs: Seq<Port>, n: int) -> Seq<u32>
    decreases n,
{
    if n <= 0 {
        rf
    } else {
        apply_write(apply_writes(rf, cs, n - 1), cs[n - 1].reg_write)
    }
}

/// One whole engine step: program-counter reconciliation, then the verdict's
/// state change.
pub open spec fn step_state(m: Model, c: Port, o: StepOutcome) -> Model {
    next_state(recon_state(m, c), c, o)
}

/// The engine's state after the first `n` commit records of a run.
pub open spec fn run_state(m0: Model, cs: Seq<Port>, os: Seq<StepOutcome>, n: int) -> Model
    decreases n,
{
    if n <= 0 {
        m0
    } else {
        step_state(run_state(m0, cs, os, n - 1), cs[n - 1], os[n - 1])
    }
}

/// Record `i` of a script is consistent with the run so far: its program
/// counter continues the interpreter's, its step is clean, free of side
/// effects, and its register file is exactly the trace-expected one.
pub open spec fn scripted_at(m0: Model, cs: Seq<Port>, os: Seq<StepOutcome>, i: int) -> bool {
    &&& cs[i].wf()
    &&& os[i].wf()
    &&& cs[i].pc == (if i == 0 {
        m0.pc
    } else {
        os[i - 1].pc_after
    })
    &&& os[i].kind == StepKind::Clean(OpClass::Other)
    &&& !os[i].mmio
    &&& os[i].rf_after@ == apply_write(apply_writes(m0.remote, cs, i), cs[i].reg_write)
}

/// A whole script of commit records and step outcomes with consistent
/// program counters and writes, and no side effects anywhere.
pub open spec fn scripted(m0: Model, cs: Seq<Port>, os: Seq<StepOutcome>) -> bool {
    &&& cs.len() == os.len()
    &&& forall|i: int| 0 <= i < cs.len() ==> #[trigger] scripted_at(m0, cs, os, i)
}

/// Step `i` of a run aborts nothing: program-counter reconciliation goes
/// through under the strict policy, and the engine finds the register
/// files equal.
pub open spec fn step_succeeds(m0: Model, cs: Seq<Port>, os: Seq<StepOutcome>, i: int) -> bool {
    let s = run_state(m0, cs, os, i);
    &&& recon_ok(s, cs[i], PcPolicy::Strict)
    &&& next_verdict(recon_state(s, cs[i]), cs[i], os[i]) == StepCase::Match
}

/// Law: on a scripted run of consistent commit records with no side effects,
/// the engine reports success on every step, and its local register file
/// ends as exactly the script's writes applied cumulatively to the initial
/// file.
pub proof fn lemma_scripted_run(m0: Model, cs: Seq<Port>, os: Seq<StepOutcome>, n: int)
    requires
        m0.rf.len() == 32,
        m0.remote == m0.rf,
        scripted(m0, cs, os),
        0 <= n <= cs.len(),
    ensures
        run_state(m0, cs, os, n).rf == apply_writes(m0.rf, cs, n),
        run_state(m0, cs, os, n).remote == run_state(m0, cs, os, n).rf,
        run_state(m0, cs, os, n).pc == (if n == 0 {
            m0.pc
        } else {
            os[n - 1].pc_after
        }),
        forall|i: int| 0 <= i < n ==> #[trigger] step_succeeds(m0, cs, os, i),
    decreases n,
{
    if n > 0 {
        lemma_scripted_run(m0, cs, os, n - 1);
        let s = run_state(m0, cs, os, n - 1);
        assert(scripted_at(m0, cs, os, n - 1));
        assert(s.remote == apply_writes(m0.remote, cs, n - 1));
        assert(os[n - 1].rf_after@ == apply_write(s.remote, cs[n - 1].reg_write));
        assert(step_succeeds(m0, cs, os, n - 1));
        assert(forall|i: int| 0 <= i < n ==> #[trigger] step_succeeds(m0, cs, os, i));
    }
}

} // verus!
