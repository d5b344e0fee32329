//! One commit record of the hardware trace.

use vstd::prelude::*;

verus! {

/// One retired instruction as the hardware core reports it: the committed
/// program counter and, if the instruction wrote a general-purpose register,
/// the register index and the written value.
#[derive(Debug, Copy, Clone)]
pub struct Port {
    pub pc: u32,
    pub reg_write: Option<(u8, u32)>,
}

impl Port {
    /// A record the reconciliation engine can apply: the register file has
    /// 32 slots, so a write must target one of them.
    pub open spec fn wf(self) -> bool {
        match self.reg_write {
            Some((idx, _)) => idx < 32,
            None => true,
        }
    }

    /// Executable form of the same check, for unverified callers that must
    /// test it before handing a record to the engine.
    pub fn is_wf(&self) -> (r: bool)
        ensures
            r == self.wf(),
    {
        match self.reg_write {
            Some((idx, _)) => idx < 32,
            None => true,
        }
    }
}

} // verus!
