use vstd::prelude::*;

use crate::error::Error;
use crate::poll::{operation_poll, wait_until_not_busy, wait_until_not_write_busy, write_poll, Poll};
use crate::regs::{Action, ControlBit, Event};

verus! {

/// One step of a flash operation's register protocol.
#[derive(Debug, Clone, Copy, PartialEq, Eq, Structural)]
pub enum Step {
    /// Read the control register; fail with `FlashLocked` if either lock bit is set.
    CheckUnlocked,
    /// Run the operation poller.
    WaitIdle,
    /// Run the write-cycle poller.
    WaitWrite,
    /// Set or clear a control bit.
    SetBit(ControlBit, bool),
    /// Write the address register.
    WriteAddress(u32),
    /// Volatile write of a word (second field) at an address (first field).
    WriteWord(u32, u32),
    /// End the operation with this error.
    Fail(Error),
}

/// The mathematical state of an operation in progress.
pub struct OpModel {
    /// The steps of the operation, in order.
    pub script: Seq<Step>,
    /// Index of the current step.
    pub pc: int,
    /// Status reads left in the current poll.
    pub remaining: u32,
    /// Status reads granted to each poll.
    pub budget: u32,
    /// The operation poller saw idle and is clearing end-of-operation.
    pub clearing: bool,
    /// Set once the operation is over.
    pub outcome: Option<Result<(), Error>>,
}

/// Move to step `pc`: a fresh poll budget, and the outcome where the step ends the operation.
pub open spec fn enter(m: OpModel, pc: int) -> OpModel {
    let base = OpModel { pc: pc, remaining: m.budget, clearing: false, ..m };
    if pc < 0 || pc >= m.script.len() {
        OpModel { outcome: Some(Ok(())), ..base }
    } else {
        match m.script[pc] {
            Step::Fail(e) => OpModel { outcome: Some(Err(e)), ..base },
            Step::WaitIdle => if m.budget == 0 {
                OpModel { outcome: Some(Err(Error::EraseTimeout)), ..base }
            } else {
                base
            },
            Step::WaitWrite => if m.budget == 0 {
                OpModel { outcome: Some(Err(Error::WriteTimeout)), ..base }
            } else {
                base
            },
            _ => base,
        }
    }
}

/// The state in which an operation with these steps and this poll budget begins.
pub open spec fn start(script: Seq<Step>, budget: u32) -> OpModel {
    enter(
        OpModel { script, pc: 0, remaining: budget, budget, clearing: false, outcome: None },
        0,
    )
}

/// The register access that the operation asks for in state `m`.
pub open spec fn pending(m: OpModel) -> Action {
    match m.outcome {
        Some(r) => Action::Finish(r),
        None => if m.clearing {
            Action::ClearEndOfOperation
        } else if m.pc < 0 || m.pc >= m.script.len() {
            Action::Finish(Ok(()))
        } else {
            match m.script[m.pc] {
                Step::CheckUnlocked => Action::ReadControl,
                Step::WaitIdle => Action::ReadStatus,
                Step::WaitWrite => Action::ReadStatus,
                Step::SetBit(b, v) => Action::SetControl(b, v),
                Step::WriteAddress(a) => Action::WriteAddress(a),
                Step::WriteWord(a, w) => Action::WriteWord(a, w),
                Step::Fail(e) => Action::Finish(Err(e)),
            }
        },
    }
}

/// The state after the driver answers the pending access with `ev`.
/// An event that does not answer the pending access leaves the state as it is.
pub open spec fn next(m: OpModel, ev: Event) -> OpModel {
    if m.outcome.is_some() || m.pc < 0 || m.pc >= m.script.len() {
        m
    } else if m.clearing {
        if ev == Event::Done {
            enter(m, m.pc + 1)
        } else {
            m
        }
    } else {
        match m.script[m.pc] {
            Step::CheckUnlocked => match ev {
                Event::Control(c) => if c.lock || c.flock {
                    OpModel { outcome: Some(Err(Error::FlashLocked)), ..m }
                } else {
                    enter(m, m.pc + 1)
                },
                _ => m,
            },
            Step::WaitIdle => match ev {
                Event::Status(s) => match operation_poll(m.remaining, s) {
                    Poll::Again(k) => OpModel { remaining: k, ..m },
                    Poll::Failed(e) => OpModel { outcome: Some(Err(e)), ..m },
                    Poll::Idle => OpModel { clearing: true, ..m },
                },
                _ => m,
            },
            Step::WaitWrite => match ev {
                Event::Status(s) => match write_poll(m.remaining, s) {
                    Poll::Again(k) => OpModel { remaining: k, ..m },
                    Poll::Failed(e) => OpModel { outcome: Some(Err(e)), ..m },
                    Poll::Idle => enter(m, m.pc + 1),
                },
                _ => m,
            },
            Step::Fail(_) => m,
            _ => if ev == Event::Done {
                enter(m, m.pc + 1)
            } else {
                m
            },
        }
    }
}

/// The state after the driver answers with each event of `evs` in turn.
pub open spec fn run(m: OpModel, evs: Seq<Event>) -> OpModel
    decreases evs.len(),
{
    if evs.len() == 0 {
        m
    } else {
        run(next(m, evs[0]), evs.drop_first())
    }
}

/// The invariant of an operation state.
pub open spec fn model_wf(m: OpModel) -> bool {
    &&& 0 <= m.pc <= m.script.len()
    &&& m.script.len() < usize::MAX
    &&& m.outcome.is_none() ==> {
        &&& m.pc < m.script.len()
        &&& !(m.script[m.pc] is Fail)
        &&& (m.script[m.pc] is WaitIdle || m.script[m.pc] is WaitWrite) ==> m.remaining >= 1
        &&& m.clearing ==> m.script[m.pc] is WaitIdle
    }
}

/// A flash operation in progress: it asks for register accesses one at a time
/// and decides, from what the driver reports, what to ask next and when it is over.
pub struct Operation {
    script: Vec<Step>,
    pc: usize,
    remaining: u32,
    budget: u32,
    clearing: bool,
    outcome: Option<Result<(), Error>>,
}

impl View for Operation {
    type V = OpModel;

    closed spec fn view(&self) -> OpModel {
        OpModel {
            script: self.script@,
            pc: self.pc as int,
            remaining: self.remaining,
            budget: self.budget,
            clearing: self.clearing,
            outcome: self.outcome,
        }
    }
}

impl Operation {
    /// The operation's invariant.
    pub open spec fn wf(&self) -> bool {
        model_wf(self@)
    }

    fn enter(&mut self, pc: usize)
        requires
            pc <= old(self).script.len(),
            old(self).script.len() < usize::MAX,
        ensures
            final(self)@ == enter(old(self)@, pc as int),
            final(self).wf(),
    {
        self.pc = pc;
        self.remaining = self.budget;
        self.clearing = false;
        if pc >= self.script.len() {
            self.outcome = Some(Ok(()));
        } else {
            match self.script[pc] {
                Step::Fail(e) => {
                    self.outcome = Some(Err(e));
                },
                Step::WaitIdle => {
                    if self.budget == 0 {
                        self.outcome = Some(Err(Error::EraseTimeout));
                    }
                },
                Step::WaitWrite => {
                    if self.budget == 0 {
                        self.outcome = Some(Err(Error::WriteTimeout));
                    }
                },
                _ => {},
            }
        }
    }

    /// Begins an operation that performs `script` with `budget` status reads per poll.
    pub fn new(script: Vec<Step>, budget: u32) -> (r: Operation)
        requires
            script@.len() < usize::MAX,
        ensures
            r@ == start(script@, budget),
            r.wf(),
    {
        let mut op = Operation {
            script,
            pc: 0,
            remaining: budget,
            budget,
            clearing: false,
            outcome: None,
        };
        op.enter(0);
        op
    }

    /// The register access that the operation asks for now.
    pub fn action(&self) -> (r: Action)
        requires
            self.wf(),
        ensures
            r == pending(self@),
    {
        match self.outcome {
            Some(r) => Action::Finish(r),
            None => {
                if self.clearing {
                    Action::ClearEndOfOperation
                } else {
                    match self.script[self.pc] {
                        Step::CheckUnlocked => Action::ReadControl,
                        Step::WaitIdle => Action::ReadStatus,
                        Step::WaitWrite => Action::ReadStatus,
                        Step::SetBit(b, v) => Action::SetControl(b, v),
                        Step::WriteAddress(a) => Action::WriteAddress(a),
                        Step::WriteWord(a, w) => Action::WriteWord(a, w),
                        Step::Fail(e) => Action::Finish(Err(e)),
                    }
                }
            },
        }
    }

    /// How the operation ended, once it has.
    pub fn outcome(&self) -> (r: Option<Result<(), Error>>)
        ensures
            r == self@.outcome,
    {
        self.outcome
    }

    /// Takes the driver's answer to the pending access and returns the next access.
    pub fn step(&mut self, ev: Event) -> (r: Action)
        requires
            old(self).wf(),
        ensures
            final(self).wf(),
            final(self)@ == next(old(self)@, ev),
            r == pending(final(self)@),
    {
        if self.outcome.is_none() {
            let pc = self.pc;
            if self.clearing {
                if let Event::Done = ev {
                    self.enter(pc + 1);
                }
            } else {
                match self.script[pc] {
                    Step::CheckUnlocked => {
                        if let Event::Control(c) = ev {
                            if c.lock || c.flock {
                                self.outcome = Some(Err(Error::FlashLocked));
                            } else {
                                self.enter(pc + 1);
                            }
                        }
                    },
                    Step::WaitIdle => {
                        if let Event::Status(s) = ev {
                            match wait_until_not_busy(self.remaining, s) {
                                Poll::Again(k) => {
                                    self.remaining = k;
                                },
                                Poll::Failed(e) => {
                                    self.outcome = Some(Err(e));
                                },
                                Poll::Idle => {
                                    self.clearing = true;
                                },
                            }
                        }
                    },
                    Step::WaitWrite => {
                        if let Event::Status(s) = ev {
                            match wait_until_not_write_busy(self.remaining, s) {
                                Poll::Again(k) => {
                                    self.remaining = k;
                                },
                                Poll::Failed(e) => {
                                    self.outcome = Some(Err(e));
                                },
                                Poll::Idle => {
                                    self.enter(pc + 1);
                                },
                            }
                        }
                    },
                    Step::Fail(_) => {},
                    _ => {
                        if let Event::Done = ev {
                            self.enter(pc + 1);
                        }
                    },
                }
            }
        }
        self.action()
    }
}

} // verus!
