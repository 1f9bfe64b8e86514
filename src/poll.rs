use vstd::prelude::*;

use crate::error::Error;
use crate::regs::Status;

verus! {

/// The verdict of one status read inside a bounded poll loop.
#[derive(Debug, Clone, Copy, PartialEq, Eq, Structural)]
pub enum Poll {
    /// Still busy: read again, with this many reads left.
    Again(u32),
    /// The loop ends with this error.
    Failed(Error),
    /// The controller is idle and reported no protection error.
    Idle,
}

/// The operation poller's notion of busy: busy without having reached end of operation.
pub open spec fn operation_busy(s: Status) -> bool {
    s.bsy && !s.eop
}

/// Verdict of the operation poller on a read, with `remaining` reads left counting this one.
pub open spec fn operation_poll(remaining: u32, s: Status) -> Poll {
    if operation_busy(s) {
        if remaining <= 1 {
            Poll::Failed(Error::EraseTimeout)
        } else {
            Poll::Again((remaining - 1) as u32)
        }
    } else if s.wrprterr {
        Poll::Failed(Error::ProgrammingError)
    } else {
        Poll::Idle
    }
}

/// Verdict of the write-cycle poller on a read, with `remaining` reads left counting this one.
pub open spec fn write_poll(remaining: u32, s: Status) -> Poll {
    if s.wr_bsy {
        if remaining <= 1 {
            Poll::Failed(Error::WriteTimeout)
        } else {
            Poll::Again((remaining - 1) as u32)
        }
    } else if s.wrprterr {
        Poll::Failed(Error::ProgrammingError)
    } else {
        Poll::Idle
    }
}

/// One read of the operation poller: keeps waiting while busy and not ended,
/// reports a protection error once idle, and times out when no reads are left.
pub fn wait_until_not_busy(remaining: u32, status: Status) -> (r: Poll)
    requires
        remaining >= 1,
    ensures
        r == operation_poll(remaining, status),
{
    if status.bsy && !status.eop {
        if remaining <= 1 {
            Poll::Failed(Error::EraseTimeout)
        } else {
            Poll::Again(remaining - 1)
        }
    } else if status.wrprterr {
        Poll::Failed(Error::ProgrammingError)
    } else {
        Poll::Idle
    }
}

/// One read of the write-cycle poller: keeps waiting while a word write is busy,
/// reports a protection error once idle, and times out when no reads are left.
pub fn wait_until_not_write_busy(remaining: u32, status: Status) -> (r: Poll)
    requires
        remaining >= 1,
    ensures
        r == write_poll(remaining, status),
{
    if status.wr_bsy {
        if remaining <= 1 {
            Poll::Failed(Error::WriteTimeout)
        } else {
            Poll::Again(remaining - 1)
        }
    } else if status.wrprterr {
        Poll::Failed(Error::ProgrammingError)
    } else {
        Poll::Idle
    }
}

/// A poll never ends in success while the controller reports busy.
pub proof fn lemma_no_success_while_busy(remaining: u32, s: Status)
    ensures
        operation_busy(s) ==> operation_poll(remaining, s) != Poll::Idle,
        s.wr_bsy ==> write_poll(remaining, s) != Poll::Idle,
{
}

} // verus!
