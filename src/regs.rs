use vstd::prelude::*;

use crate::error::Error;

verus! {

/// First word of the vendor key sequence.
pub const FLASH_KEY1: u32 = 0x45670123;

/// Second word of the vendor key sequence.
pub const FLASH_KEY2: u32 = 0xCDEF89AB;

/// Number of status reads a poll loop makes before it gives up.
pub const ERASE_TIMEOUT: u32 = 0xF00000;

/// Physical address of the first byte of the flash array.
pub const FLASH_BASE: u32 = 0x0800_0000;

/// Size of the erase granule.
pub const SECTOR_SIZE: u32 = 0x8000;

/// Size of the program granule.
pub const PAGE_SIZE: u32 = 0x100;

/// The status-register flags that the protocol reads.
#[derive(Debug, Clone, Copy, PartialEq, Eq, Structural)]
pub struct Status {
    /// An operation is in progress.
    pub bsy: bool,
    /// A single word write is in progress.
    pub wr_bsy: bool,
    /// The last operation has ended.
    pub eop: bool,
    /// The last operation was refused by write protection.
    pub wrprterr: bool,
}

/// The control-register lock flags that the protocol reads.
#[derive(Debug, Clone, Copy, PartialEq, Eq, Structural)]
pub struct Control {
    /// Normal flash access is locked.
    pub lock: bool,
    /// Quick-program mode is locked.
    pub flock: bool,
}

/// A control-register bit that the protocol sets or clears.
#[derive(Debug, Clone, Copy, PartialEq, Eq, Structural)]
pub enum ControlBit {
    Lock,
    Ber32,
    Strt,
    PagePg,
    PgStart,
}

/// One register access that the routine asks its driver to perform.
#[derive(Debug, Clone, Copy, PartialEq, Eq)]
pub enum Action {
    /// Read the status register and answer with `Event::Status`.
    ReadStatus,
    /// Read the control register and answer with `Event::Control`.
    ReadControl,
    /// Clear the end-of-operation flag, then answer with `Event::Done`.
    ClearEndOfOperation,
    /// Read-modify-write one control bit, then answer with `Event::Done`.
    SetControl(ControlBit, bool),
    /// Write the address register, then answer with `Event::Done`.
    WriteAddress(u32),
    /// Volatile write of a word (second field) at an address (first field), then `Event::Done`.
    WriteWord(u32, u32),
    /// Write the key register.
    WriteKey(u32),
    /// Write the mode-key register.
    WriteModeKey(u32),
    /// The operation is over, with this outcome.
    Finish(Result<(), Error>),
}

/// What the driver reports back after performing an action.
#[derive(Debug, Clone, Copy, PartialEq, Eq, Structural)]
pub enum Event {
    Status(Status),
    Control(Control),
    Done,
}

} // verus!
