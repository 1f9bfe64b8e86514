use vstd::prelude::*;

use crate::error::Error;
use crate::operation::{start, Operation, Step};
use crate::regs::{Action, ControlBit, FLASH_BASE, FLASH_KEY1, FLASH_KEY2, PAGE_SIZE, SECTOR_SIZE};

verus! {

/// The little-endian value of four bytes.
pub open spec fn le_word(b0: u8, b1: u8, b2: u8, b3: u8) -> int {
    b0 + 256 * b1 + 65536 * b2 + 16777216 * b3
}

/// The `i`-th complete 4-byte little-endian word of `data`.
pub open spec fn word_at(data: Seq<u8>, i: int) -> u32 {
    le_word(data[4 * i], data[4 * i + 1], data[4 * i + 2], data[4 * i + 3]) as u32
}

/// Number of complete words in `data`; a trailing remainder is not written.
pub open spec fn word_count(data: Seq<u8>) -> int {
    data.len() as int / 4
}

/// The steps that write the words of `data` from physical address `pa`:
/// each word written, then the write-cycle poller.
pub open spec fn word_steps(pa: int, data: Seq<u8>) -> Seq<Step> {
    Seq::new(
        (2 * word_count(data)) as nat,
        |j: int|
            if j % 2 == 0 {
                Step::WriteWord((pa + 4 * (j / 2)) as u32, word_at(data, j / 2))
            } else {
                Step::WaitWrite
            },
    )
}

/// The physical address of logical address `addr`.
pub open spec fn physical(addr: u32) -> int {
    addr + FLASH_BASE
}

/// The register protocol of a sector erase at logical address `addr`.
pub open spec fn erase_script(addr: u32) -> Seq<Step> {
    let pa = physical(addr);
    if pa % (SECTOR_SIZE as int) != 0 {
        seq![Step::Fail(Error::InvalidAddress)]
    } else {
        seq![
            Step::WaitIdle,
            Step::SetBit(ControlBit::Ber32, true),
            Step::WriteAddress(pa as u32),
            Step::SetBit(ControlBit::Strt, true),
            Step::WaitIdle,
            Step::SetBit(ControlBit::Ber32, false),
        ]
    }
}

/// The register protocol of a page program of `data` at logical address `addr`.
pub open spec fn program_script(addr: u32, data: Seq<u8>) -> Seq<Step> {
    let pa = physical(addr);
    if pa % (PAGE_SIZE as int) != 0 {
        seq![Step::CheckUnlocked, Step::Fail(Error::InvalidAddress)]
    } else {
        seq![
            Step::CheckUnlocked,
            Step::SetBit(ControlBit::PagePg, true),
            Step::WaitIdle,
        ] + word_steps(pa, data) + seq![
            Step::SetBit(ControlBit::PgStart, true),
            Step::WaitIdle,
            Step::SetBit(ControlBit::PagePg, false),
        ]
    }
}

/// The key writes that unlock normal access and quick-program mode, in order.
pub open spec fn unlock_actions() -> Seq<Action> {
    seq![
        Action::WriteKey(FLASH_KEY1),
        Action::WriteKey(FLASH_KEY2),
        Action::WriteModeKey(FLASH_KEY1),
        Action::WriteModeKey(FLASH_KEY2),
    ]
}

/// The access that re-locks the controller.
pub open spec fn lock_action() -> Action {
    Action::SetControl(ControlBit::Lock, true)
}

/// Reads four bytes as a little-endian word.
fn read_le_word(b0: u8, b1: u8, b2: u8, b3: u8) -> (r: u32)
    ensures
        r as int == le_word(b0, b1, b2, b3),
{
    b0 as u32 + 256 * (b1 as u32) + 65536 * (b2 as u32) + 16777216 * (b3 as u32)
}

/// The flash routine once unlocked: the handle from which erase and program
/// operations are started.
pub struct Algorithm {
    poll_budget: u32,
}

impl Algorithm {
    /// Status reads granted to each poll of this routine's operations.
    pub closed spec fn budget(&self) -> u32 {
        self.poll_budget
    }

    /// Unlocks the controller: returns the routine together with the key writes
    /// that must be performed, in order, before any operation.
    pub fn new(poll_budget: u32) -> (r: (Algorithm, Vec<Action>))
        ensures
            r.0.budget() == poll_budget,
            r.1@ == unlock_actions(),
    {
        let keys = vec![
            Action::WriteKey(FLASH_KEY1),
            Action::WriteKey(FLASH_KEY2),
            Action::WriteModeKey(FLASH_KEY1),
            Action::WriteModeKey(FLASH_KEY2),
        ];
        proof {
            assert(keys@ =~= unlock_actions());
        }
        (Algorithm { poll_budget }, keys)
    }

    /// Starts erasing the sector at logical address `addr`.
    pub fn erase_sector(&mut self, addr: u32) -> (r: Operation)
        requires
            physical(addr) <= u32::MAX,
        ensures
            *final(self) == *old(self),
            r@ == start(erase_script(addr), old(self).budget()),
            r.wf(),
    {
        let pa = addr + FLASH_BASE;
        let script = if pa % SECTOR_SIZE != 0 {
            vec![Step::Fail(Error::InvalidAddress)]
        } else {
            vec![
                Step::WaitIdle,
                Step::SetBit(ControlBit::Ber32, true),
                Step::WriteAddress(pa),
                Step::SetBit(ControlBit::Strt, true),
                Step::WaitIdle,
                Step::SetBit(ControlBit::Ber32, false),
            ]
        };
        proof {
            assert(script@ =~= erase_script(addr));
        }
        Operation::new(script, self.poll_budget)
    }

    /// Starts programming `data` at logical address `addr`. Only complete
    /// 4-byte words are written; a trailing remainder is dropped.
    pub fn program_page(&mut self, addr: u32, data: &[u8]) -> (r: Operation)
        requires
            physical(addr) + data@.len() <= u32::MAX,
        ensures
            *final(self) == *old(self),
            r@ == start(program_script(addr, data@), old(self).budget()),
            r.wf(),
    {
        let pa = addr + FLASH_BASE;
        let mut script: Vec<Step> = vec![Step::CheckUnlocked];
        if pa % PAGE_SIZE != 0 {
            script.push(Step::Fail(Error::InvalidAddress));
            proof {
                assert(script@ =~= program_script(addr, data@));
            }
            return Operation::new(script, self.poll_budget);
        }
        script.push(Step::SetBit(ControlBit::PagePg, true));
        script.push(Step::WaitIdle);
        let ghost head = script@;
        let n: usize = data.len() / 4;
        let mut i: usize = 0;
        while i < n
            invariant
                n == word_count(data@),
                i <= n,
                pa as int == physical(addr),
                physical(addr) + data@.len() <= u32::MAX,
                head.len() == 3,
                script@ =~= head + word_steps(pa as int, data@).take(2 * i as int),
            decreases n - i,
        {
            let w = read_le_word(data[4 * i], data[4 * i + 1], data[4 * i + 2], data[4 * i + 3]);
            let a: u32 = pa + 4 * (i as u32);
            script.push(Step::WriteWord(a, w));
            script.push(Step::WaitWrite);
            proof {
                let ws = word_steps(pa as int, data@);
                assert(ws[2 * i as int] == Step::WriteWord(a, w));
                assert(ws[2 * i as int + 1] == Step::WaitWrite);
                assert(ws.take(2 * (i + 1) as int) =~= ws.take(2 * i as int).push(ws[2 * i as int]).push(ws[2 * i as int + 1]));
            }
            i = i + 1;
        }
        script.push(Step::SetBit(ControlBit::PgStart, true));
        script.push(Step::WaitIdle);
        script.push(Step::SetBit(ControlBit::PagePg, false));
        proof {
            assert(word_steps(pa as int, data@).take(2 * n as int) =~= word_steps(pa as int, data@));
            assert(script@ =~= program_script(addr, data@));
        }
        Operation::new(script, self.poll_budget)
    }

    /// Re-locks the controller: the access to perform whatever state earlier
    /// operations left it in.
    pub fn teardown(&mut self) -> (r: Action)
        ensures
            *final(self) == *old(self),
            r == lock_action(),
    {
        Action::SetControl(ControlBit::Lock, true)
    }
}

} // verus!
