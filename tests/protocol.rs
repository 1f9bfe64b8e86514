use std::collections::BTreeMap;

use ch32_flash_algo::algorithm::Algorithm;
use ch32_flash_algo::error::Error;
use ch32_flash_algo::operation::{Operation, Step};
use ch32_flash_algo::poll::{wait_until_not_busy, wait_until_not_write_busy, Poll};
use ch32_flash_algo::regs::{
    Action, Control, ControlBit, Event, Status, ERASE_TIMEOUT, FLASH_KEY1, FLASH_KEY2,
};

/// A simulated flash controller that answers the routine's register accesses.
struct Sim {
    lock: bool,
    flock: bool,
    ber32: bool,
    strt: bool,
    page_pg: bool,
    pgstart: bool,
    eop: bool,
    stuck_busy: bool,
    stuck_write_busy: bool,
    protected: bool,
    protect_after_first_word: bool,
    keys: Vec<u32>,
    mode_keys: Vec<u32>,
    address: Option<u32>,
    memory: BTreeMap<u32, u8>,
    log: Vec<Action>,
}

impl Sim {
    fn locked() -> Sim {
        Sim {
            lock: true,
            flock: true,
            ber32: false,
            strt: false,
            page_pg: false,
            pgstart: false,
            eop: false,
            stuck_busy: false,
            stuck_write_busy: false,
            protected: false,
            protect_after_first_word: false,
            keys: Vec::new(),
            mode_keys: Vec::new(),
            address: None,
            memory: BTreeMap::new(),
            log: Vec::new(),
        }
    }

    fn unlocked() -> Sim {
        let mut sim = Sim::locked();
        sim.lock = false;
        sim.flock = false;
        sim
    }

    fn status(&self) -> Status {
        Status {
            bsy: self.stuck_busy,
            wr_bsy: self.stuck_write_busy,
            eop: self.eop,
            wrprterr: self.protected,
        }
    }

    fn perform(&mut self, a: Action) -> Event {
        self.log.push(a);
        match a {
            Action::ReadStatus => Event::Status(self.status()),
            Action::ReadControl => Event::Control(Control { lock: self.lock, flock: self.flock }),
            Action::ClearEndOfOperation => {
                self.eop = false;
                Event::Done
            }
            Action::SetControl(bit, v) => {
                match bit {
                    ControlBit::Lock => self.lock = v,
                    ControlBit::Ber32 => self.ber32 = v,
                    ControlBit::Strt => self.strt = v,
                    ControlBit::PagePg => self.page_pg = v,
                    ControlBit::PgStart => self.pgstart = v,
                }
                if v && (bit == ControlBit::Strt || bit == ControlBit::PgStart) {
                    self.eop = true;
                }
                Event::Done
            }
            Action::WriteAddress(a) => {
                self.address = Some(a);
                Event::Done
            }
            Action::WriteWord(a, w) => {
                for (j, b) in w.to_le_bytes().iter().enumerate() {
                    self.memory.insert(a + j as u32, *b);
                }
                if self.protect_after_first_word {
                    self.protected = true;
                }
                Event::Done
            }
            Action::WriteKey(k) => {
                self.keys.push(k);
                if self.keys.ends_with(&[FLASH_KEY1, FLASH_KEY2]) {
                    self.lock = false;
                }
                Event::Done
            }
            Action::WriteModeKey(k) => {
                self.mode_keys.push(k);
                if self.mode_keys.ends_with(&[FLASH_KEY1, FLASH_KEY2]) {
                    self.flock = false;
                }
                Event::Done
            }
            Action::Finish(_) => Event::Done,
        }
    }

    fn status_reads(&self) -> usize {
        self.log.iter().filter(|a| **a == Action::ReadStatus).count()
    }

    fn word_writes(&self) -> Vec<(u32, u32)> {
        self.log
            .iter()
            .filter_map(|a| match a {
                Action::WriteWord(addr, w) => Some((*addr, *w)),
                _ => None,
            })
            .collect()
    }
}

fn drive(mut op: Operation, sim: &mut Sim) -> Result<(), Error> {
    let mut a = op.action();
    loop {
        match a {
            Action::Finish(r) => {
                assert_eq!(op.outcome(), Some(r));
                return r;
            }
            _ => {
                let ev = sim.perform(a);
                a = op.step(ev);
            }
        }
    }
}

fn unlocked_algorithm(budget: u32, sim: &mut Sim) -> Algorithm {
    let (alg, keys) = Algorithm::new(budget);
    for k in keys {
        sim.perform(k);
    }
    sim.log.clear();
    alg
}

#[test]
fn error_codes_are_distinct_and_non_zero() {
    let all = [
        Error::Generic,
        Error::WriteTimeout,
        Error::UnlockError,
        Error::InvalidAddress,
        Error::EraseTimeout,
        Error::FlashLocked,
        Error::ProgrammingError,
        Error::VerificationError,
        Error::UnknownFlashState,
        Error::BusyTimeout,
    ];
    let codes: Vec<u32> = all.iter().map(|e| e.code()).collect();
    assert_eq!(codes, vec![1, 2, 3, 4, 5, 6, 7, 8, 9, 10]);
}

#[test]
fn unlock_writes_both_keys_to_both_registers() {
    let (_alg, keys) = Algorithm::new(ERASE_TIMEOUT);
    assert_eq!(
        keys,
        vec![
            Action::WriteKey(0x45670123),
            Action::WriteKey(0xCDEF89AB),
            Action::WriteModeKey(0x45670123),
            Action::WriteModeKey(0xCDEF89AB),
        ]
    );
    let mut sim = Sim::locked();
    unlocked_algorithm(ERASE_TIMEOUT, &mut sim);
    assert!(!sim.lock && !sim.flock);
}

#[test]
fn erase_misaligned_is_invalid_address() {
    for addr in [1u32, 0x100, 0x4000, 0x7FFF, 0x8001, 0xFFFF] {
        let mut sim = Sim::unlocked();
        let mut alg = unlocked_algorithm(ERASE_TIMEOUT, &mut sim);
        assert_eq!(drive(alg.erase_sector(addr), &mut sim), Err(Error::InvalidAddress));
        assert!(sim.log.is_empty());
        assert!(!sim.strt);
    }
}

#[test]
fn program_misaligned_is_invalid_address() {
    for addr in [1u32, 4, 0x80, 0xFF, 0x101] {
        let mut sim = Sim::unlocked();
        let mut alg = unlocked_algorithm(ERASE_TIMEOUT, &mut sim);
        let r = drive(alg.program_page(addr, &[1, 2, 3, 4]), &mut sim);
        assert_eq!(r, Err(Error::InvalidAddress));
        assert_eq!(sim.log, vec![Action::ReadControl]);
    }
}

#[test]
fn program_on_locked_controller_is_flash_locked() {
    for (lock, flock) in [(true, false), (false, true), (true, true)] {
        let mut sim = Sim::unlocked();
        sim.lock = lock;
        sim.flock = flock;
        let (mut alg, _keys) = Algorithm::new(ERASE_TIMEOUT);
        let r = drive(alg.program_page(0x100, &[1, 2, 3, 4]), &mut sim);
        assert_eq!(r, Err(Error::FlashLocked));
        assert_eq!(sim.log, vec![Action::ReadControl]);
        assert!(sim.word_writes().is_empty());
    }
}

#[test]
fn lock_is_checked_before_alignment() {
    let mut sim = Sim::locked();
    let (mut alg, _keys) = Algorithm::new(ERASE_TIMEOUT);
    assert_eq!(drive(alg.program_page(0x3, &[1, 2, 3, 4]), &mut sim), Err(Error::FlashLocked));
}

#[test]
fn erase_stuck_busy_times_out_after_budget() {
    for budget in [1u32, 2, 7, 100] {
        let mut sim = Sim::unlocked();
        sim.stuck_busy = true;
        let mut alg = unlocked_algorithm(budget, &mut sim);
        assert_eq!(drive(alg.erase_sector(0), &mut sim), Err(Error::EraseTimeout));
        assert_eq!(sim.status_reads(), budget as usize);
        assert_eq!(sim.log.len(), budget as usize);
        assert!(!sim.strt);
    }
}

#[test]
fn erase_stuck_busy_with_default_budget() {
    let (mut alg, _keys) = Algorithm::new(ERASE_TIMEOUT);
    let mut op = alg.erase_sector(0x8000);
    let busy = Event::Status(Status { bsy: true, wr_bsy: false, eop: false, wrprterr: false });
    let mut reads: u64 = 0;
    let mut a = op.action();
    while a == Action::ReadStatus {
        reads += 1;
        a = op.step(busy);
    }
    assert_eq!(a, Action::Finish(Err(Error::EraseTimeout)));
    assert_eq!(reads, 0xF00000);
}

#[test]
fn zero_budget_times_out_without_reading() {
    let mut sim = Sim::unlocked();
    let mut alg = unlocked_algorithm(0, &mut sim);
    assert_eq!(drive(alg.erase_sector(0), &mut sim), Err(Error::EraseTimeout));
    assert_eq!(sim.status_reads(), 0);
}

#[test]
fn busy_with_end_of_operation_counts_as_idle() {
    let mut sim = Sim::unlocked();
    sim.stuck_busy = true;
    sim.eop = true;
    let mut alg = unlocked_algorithm(3, &mut sim);
    assert_eq!(drive(alg.erase_sector(0), &mut sim), Ok(()));
}

#[test]
fn write_stuck_busy_is_write_timeout() {
    let mut sim = Sim::unlocked();
    sim.stuck_write_busy = true;
    let mut alg = unlocked_algorithm(4, &mut sim);
    let r = drive(alg.program_page(0, &[1, 2, 3, 4, 5, 6, 7, 8]), &mut sim);
    assert_eq!(r, Err(Error::WriteTimeout));
    assert_eq!(sim.word_writes(), vec![(0x0800_0000, 0x04030201)]);
    assert!(sim.page_pg);
}

#[test]
fn erase_on_protected_controller_is_programming_error() {
    let mut sim = Sim::unlocked();
    sim.protected = true;
    let mut alg = unlocked_algorithm(ERASE_TIMEOUT, &mut sim);
    assert_eq!(drive(alg.erase_sector(0), &mut sim), Err(Error::ProgrammingError));
}

#[test]
fn program_on_protected_controller_is_programming_error() {
    let mut sim = Sim::unlocked();
    sim.protected = true;
    let mut alg = unlocked_algorithm(ERASE_TIMEOUT, &mut sim);
    let r = drive(alg.program_page(0x100, &[1, 2, 3, 4]), &mut sim);
    assert_eq!(r, Err(Error::ProgrammingError));
}

#[test]
fn protection_error_after_a_word_is_programming_error() {
    let mut sim = Sim::unlocked();
    sim.protect_after_first_word = true;
    let mut alg = unlocked_algorithm(ERASE_TIMEOUT, &mut sim);
    let r = drive(alg.program_page(0x200, &[9, 8, 7, 6, 5, 4, 3, 2]), &mut sim);
    assert_eq!(r, Err(Error::ProgrammingError));
    assert_eq!(sim.word_writes(), vec![(0x0800_0200, 0x06070809)]);
}

#[test]
fn program_round_trip_writes_bytes_in_order() {
    let data: Vec<u8> = (0..=255u8).collect();
    let mut sim = Sim::unlocked();
    let mut alg = unlocked_algorithm(ERASE_TIMEOUT, &mut sim);
    assert_eq!(drive(alg.program_page(0x300, &data), &mut sim), Ok(()));
    assert_eq!(sim.memory.len(), 256);
    for (k, b) in data.iter().enumerate() {
        assert_eq!(sim.memory.get(&(0x0800_0300 + k as u32)), Some(b));
    }
    let writes = sim.word_writes();
    assert_eq!(writes.len(), 64);
    for (i, (addr, _)) in writes.iter().enumerate() {
        assert_eq!(*addr, 0x0800_0300 + 4 * i as u32);
    }
    assert!(!sim.page_pg);
}

#[test]
fn program_drops_trailing_partial_word() {
    let mut sim = Sim::unlocked();
    let mut alg = unlocked_algorithm(ERASE_TIMEOUT, &mut sim);
    let r = drive(alg.program_page(0, &[1, 2, 3, 4, 5, 6]), &mut sim);
    assert_eq!(r, Ok(()));
    assert_eq!(sim.word_writes(), vec![(0x0800_0000, 0x04030201)]);
    assert_eq!(sim.memory.len(), 4);
}

#[test]
fn program_empty_data_writes_no_word() {
    let mut sim = Sim::unlocked();
    let mut alg = unlocked_algorithm(ERASE_TIMEOUT, &mut sim);
    assert_eq!(drive(alg.program_page(0, &[]), &mut sim), Ok(()));
    assert!(sim.word_writes().is_empty());
}

#[test]
fn teardown_locks_after_any_outcome() {
    let mut sim = Sim::unlocked();
    sim.protected = true;
    let mut alg = unlocked_algorithm(ERASE_TIMEOUT, &mut sim);
    assert_eq!(drive(alg.erase_sector(0), &mut sim), Err(Error::ProgrammingError));
    assert_eq!(drive(alg.erase_sector(3), &mut sim), Err(Error::InvalidAddress));
    let lock = Action::SetControl(ControlBit::Lock, true);
    assert_eq!(alg.teardown(), lock);
    sim.perform(lock);
    assert!(sim.lock);
    assert_eq!(alg.teardown(), lock);
    sim.perform(lock);
    assert!(sim.lock);
}

#[test]
fn erase_scenario_at_sector_zero() {
    let mut sim = Sim::unlocked();
    let mut alg = unlocked_algorithm(ERASE_TIMEOUT, &mut sim);
    assert_eq!(drive(alg.erase_sector(0x0000), &mut sim), Ok(()));
    assert_eq!(
        sim.log,
        vec![
            Action::ReadStatus,
            Action::ClearEndOfOperation,
            Action::SetControl(ControlBit::Ber32, true),
            Action::WriteAddress(0x0800_0000),
            Action::SetControl(ControlBit::Strt, true),
            Action::ReadStatus,
            Action::ClearEndOfOperation,
            Action::SetControl(ControlBit::Ber32, false),
        ]
    );
    assert!(!sim.ber32);
}

#[test]
fn program_scenario_two_words() {
    let mut sim = Sim::unlocked();
    let mut alg = unlocked_algorithm(ERASE_TIMEOUT, &mut sim);
    let r = drive(
        alg.program_page(0x0100, &[0x01, 0x02, 0x03, 0x04, 0x05, 0x06, 0x07, 0x08]),
        &mut sim,
    );
    assert_eq!(r, Ok(()));
    assert_eq!(
        sim.log,
        vec![
            Action::ReadControl,
            Action::SetControl(ControlBit::PagePg, true),
            Action::ReadStatus,
            Action::ClearEndOfOperation,
            Action::WriteWord(0x0800_0100, 0x04030201),
            Action::ReadStatus,
            Action::WriteWord(0x0800_0104, 0x08070605),
            Action::ReadStatus,
            Action::SetControl(ControlBit::PgStart, true),
            Action::ReadStatus,
            Action::ClearEndOfOperation,
            Action::SetControl(ControlBit::PagePg, false),
        ]
    );
}

#[test]
fn failed_erase_leaves_block_erase_armed() {
    let mut sim = Sim::unlocked();
    let mut alg = unlocked_algorithm(3, &mut sim);
    let mut op = alg.erase_sector(0x8000);
    let mut a = op.action();
    loop {
        match a {
            Action::Finish(r) => {
                assert_eq!(r, Err(Error::EraseTimeout));
                break;
            }
            _ => {
                let ev = sim.perform(a);
                if a == Action::SetControl(ControlBit::Strt, true) {
                    sim.stuck_busy = true;
                    sim.eop = false;
                }
                a = op.step(ev);
            }
        }
    }
    assert!(sim.ber32);
    assert_eq!(sim.address, Some(0x0800_8000));
}

#[test]
fn failed_program_leaves_page_program_armed() {
    let mut sim = Sim::unlocked();
    sim.protect_after_first_word = true;
    let mut alg = unlocked_algorithm(ERASE_TIMEOUT, &mut sim);
    let r = drive(alg.program_page(0, &[1, 2, 3, 4]), &mut sim);
    assert_eq!(r, Err(Error::ProgrammingError));
    assert!(sim.page_pg);
}

#[test]
fn unexpected_event_repeats_the_pending_access() {
    let (mut alg, _keys) = Algorithm::new(ERASE_TIMEOUT);
    let mut op = alg.erase_sector(0);
    assert_eq!(op.action(), Action::ReadStatus);
    assert_eq!(op.step(Event::Done), Action::ReadStatus);
    assert_eq!(op.step(Event::Control(Control { lock: true, flock: true })), Action::ReadStatus);
    let idle = Status { bsy: false, wr_bsy: false, eop: true, wrprterr: false };
    assert_eq!(op.step(Event::Status(idle)), Action::ClearEndOfOperation);
    assert_eq!(op.step(Event::Status(idle)), Action::ClearEndOfOperation);
    assert_eq!(op.step(Event::Done), Action::SetControl(ControlBit::Ber32, true));
}

#[test]
fn finished_operation_stays_finished() {
    let (mut alg, _keys) = Algorithm::new(ERASE_TIMEOUT);
    let mut op = alg.erase_sector(1);
    let done = Action::Finish(Err(Error::InvalidAddress));
    assert_eq!(op.action(), done);
    assert_eq!(op.step(Event::Done), done);
    assert_eq!(op.outcome(), Some(Err(Error::InvalidAddress)));
}

#[test]
fn custom_step_list_runs_in_order() {
    let mut sim = Sim::unlocked();
    let op = Operation::new(
        vec![Step::WriteAddress(0x0800_0040), Step::SetBit(ControlBit::Strt, true), Step::WaitIdle],
        2,
    );
    assert_eq!(drive(op, &mut sim), Ok(()));
    assert_eq!(sim.address, Some(0x0800_0040));
    let op = Operation::new(vec![Step::WaitIdle, Step::Fail(Error::Generic)], 2);
    assert_eq!(drive(op, &mut sim), Err(Error::Generic));
}

#[test]
fn pollers_classify_status() {
    let busy = Status { bsy: true, wr_bsy: true, eop: false, wrprterr: false };
    let idle = Status { bsy: false, wr_bsy: false, eop: false, wrprterr: false };
    let protected = Status { bsy: false, wr_bsy: false, eop: false, wrprterr: true };
    assert_eq!(wait_until_not_busy(5, busy), Poll::Again(4));
    assert_eq!(wait_until_not_busy(1, busy), Poll::Failed(Error::EraseTimeout));
    assert_eq!(wait_until_not_busy(5, idle), Poll::Idle);
    assert_eq!(wait_until_not_busy(5, protected), Poll::Failed(Error::ProgrammingError));
    assert_eq!(wait_until_not_write_busy(5, busy), Poll::Again(4));
    assert_eq!(wait_until_not_write_busy(1, busy), Poll::Failed(Error::WriteTimeout));
    assert_eq!(wait_until_not_write_busy(2, idle), Poll::Idle);
    assert_eq!(wait_until_not_write_busy(2, protected), Poll::Failed(Error::ProgrammingError));
}
