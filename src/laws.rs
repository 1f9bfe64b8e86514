use vstd::arithmetic::div_mod::lemma_fundamental_div_mod_converse;
use vstd::prelude::*;

use crate::algorithm::{erase_script, physical, program_script, word_at, word_count};
use crate::error::Error;
use crate::operation::{enter, model_wf, next, pending, run, start, OpModel, Step};
use crate::poll::operation_busy;
use crate::regs::{Action, Control, ControlBit, Event, Status, PAGE_SIZE, SECTOR_SIZE};

verus! {

/// The event of a status read on which the operation poller keeps waiting.
pub open spec fn busy_event(e: Event) -> bool {
    match e {
        Event::Status(s) => operation_busy(s),
        _ => false,
    }
}

/// Byte `j` (0 to 3, least significant first) of a word.
pub open spec fn byte_of(w: u32, j: int) -> int {
    let d: int = if j == 0 {
        1
    } else if j == 1 {
        256
    } else if j == 2 {
        65536
    } else {
        16777216
    };
    (w as int / d) % 256
}

/// Once an operation is over, no answer of the driver changes its state.
pub proof fn lemma_finished_absorbs(m: OpModel, evs: Seq<Event>)
    requires
        m.outcome.is_some(),
    ensures
        run(m, evs) == m,
    decreases evs.len(),
{
    if evs.len() > 0 {
        lemma_finished_absorbs(next(m, evs[0]), evs.drop_first());
    }
}

/// An erase at an address that is not sector-aligned ends at once with
/// `InvalidAddress` and never asks for anything else, so it never sets the start bit.
pub proof fn lemma_erase_misaligned(addr: u32, budget: u32, evs: Seq<Event>)
    requires
        physical(addr) <= u32::MAX,
        physical(addr) % (SECTOR_SIZE as int) != 0,
    ensures
        !erase_script(addr).contains(Step::SetBit(ControlBit::Strt, true)),
        start(erase_script(addr), budget).outcome == Some(Err::<(), Error>(Error::InvalidAddress)),
        pending(run(start(erase_script(addr), budget), evs)) == Action::Finish(
            Err(Error::InvalidAddress),
        ),
{
    let s = erase_script(addr);
    assert(s[0] == Step::Fail(Error::InvalidAddress));
    assert(!s.contains(Step::SetBit(ControlBit::Strt, true))) by {
        if s.contains(Step::SetBit(ControlBit::Strt, true)) {
            let k = choose|k: int| 0 <= k < s.len() && s[k] == Step::SetBit(ControlBit::Strt, true);
            assert(k == 0);
        }
    }
    lemma_finished_absorbs(start(s, budget), evs);
}

/// A program at an address that is not page-aligned, on an unlocked controller,
/// reads the control register and then ends with `InvalidAddress`.
pub proof fn lemma_program_misaligned(addr: u32, data: Seq<u8>, budget: u32, c: Control)
    requires
        physical(addr) + data.len() <= u32::MAX,
        physical(addr) % (PAGE_SIZE as int) != 0,
        !c.lock,
        !c.flock,
    ensures
        pending(start(program_script(addr, data), budget)) == Action::ReadControl,
        next(start(program_script(addr, data), budget), Event::Control(c)).outcome == Some(
            Err::<(), Error>(Error::InvalidAddress),
        ),
{
    let s = program_script(addr, data);
    assert(s[0] == Step::CheckUnlocked);
    assert(s[1] == Step::Fail(Error::InvalidAddress));
}

/// A program on a controller that reports either lock bit reads the control
/// register first, then ends with `FlashLocked` without writing any word, whatever
/// the driver answers afterwards.
pub proof fn lemma_program_locked(
    addr: u32,
    data: Seq<u8>,
    budget: u32,
    c: Control,
    evs: Seq<Event>,
)
    requires
        physical(addr) + data.len() <= u32::MAX,
        c.lock || c.flock,
    ensures
        pending(start(program_script(addr, data), budget)) == Action::ReadControl,
        next(start(program_script(addr, data), budget), Event::Control(c)).outcome == Some(
            Err::<(), Error>(Error::FlashLocked),
        ),
        pending(run(next(start(program_script(addr, data), budget), Event::Control(c)), evs))
            == Action::Finish(Err(Error::FlashLocked)),
{
    let s = program_script(addr, data);
    assert(s[0] == Step::CheckUnlocked);
    lemma_finished_absorbs(next(start(s, budget), Event::Control(c)), evs);
}

/// Inside the operation poller, each busy read uses up one read of the budget,
/// and the read that uses up the last one ends the operation with `EraseTimeout`.
pub proof fn lemma_busy_reads(m: OpModel, evs: Seq<Event>)
    requires
        model_wf(m),
        m.outcome.is_none(),
        !m.clearing,
        m.script[m.pc] == Step::WaitIdle,
        evs.len() <= m.remaining,
        forall|i: int| 0 <= i < evs.len() ==> busy_event(#[trigger] evs[i]),
    ensures
        evs.len() < m.remaining ==> run(m, evs) == (OpModel {
            remaining: (m.remaining - evs.len()) as u32,
            ..m
        }),
        evs.len() == m.remaining ==> run(m, evs).outcome == Some(
            Err::<(), Error>(Error::EraseTimeout),
        ),
    decreases evs.len(),
{
    if evs.len() > 0 {
        assert(busy_event(evs[0]));
        let m1 = next(m, evs[0]);
        let rest = evs.drop_first();
        if m.remaining <= 1 {
            assert(m1.outcome == Some(Err::<(), Error>(Error::EraseTimeout)));
            lemma_finished_absorbs(m1, rest);
        } else {
            assert(m1 == OpModel { remaining: (m.remaining - 1) as u32, ..m });
            assert forall|i: int| 0 <= i < rest.len() implies busy_event(#[trigger] rest[i]) by {
                assert(rest[i] == evs[i + 1]);
            }
            lemma_busy_reads(m1, rest);
        }
    }
}

/// An erase on a controller that never clears its busy flag keeps asking for
/// status reads through the first `budget - 1` of them, and ends with
/// `EraseTimeout` exactly at read number `budget`.
pub proof fn lemma_erase_stuck_busy(addr: u32, budget: u32, evs: Seq<Event>)
    requires
        physical(addr) <= u32::MAX,
        physical(addr) % (SECTOR_SIZE as int) == 0,
        evs.len() == budget,
        forall|i: int| 0 <= i < evs.len() ==> busy_event(#[trigger] evs[i]),
    ensures
        forall|k: int|
            0 <= k < budget ==> pending(#[trigger] run(start(erase_script(addr), budget), evs.take(k)))
                == Action::ReadStatus,
        run(start(erase_script(addr), budget), evs).outcome == Some(
            Err::<(), Error>(Error::EraseTimeout),
        ),
{
    let m = start(erase_script(addr), budget);
    assert(erase_script(addr)[0] == Step::WaitIdle);
    if budget == 0 {
        assert(evs =~= Seq::<Event>::empty());
    } else {
        lemma_busy_reads(m, evs);
        assert forall|k: int|
            0 <= k < budget implies pending(#[trigger] run(m, evs.take(k))) == Action::ReadStatus by {
            let p = evs.take(k);
            assert forall|i: int| 0 <= i < p.len() implies busy_event(#[trigger] p[i]) by {
                assert(p[i] == evs[i]);
            }
            lemma_busy_reads(m, p);
        }
    }
}

/// In either poller, a read that shows the controller idle with the
/// write-protect-error flag set ends the operation with `ProgrammingError`.
pub proof fn lemma_protection_error(m: OpModel, s: Status)
    requires
        model_wf(m),
        m.outcome.is_none(),
        !m.clearing,
        m.script[m.pc] == Step::WaitIdle || m.script[m.pc] == Step::WaitWrite,
        !s.bsy,
        !s.wr_bsy,
        s.wrprterr,
    ensures
        next(m, Event::Status(s)).outcome == Some(Err::<(), Error>(Error::ProgrammingError)),
{
}

/// An aligned erase begins with the operation poller, and a protected
/// controller ends it there with `ProgrammingError`.
pub proof fn lemma_erase_protected(addr: u32, budget: u32, s: Status)
    requires
        physical(addr) <= u32::MAX,
        physical(addr) % (SECTOR_SIZE as int) == 0,
        budget >= 1,
        !s.bsy,
        !s.wr_bsy,
        s.wrprterr,
    ensures
        pending(start(erase_script(addr), budget)) == Action::ReadStatus,
        next(start(erase_script(addr), budget), Event::Status(s)).outcome == Some(
            Err::<(), Error>(Error::ProgrammingError),
        ),
{
    assert(erase_script(addr)[0] == Step::WaitIdle);
}

/// The bytes of a little-endian word, least significant first.
proof fn lemma_word_bytes(data: Seq<u8>, i: int)
    requires
        0 <= i,
        4 * i + 3 < data.len(),
    ensures
        forall|j: int| 0 <= j < 4 ==> #[trigger] byte_of(word_at(data, i), j) == data[4 * i + j],
{
    let b0 = data[4 * i] as int;
    let b1 = data[4 * i + 1] as int;
    let b2 = data[4 * i + 2] as int;
    let b3 = data[4 * i + 3] as int;
    let w = b0 + 256 * b1 + 65536 * b2 + 16777216 * b3;
    assert(word_at(data, i) as int == w);
    lemma_fundamental_div_mod_converse(w, 1, w, 0);
    lemma_fundamental_div_mod_converse(w, 256, b1 + 256 * b2 + 65536 * b3, b0);
    lemma_fundamental_div_mod_converse(b1 + 256 * b2 + 65536 * b3, 256, b2 + 256 * b3, b1);
    lemma_fundamental_div_mod_converse(w, 65536, b2 + 256 * b3, b0 + 256 * b1);
    lemma_fundamental_div_mod_converse(b2 + 256 * b3, 256, b3, b2);
    lemma_fundamental_div_mod_converse(w, 16777216, b3, b0 + 256 * b1 + 65536 * b2);
    lemma_fundamental_div_mod_converse(b3, 256, 0, b3);
    lemma_fundamental_div_mod_converse(w, 256, w / 256, w % 256);
    assert(byte_of(word_at(data, i), 0) == b0);
    assert(byte_of(word_at(data, i), 1) == b1);
    assert(byte_of(word_at(data, i), 2) == b2);
    assert(byte_of(word_at(data, i), 3) == b3);
}

/// Programming an aligned page writes each complete word of the data once, in
/// order, at consecutive addresses from the physical start, each followed by the
/// write-cycle poller; no other step writes a word; and the bytes of word `i`,
/// least significant first, are bytes `4 * i` to `4 * i + 3` of the data.
pub proof fn lemma_program_round_trip(addr: u32, data: Seq<u8>)
    requires
        physical(addr) + data.len() <= u32::MAX,
        physical(addr) % (PAGE_SIZE as int) == 0,
    ensures
        program_script(addr, data).len() == 2 * word_count(data) + 6,
        forall|i: int|
            0 <= i < word_count(data) ==> #[trigger] program_script(addr, data)[3 + 2 * i]
                == Step::WriteWord((physical(addr) + 4 * i) as u32, word_at(data, i))
                && program_script(addr, data)[4 + 2 * i] == Step::WaitWrite,
        forall|k: int|
            0 <= k < program_script(addr, data).len() && (#[trigger] program_script(
                addr,
                data,
            )[k] is WriteWord) ==> 3 <= k < 3 + 2 * word_count(data) && (k - 3) % 2 == 0,
        forall|i: int, j: int|
            0 <= i < word_count(data) && 0 <= j < 4 ==> #[trigger] byte_of(word_at(data, i), j)
                == data[4 * i + j],
{
    let s = program_script(addr, data);
    let n = word_count(data);
    assert forall|i: int| 0 <= i < n implies #[trigger] s[3 + 2 * i] == Step::WriteWord(
        (physical(addr) + 4 * i) as u32,
        word_at(data, i),
    ) && s[4 + 2 * i] == Step::WaitWrite by {
        assert((2 * i) % 2 == 0 && (2 * i) / 2 == i);
        assert((2 * i + 1) % 2 == 1);
    }
    assert forall|k: int| 0 <= k < s.len() && (#[trigger] s[k] is WriteWord) implies 3 <= k < 3
        + 2 * n && (k - 3) % 2 == 0 by {
        if k < 3 {
            assert(k == 0 || k == 1 || k == 2);
        } else if k >= 3 + 2 * n {
            assert(k == 3 + 2 * n || k == 4 + 2 * n || k == 5 + 2 * n);
        }
    }
    assert forall|i: int, j: int| 0 <= i < n && 0 <= j < 4 implies #[trigger] byte_of(
        word_at(data, i),
        j,
    ) == data[4 * i + j] by {
        lemma_word_bytes(data, i);
    }
}

/// The answer of a controller that is unlocked, idle and unprotected.
pub open spec fn accepting_answer(a: Action) -> Event {
    match a {
        Action::ReadStatus => Event::Status(
            Status { bsy: false, wr_bsy: false, eop: true, wrprterr: false },
        ),
        Action::ReadControl => Event::Control(Control { lock: false, flock: false }),
        _ => Event::Done,
    }
}

/// The accesses asked for, and the state reached, in at most `fuel` rounds
/// against an accepting controller.
pub open spec fn accepting_run(m: OpModel, fuel: nat) -> (Seq<Action>, OpModel)
    decreases fuel,
{
    if fuel == 0 || m.outcome.is_some() {
        (Seq::empty(), m)
    } else {
        let rest = accepting_run(next(m, accepting_answer(pending(m))), (fuel - 1) as nat);
        (seq![pending(m)] + rest.0, rest.1)
    }
}

/// The accesses that one step asks for against an accepting controller.
pub open spec fn step_actions(s: Step) -> Seq<Action> {
    match s {
        Step::CheckUnlocked => seq![Action::ReadControl],
        Step::WaitIdle => seq![Action::ReadStatus, Action::ClearEndOfOperation],
        Step::WaitWrite => seq![Action::ReadStatus],
        Step::SetBit(b, v) => seq![Action::SetControl(b, v)],
        Step::WriteAddress(a) => seq![Action::WriteAddress(a)],
        Step::WriteWord(a, w) => seq![Action::WriteWord(a, w)],
        Step::Fail(_) => Seq::empty(),
    }
}

/// The accesses that the steps from index `from` on ask for against an accepting controller.
pub open spec fn script_actions(s: Seq<Step>, from: int) -> Seq<Action>
    decreases s.len() - from,
{
    if from < 0 || from >= s.len() {
        Seq::empty()
    } else {
        step_actions(s[from]) + script_actions(s, from + 1)
    }
}

/// Against an accepting controller, an operation whose remaining steps hold no
/// failure asks for exactly the accesses of those steps, in order, and succeeds.
pub proof fn lemma_accepting_run(m: OpModel, pc: int, fuel: nat)
    requires
        m.budget >= 1,
        m.outcome.is_none(),
        0 <= pc <= m.script.len(),
        forall|k: int| pc <= k < m.script.len() ==> !(#[trigger] m.script[k] is Fail),
        fuel >= 2 * (m.script.len() - pc),
    ensures
        accepting_run(enter(m, pc), fuel).0 == script_actions(m.script, pc),
        accepting_run(enter(m, pc), fuel).1.outcome == Some(Ok::<(), Error>(())),
    decreases m.script.len() - pc,
{
    let e = enter(m, pc);
    if pc == m.script.len() {
        assert(accepting_run(e, fuel).0 =~= Seq::<Action>::empty());
    } else {
        let s = m.script[pc];
        assert(!(s is Fail));
        let after = enter(m, pc + 1);
        lemma_accepting_run(m, pc + 1, (fuel - 2) as nat);
        lemma_accepting_run(m, pc + 1, (fuel - 1) as nat);
        let tail = script_actions(m.script, pc + 1);
        assert(script_actions(m.script, pc) == step_actions(s) + tail);
        match s {
            Step::WaitIdle => {
                let e1 = next(e, accepting_answer(pending(e)));
                assert(e1 == OpModel { clearing: true, ..e });
                assert(next(e1, accepting_answer(pending(e1))) == after);
                assert(accepting_run(e1, (fuel - 1) as nat).0 =~= seq![
                    Action::ClearEndOfOperation,
                ] + tail);
                assert(accepting_run(e, fuel).0 =~= step_actions(s) + tail);
            },
            _ => {
                assert(next(e, accepting_answer(pending(e))) == after);
                assert(accepting_run(e, fuel).0 =~= step_actions(s) + tail);
            },
        }
    }
}

/// An aligned erase against an accepting controller waits for idle, arms block
/// erase, writes the physical address, sets start, waits for idle, disarms, and
/// succeeds.
pub proof fn lemma_erase_accepting(addr: u32, budget: u32)
    requires
        physical(addr) <= u32::MAX,
        physical(addr) % (SECTOR_SIZE as int) == 0,
        budget >= 1,
    ensures
        accepting_run(start(erase_script(addr), budget), 12).0 == seq![
            Action::ReadStatus,
            Action::ClearEndOfOperation,
            Action::SetControl(ControlBit::Ber32, true),
            Action::WriteAddress(physical(addr) as u32),
            Action::SetControl(ControlBit::Strt, true),
            Action::ReadStatus,
            Action::ClearEndOfOperation,
            Action::SetControl(ControlBit::Ber32, false),
        ],
        accepting_run(start(erase_script(addr), budget), 12).1.outcome == Some(Ok::<(), Error>(())),
{
    let s = erase_script(addr);
    let m0 = OpModel { script: s, pc: 0, remaining: budget, budget, clearing: false, outcome: None };
    assert forall|k: int| 0 <= k < s.len() implies !(#[trigger] s[k] is Fail) by {
        assert(k == 0 || k == 1 || k == 2 || k == 3 || k == 4 || k == 5);
    }
    lemma_accepting_run(m0, 0, 12);
    assert(script_actions(s, 6) =~= Seq::<Action>::empty());
    assert(script_actions(s, 5) =~= seq![Action::SetControl(ControlBit::Ber32, false)]);
    assert(script_actions(s, 4) =~= seq![
        Action::ReadStatus,
        Action::ClearEndOfOperation,
        Action::SetControl(ControlBit::Ber32, false),
    ]);
    assert(script_actions(s, 3) =~= seq![Action::SetControl(ControlBit::Strt, true)] + script_actions(s, 4));
    assert(script_actions(s, 2) =~= seq![Action::WriteAddress(physical(addr) as u32)] + script_actions(s, 3));
    assert(script_actions(s, 1) =~= seq![Action::SetControl(ControlBit::Ber32, true)] + script_actions(s, 2));
    assert(script_actions(s, 0) =~= seq![Action::ReadStatus, Action::ClearEndOfOperation] + script_actions(s, 1));
}

/// An aligned program against an accepting controller asks for exactly the
/// accesses of its steps, in order, and succeeds: among them, the word writes
/// of the data in order at consecutive addresses.
pub proof fn lemma_program_accepting(addr: u32, data: Seq<u8>, budget: u32)
    requires
        physical(addr) + data.len() <= u32::MAX,
        physical(addr) % (PAGE_SIZE as int) == 0,
        budget >= 1,
    ensures
        accepting_run(
            start(program_script(addr, data), budget),
            (2 * program_script(addr, data).len()) as nat,
        ).0 == script_actions(program_script(addr, data), 0),
        accepting_run(
            start(program_script(addr, data), budget),
            (2 * program_script(addr, data).len()) as nat,
        ).1.outcome == Some(Ok::<(), Error>(())),
{
    let s = program_script(addr, data);
    let n = word_count(data);
    let m0 = OpModel { script: s, pc: 0, remaining: budget, budget, clearing: false, outcome: None };
    assert forall|k: int| 0 <= k < s.len() implies !(#[trigger] s[k] is Fail) by {
        if k < 3 {
            assert(k == 0 || k == 1 || k == 2);
        } else if k >= 3 + 2 * n {
            assert(k == 3 + 2 * n || k == 4 + 2 * n || k == 5 + 2 * n);
        } else {
            let j = k - 3;
            assert(s[k] == crate::algorithm::word_steps(physical(addr), data)[j]);
        }
    }
    lemma_accepting_run(m0, 0, (2 * s.len()) as nat);
}

/// On the program path too, a protected controller ends the first poll with
/// `ProgrammingError`, before any word is written.
pub proof fn lemma_program_protected(addr: u32, data: Seq<u8>, budget: u32, c: Control, s: Status)
    requires
        physical(addr) + data.len() <= u32::MAX,
        physical(addr) % (PAGE_SIZE as int) == 0,
        budget >= 1,
        !c.lock,
        !c.flock,
        !s.bsy,
        !s.wr_bsy,
        s.wrprterr,
    ensures
        ({
            let m1 = next(start(program_script(addr, data), budget), Event::Control(c));
            let m2 = next(m1, Event::Done);
            &&& pending(m1) == Action::SetControl(ControlBit::PagePg, true)
            &&& pending(m2) == Action::ReadStatus
            &&& next(m2, Event::Status(s)).outcome == Some(Err::<(), Error>(Error::ProgrammingError))
        }),
{
    let p = program_script(addr, data);
    assert(p[0] == Step::CheckUnlocked);
    assert(p[1] == Step::SetBit(ControlBit::PagePg, true));
    assert(p[2] == Step::WaitIdle);
}

} // verus!
