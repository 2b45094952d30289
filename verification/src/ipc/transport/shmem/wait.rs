//! Waiting for the other side without missing its call.
//!
//! A party that finds nothing to do notes the value of an event counter while
//! it still holds the buffer lock, releases the lock, and waits on the counter
//! for as long as it holds the noted value. Whoever gives it something to do
//! raises the counter first and wakes a waiter second. So a party goes to
//! sleep only if nothing has happened since it looked. The model below has
//! one waiter and counts the events that the waiter has missed; the counter
//! itself has 32 bits and comes round after `2^32` events.

use vstd::prelude::*;
use vstd::wrapping::u32_specs::wrapping_add;

verus! {

/// What a waiter does.
pub enum WaiterPhase {
    /// It runs: it is about to look, under the lock, for something to do.
    Running,
    /// It found nothing, noted the counter at `seen`, and released the lock;
    /// `missed` events have happened since.
    Noted { seen: u32, missed: nat },
    /// It sleeps on the counter, which it noted at `seen`; `missed` events
    /// had happened between its look and its wait.
    Asleep { seen: u32, missed: nat },
}

/// One side of a channel: how much there is for the waiter to take (bytes to
/// read, or room to write), the event counter, and what the waiter does.
pub struct WaitModel {
    pub amount: nat,
    pub counter: u32,
    pub waiter: WaiterPhase,
}

/// What happens next.
pub enum WaitMove {
    /// The other side gives `n` units, raises the counter and wakes the
    /// waiter. Giving nothing is no event.
    Give { n: nat },
    /// The waiter looks, under the lock: it takes up to `k` units if there
    /// are any, and notes the counter if there are none.
    Look { k: nat },
    /// The waiter waits on the counter: it sleeps if the counter holds what
    /// it noted, and goes on at once if not.
    Wait,
    /// The sleep of the waiter ends for no reason.
    Interrupt,
}

/// The range of the event counter.
pub open spec fn counter_range() -> int {
    0x1_0000_0000
}

/// One move of the model. An event raises the counter as `raise_event` of
/// the channel does.
pub open spec fn wait_step(m: WaitModel, mv: WaitMove) -> WaitModel {
    match mv {
        WaitMove::Give { n } => if n == 0 {
            m
        } else {
            WaitModel {
                amount: m.amount + n,
                counter: wrapping_add(m.counter, 1),
                waiter: match m.waiter {
                    WaiterPhase::Running => WaiterPhase::Running,
                    WaiterPhase::Noted { seen, missed } => WaiterPhase::Noted {
                        seen,
                        missed: missed + 1,
                    },
                    WaiterPhase::Asleep { .. } => WaiterPhase::Running,
                },
            }
        },
        WaitMove::Look { k } => match m.waiter {
            WaiterPhase::Running => if m.amount > 0 {
                WaitModel {
                    amount: if k < m.amount {
                        (m.amount - k) as nat
                    } else {
                        0
                    },
                    ..m
                }
            } else {
                WaitModel { waiter: WaiterPhase::Noted { seen: m.counter, missed: 0 }, ..m }
            },
            _ => m,
        },
        WaitMove::Wait => match m.waiter {
            WaiterPhase::Noted { seen, missed } => if m.counter == seen {
                WaitModel { waiter: WaiterPhase::Asleep { seen, missed }, ..m }
            } else {
                WaitModel { waiter: WaiterPhase::Running, ..m }
            },
            _ => m,
        },
        WaitMove::Interrupt => match m.waiter {
            WaiterPhase::Asleep { .. } => WaitModel { waiter: WaiterPhase::Running, ..m },
            _ => m,
        },
    }
}

/// The model after the moves of `schedule`, in order, with nothing to take at
/// the start.
pub open spec fn wait_run(schedule: Seq<WaitMove>) -> WaitModel
    decreases schedule.len(),
{
    if schedule.len() == 0 {
        WaitModel { amount: 0, counter: 0, waiter: WaiterPhase::Running }
    } else {
        wait_step(wait_run(schedule.drop_last()), schedule.last())
    }
}

/// What holds of the model at all times: the counter is what the waiter
/// noted, raised once for each event that it missed; there is something to
/// take only if it has missed an event; and it sleeps only if the events
/// that it had missed before it slept brought the counter round to what it
/// noted.
pub open spec fn wait_inv(m: WaitModel) -> bool {
    match m.waiter {
        WaiterPhase::Running => true,
        WaiterPhase::Noted { seen, missed } => {
            &&& m.counter == (seen + missed) % counter_range()
            &&& m.amount > 0 ==> missed > 0
        },
        WaiterPhase::Asleep { seen, missed } => {
            &&& missed % (counter_range() as nat) == 0
            &&& m.amount > 0 ==> missed > 0
        },
    }
}

/// One move keeps the invariant.
pub proof fn lemma_wait_step_keeps_inv(m: WaitModel, mv: WaitMove)
    requires
        wait_inv(m),
    ensures
        wait_inv(wait_step(m, mv)),
{
    match (mv, m.waiter) {
        (WaitMove::Give { n }, WaiterPhase::Noted { seen, missed }) => {
            if n > 0 {
                vstd::arithmetic::div_mod::lemma_add_mod_noop(
                    seen + missed,
                    1,
                    counter_range(),
                );
                vstd::arithmetic::div_mod::lemma_mod_bound(seen + missed, counter_range());
                vstd::arithmetic::div_mod::lemma_small_mod(1, counter_range() as nat);
                vstd::arithmetic::div_mod::lemma_small_mod(
                    ((seen + missed) % counter_range()) as nat,
                    counter_range() as nat,
                );
                if m.counter + 1 == counter_range() {
                    vstd::arithmetic::div_mod::lemma_mod_self_0(counter_range());
                } else {
                    vstd::arithmetic::div_mod::lemma_small_mod(
                        (m.counter + 1) as nat,
                        counter_range() as nat,
                    );
                }
            }
        },
        (WaitMove::Look { k }, WaiterPhase::Running) => {
            if m.amount == 0 {
                vstd::arithmetic::div_mod::lemma_small_mod(
                    m.counter as nat,
                    counter_range() as nat,
                );
            }
        },
        (WaitMove::Wait, WaiterPhase::Noted { seen, missed }) => {
            if m.counter == seen {
                vstd::arithmetic::div_mod::lemma_small_mod(seen as nat, counter_range() as nat);
                vstd::arithmetic::div_mod::lemma_add_mod_noop(
                    seen as int,
                    missed as int,
                    counter_range(),
                );
                vstd::arithmetic::div_mod::lemma_mod_bound(missed as int, counter_range());
                let r = (missed as int) % counter_range();
                if r != 0 {
                    if seen + r < counter_range() {
                        vstd::arithmetic::div_mod::lemma_small_mod(
                            (seen + r) as nat,
                            counter_range() as nat,
                        );
                    } else {
                        vstd::arithmetic::div_mod::lemma_mod_sub_multiples_vanish(
                            seen + r,
                            counter_range(),
                        );
                        vstd::arithmetic::div_mod::lemma_small_mod(
                            (seen + r - counter_range()) as nat,
                            counter_range() as nat,
                        );
                    }
                }
            }
        },
        _ => {},
    }
}

/// No call is missed: whatever happens in whatever order, a waiter sleeps
/// only while there is nothing for it to take, unless the counter went round
/// at least once between its look and its wait.
pub proof fn lemma_no_missed_call(schedule: Seq<WaitMove>)
    ensures
        wait_inv(wait_run(schedule)),
        wait_run(schedule).waiter matches WaiterPhase::Asleep { missed, .. } ==> wait_run(
            schedule,
        ).amount == 0 || missed >= counter_range(),
    decreases schedule.len(),
{
    if schedule.len() > 0 {
        lemma_no_missed_call(schedule.drop_last());
        lemma_wait_step_keeps_inv(wait_run(schedule.drop_last()), schedule.last());
    }
    match wait_run(schedule).waiter {
        WaiterPhase::Asleep { seen, missed } => {
            if missed > 0 && missed < counter_range() {
                vstd::arithmetic::div_mod::lemma_small_mod(missed, counter_range() as nat);
            }
        },
        _ => {},
    }
}

} // verus!
