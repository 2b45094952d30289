//! What the lock protects: a counter that parties read and write back in
//! separate moves loses no update while they do so under the lock.
//!
//! The lock is the model of the `futex` module. On top of it a party that
//! holds the lock reads the counter, writes back the value it read plus one,
//! and releases the lock, each in a move of its own, so that moves of other
//! parties may fall between any two of them.

use crate::sys::futex::{
    holds, lemma_step_keeps_inv, model_init, model_inv, model_step, sleeps, takes_part, LockPhase,
    ModelMove, MutexModel, UNLOCKED,
};
use vstd::prelude::*;

verus! {

/// How far a party has come in its critical section.
pub enum Work {
    /// It has not read the counter yet.
    Idle,
    /// It has read `value` from the counter.
    Read { value: nat },
    /// It has written the counter back.
    Wrote,
}

/// The lock, the counter it protects, for each party how far it has come in
/// its critical section, and how many sections it has completed.
pub struct CountingModel {
    pub lock: MutexModel,
    pub counter: nat,
    pub work: Seq<Work>,
    pub done: Seq<nat>,
}

/// `n` parties that have done nothing, around a free lock and a counter at 0.
pub open spec fn counting_init(n: nat) -> CountingModel {
    CountingModel {
        lock: model_init(n),
        counter: 0,
        work: Seq::new(n, |i: int| Work::Idle),
        done: Seq::new(n, |i: int| 0nat),
    }
}

/// Whether party `who` is in its critical section.
pub open spec fn at_work(c: CountingModel, who: int) -> bool {
    holds(c.lock, who) && !sleeps(c.lock, who) && who < c.work.len() && who < c.done.len()
}

/// One atomic move. A party in its critical section reads the counter, then
/// writes back what it read plus one, then releases the lock. Every other
/// move is a move of the lock alone.
pub open spec fn counting_step(c: CountingModel, mv: ModelMove) -> CountingModel {
    match mv {
        ModelMove::Step { who } => if at_work(c, who) {
            match c.work[who] {
                Work::Idle => CountingModel {
                    work: c.work.update(who, Work::Read { value: c.counter }),
                    ..c
                },
                Work::Read { value } => CountingModel {
                    counter: value + 1,
                    work: c.work.update(who, Work::Wrote),
                    ..c
                },
                Work::Wrote => CountingModel {
                    lock: model_step(c.lock, mv),
                    work: c.work.update(who, Work::Idle),
                    done: c.done.update(who, c.done[who] + 1),
                    ..c
                },
            }
        } else {
            CountingModel { lock: model_step(c.lock, mv), ..c }
        },
        ModelMove::Interrupt { .. } => CountingModel { lock: model_step(c.lock, mv), ..c },
    }
}

/// The model after the moves of `schedule`, in order.
pub open spec fn counting_run(n: nat, schedule: Seq<ModelMove>) -> CountingModel
    decreases schedule.len(),
{
    if schedule.len() == 0 {
        counting_init(n)
    } else {
        counting_step(counting_run(n, schedule.drop_last()), schedule.last())
    }
}

/// The sum of `done`: the critical sections that all parties have completed.
pub open spec fn total(done: Seq<nat>) -> nat
    decreases done.len(),
{
    if done.len() == 0 {
        0
    } else {
        total(done.drop_last()) + done.last()
    }
}

/// What a critical section has added to the counter so far.
pub open spec fn added(w: Work) -> nat {
    if w is Wrote {
        1
    } else {
        0
    }
}

/// What holds of the model at all times. The lock is sound. Only the party
/// that holds it is in a critical section, and what that party has read is
/// what the counter holds. The counter is the number of critical sections
/// completed, and one more once the holder has written.
pub open spec fn counting_inv(c: CountingModel) -> bool {
    &&& model_inv(c.lock)
    &&& c.work.len() == c.lock.parties.len()
    &&& c.done.len() == c.lock.parties.len()
    &&& forall|i: int|
        0 <= i < c.work.len() && !holds(c.lock, i) ==> #[trigger] c.work[i] == Work::Idle
    &&& forall|i: int| #[trigger]
        holds(c.lock, i) ==> c.counter == total(c.done) + added(c.work[i])
    &&& forall|i: int| #[trigger]
        holds(c.lock, i) ==> (c.work[i] matches Work::Read { value } ==> value == c.counter)
    &&& c.lock.word == UNLOCKED ==> c.counter == total(c.done)
}

/// Replacing one summand changes the sum by the difference.
proof fn lemma_total_update(done: Seq<nat>, i: int, v: nat)
    requires
        0 <= i < done.len(),
    ensures
        total(done.update(i, v)) == total(done) - done[i] + v,
    decreases done.len(),
{
    let after = done.update(i, v);
    if i == done.len() - 1 {
        assert(after.drop_last() =~= done.drop_last());
    } else {
        assert(after.drop_last() =~= done.drop_last().update(i, v));
        lemma_total_update(done.drop_last(), i, v);
    }
}

/// The sum of `n` summands that all are `k` is `n * k`.
proof fn lemma_total_of_equals(done: Seq<nat>, k: nat)
    requires
        forall|i: int| 0 <= i < done.len() ==> done[i] == k,
    ensures
        total(done) == done.len() * k,
    decreases done.len(),
{
    if done.len() > 0 {
        lemma_total_of_equals(done.drop_last(), k);
        assert((done.len() - 1) * k + k == done.len() * k) by (nonlinear_arith);
    }
}

/// A move of the lock changes who holds it in two ways only: a party enters
/// a free lock, or the holder releases it by a move of its own.
proof fn lemma_holder_changes(m: MutexModel, mv: ModelMove)
    requires
        model_inv(m),
    ensures
        forall|i: int| #[trigger]
            holds(model_step(m, mv), i) && !holds(m, i) ==> m.word == UNLOCKED,
        forall|i: int| #[trigger]
            holds(m, i) && !holds(model_step(m, mv), i) ==> mv == (ModelMove::Step { who: i }),
        forall|i: int| #[trigger]
            holds(m, i) && mv == (ModelMove::Step { who: i }) ==> model_step(m, mv).word
                == UNLOCKED,
{
    lemma_step_keeps_inv(m, mv);
    let next = model_step(m, mv);
    match mv {
        ModelMove::Interrupt { who } => {
            if sleeps(m, who) {
                assert(m.parties[who] != Some(LockPhase::Held));
            }
        },
        ModelMove::Step { who } => {
            if 0 <= who < m.parties.len() && !sleeps(m, who) {
                match m.parties[who] {
                    Some(LockPhase::Held) => {
                        let released = MutexModel {
                            word: UNLOCKED,
                            parties: m.parties.update(who, None),
                            ..m
                        };
                        assert(next.word == UNLOCKED);
                        assert forall|i: int| #[trigger] holds(m, i) && !holds(next, i) implies i
                            == who by {
                            assert(holds(m, who));
                        }
                    },
                    _ => {
                        assert forall|i: int| i != who && 0 <= i < m.parties.len() implies
                            next.parties[i] == m.parties[i] by {}
                    },
                }
            }
        },
    }
}

/// Whether `mv` is a move of a party in its critical section.
pub open spec fn is_work(c: CountingModel, mv: ModelMove) -> bool {
    mv matches ModelMove::Step { who } && at_work(c, who)
}

/// A move inside a critical section keeps the invariant.
proof fn lemma_work_keeps_inv(c: CountingModel, who: int)
    requires
        counting_inv(c),
        at_work(c, who),
    ensures
        counting_inv(counting_step(c, ModelMove::Step { who })),
{
    let mv = ModelMove::Step { who };
    let next = counting_step(c, mv);
    lemma_step_keeps_inv(c.lock, mv);
    lemma_holder_changes(c.lock, mv);
    match c.work[who] {
        Work::Wrote => {
            lemma_total_update(c.done, who, c.done[who] + 1);
            assert(next.lock.word == UNLOCKED);
            assert forall|i: int| 0 <= i < next.work.len() && !holds(next.lock, i) implies
                #[trigger] next.work[i] == Work::Idle by {
                if i != who {
                    assert(!holds(c.lock, i));
                    assert(c.work[i] == Work::Idle);
                }
            }
        },
        _ => {
            assert(next.lock == c.lock);
            assert(c.lock.word != UNLOCKED);
            assert forall|i: int| #[trigger] holds(next.lock, i) implies i == who by {}
            assert forall|i: int| 0 <= i < next.work.len() && !holds(next.lock, i) implies
                #[trigger] next.work[i] == Work::Idle by {
                assert(c.work[i] == Work::Idle);
            }
        },
    }
}

/// A move of the lock alone keeps the invariant.
proof fn lemma_lock_move_keeps_inv(c: CountingModel, mv: ModelMove)
    requires
        counting_inv(c),
        !is_work(c, mv),
    ensures
        counting_inv(counting_step(c, mv)),
{
    let next = counting_step(c, mv);
    lemma_step_keeps_inv(c.lock, mv);
    lemma_holder_changes(c.lock, mv);
    assert(next.lock == model_step(c.lock, mv));
    assert(next.work == c.work && next.done == c.done && next.counter == c.counter);
    assert forall|i: int| #[trigger] holds(c.lock, i) implies holds(next.lock, i) by {
        if mv == (ModelMove::Step { who: i }) {
            assert(at_work(c, i));
        }
    }
    assert forall|i: int| 0 <= i < next.work.len() && !holds(next.lock, i) implies #[trigger]
        next.work[i] == Work::Idle by {
        assert(!holds(c.lock, i));
    }
    assert forall|i: int| #[trigger] holds(next.lock, i) implies next.counter == total(next.done)
        + added(next.work[i]) && (next.work[i] matches Work::Read { value } ==> value
        == next.counter) by {
        if !holds(c.lock, i) {
            assert(c.lock.word == UNLOCKED);
            assert(c.work[i] == Work::Idle);
        }
    }
    if next.lock.word == UNLOCKED && c.lock.word != UNLOCKED {
        let h = choose|h: int| holds(c.lock, h);
        assert(holds(c.lock, h));
        assert(holds(next.lock, h));
    }
}

/// One move keeps the invariant.
pub proof fn lemma_counting_step_keeps_inv(c: CountingModel, mv: ModelMove)
    requires
        counting_inv(c),
    ensures
        counting_inv(counting_step(c, mv)),
        counting_step(c, mv).done.len() == c.done.len(),
{
    lemma_step_keeps_inv(c.lock, mv);
    match mv {
        ModelMove::Step { who } => {
            if at_work(c, who) {
                lemma_work_keeps_inv(c, who);
            } else {
                lemma_lock_move_keeps_inv(c, mv);
            }
        },
        ModelMove::Interrupt { .. } => {
            lemma_lock_move_keeps_inv(c, mv);
        },
    }
}

/// No update is lost: whatever the order in which `n` parties move and
/// whichever waits end early, the counter holds the number of critical
/// sections completed whenever the lock is free, and at most one more while
/// it is held.
pub proof fn lemma_no_update_is_lost(n: nat, schedule: Seq<ModelMove>)
    ensures
        counting_inv(counting_run(n, schedule)),
        counting_run(n, schedule).done.len() == n,
        counting_run(n, schedule).lock.word == UNLOCKED ==> counting_run(n, schedule).counter
            == total(counting_run(n, schedule).done),
        total(counting_run(n, schedule).done) <= counting_run(n, schedule).counter <= total(
            counting_run(n, schedule).done,
        ) + 1,
    decreases schedule.len(),
{
    if schedule.len() == 0 {
        let c = counting_init(n);
        assert(model_inv(c.lock));
        lemma_total_of_equals(c.done, 0);
        assert(counting_inv(c));
    } else {
        lemma_no_update_is_lost(n, schedule.drop_last());
        lemma_counting_step_keeps_inv(counting_run(n, schedule.drop_last()), schedule.last());
    }
    let c = counting_run(n, schedule);
    if c.lock.word != UNLOCKED {
        let h = choose|h: int| holds(c.lock, h);
        assert(holds(c.lock, h));
    }
}

/// When each of `n` parties has completed `k` critical sections and none
/// wants the lock any more, the lock is free and the counter holds `n * k`.
pub proof fn lemma_counter_after_equal_shares(n: nat, schedule: Seq<ModelMove>, k: nat)
    requires
        forall|i: int| 0 <= i < n ==> !takes_part(counting_run(n, schedule).lock, i),
        forall|i: int| 0 <= i < n ==> counting_run(n, schedule).done[i] == k,
    ensures
        counting_run(n, schedule).lock.word == UNLOCKED,
        counting_run(n, schedule).counter == n * k,
{
    let c = counting_run(n, schedule);
    lemma_no_update_is_lost(n, schedule);
    lemma_total_of_equals(c.done, k);
    if c.lock.word != UNLOCKED {
        let h = choose|h: int| holds(c.lock, h);
        assert(holds(c.lock, h));
        assert(takes_part(c.lock, h));
    }
}

} // verus!
