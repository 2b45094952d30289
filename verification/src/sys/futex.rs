//! The lock protocol of a cross-process mutex over one `u32` word.
//!
//! The word holds 0 (unlocked), 1 (locked, nobody waits) or 2 (locked,
//! somebody may wait). A party that wants the lock runs the machine below: it
//! performs the operation that `pending` names on the shared word, hands the
//! outcome to `advance`, and repeats until the phase is `Held`. The machine
//! never touches the word itself, so the caller is free to keep the word in
//! shared memory and to wait on it with the system's futex call.

use vstd::prelude::*;

verus! {

/// Attempts made while spinning before a party starts to block.
pub const MAX_SPIN_COUNT: u32 = 100;

/// Word value of a free lock.
pub const UNLOCKED: u32 = 0;

/// Word value of a lock that is held while nobody waits.
pub const LOCKED_UNCONTENDED: u32 = 1;

/// Word value of a lock that is held while somebody may wait.
pub const LOCKED_CONTENDED: u32 = 2;

/// Where a party stands on its way to the lock.
#[derive(Clone, Copy, Debug, PartialEq, Eq, Structural)]
pub enum LockPhase {
    /// About to make the one attempt of the fast path.
    Fast,
    /// Spinning, with `left` attempts to go.
    Spin { left: u32 },
    /// About to read the word again, after spinning or after a wake-up.
    Reload,
    /// On the blocking path, having last seen the word at `seen`.
    Block { seen: u32 },
    /// The lock is held.
    Held,
}

/// The operation on the shared word that a phase asks for.
#[derive(Clone, Copy, Debug, PartialEq, Eq, Structural)]
pub enum LockAction {
    /// Replace `expect` by `store`, if the word holds `expect`.
    Exchange { expect: u32, store: u32 },
    /// Read the word.
    Load,
    /// Sleep on the word while it holds `expect`.
    Wait { expect: u32 },
    /// Nothing is left to do: the lock is held.
    Enter,
    /// The word held a value that is no lock state.
    Fault,
}

/// What an operation on the shared word brought back.
#[derive(Clone, Copy, Debug, PartialEq, Eq, Structural)]
pub enum LockEvent {
    /// An exchange ended; `swapped` says whether it stored, `seen` is the
    /// value the word held before.
    Exchanged { swapped: bool, seen: u32 },
    /// A read returned `value`.
    Loaded { value: u32 },
    /// A wait returned, for whatever reason.
    Woken,
}

/// The operation that `phase` asks for.
pub open spec fn pending_spec(phase: LockPhase) -> LockAction {
    match phase {
        LockPhase::Fast => LockAction::Exchange { expect: 0, store: 1 },
        LockPhase::Spin { left } => if left > 0 {
            LockAction::Exchange { expect: 0, store: 1 }
        } else {
            LockAction::Load
        },
        LockPhase::Reload => LockAction::Load,
        LockPhase::Block { seen } => if seen == 1 {
            LockAction::Exchange { expect: 1, store: 2 }
        } else if seen == 0 {
            LockAction::Exchange { expect: 0, store: 2 }
        } else if seen == 2 {
            LockAction::Wait { expect: 2 }
        } else {
            LockAction::Fault
        },
        LockPhase::Held => LockAction::Enter,
    }
}

/// Whether `event` is an outcome of the operation that `phase` asks for.
pub open spec fn answers(phase: LockPhase, event: LockEvent) -> bool {
    match (pending_spec(phase), event) {
        (LockAction::Exchange { expect, .. }, LockEvent::Exchanged { swapped, seen }) => swapped
            <==> seen == expect,
        (LockAction::Load, LockEvent::Loaded { .. }) => true,
        (LockAction::Wait { .. }, LockEvent::Woken) => true,
        _ => false,
    }
}

/// The phase that follows `phase` once `event` has come back. An event that
/// does not answer the pending operation leaves the phase as it is.
pub open spec fn advance_spec(phase: LockPhase, event: LockEvent) -> LockPhase {
    if !answers(phase, event) {
        phase
    } else {
        match (phase, event) {
            (LockPhase::Fast, LockEvent::Exchanged { swapped, .. }) => if swapped {
                LockPhase::Held
            } else {
                LockPhase::Spin { left: MAX_SPIN_COUNT }
            },
            (LockPhase::Spin { left }, LockEvent::Exchanged { swapped, .. }) => if swapped {
                LockPhase::Held
            } else {
                LockPhase::Spin { left: (left - 1) as u32 }
            },
            (LockPhase::Spin { .. }, LockEvent::Loaded { value }) => LockPhase::Block {
                seen: value,
            },
            (LockPhase::Reload, LockEvent::Loaded { value }) => LockPhase::Block { seen: value },
            (LockPhase::Block { seen: before }, LockEvent::Exchanged { swapped, seen }) => if !swapped {
                LockPhase::Block { seen }
            } else if before == 0 {
                LockPhase::Held
            } else {
                LockPhase::Block { seen: LOCKED_CONTENDED }
            },
            (LockPhase::Block { .. }, LockEvent::Woken) => LockPhase::Reload,
            _ => phase,
        }
    }
}

impl LockPhase {
    /// The phase in which every attempt to lock starts.
    pub fn start() -> (phase: LockPhase)
        ensures
            phase == LockPhase::Fast,
    {
        LockPhase::Fast
    }

    /// The operation to perform on the shared word next.
    pub fn pending(&self) -> (action: LockAction)
        ensures
            action == pending_spec(*self),
    {
        match *self {
            LockPhase::Fast => LockAction::Exchange {
                expect: UNLOCKED,
                store: LOCKED_UNCONTENDED,
            },
            LockPhase::Spin { left } => {
                if left > 0 {
                    LockAction::Exchange { expect: UNLOCKED, store: LOCKED_UNCONTENDED }
                } else {
                    LockAction::Load
                }
            },
            LockPhase::Reload => LockAction::Load,
            LockPhase::Block { seen } => {
                if seen == LOCKED_UNCONTENDED {
                    LockAction::Exchange { expect: LOCKED_UNCONTENDED, store: LOCKED_CONTENDED }
                } else if seen == UNLOCKED {
                    LockAction::Exchange { expect: UNLOCKED, store: LOCKED_CONTENDED }
                } else if seen == LOCKED_CONTENDED {
                    LockAction::Wait { expect: LOCKED_CONTENDED }
                } else {
                    LockAction::Fault
                }
            },
            LockPhase::Held => LockAction::Enter,
        }
    }

    /// Whether `event` is an outcome of the pending operation.
    pub fn accepts(&self, event: LockEvent) -> (ok: bool)
        ensures
            ok == answers(*self, event),
    {
        match (self.pending(), event) {
            (LockAction::Exchange { expect, store: _ }, LockEvent::Exchanged { swapped, seen }) => {
                swapped == (seen == expect)
            },
            (LockAction::Load, LockEvent::Loaded { value: _ }) => true,
            (LockAction::Wait { expect: _ }, LockEvent::Woken) => true,
            _ => false,
        }
    }

    /// Takes the outcome of the pending operation and moves on.
    pub fn advance(self, event: LockEvent) -> (next: LockPhase)
        ensures
            next == advance_spec(self, event),
    {
        if !self.accepts(event) {
            return self;
        }
        match (self, event) {
            (LockPhase::Fast, LockEvent::Exchanged { swapped, seen: _ }) => {
                if swapped {
                    LockPhase::Held
                } else {
                    LockPhase::Spin { left: MAX_SPIN_COUNT }
                }
            },
            (LockPhase::Spin { left }, LockEvent::Exchanged { swapped, seen: _ }) => {
                if swapped {
                    LockPhase::Held
                } else {
                    LockPhase::Spin { left: left - 1 }
                }
            },
            (LockPhase::Spin { left: _ }, LockEvent::Loaded { value }) => LockPhase::Block {
                seen: value,
            },
            (LockPhase::Reload, LockEvent::Loaded { value }) => LockPhase::Block { seen: value },
            (LockPhase::Block { seen: before }, LockEvent::Exchanged { swapped, seen }) => {
                if !swapped {
                    LockPhase::Block { seen }
                } else if before == UNLOCKED {
                    LockPhase::Held
                } else {
                    LockPhase::Block { seen: LOCKED_CONTENDED }
                }
            },
            (LockPhase::Block { seen: _ }, LockEvent::Woken) => LockPhase::Reload,
            _ => self,
        }
    }

    /// Whether the lock is held.
    pub fn is_held(&self) -> (held: bool)
        ensures
            held == (*self == LockPhase::Held),
    {
        match *self {
            LockPhase::Held => true,
            _ => false,
        }
    }
}

/// Number of waiters to wake after the word was swapped back to 0 from
/// `previous`: one if somebody may wait, none otherwise.
pub fn unlock_wakes(previous: u32) -> (count: u32)
    ensures
        count == if previous == LOCKED_CONTENDED {
            1u32
        } else {
            0u32
        },
{
    if previous == LOCKED_CONTENDED {
        1
    } else {
        0
    }
}

/// The lock is entered only by an exchange that found the word at 0.
pub proof fn lemma_held_only_from_unlocked(phase: LockPhase, event: LockEvent)
    requires
        phase != LockPhase::Held,
        advance_spec(phase, event) == LockPhase::Held,
    ensures
        event == (LockEvent::Exchanged { swapped: true, seen: UNLOCKED }),
        pending_spec(phase) matches LockAction::Exchange { expect, .. } && expect == UNLOCKED,
{
}

/// A party that takes the lock on the blocking path leaves the word at 2, so
/// that its release wakes a waiter.
pub proof fn lemma_blocking_entry_marks_contended(seen: u32, event: LockEvent)
    requires
        advance_spec(LockPhase::Block { seen }, event) == LockPhase::Held,
    ensures
        pending_spec(LockPhase::Block { seen }) == (LockAction::Exchange {
            expect: UNLOCKED,
            store: LOCKED_CONTENDED,
        }),
{
}

/// A party sleeps only on the value 2, and only after it has seen the word at 2.
pub proof fn lemma_wait_only_when_contended(phase: LockPhase)
    requires
        pending_spec(phase) is Wait,
    ensures
        phase == (LockPhase::Block { seen: LOCKED_CONTENDED }),
        pending_spec(phase) == (LockAction::Wait { expect: LOCKED_CONTENDED }),
{
}

/// The shared word, for each party the phase it is in, or `None` while it
/// does not want the lock, and for each party whether it sleeps in a wait.
pub struct MutexModel {
    pub word: u32,
    pub parties: Seq<Option<LockPhase>>,
    pub asleep: Seq<bool>,
}

/// What happens next in the model.
pub enum ModelMove {
    /// Party `who` makes its next move: it starts to lock, performs its
    /// pending operation on the word, or releases the lock it holds.
    Step { who: int },
    /// The wait of party `who` ends for no reason, as a futex wait may.
    Interrupt { who: int },
}

/// `n` parties, none of which wants the lock, around a free word.
pub open spec fn model_init(n: nat) -> MutexModel {
    MutexModel {
        word: UNLOCKED,
        parties: Seq::new(n, |i: int| None::<LockPhase>),
        asleep: Seq::new(n, |i: int| false),
    }
}

/// Whether party `who` holds the lock.
pub open spec fn holds(m: MutexModel, who: int) -> bool {
    0 <= who < m.parties.len() && m.parties[who] == Some(LockPhase::Held)
}

/// Whether party `who` sleeps in a wait.
pub open spec fn sleeps(m: MutexModel, who: int) -> bool {
    0 <= who < m.asleep.len() && m.asleep[who]
}

/// Whether party `who` is awake on the blocking path: it is bound to look
/// at the word again, and to mark it contended before it sleeps or enters.
pub open spec fn on_its_way(m: MutexModel, who: int) -> bool {
    &&& 0 <= who < m.parties.len()
    &&& who < m.asleep.len()
    &&& !m.asleep[who]
    &&& m.parties[who] matches Some(phase)
    &&& (phase is Reload || phase is Block)
}

/// The model after the wait of party `who` has ended.
pub open spec fn woken(m: MutexModel, who: int) -> MutexModel {
    MutexModel {
        parties: m.parties.update(who, Some(LockPhase::Reload)),
        asleep: m.asleep.update(who, false),
        ..m
    }
}

/// The model after one sleeper, if there is any, has been woken.
pub open spec fn wake_one(m: MutexModel) -> MutexModel {
    if exists|t: int| sleeps(m, t) {
        woken(m, choose|t: int| sleeps(m, t))
    } else {
        m
    }
}

/// One atomic move. A party that sleeps makes no move of its own. A wait
/// puts the party to sleep if the word holds what the party expects, and
/// returns at once if not. A release that finds the word at 2 wakes one
/// sleeper.
pub open spec fn model_step(m: MutexModel, mv: ModelMove) -> MutexModel {
    match mv {
        ModelMove::Interrupt { who } => if sleeps(m, who) && who < m.parties.len() {
            woken(m, who)
        } else {
            m
        },
        ModelMove::Step { who } => if !(0 <= who < m.parties.len()) || sleeps(m, who) {
            m
        } else {
            match m.parties[who] {
                None => MutexModel { parties: m.parties.update(who, Some(LockPhase::Fast)), ..m },
                Some(LockPhase::Held) => {
                    let released = MutexModel {
                        word: UNLOCKED,
                        parties: m.parties.update(who, None),
                        ..m
                    };
                    if m.word == LOCKED_CONTENDED {
                        wake_one(released)
                    } else {
                        released
                    }
                },
                Some(phase) => match pending_spec(phase) {
                    LockAction::Exchange { expect, store } => if m.word == expect {
                        MutexModel {
                            word: store,
                            parties: m.parties.update(
                                who,
                                Some(
                                    advance_spec(
                                        phase,
                                        LockEvent::Exchanged { swapped: true, seen: expect },
                                    ),
                                ),
                            ),
                            ..m
                        }
                    } else {
                        MutexModel {
                            parties: m.parties.update(
                                who,
                                Some(
                                    advance_spec(
                                        phase,
                                        LockEvent::Exchanged { swapped: false, seen: m.word },
                                    ),
                                ),
                            ),
                            ..m
                        }
                    },
                    LockAction::Load => MutexModel {
                        parties: m.parties.update(
                            who,
                            Some(advance_spec(phase, LockEvent::Loaded { value: m.word })),
                        ),
                        ..m
                    },
                    LockAction::Wait { expect } => if m.word == expect {
                        MutexModel { asleep: m.asleep.update(who, true), ..m }
                    } else {
                        MutexModel {
                            parties: m.parties.update(
                                who,
                                Some(advance_spec(phase, LockEvent::Woken)),
                            ),
                            ..m
                        }
                    },
                    _ => m,
                },
            }
        }
    }
}

/// The model after the moves of `schedule`, in order.
pub open spec fn model_run(n: nat, schedule: Seq<ModelMove>) -> MutexModel
    decreases schedule.len(),
{
    if schedule.len() == 0 {
        model_init(n)
    } else {
        model_step(model_run(n, schedule.drop_last()), schedule.last())
    }
}

/// Whether a party on the blocking path last saw a lock state in the word.
pub open spec fn saw_lock_state(party: Option<LockPhase>) -> bool {
    match party {
        Some(LockPhase::Block { seen }) => seen <= LOCKED_CONTENDED,
        _ => true,
    }
}

/// What holds of the model at all times. The word is a lock state, and it is
/// not 0 exactly while some party holds the lock; at most one party does. No
/// party has seen a value that is no lock state. A party sleeps only in the
/// wait of the blocking path. And no wake-up is lost: while a party sleeps,
/// the word is at 2, so that the release of the lock wakes a sleeper, or
/// some party is awake on the blocking path, and will put the word at 2
/// before it sleeps or enters.
pub open spec fn model_inv(m: MutexModel) -> bool {
    &&& m.word <= LOCKED_CONTENDED
    &&& m.asleep.len() == m.parties.len()
    &&& forall|i: int| #[trigger] holds(m, i) ==> m.word != UNLOCKED
    &&& forall|i: int, j: int| #[trigger] holds(m, i) && #[trigger] holds(m, j) ==> i == j
    &&& m.word != UNLOCKED ==> exists|i: int| holds(m, i)
    &&& forall|i: int| 0 <= i < m.parties.len() ==> saw_lock_state(#[trigger] m.parties[i])
    &&& forall|i: int| #[trigger]
        sleeps(m, i) ==> m.parties[i] == Some(LockPhase::Block { seen: LOCKED_CONTENDED })
    &&& (exists|i: int| sleeps(m, i)) ==> m.word == LOCKED_CONTENDED || exists|j: int|
        on_its_way(m, j)
}

/// Waking a sleeper keeps who holds the lock, and puts the sleeper on its
/// way.
proof fn lemma_woken(m: MutexModel, who: int)
    requires
        sleeps(m, who),
        m.asleep.len() == m.parties.len(),
    ensures
        on_its_way(woken(m, who), who),
        woken(m, who).word == m.word,
        forall|i: int| holds(woken(m, who), i) ==> i != who && holds(m, i),
        forall|i: int|
            0 <= i < m.parties.len() && i != who ==> woken(m, who).parties[i] == m.parties[i],
        forall|i: int| sleeps(woken(m, who), i) ==> i != who && sleeps(m, i),
        forall|i: int| i != who && on_its_way(m, i) ==> on_its_way(woken(m, who), i),
{
}

/// One move keeps the invariant.
pub proof fn lemma_step_keeps_inv(m: MutexModel, mv: ModelMove)
    requires
        model_inv(m),
    ensures
        model_inv(model_step(m, mv)),
        model_step(m, mv).parties.len() == m.parties.len(),
{
    let next = model_step(m, mv);
    match mv {
        ModelMove::Interrupt { who } => {
            if sleeps(m, who) {
                lemma_woken(m, who);
                lemma_inv_after(m, next, who);
            }
        },
        ModelMove::Step { who } => {
            if 0 <= who < m.parties.len() && !sleeps(m, who) {
                match m.parties[who] {
                    Some(LockPhase::Held) => {
                        assert(holds(m, who));
                        let released = MutexModel {
                            word: UNLOCKED,
                            parties: m.parties.update(who, None),
                            ..m
                        };
                        assert forall|i: int| !holds(released, i) by {
                            if holds(released, i) {
                                assert(holds(m, i));
                            }
                        }
                        assert forall|j: int| on_its_way(m, j) implies on_its_way(released, j) by {
                            assert(j != who);
                        }
                        if m.word == LOCKED_CONTENDED && exists|t: int| sleeps(released, t) {
                            let t = choose|t: int| sleeps(released, t);
                            assert(sleeps(m, t));
                            lemma_woken(released, t);
                            assert(on_its_way(next, t));
                            assert forall|i: int| !holds(next, i) by {
                                if holds(next, i) {
                                    assert(holds(released, i));
                                }
                            }
                            assert forall|i: int| #[trigger] sleeps(next, i) implies next.parties[i]
                                == Some(LockPhase::Block { seen: LOCKED_CONTENDED }) by {
                                assert(sleeps(m, i));
                            }
                            assert forall|i: int| 0 <= i < next.parties.len() implies saw_lock_state(
                                #[trigger] next.parties[i],
                            ) by {
                                if i != t {
                                    assert(saw_lock_state(m.parties[i]));
                                }
                            }
                        } else {
                            assert(next == released);
                            assert forall|i: int| #[trigger] sleeps(next, i) implies next.parties[i]
                                == Some(LockPhase::Block { seen: LOCKED_CONTENDED }) by {
                                assert(sleeps(m, i));
                            }
                            assert forall|i: int| 0 <= i < next.parties.len() implies saw_lock_state(
                                #[trigger] next.parties[i],
                            ) by {
                                assert(saw_lock_state(m.parties[i]));
                            }
                            if exists|i: int| sleeps(next, i) {
                                let i = choose|i: int| sleeps(next, i);
                                assert(sleeps(m, i));
                                // The word was not at 2, so somebody was on its way.
                                let j = choose|j: int| on_its_way(m, j);
                                assert(on_its_way(next, j));
                            }
                        }
                    },
                    _ => {
                        lemma_inv_after(m, next, who);
                    },
                }
            }
        },
    }
}

/// The invariant after a move of party `who` that is no release: the move
/// changes at most the word and what is known of `who`.
proof fn lemma_inv_after(m: MutexModel, next: MutexModel, who: int)
    requires
        model_inv(m),
        0 <= who < m.parties.len(),
        m.parties[who] != Some(LockPhase::Held),
        next == model_step(m, ModelMove::Step { who }) || next == model_step(
            m,
            ModelMove::Interrupt { who },
        ),
    ensures
        model_inv(next),
        next.parties.len() == m.parties.len(),
{
    assert(next.parties.len() == m.parties.len());
    assert(next.asleep.len() == m.asleep.len());
    assert forall|i: int| i != who && 0 <= i < m.parties.len() implies next.parties[i]
        == m.parties[i] && next.asleep[i] == m.asleep[i] by {}
    assert forall|i: int| #[trigger] holds(next, i) implies next.word != UNLOCKED by {
        if i != who {
            assert(holds(m, i));
        }
    }
    assert forall|i: int, j: int| #[trigger] holds(next, i) && #[trigger] holds(next, j) implies i
        == j by {
        if i != who {
            assert(holds(m, i));
        }
        if j != who {
            assert(holds(m, j));
        }
    }
    if next.word != UNLOCKED {
        if m.word != UNLOCKED {
            let h = choose|h: int| holds(m, h);
            assert(h != who);
            assert(holds(next, h));
        } else {
            assert(holds(next, who));
        }
    }
    assert forall|i: int| 0 <= i < next.parties.len() implies saw_lock_state(
        #[trigger] next.parties[i],
    ) by {
        assert(saw_lock_state(m.parties[i]));
    }
    assert forall|i: int| #[trigger] sleeps(next, i) implies next.parties[i] == Some(
        LockPhase::Block { seen: LOCKED_CONTENDED },
    ) by {
        if i != who {
            assert(sleeps(m, i));
        }
    }
    if exists|i: int| sleeps(next, i) {
        if next.word != LOCKED_CONTENDED {
            if on_its_way(next, who) {
            } else {
                // The mover is not on its way, and the word is not at 2.
                let i = choose|i: int| sleeps(next, i);
                if i != who {
                    assert(sleeps(m, i));
                    assert(m.word != LOCKED_CONTENDED);
                    let j = choose|j: int| on_its_way(m, j);
                    assert(j != who);
                    assert(on_its_way(next, j));
                }
            }
        }
    }
}

/// Mutual exclusion, and no lost wake-up: whatever the order in which `n`
/// parties move and whichever waits end early, at most one party holds the
/// lock, no party ever meets a word that is no lock state, and while a party
/// sleeps, the word is at 2 or some party is awake on the blocking path.
pub proof fn lemma_mutual_exclusion(n: nat, schedule: Seq<ModelMove>)
    ensures
        model_inv(model_run(n, schedule)),
        model_run(n, schedule).parties.len() == n,
        forall|i: int, j: int|
            holds(model_run(n, schedule), i) && holds(model_run(n, schedule), j) ==> i == j,
    decreases schedule.len(),
{
    if schedule.len() == 0 {
        assert(model_inv(model_init(n)));
    } else {
        lemma_mutual_exclusion(n, schedule.drop_last());
        lemma_step_keeps_inv(model_run(n, schedule.drop_last()), schedule.last());
    }
}

/// A sleeper is woken: when parties sleep and nobody is awake on the
/// blocking path, some party holds the lock with the word at 2, and its
/// release wakes one of the sleepers, which is then on its way.
pub proof fn lemma_release_wakes_a_sleeper(m: MutexModel)
    requires
        model_inv(m),
        exists|i: int| sleeps(m, i),
        forall|j: int| !on_its_way(m, j),
    ensures
        m.word == LOCKED_CONTENDED,
        exists|h: int| holds(m, h) && !sleeps(m, h) && exists|t: int| sleeps(m, t) && on_its_way(
            model_step(m, ModelMove::Step { who: h }),
            t,
        ),
{
    let h = choose|h: int| holds(m, h);
    assert(holds(m, h));
    assert(!sleeps(m, h));
    let released = MutexModel { word: UNLOCKED, parties: m.parties.update(h, None), ..m };
    let i = choose|i: int| sleeps(m, i);
    assert(i != h);
    assert(sleeps(released, i));
    let t = choose|t: int| sleeps(released, t);
    assert(sleeps(m, t));
    lemma_woken(released, t);
    assert(model_step(m, ModelMove::Step { who: h }) == woken(released, t));
    assert(sleeps(m, t) && on_its_way(model_step(m, ModelMove::Step { who: h }), t));
}

/// Whether party `who` wants the lock or holds it.
pub open spec fn takes_part(m: MutexModel, who: int) -> bool {
    0 <= who < m.parties.len() && m.parties[who] is Some
}

/// The move of a party that takes part and is awake changes the model.
proof fn lemma_awake_move_changes(m: MutexModel, who: int)
    requires
        model_inv(m),
        takes_part(m, who),
        !sleeps(m, who),
    ensures
        model_step(m, ModelMove::Step { who }) != m,
{
    let next = model_step(m, ModelMove::Step { who });
    assert(saw_lock_state(m.parties[who]));
    match m.parties[who] {
        Some(LockPhase::Held) => {
            let released = MutexModel {
                word: UNLOCKED,
                parties: m.parties.update(who, None),
                ..m
            };
            assert(holds(m, who));
            assert(released.word != m.word);
            if m.word == LOCKED_CONTENDED && exists|t: int| sleeps(released, t) {
                let t = choose|t: int| sleeps(released, t);
                assert(woken(released, t).word == UNLOCKED);
            }
            assert(next.word == UNLOCKED);
        },
        Some(phase) => {
            assert(next.word != m.word || next.parties[who] != m.parties[who] || next.asleep[who]
                != m.asleep[who]);
        },
        None => {},
    }
}

/// The model is never stuck: while a party wants the lock or holds it, some
/// such party is awake, and its next move changes the model.
pub proof fn lemma_some_party_can_move(m: MutexModel)
    requires
        model_inv(m),
        exists|i: int| takes_part(m, i),
    ensures
        exists|j: int|
            takes_part(m, j) && !sleeps(m, j) && model_step(m, ModelMove::Step { who: j }) != m,
{
    let i = choose|i: int| takes_part(m, i);
    let j = if !sleeps(m, i) {
        i
    } else if exists|w: int| on_its_way(m, w) {
        choose|w: int| on_its_way(m, w)
    } else {
        assert(m.word == LOCKED_CONTENDED);
        choose|h: int| holds(m, h)
    };
    assert(takes_part(m, j) && !sleeps(m, j)) by {
        if sleeps(m, i) && !(exists|w: int| on_its_way(m, w)) {
            assert(holds(m, j));
        }
    }
    lemma_awake_move_changes(m, j);
}

/// The model after `k` moves of party `who`, with no move of another party
/// in between.
pub open spec fn moves_alone(m: MutexModel, who: int, k: nat) -> MutexModel
    decreases k,
{
    if k == 0 {
        m
    } else {
        model_step(moves_alone(m, who, (k - 1) as nat), ModelMove::Step { who })
    }
}

/// A free lock is taken: a party that wants the lock and is awake while the
/// word is at 0 holds the lock after at most three moves of its own, if no
/// other party moves in between.
pub proof fn lemma_free_lock_is_taken(m: MutexModel, who: int)
    requires
        model_inv(m),
        m.word == UNLOCKED,
        takes_part(m, who),
        !sleeps(m, who),
    ensures
        exists|k: nat| 1 <= k <= 3 && holds(moves_alone(m, who, k), who),
{
    let mv = ModelMove::Step { who };
    let m1 = model_step(m, mv);
    let m2 = model_step(m1, mv);
    let m3 = model_step(m2, mv);
    assert(moves_alone(m, who, 0) == m);
    assert(moves_alone(m, who, 1) == m1);
    assert(moves_alone(m, who, 2) == m2);
    assert(moves_alone(m, who, 3) == m3);
    assert(!holds(m, who));
    assert(saw_lock_state(m.parties[who]));
    let taken: nat = match m.parties[who] {
        Some(LockPhase::Fast) => 1,
        Some(LockPhase::Spin { left }) => if left > 0 {
            1
        } else {
            2
        },
        Some(LockPhase::Reload) => 2,
        Some(LockPhase::Block { seen }) => if seen == 0 {
            1
        } else if seen == 1 {
            2
        } else {
            3
        },
        _ => 1,
    };
    if taken >= 2 {
        assert(m1.word == UNLOCKED && !sleeps(m1, who));
        if taken == 3 {
            assert(m1.parties[who] == Some(LockPhase::Reload));
            assert(m2.word == UNLOCKED && !sleeps(m2, who));
            assert(m2.parties[who] == Some(LockPhase::Block { seen: UNLOCKED }));
        } else {
            assert(m1.parties[who] == Some(LockPhase::Block { seen: UNLOCKED }));
        }
    }
    assert(holds(moves_alone(m, who, taken), who));
}

/// The model after the moves of `schedule`, in order, from `m` on.
pub open spec fn run_from(m: MutexModel, schedule: Seq<ModelMove>) -> MutexModel
    decreases schedule.len(),
{
    if schedule.len() == 0 {
        m
    } else {
        model_step(run_from(m, schedule.drop_last()), schedule.last())
    }
}

/// Whether no wait ends early in `schedule`: every move is a party's own.
pub open spec fn only_steps(schedule: Seq<ModelMove>) -> bool {
    forall|i: int| 0 <= i < schedule.len() ==> (#[trigger] schedule[i]) is Step
}

/// `k` moves of party `who`.
pub open spec fn alone(who: int, k: nat) -> Seq<ModelMove> {
    Seq::new(k, |i: int| ModelMove::Step { who })
}

/// How many parties sleep.
pub open spec fn count_asleep(asleep: Seq<bool>) -> nat
    decreases asleep.len(),
{
    if asleep.len() == 0 {
        0
    } else {
        count_asleep(asleep.drop_last()) + if asleep.last() {
            1nat
        } else {
            0nat
        }
    }
}

/// One move more at the end of a schedule is one step more of the model.
proof fn lemma_run_from_push(m: MutexModel, schedule: Seq<ModelMove>, mv: ModelMove)
    ensures
        run_from(m, schedule.push(mv)) == model_step(run_from(m, schedule), mv),
{
    assert(schedule.push(mv).drop_last() =~= schedule);
}

/// A schedule that is run in two parts gives what it gives when run whole.
proof fn lemma_run_from_concat(m: MutexModel, first: Seq<ModelMove>, then: Seq<ModelMove>)
    ensures
        run_from(m, first + then) == run_from(run_from(m, first), then),
    decreases then.len(),
{
    if then.len() == 0 {
        assert(first + then =~= first);
    } else {
        lemma_run_from_concat(m, first, then.drop_last());
        assert((first + then).drop_last() =~= first + then.drop_last());
    }
}

/// Moves of one party alone are a schedule of its moves.
proof fn lemma_moves_alone_is_run(m: MutexModel, who: int, k: nat)
    ensures
        moves_alone(m, who, k) == run_from(m, alone(who, k)),
        only_steps(alone(who, k)),
    decreases k,
{
    if k > 0 {
        lemma_moves_alone_is_run(m, who, (k - 1) as nat);
        assert(alone(who, k).drop_last() =~= alone(who, (k - 1) as nat));
    }
}

/// Every schedule keeps the invariant.
proof fn lemma_run_keeps_inv(m: MutexModel, schedule: Seq<ModelMove>)
    requires
        model_inv(m),
    ensures
        model_inv(run_from(m, schedule)),
    decreases schedule.len(),
{
    if schedule.len() > 0 {
        lemma_run_keeps_inv(m, schedule.drop_last());
        lemma_step_keeps_inv(run_from(m, schedule.drop_last()), schedule.last());
    }
}

/// Waking a sleeper leaves one sleeper less.
proof fn lemma_count_after_wake(asleep: Seq<bool>, t: int)
    requires
        0 <= t < asleep.len(),
        asleep[t],
    ensures
        count_asleep(asleep.update(t, false)) + 1 == count_asleep(asleep),
    decreases asleep.len(),
{
    let after = asleep.update(t, false);
    if t == asleep.len() - 1 {
        assert(after.drop_last() =~= asleep.drop_last());
    } else {
        assert(after.drop_last() =~= asleep.drop_last().update(t, false));
        lemma_count_after_wake(asleep.drop_last(), t);
    }
}

/// A party on the blocking path marks the lock contended: while the word is
/// not at 2, at most three moves of its own put it there, and nobody falls
/// asleep on the way.
proof fn lemma_word_gets_contended(m: MutexModel, who: int) -> (k: nat)
    requires
        model_inv(m),
        m.word != LOCKED_CONTENDED,
        on_its_way(m, who),
    ensures
        k <= 3,
        moves_alone(m, who, k).word == LOCKED_CONTENDED,
        moves_alone(m, who, k).asleep == m.asleep,
        moves_alone(m, who, k).parties.len() == m.parties.len(),
{
    let mv = ModelMove::Step { who };
    let m1 = model_step(m, mv);
    let m2 = model_step(m1, mv);
    let m3 = model_step(m2, mv);
    assert(moves_alone(m, who, 0) == m);
    assert(moves_alone(m, who, 1) == m1);
    assert(moves_alone(m, who, 2) == m2);
    assert(moves_alone(m, who, 3) == m3);
    assert(saw_lock_state(m.parties[who]));
    assert(!sleeps(m, who));
    let k: nat = match m.parties[who] {
        Some(LockPhase::Block { seen }) => if seen == m.word {
            1
        } else if seen == LOCKED_CONTENDED {
            3
        } else {
            2
        },
        _ => 2,
    };
    if k >= 2 {
        assert(m1.word == m.word && m1.asleep == m.asleep);
        if k == 3 {
            assert(m1.parties[who] == Some(LockPhase::Reload));
            assert(m2.word == m.word && m2.asleep == m.asleep);
            assert(m2.parties[who] == Some(LockPhase::Block { seen: m.word }));
        } else {
            assert(m1.parties[who] == Some(LockPhase::Block { seen: m.word }));
        }
    }
    k
}

/// The release of a contended lock wakes a sleeper: party `h` holds the
/// lock, party `t` sleeps, and the move of `h` frees the word and leaves `t`
/// awake and on its way, and every other party as it was.
proof fn lemma_release_wakes(m: MutexModel) -> (ht: (int, int))
    requires
        model_inv(m),
        m.word == LOCKED_CONTENDED,
        exists|i: int| sleeps(m, i),
    ensures
        holds(m, ht.0),
        sleeps(m, ht.1),
        model_step(m, ModelMove::Step { who: ht.0 }).word == UNLOCKED,
        model_step(m, ModelMove::Step { who: ht.0 }).asleep == m.asleep.update(ht.1, false),
        on_its_way(model_step(m, ModelMove::Step { who: ht.0 }), ht.1),
{
    let h = choose|h: int| holds(m, h);
    assert(holds(m, h));
    assert(!sleeps(m, h));
    let released = MutexModel { word: UNLOCKED, parties: m.parties.update(h, None), ..m };
    let i = choose|i: int| sleeps(m, i);
    assert(sleeps(released, i));
    let t = choose|t: int| sleeps(released, t);
    assert(sleeps(m, t));
    lemma_woken(released, t);
    assert(model_step(m, ModelMove::Step { who: h }) == woken(released, t));
    (h, t)
}

/// A sleeper is woken in the end: moves of the parties alone, with no wait
/// that ends early, lead to a state in which party `who` is awake and still
/// wants the lock.
proof fn lemma_sleeper_is_woken(m: MutexModel, who: int) -> (schedule: Seq<ModelMove>)
    requires
        model_inv(m),
        sleeps(m, who),
    ensures
        only_steps(schedule),
        model_inv(run_from(m, schedule)),
        takes_part(run_from(m, schedule), who),
        !sleeps(run_from(m, schedule), who),
    decreases count_asleep(m.asleep),
{
    // Somebody on the blocking path marks the lock contended.
    let first = if m.word == LOCKED_CONTENDED {
        Seq::<ModelMove>::empty()
    } else {
        let j = choose|j: int| on_its_way(m, j);
        let k = lemma_word_gets_contended(m, j);
        lemma_moves_alone_is_run(m, j, k);
        alone(j, k)
    };
    let marked = run_from(m, first);
    lemma_run_keeps_inv(m, first);
    assert(marked.word == LOCKED_CONTENDED && marked.asleep == m.asleep);
    assert(sleeps(marked, who));
    // The holder releases the lock and wakes a sleeper.
    let (h, t) = lemma_release_wakes(marked);
    let released = model_step(marked, ModelMove::Step { who: h });
    let so_far = first.push(ModelMove::Step { who: h });
    lemma_run_from_push(m, first, ModelMove::Step { who: h });
    lemma_step_keeps_inv(marked, ModelMove::Step { who: h });
    assert(only_steps(so_far));
    if t == who {
        so_far
    } else {
        lemma_count_after_wake(marked.asleep, t);
        assert(sleeps(released, who));
        let rest = lemma_sleeper_is_woken(released, who);
        lemma_run_from_concat(m, so_far, rest);
        assert(only_steps(so_far + rest));
        so_far + rest
    }
}

/// A party that is awake gets the lock: the holder, if there is one,
/// releases it, and the party takes it by moves of its own.
proof fn lemma_awake_party_takes_lock(m: MutexModel, who: int) -> (schedule: Seq<ModelMove>)
    requires
        model_inv(m),
        takes_part(m, who),
        !sleeps(m, who),
    ensures
        only_steps(schedule),
        holds(run_from(m, schedule), who),
{
    if holds(m, who) {
        Seq::<ModelMove>::empty()
    } else {
        let first = if m.word == UNLOCKED {
            Seq::<ModelMove>::empty()
        } else {
            let h = choose|h: int| holds(m, h);
            assert(holds(m, h));
            lemma_awake_release_frees(m, h, who);
            alone(h, 1)
        };
        if m.word != UNLOCKED {
            let h = choose|h: int| holds(m, h);
            lemma_moves_alone_is_run(m, h, 1);
            assert(moves_alone(m, h, 0) == m);
            assert(moves_alone(m, h, 1) == model_step(m, ModelMove::Step { who: h }));
        }
        let free = run_from(m, first);
        lemma_run_keeps_inv(m, first);
        assert(free.word == UNLOCKED);
        assert(takes_part(free, who) && !sleeps(free, who));
        lemma_free_lock_is_taken(free, who);
        let k = choose|k: nat| 1 <= k <= 3 && holds(moves_alone(free, who, k), who);
        lemma_moves_alone_is_run(free, who, k);
        lemma_run_from_concat(m, first, alone(who, k));
        assert(only_steps(first + alone(who, k)));
        first + alone(who, k)
    }
}

/// The release of the lock frees the word and leaves every party that is
/// awake as it was.
proof fn lemma_awake_release_frees(m: MutexModel, h: int, who: int)
    requires
        model_inv(m),
        holds(m, h),
        takes_part(m, who),
        !sleeps(m, who),
        who != h,
    ensures
        model_step(m, ModelMove::Step { who: h }).word == UNLOCKED,
        takes_part(model_step(m, ModelMove::Step { who: h }), who),
        !sleeps(model_step(m, ModelMove::Step { who: h }), who),
{
    assert(!sleeps(m, h));
    let released = MutexModel { word: UNLOCKED, parties: m.parties.update(h, None), ..m };
    if m.word == LOCKED_CONTENDED && exists|t: int| sleeps(released, t) {
        let t = choose|t: int| sleeps(released, t);
        assert(sleeps(m, t));
        assert(t != who);
        lemma_woken(released, t);
    }
}

/// Whoever wants the lock can still get it: from every state that the
/// invariant admits, and for every party that wants the lock, awake or
/// asleep, there are moves of the parties alone, none of them a wait that
/// ends early, after which that party holds the lock. The result is such a
/// schedule.
pub proof fn lemma_lock_can_be_taken(m: MutexModel, who: int) -> (schedule: Seq<ModelMove>)
    requires
        model_inv(m),
        takes_part(m, who),
    ensures
        only_steps(schedule),
        holds(run_from(m, schedule), who),
{
    if sleeps(m, who) {
        let first = lemma_sleeper_is_woken(m, who);
        let then = lemma_awake_party_takes_lock(run_from(m, first), who);
        lemma_run_from_concat(m, first, then);
        assert(only_steps(first + then));
        first + then
    } else {
        lemma_awake_party_takes_lock(m, who)
    }
}

/// The model that runs from the start is the model that runs from the
/// initial state.
pub proof fn lemma_run_from_start(n: nat, schedule: Seq<ModelMove>)
    ensures
        model_run(n, schedule) == run_from(model_init(n), schedule),
    decreases schedule.len(),
{
    if schedule.len() > 0 {
        lemma_run_from_start(n, schedule.drop_last());
    }
}

} // verus!
