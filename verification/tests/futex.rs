use xgpu_common::sys::futex::{
    unlock_wakes, LockAction, LockEvent, LockPhase, LOCKED_CONTENDED, LOCKED_UNCONTENDED,
    MAX_SPIN_COUNT, UNLOCKED,
};

/// Performs the pending action of `phase` on `word`, as the one party that
/// runs at this moment, and returns the next phase.
fn step(phase: LockPhase, word: &mut u32) -> LockPhase {
    match phase.pending() {
        LockAction::Exchange { expect, store } => {
            let seen = *word;
            let swapped = seen == expect;
            if swapped {
                *word = store;
            }
            phase.advance(LockEvent::Exchanged { swapped, seen })
        }
        LockAction::Load => phase.advance(LockEvent::Loaded { value: *word }),
        LockAction::Wait { expect } => {
            assert_eq!(expect, LOCKED_CONTENDED);
            phase.advance(LockEvent::Woken)
        }
        LockAction::Enter => phase,
        LockAction::Fault => panic!("Invalid futex mutex status"),
    }
}

#[test]
fn fast_path_takes_a_free_lock() {
    let mut word = UNLOCKED;
    let phase = LockPhase::start();
    assert_eq!(phase, LockPhase::Fast);
    assert_eq!(
        phase.pending(),
        LockAction::Exchange { expect: 0, store: 1 }
    );
    let phase = step(phase, &mut word);
    assert!(phase.is_held());
    assert_eq!(phase.pending(), LockAction::Enter);
    assert_eq!(word, LOCKED_UNCONTENDED);
    assert_eq!(unlock_wakes(word), 0);
}

#[test]
fn a_held_lock_is_spun_on_then_blocked_on() {
    let mut word = LOCKED_UNCONTENDED;
    let mut phase = step(LockPhase::start(), &mut word);
    assert_eq!(phase, LockPhase::Spin { left: MAX_SPIN_COUNT });
    assert_eq!(MAX_SPIN_COUNT, 100);

    let mut attempts = 0;
    while let LockAction::Exchange { expect: 0, store: 1 } = phase.pending() {
        phase = step(phase, &mut word);
        attempts += 1;
    }
    assert_eq!(attempts, 100);
    assert_eq!(phase, LockPhase::Spin { left: 0 });
    assert_eq!(phase.pending(), LockAction::Load);

    phase = step(phase, &mut word);
    assert_eq!(phase, LockPhase::Block { seen: 1 });
    assert_eq!(phase.pending(), LockAction::Exchange { expect: 1, store: 2 });

    phase = step(phase, &mut word);
    assert_eq!(word, LOCKED_CONTENDED);
    assert_eq!(phase, LockPhase::Block { seen: 2 });
    assert_eq!(phase.pending(), LockAction::Wait { expect: 2 });

    // A wake-up for whatever reason: the word is read again.
    phase = step(phase, &mut word);
    assert_eq!(phase, LockPhase::Reload);
    phase = step(phase, &mut word);
    assert_eq!(phase, LockPhase::Block { seen: 2 });

    // The holder releases; it finds that somebody may wait.
    assert_eq!(unlock_wakes(word), 1);
    word = UNLOCKED;

    phase = step(phase, &mut word);
    assert_eq!(phase, LockPhase::Reload);
    phase = step(phase, &mut word);
    assert_eq!(phase, LockPhase::Block { seen: 0 });
    assert_eq!(phase.pending(), LockAction::Exchange { expect: 0, store: 2 });
    phase = step(phase, &mut word);
    assert!(phase.is_held());
    // Who enters on the blocking path leaves the word at 2, so that its
    // release wakes whoever else waits.
    assert_eq!(word, LOCKED_CONTENDED);
    assert_eq!(unlock_wakes(word), 1);
}

#[test]
fn spinning_takes_a_lock_that_comes_free() {
    let mut word = LOCKED_UNCONTENDED;
    let mut phase = step(LockPhase::start(), &mut word);
    for _ in 0..10 {
        phase = step(phase, &mut word);
    }
    assert_eq!(phase, LockPhase::Spin { left: 90 });
    word = UNLOCKED;
    phase = step(phase, &mut word);
    assert!(phase.is_held());
    assert_eq!(word, LOCKED_UNCONTENDED);
}

#[test]
fn events_that_answer_nothing_change_nothing() {
    let phase = LockPhase::Fast;
    assert!(!phase.accepts(LockEvent::Woken));
    assert!(!phase.accepts(LockEvent::Loaded { value: 0 }));
    assert!(!phase.accepts(LockEvent::Exchanged { swapped: true, seen: 1 }));
    assert!(phase.accepts(LockEvent::Exchanged { swapped: true, seen: 0 }));
    assert!(phase.accepts(LockEvent::Exchanged { swapped: false, seen: 2 }));
    assert_eq!(phase.advance(LockEvent::Woken), LockPhase::Fast);
    assert_eq!(LockPhase::Held.advance(LockEvent::Woken), LockPhase::Held);
    assert_eq!(
        LockPhase::Block { seen: 1 }.advance(LockEvent::Exchanged { swapped: false, seen: 0 }),
        LockPhase::Block { seen: 0 }
    );
    assert_eq!(LockPhase::Block { seen: 9 }.pending(), LockAction::Fault);
}

#[test]
fn test_mutex_contend() {
    const NUM_THREADS: usize = 10;
    const INCREMENTS_PER_THREAD: usize = 10_000;

    // The parties take turns in an order that a small generator scrambles;
    // each performs one operation on the word per turn. A party inside its
    // critical section reads the counter in one turn and writes it back in
    // the next, so that a lock that let two parties in would lose counts.
    let mut word = UNLOCKED;
    let mut counter = 0usize;
    let mut phases: Vec<Option<LockPhase>> = vec![None; NUM_THREADS];
    let mut read: Vec<Option<usize>> = vec![None; NUM_THREADS];
    let mut done = vec![0usize; NUM_THREADS];
    let mut seed = 0x2545_F491_4F6C_DD1Du64;
    let mut inside = 0;

    while done.iter().any(|&n| n < INCREMENTS_PER_THREAD) {
        seed ^= seed << 13;
        seed ^= seed >> 7;
        seed ^= seed << 17;
        let who = (seed % NUM_THREADS as u64) as usize;
        if done[who] == INCREMENTS_PER_THREAD {
            continue;
        }
        match phases[who] {
            None => phases[who] = Some(LockPhase::start()),
            Some(phase) if phase.is_held() => match read[who] {
                None => {
                    inside += 1;
                    assert_eq!(inside, 1, "two parties hold the lock");
                    read[who] = Some(counter);
                }
                Some(value) => {
                    counter = value + 1;
                    read[who] = None;
                    inside -= 1;
                    done[who] += 1;
                    let previous = word;
                    word = UNLOCKED;
                    let _ = unlock_wakes(previous);
                    phases[who] = None;
                }
            },
            Some(phase) => phases[who] = Some(step(phase, &mut word)),
        }
    }

    let final_count = counter;
    assert_eq!(
        final_count,
        NUM_THREADS * INCREMENTS_PER_THREAD,
        "The final count is incorrect, indicating a race condition occurred."
    );
}

#[test]
fn a_free_lock_is_taken_within_three_moves() {
    let starts = [
        (LockPhase::Fast, 1),
        (LockPhase::Spin { left: MAX_SPIN_COUNT }, 1),
        (LockPhase::Spin { left: 1 }, 1),
        (LockPhase::Spin { left: 0 }, 2),
        (LockPhase::Reload, 2),
        (LockPhase::Block { seen: UNLOCKED }, 1),
        (LockPhase::Block { seen: LOCKED_UNCONTENDED }, 2),
        (LockPhase::Block { seen: LOCKED_CONTENDED }, 3),
    ];
    for (start, moves) in starts {
        let mut word = UNLOCKED;
        let mut phase = start;
        let mut taken = 0;
        while !phase.is_held() {
            phase = step(phase, &mut word);
            taken += 1;
            assert!(taken <= 3, "{:?} does not take a free lock", start);
        }
        assert_eq!(taken, moves, "from {:?}", start);
        assert_ne!(word, UNLOCKED);
    }
}

#[test]
fn sleepers_are_woken_by_the_release() {
    const PARTIES: usize = 4;
    const SECTIONS: usize = 200;
    const TURNS_HELD: usize = 400;

    // Unlike above, a wait here puts the party to sleep while the word
    // holds what the party expects, and only a release wakes it. A holder
    // keeps the lock for longer than the others spin. If a wake-up were
    // lost, the parties left would all sleep in the end.
    let mut word = UNLOCKED;
    let mut phases: Vec<Option<LockPhase>> = vec![None; PARTIES];
    let mut asleep = vec![false; PARTIES];
    let mut done = vec![0usize; PARTIES];
    let mut slept = 0usize;
    let mut held_for = 0usize;
    let mut seed = 0x9E37_79B9_7F4A_7C15u64;

    while done.iter().any(|&n| n < SECTIONS) {
        assert!(
            (0..PARTIES).any(|i| !asleep[i] && (phases[i].is_some() || done[i] < SECTIONS)),
            "every party that is left sleeps"
        );
        seed ^= seed << 13;
        seed ^= seed >> 7;
        seed ^= seed << 17;
        let who = (seed % PARTIES as u64) as usize;
        if asleep[who] {
            continue;
        }
        match phases[who] {
            None => {
                if done[who] < SECTIONS {
                    phases[who] = Some(LockPhase::start());
                }
            }
            Some(phase) if phase.is_held() && held_for < TURNS_HELD => {
                assert_eq!(phases.iter().filter(|p| **p == Some(LockPhase::Held)).count(), 1);
                held_for += 1;
            }
            Some(phase) if phase.is_held() => {
                held_for = 0;
                let previous = word;
                word = UNLOCKED;
                done[who] += 1;
                phases[who] = None;
                if unlock_wakes(previous) > 0 {
                    if let Some(t) = (0..PARTIES).find(|&t| asleep[t]) {
                        asleep[t] = false;
                        phases[t] = phases[t].map(|p| p.advance(LockEvent::Woken));
                        assert_eq!(phases[t], Some(LockPhase::Reload));
                    }
                }
            }
            Some(phase) => match phase.pending() {
                LockAction::Wait { expect } if word == expect => {
                    asleep[who] = true;
                    slept += 1;
                }
                _ => phases[who] = Some(step(phase, &mut word)),
            },
        }
    }

    assert_eq!(word, UNLOCKED);
    assert!(asleep.iter().all(|&a| !a));
    assert!(phases.iter().all(|p| p.is_none()));
    assert_eq!(done, vec![SECTIONS; PARTIES]);
    assert!(slept > 0, "no party ever slept");
}
