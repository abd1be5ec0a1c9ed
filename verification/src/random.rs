use std::collections::VecDeque;

use vstd::prelude::*;

use crate::history::{
    discarded_history, first_frame, history_discard, history_restore, last_frame, restored_history,
    restored_value,
};

verus! {

/// The state `(state, increment)` of `oorandom::Rand32::new(seed)`.
pub uninterp spec fn rand32_new(seed: u64) -> (u64, u64);

/// The state of `oorandom::Rand64::new(seed)`.
pub uninterp spec fn rand64_new(seed: u128) -> (u128, u128);

/// What `oorandom::Rand32::rand_u32` gives on a generator in `state`: the
/// drawn word and the state afterwards.
pub uninterp spec fn rand32_u32(state: (u64, u64)) -> (u32, (u64, u64));

/// What `oorandom::Rand64::rand_u64` gives on a generator in `state`: the
/// drawn word and the state afterwards.
pub uninterp spec fn rand64_u64(state: (u128, u128)) -> (u64, (u128, u128));

/// Calls `oorandom::Rand32::new(seed)` and reads the state of the new
/// generator with `Rand32::state`.  The contract only names the result:
/// it depends on the seed alone.
#[verifier::external_body]
fn rand32_seeded(seed: u64) -> (r: (u64, u64))
    ensures
        r == rand32_new(seed),
{
    oorandom::Rand32::new(seed).state()
}

/// Calls `oorandom::Rand64::new(seed)` and reads the new generator's state.
#[verifier::external_body]
fn rand64_seeded(seed: u128) -> (r: (u128, u128))
    ensures
        r == rand64_new(seed),
{
    oorandom::Rand64::new(seed).state()
}

/// Rebuilds a generator from `state` with `oorandom::Rand32::from_state`,
/// draws with `Rand32::rand_u32` and reads the state afterwards.  The
/// contract names the result, which depends on `state` alone, and states
/// what the source plainly shows: the increment does not change.
#[verifier::external_body]
fn rand32_next(state: (u64, u64)) -> (r: (u32, (u64, u64)))
    ensures
        r == rand32_u32(state),
        r.1.1 == state.1,
{
    let mut rng = oorandom::Rand32::from_state(state);
    let v = rng.rand_u32();
    (v, rng.state())
}

/// Rebuilds a generator from `state` with `oorandom::Rand64::from_state`,
/// draws with `Rand64::rand_u64` and reads the state afterwards; the
/// increment does not change.
#[verifier::external_body]
fn rand64_next(state: (u128, u128)) -> (r: (u64, (u128, u128)))
    ensures
        r == rand64_u64(state),
        r.1.1 == state.1,
{
    let mut rng = oorandom::Rand64::from_state(state);
    let v = rng.rand_u64();
    (v, rng.state())
}

/// The states of both generators at one frame.
#[derive(Debug, Clone, Copy, PartialEq, Eq)]
pub struct StateRandom {
    pub state32: (u64, u64),
    pub state64: (u128, u128),
}

/// Two random streams whose states are kept per frame, so that a rollback
/// draws the same numbers again.
pub struct SystemRandom {
    history: VecDeque<(u32, StateRandom)>,
    state32: (u64, u64),
    state64: (u128, u128),
}

impl SystemRandom {
    /// The saved states, oldest first, each with its frame.
    pub closed spec fn history(&self) -> Seq<(u32, StateRandom)> {
        self.history@
    }

    /// The current states of both streams.
    pub closed spec fn current(&self) -> StateRandom {
        StateRandom { state32: self.state32, state64: self.state64 }
    }

    pub fn new(seed32: u64, seed64: u128) -> (r: SystemRandom)
        ensures
            r.history().len() == 0,
            r.current() == (StateRandom {
                state32: rand32_new(seed32),
                state64: rand64_new(seed64),
            }),
    {
        SystemRandom {
            history: VecDeque::with_capacity(120),
            state32: rand32_seeded(seed32),
            state64: rand64_seeded(seed64),
        }
    }

    /// Draws a 32-bit word.
    pub fn rand_u32(&mut self) -> (r: u32)
        ensures
            r == rand32_u32(old(self).current().state32).0,
            final(self).current() == (StateRandom {
                state32: rand32_u32(old(self).current().state32).1,
                ..old(self).current()
            }),
            final(self).history() == old(self).history(),
    {
        let (v, st) = rand32_next(self.state32);
        self.state32 = st;
        v
    }

    /// Draws a 64-bit word.
    pub fn rand_u64(&mut self) -> (r: u64)
        ensures
            r == rand64_u64(old(self).current().state64).0,
            final(self).current() == (StateRandom {
                state64: rand64_u64(old(self).current().state64).1,
                ..old(self).current()
            }),
            final(self).history() == old(self).history(),
    {
        let (v, st) = rand64_next(self.state64);
        self.state64 = st;
        v
    }

    /// Saves the current states as those of `frame`, which follows the
    /// newest saved frame (or is frame 0).
    pub fn update(&mut self, frame: u32)
        requires
            last_frame(old(self).history()) < u32::MAX,
            last_frame(old(self).history()) + 1 == frame || frame == 0,
        ensures
            final(self).history() == old(self).history().push((frame, old(self).current())),
            final(self).current() == old(self).current(),
    {
        let st = StateRandom { state32: self.state32, state64: self.state64 };
        self.history.push_back((frame, st));
    }

    /// Drops the states saved after `frame` and takes back those of the
    /// newest entry left, if any.
    pub fn restore(&mut self, frame: u32)
        requires
            last_frame(old(self).history()) >= frame,
            first_frame(old(self).history()) <= frame,
        ensures
            final(self).history() == restored_history(old(self).history(), frame),
            final(self).current() == restored_value(old(self).history(), frame, old(self).current()),
    {
        match history_restore(&mut self.history, frame) {
            Some(st) => {
                self.state32 = st.state32;
                self.state64 = st.state64;
            },
            None => {},
        }
    }

    /// Drops the states saved at or before `frame` from the front.
    pub fn discard(&mut self, frame: u32)
        requires
            first_frame(old(self).history()) <= frame,
            last_frame(old(self).history()) > frame,
        ensures
            final(self).history() == discarded_history(old(self).history(), frame),
            final(self).current() == old(self).current(),
    {
        history_discard(&mut self.history, frame);
    }

    /// How many frames of states are saved.
    pub fn history_len(&self) -> (r: usize)
        ensures
            r == self.history().len(),
    {
        self.history.len()
    }

    /// The current states of both streams.
    pub fn state(&self) -> (r: StateRandom)
        ensures
            r == self.current(),
    {
        StateRandom { state32: self.state32, state64: self.state64 }
    }
}

} // verus!
