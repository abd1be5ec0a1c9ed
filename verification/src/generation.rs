use std::collections::VecDeque;

use vstd::prelude::*;

use crate::error::{XError, XResult};
use crate::history::{
    discarded_history, first_frame, history_discard, history_restore, last_frame, restored_history,
    restored_value,
};
use crate::ids::{NumID, MAX_PLAYER_ID, MIN_AUTO_GEN_ID, MIN_PLAYER_ID};

verus! {

/// The id counters of a game at one frame.
#[derive(Debug, Clone, Copy, PartialEq, Eq, Structural)]
pub struct StateGeneration {
    pub player_id: NumID,
    pub auto_gen_id: NumID,
    pub action_id: u32,
    pub ai_task_id: u32,
}

/// Hands out ids and keeps, per frame, the counters it had, so that a
/// rollback hands out the same ids again.
pub struct SystemGeneration {
    history: VecDeque<(u32, StateGeneration)>,
    player_id: NumID,
    auto_gen_id: NumID,
    action_id: u32,
    ai_task_id: u32,
}

impl SystemGeneration {
    /// The saved counters, oldest first, each with its frame.
    pub closed spec fn history(&self) -> Seq<(u32, StateGeneration)> {
        self.history@
    }

    /// The current counters.
    pub closed spec fn counters(&self) -> StateGeneration {
        StateGeneration {
            player_id: self.player_id,
            auto_gen_id: self.auto_gen_id,
            action_id: self.action_id,
            ai_task_id: self.ai_task_id,
        }
    }

    pub fn new() -> (r: SystemGeneration)
        ensures
            r.history().len() == 0,
            r.counters() == (StateGeneration {
                player_id: NumID(MIN_PLAYER_ID),
                auto_gen_id: NumID(MIN_AUTO_GEN_ID),
                action_id: 0,
                ai_task_id: 0,
            }),
    {
        SystemGeneration {
            history: VecDeque::with_capacity(120),
            player_id: NumID(MIN_PLAYER_ID),
            auto_gen_id: NumID(MIN_AUTO_GEN_ID),
            action_id: 0,
            ai_task_id: 0,
        }
    }

    /// The next player id; `Overflow` once every player id is taken.
    pub fn gen_player_id(&mut self) -> (r: XResult<NumID>)
        ensures
            final(self).history() == old(self).history(),
            r is Ok <==> old(self).counters().player_id.0 <= MAX_PLAYER_ID,
            r matches Err(e) ==> e == XError::Overflow && final(self).counters() == old(
                self,
            ).counters(),
            r matches Ok(id) ==> id == old(self).counters().player_id && final(self).counters()
                == (StateGeneration {
                player_id: NumID((id.0 + 1) as u32),
                ..old(self).counters()
            }),
    {
        if self.player_id.0 > MAX_PLAYER_ID {
            return Err(XError::Overflow);
        }
        let id = self.player_id;
        self.player_id = NumID(self.player_id.0 + 1);
        Ok(id)
    }

    /// The next automatically generated object id.
    pub fn gen_num_id(&mut self) -> (r: NumID)
        requires
            old(self).counters().auto_gen_id.0 < u32::MAX,
        ensures
            final(self).history() == old(self).history(),
            r == old(self).counters().auto_gen_id,
            final(self).counters() == (StateGeneration {
                auto_gen_id: NumID((r.0 + 1) as u32),
                ..old(self).counters()
            }),
    {
        let id = self.auto_gen_id;
        self.auto_gen_id = NumID(self.auto_gen_id.0 + 1);
        id
    }

    /// The next action id.
    pub fn gen_action_id(&mut self) -> (r: u32)
        requires
            old(self).counters().action_id < u32::MAX,
        ensures
            final(self).history() == old(self).history(),
            r == old(self).counters().action_id,
            final(self).counters() == (StateGeneration {
                action_id: (r + 1) as u32,
                ..old(self).counters()
            }),
    {
        let id = self.action_id;
        self.action_id = self.action_id + 1;
        id
    }

    /// The next AI task id.
    pub fn gen_ai_task_id(&mut self) -> (r: u32)
        requires
            old(self).counters().ai_task_id < u32::MAX,
        ensures
            final(self).history() == old(self).history(),
            r == old(self).counters().ai_task_id,
            final(self).counters() == (StateGeneration {
                ai_task_id: (r + 1) as u32,
                ..old(self).counters()
            }),
    {
        let id = self.ai_task_id;
        self.ai_task_id = self.ai_task_id + 1;
        id
    }

    /// Saves the current counters as those of `frame`, which follows the
    /// newest saved frame (or is frame 0).
    pub fn update(&mut self, frame: u32)
        requires
            last_frame(old(self).history()) < u32::MAX,
            last_frame(old(self).history()) + 1 == frame || frame == 0,
        ensures
            final(self).history() == old(self).history().push((frame, old(self).counters())),
            final(self).counters() == old(self).counters(),
    {
        let st = StateGeneration {
            player_id: self.player_id,
            auto_gen_id: self.auto_gen_id,
            action_id: self.action_id,
            ai_task_id: self.ai_task_id,
        };
        self.history.push_back((frame, st));
    }

    /// Drops the entries saved after `frame` and takes back the counters of
    /// the newest entry left, if any.
    pub fn restore(&mut self, frame: u32)
        requires
            last_frame(old(self).history()) >= frame,
            first_frame(old(self).history()) <= frame,
        ensures
            final(self).history() == restored_history(old(self).history(), frame),
            final(self).counters() == restored_value(
                old(self).history(),
                frame,
                old(self).counters(),
            ),
    {
        match history_restore(&mut self.history, frame) {
            Some(state) => {
                self.player_id = state.player_id;
                self.auto_gen_id = state.auto_gen_id;
                self.action_id = state.action_id;
                self.ai_task_id = state.ai_task_id;
            },
            None => {},
        }
    }

    /// Drops the entries saved at or before `frame` from the front.
    pub fn discard(&mut self, frame: u32)
        requires
            first_frame(old(self).history()) <= frame,
            last_frame(old(self).history()) > frame,
        ensures
            final(self).history() == discarded_history(old(self).history(), frame),
            final(self).counters() == old(self).counters(),
    {
        history_discard(&mut self.history, frame);
    }

    /// How many frames of counters are saved.
    pub fn history_len(&self) -> (r: usize)
        ensures
            r == self.history().len(),
    {
        self.history.len()
    }

    /// The current counters.
    pub fn state(&self) -> (r: StateGeneration)
        ensures
            r == self.counters(),
    {
        StateGeneration {
            player_id: self.player_id,
            auto_gen_id: self.auto_gen_id,
            action_id: self.action_id,
            ai_task_id: self.ai_task_id,
        }
    }
}

} // verus!
