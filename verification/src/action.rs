use vstd::prelude::*;

use crate::error::{XError, XResult};
use crate::ids::TmplID;

verus! {

/// Where an action is in its life.
#[derive(Debug, Clone, Copy, PartialEq, Eq, Hash, Structural)]
pub enum LogicActionStatus {
    Starting,
    Running,
    Fading,
    Stopping,
    Finalized,
}

/// An action that is starting or running.
pub open spec fn spec_action_active(s: LogicActionStatus) -> bool {
    s == LogicActionStatus::Starting || s == LogicActionStatus::Running
}

/// An action that is fading, stopping or finalized.
pub open spec fn spec_action_inactive(s: LogicActionStatus) -> bool {
    s == LogicActionStatus::Stopping || s == LogicActionStatus::Fading || s
        == LogicActionStatus::Finalized
}

impl LogicActionStatus {
    pub fn is_starting(&self) -> (r: bool)
        ensures
            r == (*self == LogicActionStatus::Starting),
    {
        *self == LogicActionStatus::Starting
    }

    pub fn is_running(&self) -> (r: bool)
        ensures
            r == (*self == LogicActionStatus::Running),
    {
        *self == LogicActionStatus::Running
    }

    pub fn is_stopping(&self) -> (r: bool)
        ensures
            r == (*self == LogicActionStatus::Stopping),
    {
        *self == LogicActionStatus::Stopping
    }

    pub fn is_fading(&self) -> (r: bool)
        ensures
            r == (*self == LogicActionStatus::Fading),
    {
        *self == LogicActionStatus::Fading
    }

    pub fn is_finalized(&self) -> (r: bool)
        ensures
            r == (*self == LogicActionStatus::Finalized),
    {
        *self == LogicActionStatus::Finalized
    }

    pub fn is_active(&self) -> (r: bool)
        ensures
            r == spec_action_active(*self),
    {
        match self {
            LogicActionStatus::Starting | LogicActionStatus::Running => true,
            _ => false,
        }
    }

    pub fn is_inactive(&self) -> (r: bool)
        ensures
            r == spec_action_inactive(*self),
    {
        match self {
            LogicActionStatus::Stopping | LogicActionStatus::Fading | LogicActionStatus::Finalized => true,
            _ => false,
        }
    }
}

/// Every action is either active or inactive, never both.
pub proof fn lemma_active_inactive_partition(s: LogicActionStatus)
    ensures
        spec_action_active(s) != spec_action_inactive(s),
{
}

/// The flag bit marking an action that may derive into itself.
pub const LA_FLAG_DERIVE_SELF: u8 = 0x1;

/// What an action's start hands back to its character.
pub struct ActionStartReturn<E> {
    pub prev_fade_update: bool,
    pub clear_preinput: bool,
    pub custom_events: Vec<E>,
}

impl<E> ActionStartReturn<E> {
    pub fn new() -> (r: Self)
        ensures
            !r.prev_fade_update,
            !r.clear_preinput,
            r.custom_events@.len() == 0,
    {
        ActionStartReturn { prev_fade_update: false, clear_preinput: false, custom_events: Vec::new() }
    }
}

/// The saved state of an action's common part, with the action's kind `T`.
#[derive(Debug, Clone, Copy)]
pub struct StateActionBase<W, T> {
    pub tmpl_id: TmplID,
    pub id: u32,
    pub typ: T,
    pub status: LogicActionStatus,
    pub flags: u8,
    pub first_frame: u32,
    pub last_frame: u32,
    pub fade_in_weight: W,
    pub derive_level: u16,
    pub poise_level: u16,
}

/// The common part of every action: its id, its template instance `inst`
/// and the id `tmpl_id` of the template it was made from, its place in the
/// life cycle, and its fade-in weight `W`.
pub struct LogicActionBase<I, W> {
    pub id: u32,
    pub inst: I,
    pub tmpl_id: TmplID,
    pub status: LogicActionStatus,
    pub flags: u8,
    pub first_frame: u32,
    pub last_frame: u32,
    pub fade_in_weight: W,
    pub derive_level: u16,
    pub poise_level: u16,
}

impl<I, W: Copy> LogicActionBase<I, W> {
    /// A new action, starting, with the fade-in weight `zero_weight`.
    pub fn new(id: u32, inst: I, tmpl_id: TmplID, zero_weight: W) -> (r: Self)
        ensures
            r.id == id,
            r.inst == inst,
            r.tmpl_id == tmpl_id,
            r.status == LogicActionStatus::Starting,
            r.flags == 0,
            r.first_frame == 0,
            r.last_frame == u32::MAX,
            r.fade_in_weight == zero_weight,
            r.derive_level == 0,
            r.poise_level == 0,
    {
        LogicActionBase {
            id,
            inst,
            tmpl_id,
            status: LogicActionStatus::Starting,
            flags: 0,
            first_frame: 0,
            last_frame: u32::MAX,
            fade_in_weight: zero_weight,
            derive_level: 0,
            poise_level: 0,
        }
    }

    /// Sets or clears the derive-self flag, leaving the other flags.
    pub fn set_derive_self(&mut self, enabled: bool)
        ensures
            *final(self) == (LogicActionBase {
                flags: if enabled {
                    old(self).flags | LA_FLAG_DERIVE_SELF
                } else {
                    old(self).flags & !LA_FLAG_DERIVE_SELF
                },
                ..*old(self)
            }),
    {
        if enabled {
            self.flags = self.flags | LA_FLAG_DERIVE_SELF;
        } else {
            self.flags = self.flags & !LA_FLAG_DERIVE_SELF;
        }
    }

    /// The id of the template the action was made from.
    pub fn tmpl_id(&self) -> (r: TmplID)
        ensures
            r == self.tmpl_id,
    {
        self.tmpl_id
    }

    /// Whether the derive-self flag is set.
    pub fn derive_self(&self) -> (r: bool)
        ensures
            r == (self.flags & LA_FLAG_DERIVE_SELF != 0),
    {
        self.flags & LA_FLAG_DERIVE_SELF != 0
    }

    /// Makes the action new again under the id `id`, keeping its template.
    pub fn reuse(&mut self, id: u32, zero_weight: W) -> (r: XResult<()>)
        ensures
            r is Ok,
            final(self).id == id,
            final(self).inst == old(self).inst,
            final(self).tmpl_id == old(self).tmpl_id,
            final(self).status == LogicActionStatus::Starting,
            final(self).flags == 0,
            final(self).first_frame == 0,
            final(self).last_frame == u32::MAX,
            final(self).fade_in_weight == zero_weight,
            final(self).derive_level == 0,
            final(self).poise_level == 0,
    {
        self.id = id;
        self.status = LogicActionStatus::Starting;
        self.flags = 0;
        self.first_frame = 0;
        self.last_frame = u32::MAX;
        self.fade_in_weight = zero_weight;
        self.derive_level = 0;
        self.poise_level = 0;
        Ok(())
    }

    /// The saved state of the common part, of kind `typ`; the flags are
    /// saved as 0.
    pub open spec fn saved<T>(self, typ: T) -> StateActionBase<W, T> {
        StateActionBase {
            tmpl_id: self.tmpl_id,
            id: self.id,
            typ,
            status: self.status,
            flags: 0,
            first_frame: self.first_frame,
            last_frame: self.last_frame,
            fade_in_weight: self.fade_in_weight,
            derive_level: self.derive_level,
            poise_level: self.poise_level,
        }
    }

    /// The action with a saved state taken back; its id, template and
    /// flags stay.
    pub open spec fn restored<T>(self, state: StateActionBase<W, T>) -> Self {
        LogicActionBase {
            status: state.status,
            first_frame: state.first_frame,
            last_frame: state.last_frame,
            fade_in_weight: state.fade_in_weight,
            derive_level: state.derive_level,
            poise_level: state.poise_level,
            ..self
        }
    }

    /// The saved state of the common part, of kind `typ`.
    pub fn save<T>(&self, typ: T) -> (r: StateActionBase<W, T>)
        ensures
            r == self.saved(typ),
    {
        StateActionBase {
            tmpl_id: self.tmpl_id,
            id: self.id,
            typ,
            status: self.status,
            flags: 0,
            first_frame: self.first_frame,
            last_frame: self.last_frame,
            fade_in_weight: self.fade_in_weight,
            derive_level: self.derive_level,
            poise_level: self.poise_level,
        }
    }

    /// Takes back a saved state.
    pub fn restore<T>(&mut self, state: &StateActionBase<W, T>)
        ensures
            *final(self) == old(self).restored(*state),
    {
        self.status = state.status;
        self.first_frame = state.first_frame;
        self.last_frame = state.last_frame;
        self.fade_in_weight = state.fade_in_weight;
        self.derive_level = state.derive_level;
        self.poise_level = state.poise_level;
    }

    /// Starts a starting action at `frame`; without a previous action to
    /// fade from, it is at once fully faded in (`full_weight`).  Nothing
    /// else changes; a failed call changes nothing.
    pub fn start(&mut self, frame: u32, has_prev_action: bool, full_weight: W) -> (r: XResult<()>)
        ensures
            r is Ok <==> old(self).status == LogicActionStatus::Starting,
            r matches Err(e) ==> e == XError::Unexpected,
            *final(self) == if r is Ok {
                LogicActionBase {
                    status: LogicActionStatus::Running,
                    first_frame: frame,
                    fade_in_weight: if has_prev_action {
                        old(self).fade_in_weight
                    } else {
                        full_weight
                    },
                    ..*old(self)
                }
            } else {
                *old(self)
            },
    {
        if self.status != LogicActionStatus::Starting {
            return Err(XError::Unexpected);
        }
        self.status = LogicActionStatus::Running;
        self.first_frame = frame;
        if !has_prev_action {
            self.fade_in_weight = full_weight;
        }
        Ok(())
    }

    /// Checks that the action is running.
    pub fn update(&self) -> (r: XResult<()>)
        ensures
            r is Ok <==> self.status == LogicActionStatus::Running,
            r matches Err(e) ==> e == XError::Unexpected,
    {
        if self.status != LogicActionStatus::Running {
            return Err(XError::Unexpected);
        }
        Ok(())
    }

    /// A running action starts fading out; nothing else changes, and a
    /// failed call changes nothing.
    pub fn fade_start(&mut self) -> (r: XResult<()>)
        ensures
            r is Ok <==> old(self).status == LogicActionStatus::Running,
            r matches Err(e) ==> e == XError::Unexpected,
            *final(self) == if r is Ok {
                LogicActionBase { status: LogicActionStatus::Fading, ..*old(self) }
            } else {
                *old(self)
            },
    {
        if self.status != LogicActionStatus::Running {
            return Err(XError::Unexpected);
        }
        self.status = LogicActionStatus::Fading;
        Ok(())
    }

    /// Checks that the action is fading.
    pub fn fade_update(&self) -> (r: XResult<()>)
        ensures
            r is Ok <==> self.status == LogicActionStatus::Fading,
            r matches Err(e) ==> e == XError::Unexpected,
    {
        if self.status != LogicActionStatus::Fading {
            return Err(XError::Unexpected);
        }
        Ok(())
    }

    /// Stops an action that is not yet stopping or finalized; nothing else
    /// changes, and a failed call changes nothing.
    pub fn stop(&mut self) -> (r: XResult<()>)
        ensures
            r is Ok <==> !(old(self).status == LogicActionStatus::Stopping || old(self).status
                == LogicActionStatus::Finalized),
            r matches Err(e) ==> e == XError::Unexpected,
            *final(self) == if r is Ok {
                LogicActionBase { status: LogicActionStatus::Stopping, ..*old(self) }
            } else {
                *old(self)
            },
    {
        match self.status {
            LogicActionStatus::Stopping | LogicActionStatus::Finalized => {
                return Err(XError::Unexpected);
            },
            _ => {},
        }
        self.status = LogicActionStatus::Stopping;
        Ok(())
    }

    /// Finalizes a stopping action at `frame`; nothing else changes, and a
    /// failed call changes nothing.
    pub fn finalize(&mut self, frame: u32) -> (r: XResult<()>)
        ensures
            r is Ok <==> old(self).status == LogicActionStatus::Stopping,
            r matches Err(e) ==> e == XError::Unexpected,
            *final(self) == if r is Ok {
                LogicActionBase { status: LogicActionStatus::Finalized, last_frame: frame, ..*old(self) }
            } else {
                *old(self)
            },
    {
        if self.status != LogicActionStatus::Stopping {
            return Err(XError::Unexpected);
        }
        self.status = LogicActionStatus::Finalized;
        self.last_frame = frame;
        Ok(())
    }

    pub fn is_starting(&self) -> (r: bool)
        ensures
            r == (self.status == LogicActionStatus::Starting),
    {
        self.status.is_starting()
    }

    pub fn is_running(&self) -> (r: bool)
        ensures
            r == (self.status == LogicActionStatus::Running),
    {
        self.status.is_running()
    }

    pub fn is_stopping(&self) -> (r: bool)
        ensures
            r == (self.status == LogicActionStatus::Stopping),
    {
        self.status.is_stopping()
    }

    pub fn is_fading(&self) -> (r: bool)
        ensures
            r == (self.status == LogicActionStatus::Fading),
    {
        self.status.is_fading()
    }

    pub fn is_finalized(&self) -> (r: bool)
        ensures
            r == (self.status == LogicActionStatus::Finalized),
    {
        self.status.is_finalized()
    }

    pub fn is_active(&self) -> (r: bool)
        ensures
            r == spec_action_active(self.status),
    {
        self.status.is_active()
    }

    pub fn is_inactive(&self) -> (r: bool)
        ensures
            r == spec_action_inactive(self.status),
    {
        self.status.is_inactive()
    }
}

/// Taking back the state an action saved gives the action back unchanged,
/// and saving an action that took back a state saves that state again,
/// with the action's own template, id and the kind asked for, and flags 0.
pub proof fn lemma_action_save_restore<I, W: Copy, T>(a: LogicActionBase<I, W>, st: StateActionBase<W, T>, typ: T)
    ensures
        a.restored(a.saved(typ)) == a,
        a.restored(st).saved(typ) == (StateActionBase { tmpl_id: a.tmpl_id, id: a.id, typ, flags: 0u8, ..st }),
{
}

/// Where an AI task is in its life.
#[derive(Debug, Clone, Copy, PartialEq, Eq, Hash, Structural)]
pub enum LogicAiTaskStatus {
    Starting,
    Running,
    Stopping,
    Finalized,
}

/// The saved state of an AI task's common part, with its kind `T`.
#[derive(Debug, Clone, Copy)]
pub struct StateAiTaskBase<T> {
    pub id: u32,
    pub typ: T,
    pub status: LogicAiTaskStatus,
    pub first_frame: u32,
    pub last_frame: u32,
}

/// The common part of every AI task: its id, its template instance, and its
/// place in the life cycle.
pub struct LogicAiTaskBase<I> {
    pub id: u32,
    pub inst: I,
    pub status: LogicAiTaskStatus,
    pub first_frame: u32,
    pub last_frame: u32,
}

impl<I> LogicAiTaskBase<I> {
    pub fn new(id: u32, inst: I) -> (r: Self)
        ensures
            r.id == id,
            r.inst == inst,
            r.status == LogicAiTaskStatus::Starting,
            r.first_frame == 0,
            r.last_frame == u32::MAX,
    {
        LogicAiTaskBase { id, inst, status: LogicAiTaskStatus::Starting, first_frame: 0, last_frame: u32::MAX }
    }

    /// The saved state of the common part, of kind `typ`.
    pub open spec fn saved<T>(self, typ: T) -> StateAiTaskBase<T> {
        StateAiTaskBase {
            id: self.id,
            typ,
            status: self.status,
            first_frame: self.first_frame,
            last_frame: self.last_frame,
        }
    }

    /// The task with a saved state taken back; its id and template stay.
    pub open spec fn restored<T>(self, state: StateAiTaskBase<T>) -> Self {
        LogicAiTaskBase {
            status: state.status,
            first_frame: state.first_frame,
            last_frame: state.last_frame,
            ..self
        }
    }

    /// The saved state of the common part, of kind `typ`.
    pub fn save<T>(&self, typ: T) -> (r: StateAiTaskBase<T>)
        ensures
            r == self.saved(typ),
    {
        StateAiTaskBase {
            id: self.id,
            typ,
            status: self.status,
            first_frame: self.first_frame,
            last_frame: self.last_frame,
        }
    }

    /// Takes back a saved state.
    pub fn restore<T>(&mut self, state: &StateAiTaskBase<T>)
        ensures
            *final(self) == old(self).restored(*state),
    {
        self.status = state.status;
        self.first_frame = state.first_frame;
        self.last_frame = state.last_frame;
    }

    /// Starts the task at `frame`.
    pub fn start(&mut self, frame: u32) -> (r: XResult<()>)
        ensures
            r is Ok,
            final(self).status == LogicAiTaskStatus::Running,
            final(self).first_frame == frame,
            final(self).last_frame == old(self).last_frame,
            final(self).id == old(self).id,
            final(self).inst == old(self).inst,
    {
        self.status = LogicAiTaskStatus::Running;
        self.first_frame = frame;
        Ok(())
    }

    /// Nothing to do in the common part.
    pub fn update(&self) -> (r: XResult<()>)
        ensures
            r is Ok,
    {
        Ok(())
    }

    /// Stops the task.
    pub fn stop(&mut self) -> (r: XResult<()>)
        ensures
            r is Ok,
            final(self).status == LogicAiTaskStatus::Stopping,
            final(self).first_frame == old(self).first_frame,
            final(self).last_frame == old(self).last_frame,
            final(self).id == old(self).id,
            final(self).inst == old(self).inst,
    {
        self.status = LogicAiTaskStatus::Stopping;
        Ok(())
    }

    /// Finalizes the task at `frame`.
    pub fn finalize(&mut self, frame: u32) -> (r: XResult<()>)
        ensures
            r is Ok,
            final(self).status == LogicAiTaskStatus::Finalized,
            final(self).last_frame == frame,
            final(self).first_frame == old(self).first_frame,
            final(self).id == old(self).id,
            final(self).inst == old(self).inst,
    {
        self.status = LogicAiTaskStatus::Finalized;
        self.last_frame = frame;
        Ok(())
    }

    pub fn is_starting(&self) -> (r: bool)
        ensures
            r == (self.status == LogicAiTaskStatus::Starting),
    {
        self.status == LogicAiTaskStatus::Starting
    }

    pub fn is_running(&self) -> (r: bool)
        ensures
            r == (self.status == LogicAiTaskStatus::Running),
    {
        self.status == LogicAiTaskStatus::Running
    }

    pub fn is_stopping(&self) -> (r: bool)
        ensures
            r == (self.status == LogicAiTaskStatus::Stopping),
    {
        self.status == LogicAiTaskStatus::Stopping
    }

    pub fn is_finalized(&self) -> (r: bool)
        ensures
            r == (self.status == LogicAiTaskStatus::Finalized),
    {
        self.status == LogicAiTaskStatus::Finalized
    }
}

/// Taking back the state an AI task saved gives the task back unchanged.
pub proof fn lemma_ai_task_save_restore<I, T>(a: LogicAiTaskBase<I>, typ: T)
    ensures
        a.restored(a.saved(typ)) == a,
{
}

} // verus!
