use vstd::prelude::*;

use crate::error::{XError, XResult};
use crate::ids::NumID;

verus! {

/// The kind of a logic object.
#[derive(Debug, Clone, Copy, PartialEq, Eq, Hash, Structural)]
pub enum LogicType {
    Game,
    Zone,
    Character,
}

/// The number of kinds of logic objects.
pub const LOGIC_TYPE_COUNT: u16 = 3;

/// The wire number of a logic kind: its position in declaration order.
pub open spec fn logic_type_code(t: LogicType) -> u16 {
    match t {
        LogicType::Game => 0,
        LogicType::Zone => 1,
        LogicType::Character => 2,
    }
}

/// The logic kind with a wire number; `Overflow` when no kind has it.
pub open spec fn logic_type_from(value: u16) -> XResult<LogicType> {
    if value == 0 {
        Ok(LogicType::Game)
    } else if value == 1 {
        Ok(LogicType::Zone)
    } else if value == 2 {
        Ok(LogicType::Character)
    } else {
        Err(XError::Overflow)
    }
}

impl LogicType {
    /// The number of the kind, in declaration order.
    pub fn to_u16(self) -> (r: u16)
        ensures
            r == logic_type_code(self),
    {
        match self {
            LogicType::Game => 0,
            LogicType::Zone => 1,
            LogicType::Character => 2,
        }
    }

    /// The kind with the given number; `Overflow` when no kind has it.
    pub fn try_from_u16(value: u16) -> (r: XResult<LogicType>)
        ensures
            r == logic_type_from(value),
            value < LOGIC_TYPE_COUNT <==> r is Ok,
            r matches Ok(t) ==> logic_type_code(t) == value,
            r matches Err(e) ==> e == XError::Overflow,
    {
        if value == 0 {
            Ok(LogicType::Game)
        } else if value == 1 {
            Ok(LogicType::Zone)
        } else if value == 2 {
            Ok(LogicType::Character)
        } else {
            Err(XError::Overflow)
        }
    }
}

/// The kind of a saved state.
#[derive(Debug, Clone, Copy, PartialEq, Eq, Hash, Structural)]
pub enum StateType {
    GameInit,
    GameUpdate,
    ZoneInit,
    ZoneUpdate,
    CharacterInit,
    CharacterUpdate,
}

/// The number of kinds of saved states.
pub const STATE_TYPE_COUNT: u16 = 6;

/// The wire number of a state kind: its position in declaration order.
pub open spec fn state_type_code(t: StateType) -> u16 {
    match t {
        StateType::GameInit => 0,
        StateType::GameUpdate => 1,
        StateType::ZoneInit => 2,
        StateType::ZoneUpdate => 3,
        StateType::CharacterInit => 4,
        StateType::CharacterUpdate => 5,
    }
}

/// The logic kind that owns a state kind.
pub open spec fn spec_logic_of(t: StateType) -> LogicType {
    match t {
        StateType::GameInit | StateType::GameUpdate => LogicType::Game,
        StateType::ZoneInit | StateType::ZoneUpdate => LogicType::Zone,
        StateType::CharacterInit | StateType::CharacterUpdate => LogicType::Character,
    }
}

/// The state kind with a wire number; `Overflow` when no kind has it.
pub open spec fn state_type_from(value: u16) -> XResult<StateType> {
    if value == 0 {
        Ok(StateType::GameInit)
    } else if value == 1 {
        Ok(StateType::GameUpdate)
    } else if value == 2 {
        Ok(StateType::ZoneInit)
    } else if value == 3 {
        Ok(StateType::ZoneUpdate)
    } else if value == 4 {
        Ok(StateType::CharacterInit)
    } else if value == 5 {
        Ok(StateType::CharacterUpdate)
    } else {
        Err(XError::Overflow)
    }
}

impl StateType {
    /// The logic kind that owns this state kind.
    pub fn logic_typ(&self) -> (r: LogicType)
        ensures
            r == spec_logic_of(*self),
    {
        match self {
            StateType::GameInit | StateType::GameUpdate => LogicType::Game,
            StateType::ZoneInit | StateType::ZoneUpdate => LogicType::Zone,
            StateType::CharacterInit | StateType::CharacterUpdate => LogicType::Character,
        }
    }

    /// The number of the kind, in declaration order.
    pub fn to_u16(self) -> (r: u16)
        ensures
            r == state_type_code(self),
    {
        match self {
            StateType::GameInit => 0,
            StateType::GameUpdate => 1,
            StateType::ZoneInit => 2,
            StateType::ZoneUpdate => 3,
            StateType::CharacterInit => 4,
            StateType::CharacterUpdate => 5,
        }
    }

    /// The kind with the given number; `Overflow` when no kind has it.
    pub fn try_from_u16(value: u16) -> (r: XResult<StateType>)
        ensures
            r == state_type_from(value),
            value < STATE_TYPE_COUNT <==> r is Ok,
            r matches Ok(t) ==> state_type_code(t) == value,
            r matches Err(e) ==> e == XError::Overflow,
    {
        if value == 0 {
            Ok(StateType::GameInit)
        } else if value == 1 {
            Ok(StateType::GameUpdate)
        } else if value == 2 {
            Ok(StateType::ZoneInit)
        } else if value == 3 {
            Ok(StateType::ZoneUpdate)
        } else if value == 4 {
            Ok(StateType::CharacterInit)
        } else if value == 5 {
            Ok(StateType::CharacterUpdate)
        } else {
            Err(XError::Overflow)
        }
    }
}

impl From<LogicType> for u16 {
    fn from(val: LogicType) -> (r: u16) {
        val.to_u16()
    }
}

impl vstd::std_specs::convert::FromSpecImpl<LogicType> for u16 {
    open spec fn obeys_from_spec() -> bool {
        true
    }

    open spec fn from_spec(val: LogicType) -> u16 {
        logic_type_code(val)
    }
}

impl TryFrom<u16> for LogicType {
    type Error = XError;

    fn try_from(value: u16) -> (r: XResult<LogicType>) {
        LogicType::try_from_u16(value)
    }
}

impl vstd::std_specs::convert::TryFromSpecImpl<u16> for LogicType {
    open spec fn obeys_try_from_spec() -> bool {
        true
    }

    open spec fn try_from_spec(value: u16) -> XResult<LogicType> {
        logic_type_from(value)
    }
}

impl From<StateType> for u16 {
    fn from(val: StateType) -> (r: u16) {
        val.to_u16()
    }
}

impl vstd::std_specs::convert::FromSpecImpl<StateType> for u16 {
    open spec fn obeys_from_spec() -> bool {
        true
    }

    open spec fn from_spec(val: StateType) -> u16 {
        state_type_code(val)
    }
}

impl TryFrom<u16> for StateType {
    type Error = XError;

    fn try_from(value: u16) -> (r: XResult<StateType>) {
        StateType::try_from_u16(value)
    }
}

impl vstd::std_specs::convert::TryFromSpecImpl<u16> for StateType {
    open spec fn obeys_try_from_spec() -> bool {
        true
    }

    open spec fn try_from_spec(value: u16) -> XResult<StateType> {
        state_type_from(value)
    }
}

/// Converting a state kind to its number and back gives the kind again,
/// and a number that converts to a kind is that kind's number.
pub proof fn lemma_state_type_code_roundtrip(t: StateType, value: u16)
    ensures
        state_type_from(state_type_code(t)) == Ok::<StateType, XError>(t),
        state_type_from(value) matches Ok(u) ==> state_type_code(u) == value,
{
}

/// Converting a logic kind to its number and back gives the kind again,
/// and a number that converts to a kind is that kind's number.
pub proof fn lemma_logic_type_code_roundtrip(t: LogicType, value: u16)
    ensures
        logic_type_from(logic_type_code(t)) == Ok::<LogicType, XError>(t),
        logic_type_from(value) matches Ok(u) ==> logic_type_code(u) == value,
{
}

/// The state kinds come in pairs, an init kind and an update kind for each
/// logic kind in turn: a state kind's number halved is the number of the
/// logic kind that owns it, even numbers are the init kinds, and every
/// number lies below the count of kinds.
pub proof fn lemma_state_type_layout(t: StateType)
    ensures
        logic_type_code(spec_logic_of(t)) == state_type_code(t) / 2,
        (state_type_code(t) % 2 == 0) == (t is GameInit || t is ZoneInit || t is CharacterInit),
        state_type_code(t) < STATE_TYPE_COUNT,
        logic_type_code(spec_logic_of(t)) < LOGIC_TYPE_COUNT,
{
}

/// What every saved state carries: the id of its object and its kinds.
#[derive(Debug, Clone, Copy, PartialEq, Eq, Structural)]
pub struct StateBase {
    pub id: NumID,
    pub typ: StateType,
    pub logic_typ: LogicType,
}

impl StateBase {
    pub fn new(id: NumID, typ: StateType, logic_typ: LogicType) -> (r: StateBase)
        ensures
            r.id == id,
            r.typ == typ,
            r.logic_typ == logic_typ,
    {
        StateBase { id, typ, logic_typ }
    }
}

/// A logic object is alive until its death frame is set.
pub open spec fn spec_is_alive(death_frame: u32) -> bool {
    death_frame == u32::MAX
}

/// Whether a logic object with the given death frame is alive.
pub fn is_alive(death_frame: u32) -> (r: bool)
    ensures
        r == spec_is_alive(death_frame),
{
    death_frame == u32::MAX
}

} // verus!
