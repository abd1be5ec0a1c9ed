use std::sync::Arc;

use critical_point::action::{
    ActionStartReturn, LogicActionBase, LogicActionStatus, LogicAiTaskBase, LogicAiTaskStatus,
};
use critical_point::base::{is_alive, LogicType, StateBase, StateType};
use critical_point::error::XError;
use critical_point::ids::{NumID, TmplID};
use critical_point::state::{ContextRestore, StateEntry, StateSet};

#[test]
fn state_type_numbers_round_trip() {
    let all = [
        StateType::GameInit,
        StateType::GameUpdate,
        StateType::ZoneInit,
        StateType::ZoneUpdate,
        StateType::CharacterInit,
        StateType::CharacterUpdate,
    ];
    for (n, t) in all.iter().enumerate() {
        assert_eq!(t.to_u16(), n as u16);
        assert_eq!(StateType::try_from_u16(n as u16), Ok(*t));
    }
    assert_eq!(StateType::try_from_u16(6), Err(XError::Overflow));
    assert_eq!(StateType::GameUpdate.logic_typ(), LogicType::Game);
    assert_eq!(StateType::ZoneInit.logic_typ(), LogicType::Zone);
    assert_eq!(StateType::CharacterUpdate.logic_typ(), LogicType::Character);

    assert_eq!(u16::from(StateType::ZoneUpdate), 3);
    assert_eq!(StateType::try_from(4u16), Ok(StateType::CharacterInit));
    assert_eq!(StateType::try_from(9u16), Err(XError::Overflow));
    assert_eq!(u16::from(LogicType::Zone), 1);
    assert_eq!(LogicType::try_from(2u16), Ok(LogicType::Character));
    assert_eq!(LogicType::try_from(3u16), Err(XError::Overflow));

    assert_eq!(LogicType::Character.to_u16(), 2);
    assert_eq!(LogicType::try_from_u16(1), Ok(LogicType::Zone));
    assert_eq!(LogicType::try_from_u16(3), Err(XError::Overflow));
}

#[test]
fn ids_and_life() {
    assert_eq!(NumID::min_player(), NumID(100));
    assert_eq!(NumID::max_player(), NumID(107));
    assert_eq!(NumID::min_auto_gen(), NumID(1000));
    assert!(!NumID::invalid().is_valid());
    assert!(NumID(5).is_valid());
    assert!(is_alive(u32::MAX));
    assert!(!is_alive(10));
}

fn entry(id: u32, typ: StateType, data: u32) -> StateEntry<u32> {
    StateEntry { base: StateBase::new(NumID(id), typ, typ.logic_typ()), data }
}

#[test]
fn context_restore_finds_first_state() {
    let mut set: StateSet<u32> = StateSet::new(7, 0, 4);
    set.updates.push(entry(1, StateType::GameUpdate, 10));
    set.updates.push(entry(2, StateType::CharacterUpdate, 20));
    set.updates.push(entry(2, StateType::ZoneUpdate, 30));
    let ctx = ContextRestore::new(Arc::new(set));
    assert_eq!(ctx.frame, 7);
    assert_eq!(ctx.find(NumID(2)).unwrap().data, 20);
    assert_eq!(ctx.find(NumID(3)).err(), Some(XError::LogicNotFound));
    assert_eq!(ctx.find_as(NumID(2), StateType::CharacterUpdate).unwrap().data, 20);
    assert_eq!(ctx.find_as(NumID(2), StateType::ZoneUpdate).err(), Some(XError::Unexpected));
    assert_eq!(ctx.find_as(NumID(9), StateType::ZoneUpdate).err(), Some(XError::LogicNotFound));
}

#[test]
fn action_life_cycle() {
    let mut act: LogicActionBase<&str, f32> = LogicActionBase::new(3, "idle", TmplID(70), 0.0);
    assert!(act.is_starting() && act.is_active());
    assert_eq!(act.update(), Err(XError::Unexpected));
    assert_eq!(act.fade_start(), Err(XError::Unexpected));

    act.start(12, false, 1.0).unwrap();
    assert!(act.is_running());
    assert_eq!(act.first_frame, 12);
    assert_eq!(act.fade_in_weight, 1.0);
    assert_eq!(act.start(13, false, 1.0), Err(XError::Unexpected));
    act.update().unwrap();

    act.fade_start().unwrap();
    assert!(act.is_fading() && act.is_inactive());
    act.fade_update().unwrap();
    assert_eq!(act.finalize(20), Err(XError::Unexpected));

    act.stop().unwrap();
    assert!(act.is_stopping());
    assert_eq!(act.stop(), Err(XError::Unexpected));
    act.finalize(20).unwrap();
    assert!(act.is_finalized());
    assert_eq!(act.last_frame, 20);
    assert_eq!(act.stop(), Err(XError::Unexpected));

    act.reuse(4, 0.0).unwrap();
    assert_eq!(act.id, 4);
    assert_eq!(act.tmpl_id(), TmplID(70));
    assert!(act.is_starting());
    assert_eq!(act.last_frame, u32::MAX);
    act.start(30, true, 1.0).unwrap();
    assert_eq!(act.fade_in_weight, 0.0);
}

#[test]
fn action_save_and_restore() {
    let mut act: LogicActionBase<u8, f32> = LogicActionBase::new(1, 0, TmplID(71), 0.0);
    act.set_derive_self(true);
    assert!(act.derive_self());
    act.start(5, false, 1.0).unwrap();
    let saved = act.save(9u8);
    assert_eq!(saved.flags, 0);
    assert_eq!(saved.tmpl_id, TmplID(71));
    assert_eq!(saved.typ, 9);
    assert_eq!(act.tmpl_id(), TmplID(71));
    assert_eq!(saved.status, LogicActionStatus::Running);

    act.stop().unwrap();
    act.finalize(9).unwrap();
    act.restore(&saved);
    assert_eq!(act.status, LogicActionStatus::Running);
    assert_eq!(act.first_frame, 5);
    assert_eq!(act.last_frame, u32::MAX);
    assert!(act.derive_self());
    act.set_derive_self(false);
    assert!(!act.derive_self());

    let ret: ActionStartReturn<u8> = ActionStartReturn::new();
    assert!(!ret.prev_fade_update && !ret.clear_preinput && ret.custom_events.is_empty());
}

#[test]
fn ai_task_life_cycle() {
    let mut task: LogicAiTaskBase<()> = LogicAiTaskBase::new(2, ());
    assert!(task.is_starting());
    task.start(3).unwrap();
    assert!(task.is_running());
    let saved = task.save(7u8);
    assert_eq!(saved.typ, 7);
    task.update().unwrap();
    task.stop().unwrap();
    assert!(task.is_stopping());
    task.finalize(8).unwrap();
    assert!(task.is_finalized());
    assert_eq!(task.last_frame, 8);
    task.restore(&saved);
    assert_eq!(task.status, LogicAiTaskStatus::Running);
    assert_eq!(task.first_frame, 3);
    assert_eq!(task.last_frame, u32::MAX);
}
