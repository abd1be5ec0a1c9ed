use critical_point::ids::TmplID;
use critical_point::input::VirtualKey;
use critical_point::next_action::{find_next_action, CurrentAction, EnterRule, NextAction};

fn rule(action: u32, level: u16, dir_ok: bool) -> EnterRule<u32> {
    EnterRule { action, tmpl_id: TmplID(action as u64), enter_level: level, level, dir_ok }
}

fn current(tmpl: u64, derive_level: u16) -> CurrentAction {
    CurrentAction { tmpl_id: TmplID(tmpl), derive_self: false, derive_level, running: true }
}

fn picked(r: &Option<NextAction<u32, i8>>) -> Option<(u32, u16, Option<i8>, bool)> {
    r.as_ref().map(|n| (n.action, n.enter_level, n.dir, n.quick_switch))
}

fn key_of(r: &Option<NextAction<u32, i8>>) -> Option<VirtualKey> {
    r.as_ref().map(|n| n.key)
}

#[test]
fn next_action_takes_first_enterable_derive_rule() {
    let cur = current(1, 10);
    let derive = vec![rule(2, 5, true), rule(3, 20, false), rule(4, 20, true), rule(5, 30, true)];
    let r = find_next_action(&cur, None, None, &vec![], &derive, &vec![rule(9, 90, true)], VirtualKey::Attack1, 7i8);
    assert_eq!(picked(&r), Some((4, 20, Some(7), true)));
    assert_eq!(key_of(&r), Some(VirtualKey::Attack1));
}

#[test]
fn next_action_falls_back_to_primary_then_candidate() {
    let cur = current(1, 10);
    let primary = vec![rule(1, 50, true), rule(6, 40, true)];
    let r = find_next_action(&cur, None, None, &vec![], &vec![rule(2, 10, true)], &primary, VirtualKey::Attack1, 1i8);
    assert_eq!(picked(&r), Some((6, 40, Some(1), true)));

    let cand = Some(NextAction::new_idle(8u32, 3));
    let r = find_next_action(&cur, cand, None, &vec![], &vec![], &vec![rule(1, 50, true)], VirtualKey::Attack1, 1i8);
    assert_eq!(picked(&r), Some((8, 3, None, false)));
    assert_eq!(key_of(&r), Some(VirtualKey::Idle));
}

#[test]
fn next_action_keeps_higher_candidate() {
    let cur = current(1, 0);
    let cand = Some(NextAction::new(8u32, 40, VirtualKey::Skill1, 2i8, false));
    let r = find_next_action(&cur, cand, None, &vec![], &vec![rule(2, 40, true)], &vec![], VirtualKey::Attack1, 5i8);
    assert_eq!(picked(&r), Some((8, 40, Some(2), false)));
    assert_eq!(key_of(&r), Some(VirtualKey::Skill1));
    let cand = Some(NextAction::new(8u32, 39, VirtualKey::Skill1, 2i8, false));
    let r = find_next_action(&cur, cand, None, &vec![], &vec![rule(2, 40, true)], &vec![], VirtualKey::Attack1, 5i8);
    assert_eq!(picked(&r), Some((2, 40, Some(5), true)));
}

#[test]
fn next_action_kept_rules_come_first() {
    let cur = current(1, 50);
    let keeping = vec![rule(7, 30, true)];
    let derive = vec![rule(2, 60, true)];
    let r = find_next_action(&cur, None, Some(20), &keeping, &derive, &vec![], VirtualKey::Attack1, 0i8);
    assert_eq!(picked(&r), Some((7, 30, Some(0), true)));
    let r = find_next_action(&cur, None, Some(30), &keeping, &derive, &vec![], VirtualKey::Attack1, 0i8);
    assert_eq!(picked(&r), Some((2, 60, Some(0), true)));
}

#[test]
fn next_action_self_derive_and_stopped_level() {
    let mut cur = current(1, 50);
    let r = find_next_action(&cur, None, None, &vec![], &vec![rule(1, 60, true)], &vec![], VirtualKey::Attack1, 0i8);
    assert!(r.is_none());
    cur.derive_self = true;
    let r = find_next_action(&cur, None, None, &vec![], &vec![rule(1, 60, true)], &vec![], VirtualKey::Attack1, 0i8);
    assert_eq!(picked(&r), Some((1, 60, Some(0), true)));
    cur.running = false;
    let r = find_next_action(&cur, None, None, &vec![], &vec![rule(3, 1, true)], &vec![], VirtualKey::Attack1, 0i8);
    assert_eq!(picked(&r), Some((3, 1, Some(0), true)));
}
