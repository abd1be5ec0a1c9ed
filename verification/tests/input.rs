use critical_point::error::XError;
use critical_point::ids::{NumID, MAX_PLAYER};
use critical_point::input::{
    InputEventQueue, InputPlayerEvents, KeyEvent, RawKey, SystemInput, VirtualEvent, VirtualKey,
};

type Queue = InputEventQueue<(), ()>;

fn btn(key: RawKey, pressed: bool) -> KeyEvent<()> {
    KeyEvent { key, pressed, payload: () }
}

fn evt(id: u64, frame: u32, raw: KeyEvent<()>) -> (u64, u32, VirtualKey, bool) {
    (id, frame, raw.key.to_virtual(), raw.pressed)
}

fn plain(events: Vec<&VirtualEvent<()>>) -> Vec<(u64, u32, VirtualKey, bool)> {
    events.iter().map(|e| (e.id, e.frame, e.key, e.pressed)).collect()
}

fn collect_frame(iq: &Queue) -> Vec<u32> {
    iq.metas().iter().map(|m| m.frame).collect()
}

fn collect_start_event_id(iq: &Queue) -> Vec<u64> {
    iq.metas().iter().map(|m| m.start_event_id).collect()
}

fn collect_xend_event_id(iq: &Queue) -> Vec<u64> {
    iq.metas().iter().map(|m| m.end_next_event_id).collect()
}

#[test]
fn test_input_queue_empty() {
    let mut iq: Queue = InputEventQueue::new(NumID(100), 3, ());
    assert_eq!(iq.current_frame(), 0);
    assert_eq!(iq.synced_frame(), 0);
    assert_eq!(iq.base_frame(), 1);
    assert_eq!(iq.base_id(), 1);

    assert!(iq.produce(0, &[], ()).is_err());
    assert!(iq.produce(5, &[], ()).is_err());

    assert!(iq.confirm(0).is_ok());
    assert!(iq.confirm(1).is_err());
    assert!(iq.confirm(7).is_err());
    assert_eq!(iq.current_frame(), 0);
    assert_eq!(iq.synced_frame(), 0);
    assert_eq!(iq.base_frame(), 1);
    assert_eq!(iq.base_id(), 1);

    assert!(iq.iter_current(0).is_err());
    assert_eq!(iq.iter_current(1).unwrap().len(), 0);
    assert_eq!(iq.iter_current(100).unwrap().len(), 0);
    assert!(iq.iter_preinput(0, 0).is_err());
    assert_eq!(iq.iter_preinput(1, 0).unwrap().len(), 0);
    assert_eq!(iq.iter_preinput(100, 0).unwrap().len(), 0);

    iq.produce(1, &[], ()).unwrap();
    assert_eq!(iq.current_frame(), 1);
    assert_eq!(collect_frame(&iq), vec![1]);
    assert_eq!(collect_start_event_id(&iq), vec![1]);
    assert_eq!(collect_xend_event_id(&iq), vec![1]);
    assert!(iq.iter_current(0).is_err());
    assert_eq!(iq.iter_current(1).unwrap().len(), 0);
    assert_eq!(iq.iter_current(100).unwrap().len(), 0);
    assert!(iq.iter_preinput(0, 100).is_err());
    assert!(iq.iter_preinput(1, 100).is_err());
    assert!(iq.iter_preinput(100, 100).is_err());

    iq.produce(2, &[], ()).unwrap();
    iq.produce(3, &[], ()).unwrap();
    iq.produce(4, &[], ()).unwrap();
    assert_eq!(iq.current_frame(), 4);
    assert_eq!(collect_frame(&iq), vec![1, 2, 3, 4]);
    assert_eq!(collect_start_event_id(&iq), vec![1, 1, 1, 1]);
    assert_eq!(collect_xend_event_id(&iq), vec![1, 1, 1, 1]);
    assert!(iq.iter_current(0).is_err());
    assert_eq!(iq.iter_current(4).unwrap().len(), 0);
    assert_eq!(iq.iter_current(6).unwrap().len(), 0);
    assert!(iq.iter_preinput(0, 0).is_err());
    assert_eq!(iq.iter_preinput(4, 0).unwrap().len(), 0);
    assert_eq!(iq.iter_preinput(6, 0).unwrap().len(), 0);
}

#[test]
fn test_input_queue_produce() {
    let a1_down = btn(RawKey::Attack1, true);
    let a1_up = btn(RawKey::Attack1, false);
    let a2_down = btn(RawKey::Attack2, true);
    let a2_up = btn(RawKey::Attack2, false);
    let s1_down = btn(RawKey::Skill1, true);
    let s1_up = btn(RawKey::Skill1, false);

    let mut iq: Queue = InputEventQueue::new(NumID(0), 3, ());

    // produce=1
    iq.produce(1, &[a1_down, a1_up], ()).unwrap();
    assert_eq!(iq.current_frame(), 1);
    assert_eq!(collect_start_event_id(&iq), vec![1]);
    assert_eq!(collect_xend_event_id(&iq), vec![3]);
    assert!(iq.iter_current(0).is_err());

    assert_eq!(plain(iq.iter_current(1).unwrap()), vec![evt(1, 1, a1_down), evt(2, 1, a1_up)]);
    assert_eq!(iq.iter_preinput(1, 0).unwrap().len(), 0);

    assert_eq!(iq.iter_current(2).unwrap().len(), 0);
    assert_eq!(plain(iq.iter_preinput(2, 0).unwrap()), vec![evt(1, 1, a1_down), evt(2, 1, a1_up)]);

    assert_eq!(iq.iter_current(4).unwrap().len(), 0);
    assert_eq!(iq.iter_preinput(4, 0).unwrap().len(), 2);
    assert_eq!(iq.iter_preinput(4, 1).unwrap().len(), 2);
    assert_eq!(iq.iter_preinput(4, 2).unwrap().len(), 1);
    assert_eq!(iq.iter_preinput(4, 3).unwrap().len(), 0);
    assert!(iq.iter_preinput(4, 4).is_err());

    assert_eq!(iq.iter_current(5).unwrap().len(), 0);
    assert_eq!(iq.iter_preinput(5, 0).unwrap().len(), 0);

    // produce=3
    iq.produce(2, &[], ()).unwrap();
    iq.produce(3, &[a2_down], ()).unwrap();
    assert_eq!(iq.current_frame(), 3);
    assert_eq!(collect_start_event_id(&iq), vec![1, 3, 3]);
    assert_eq!(collect_xend_event_id(&iq), vec![3, 3, 4]);
    assert!(iq.iter_current(0).is_err());

    assert_eq!(plain(iq.iter_current(1).unwrap()), vec![evt(1, 1, a1_down), evt(2, 1, a1_up)]);
    assert_eq!(iq.iter_preinput(1, 0).unwrap().len(), 0);

    assert_eq!(plain(iq.iter_current(3).unwrap()), vec![evt(3, 3, a2_down)]);
    assert_eq!(plain(iq.iter_preinput(3, 0).unwrap()), vec![evt(1, 1, a1_down), evt(2, 1, a1_up)]);

    assert_eq!(iq.iter_current(5).unwrap().len(), 0);
    assert_eq!(plain(iq.iter_preinput(5, 0).unwrap()), vec![evt(3, 3, a2_down)]);

    assert_eq!(iq.iter_preinput(7, 0).unwrap().len(), 0);

    // produce=6
    iq.produce(4, &[a2_up], ()).unwrap();
    iq.produce(5, &[], ()).unwrap();
    iq.produce(6, &[s1_down, s1_up], ()).unwrap();
    assert_eq!(iq.current_frame(), 6);
    assert_eq!(collect_start_event_id(&iq), vec![1, 3, 3, 4, 5, 5]);
    assert_eq!(collect_xend_event_id(&iq), vec![3, 3, 4, 5, 5, 7]);

    assert_eq!(plain(iq.iter_current(1).unwrap()), vec![evt(1, 1, a1_down), evt(2, 1, a1_up)]);
    assert_eq!(iq.iter_preinput(1, 0).unwrap().len(), 0);

    assert_eq!(plain(iq.iter_current(3).unwrap()), vec![evt(3, 3, a2_down)]);
    assert_eq!(plain(iq.iter_preinput(3, 0).unwrap()), vec![evt(1, 1, a1_down), evt(2, 1, a1_up)]);

    assert_eq!(plain(iq.iter_current(6).unwrap()), vec![evt(5, 6, s1_down), evt(6, 6, s1_up)]);
    assert_eq!(plain(iq.iter_preinput(6, 0).unwrap()), vec![evt(3, 3, a2_down), evt(4, 4, a2_up)]);
    assert_eq!(iq.iter_preinput(6, 3).unwrap().len(), 2);
    assert_eq!(iq.iter_preinput(6, 4).unwrap().len(), 1);
    assert_eq!(iq.iter_preinput(6, 5).unwrap().len(), 0);
    assert_eq!(iq.iter_preinput(6, 6).unwrap().len(), 0);
    assert_eq!(iq.iter_preinput(6, 7).unwrap().len(), 0);
    assert!(iq.iter_preinput(6, 8).is_err());
}

#[test]
fn test_input_queue_confirm() {
    let s1_down = btn(RawKey::Skill1, true);
    let s1_up = btn(RawKey::Skill1, false);
    let s2_down = btn(RawKey::Skill2, true);
    let s2_up = btn(RawKey::Skill2, false);
    let aim = btn(RawKey::Aim, true);
    let shoot = btn(RawKey::Shot1, true);

    let mut iq: Queue = InputEventQueue::new(NumID(0), 3, ());

    // produce=0
    iq.produce(1, &[s1_down, s1_up], ()).unwrap();
    iq.confirm(1).unwrap();
    assert_eq!(iq.current_frame(), 1);
    assert_eq!(iq.synced_frame(), 1);
    assert_eq!(iq.base_frame(), 1);
    assert_eq!(iq.base_id(), 1);
    assert_eq!(collect_start_event_id(&iq), vec![1]);
    assert_eq!(collect_xend_event_id(&iq), vec![3]);
    assert!(iq.iter_current(0).is_err());

    assert_eq!(plain(iq.iter_current(1).unwrap()), vec![evt(1, 1, s1_down), evt(2, 1, s1_up)]);
    assert_eq!(iq.iter_preinput(1, 0).unwrap().len(), 0);

    assert_eq!(iq.iter_current(2).unwrap().len(), 0);
    assert_eq!(plain(iq.iter_preinput(2, 0).unwrap()), vec![evt(1, 1, s1_down), evt(2, 1, s1_up)]);

    assert_eq!(iq.iter_current(4).unwrap().len(), 0);
    assert_eq!(iq.iter_preinput(4, 0).unwrap().len(), 2);

    assert_eq!(iq.iter_current(5).unwrap().len(), 0);
    assert_eq!(iq.iter_preinput(5, 0).unwrap().len(), 0);

    // produce=3
    iq.produce(2, &[s2_down], ()).unwrap();
    iq.produce(3, &[s2_down, aim], ()).unwrap();
    iq.confirm(3).unwrap();
    assert_eq!(iq.current_frame(), 3);
    assert_eq!(iq.synced_frame(), 3);
    assert_eq!(iq.base_frame(), 1);
    assert_eq!(iq.base_id(), 1);
    assert_eq!(collect_start_event_id(&iq), vec![1, 3, 4]);
    assert_eq!(collect_xend_event_id(&iq), vec![3, 4, 6]);
    assert_eq!(iq.iter_current(3).unwrap().len(), 2);
    assert_eq!(iq.iter_preinput(3, 0).unwrap().len(), 3);

    // produce=5
    iq.produce(4, &[], ()).unwrap();
    iq.produce(5, &[], ()).unwrap();
    iq.confirm(5).unwrap();
    assert_eq!(iq.current_frame(), 5);
    assert_eq!(iq.synced_frame(), 5);
    assert_eq!(iq.base_frame(), 2);
    assert_eq!(iq.base_id(), 3);
    assert_eq!(collect_start_event_id(&iq), vec![3, 4, 6, 6]);
    assert_eq!(collect_xend_event_id(&iq), vec![4, 6, 6, 6]);

    assert_eq!(iq.iter_current(4).unwrap().len(), 0);
    assert_eq!(
        plain(iq.iter_preinput(4, 0).unwrap()),
        vec![evt(3, 2, s2_down), evt(4, 3, s2_down), evt(5, 3, aim)]
    );
    assert_eq!(iq.iter_preinput(6, 0).unwrap().len(), 2);

    // produce=7
    iq.produce(6, &[shoot], ()).unwrap();
    iq.produce(7, &[s2_down, s2_up], ()).unwrap();
    iq.confirm(6).unwrap();
    assert_eq!(iq.current_frame(), 7);
    assert_eq!(iq.synced_frame(), 6);
    assert_eq!(iq.base_frame(), 3);
    assert_eq!(iq.base_id(), 4);
    assert_eq!(collect_start_event_id(&iq), vec![4, 6, 6, 6, 7]);
    assert_eq!(collect_xend_event_id(&iq), vec![6, 6, 6, 7, 9]);

    assert_eq!(plain(iq.iter_current(6).unwrap()), vec![evt(6, 6, shoot)]);
    assert_eq!(plain(iq.iter_preinput(6, 0).unwrap()), vec![evt(4, 3, s2_down), evt(5, 3, aim)]);

    assert_eq!(plain(iq.iter_current(7).unwrap()), vec![evt(7, 7, s2_down), evt(8, 7, s2_up)]);
    assert_eq!(plain(iq.iter_preinput(7, 0).unwrap()), vec![evt(6, 6, shoot)]);

    assert_eq!(iq.iter_current(10).unwrap().len(), 0);
    assert_eq!(iq.iter_preinput(10, 0).unwrap().len(), 2);
    assert_eq!(iq.iter_preinput(10, 8).unwrap().len(), 1);
    assert_eq!(iq.iter_preinput(10, 9).unwrap().len(), 0);
    assert!(iq.iter_preinput(10, 10).is_err());

    assert_eq!(iq.iter_current(11).unwrap().len(), 0);
    assert_eq!(iq.iter_preinput(11, 0).unwrap().len(), 0);
}

fn player(
    player_id: u32,
    frame: u32,
    events: Vec<KeyEvent<()>>,
) -> InputPlayerEvents<(), ()> {
    InputPlayerEvents::new(NumID(player_id), frame, events, ())
}

#[test]
fn test_input_system() {
    let a1_down = btn(RawKey::Attack1, true);
    let a1_up = btn(RawKey::Attack1, false);
    let s1_down = btn(RawKey::Skill1, true);
    let s1_up = btn(RawKey::Skill1, false);
    let aim = btn(RawKey::Aim, false);
    let shot = btn(RawKey::Shot1, false);

    let mut si: SystemInput<(), ()> = SystemInput::new(3, ());
    assert!(si.init(0).is_err());
    assert!(si.init(MAX_PLAYER + 1).is_err());
    si.init(2).unwrap();
    assert!(si.init(1).is_err());
    assert_eq!(si.player_count(), 2);
    assert_eq!(si.input_window(), 3);

    let p0 = NumID(100);
    let p1 = NumID(101);

    // p1=1, p2=?
    si.produce(&[player(100, 1, vec![a1_down, a1_up])]).unwrap();
    si.confirm().unwrap();
    assert_eq!(si.synced_frame(), 0);
    assert_eq!(si.unsynced_frame(), 1);
    {
        let player0 = si.player_events(p0).unwrap();
        let player1 = si.player_events(p1).unwrap();
        assert_eq!(plain(player0.iter_current(1).unwrap()), vec![evt(1, 1, a1_down), evt(2, 1, a1_up)]);
        assert_eq!(player0.iter_preinput(1, 0).unwrap().len(), 0);
        assert_eq!(player1.iter_current(1).unwrap().len(), 0);
        assert_eq!(player1.iter_preinput(1, 0).unwrap().len(), 0);
    }

    // p1=1, p2=1
    si.produce(&[player(101, 1, vec![s1_down])]).unwrap();
    si.confirm().unwrap();
    assert_eq!(si.synced_frame(), 1);
    assert_eq!(si.unsynced_frame(), 2);
    {
        let player0 = si.player_events(p0).unwrap();
        let player1 = si.player_events(p1).unwrap();
        assert_eq!(player0.iter_current(1).unwrap().len(), 2);
        assert_eq!(player0.iter_preinput(1, 0).unwrap().len(), 0);
        assert_eq!(plain(player1.iter_current(1).unwrap()), vec![evt(1, 1, s1_down)]);
        assert_eq!(player1.iter_preinput(1, 0).unwrap().len(), 0);
    }

    // p1=3, p2=1
    si.produce(&[player(100, 2, vec![]), player(100, 3, vec![aim, shot])]).unwrap();
    si.confirm().unwrap();
    assert_eq!(si.synced_frame(), 1);
    assert_eq!(si.unsynced_frame(), 2);
    {
        let player0 = si.player_events(p0).unwrap();
        let player1 = si.player_events(p1).unwrap();
        assert_eq!(player0.iter_current(3).unwrap().len(), 2);
        assert_eq!(player0.iter_preinput(3, 0).unwrap().len(), 2);
        assert_eq!(player1.iter_current(3).unwrap().len(), 0);
        assert_eq!(player1.iter_preinput(3, 0).unwrap().len(), 1);
    }

    // p1=3, p2=2
    si.produce(&[player(101, 2, vec![s1_up])]).unwrap();
    si.confirm().unwrap();
    assert_eq!(si.synced_frame(), 2);
    assert_eq!(si.unsynced_frame(), 3);
    {
        let player0 = si.player_events(p0).unwrap();
        let player1 = si.player_events(p1).unwrap();
        assert_eq!(player0.iter_current(3).unwrap().len(), 2);
        assert_eq!(player0.iter_preinput(3, 0).unwrap().len(), 2);
        assert_eq!(player1.iter_current(2).unwrap().len(), 1);
        assert_eq!(player1.iter_preinput(3, 0).unwrap().len(), 2);
    }
}

#[test]
fn input_view_and_move_keys_make_no_events() {
    let mut iq: Queue = InputEventQueue::new(NumID(100), 3, ());
    let events = [
        btn(RawKey::Move, true),
        btn(RawKey::Jump, true),
        btn(RawKey::View, true),
        btn(RawKey::Jump, false),
    ];
    iq.produce(1, &events, ()).unwrap();
    assert_eq!(
        plain(iq.iter_current(1).unwrap()),
        vec![(1, 1, VirtualKey::Jump, true), (2, 1, VirtualKey::Jump, false)]
    );
    assert_eq!(iq.future_id(), 3);
}

#[test]
fn input_variables_follow_frames() {
    let mut iq: InputEventQueue<u32, ()> = InputEventQueue::new(NumID(100), 3, 7);
    assert_eq!(iq.variables(1), Ok(7));
    iq.produce(1, &[], 10).unwrap();
    iq.produce(2, &[], 20).unwrap();
    assert_eq!(iq.variables(1), Ok(10));
    assert_eq!(iq.variables(2), Ok(20));
    assert_eq!(iq.variables(9), Ok(20));
    assert_eq!(iq.variables(0), Err(XError::Overflow));
}

#[test]
fn input_system_errors() {
    let mut si: SystemInput<(), ()> = SystemInput::new(3, ());
    si.init(1).unwrap();
    assert_eq!(si.produce(&[player(105, 1, vec![])]).err(), Some(XError::NotFound));
    assert_eq!(si.produce(&[player(100, 2, vec![])]).err(), Some(XError::BadArgument));
    assert_eq!(si.produce(&[player(100, 1, vec![]), player(100, 2, vec![])]), Ok(0));
    assert_eq!(si.synced_frame(), 2);
    assert!(si.player_events(NumID(99)).is_err());
    let mut empty: SystemInput<(), ()> = SystemInput::new(3, ());
    assert_eq!(empty.init(MAX_PLAYER + 1).err(), Some(XError::BadArgument));
    assert_eq!(empty.init(MAX_PLAYER), Ok(()));
    assert_eq!(empty.init(1).err(), Some(XError::BadOperation));
}

#[test]
fn input_confirm_keeps_later_reads() {
    let s2_down = btn(RawKey::Skill2, true);
    let aim = btn(RawKey::Aim, true);
    let mut iq: Queue = InputEventQueue::new(NumID(0), 2, ());
    iq.produce(1, &[s2_down], ()).unwrap();
    iq.produce(2, &[aim], ()).unwrap();
    iq.produce(3, &[s2_down, aim], ()).unwrap();
    iq.produce(4, &[], ()).unwrap();
    iq.produce(5, &[aim], ()).unwrap();
    let before_current: Vec<_> = (4..8).map(|f| plain(iq.iter_current(f).unwrap())).collect();
    let before_pre: Vec<_> = (4..8).map(|f| plain(iq.iter_preinput(f, 2).unwrap())).collect();
    iq.confirm(3).unwrap();
    assert_eq!(iq.base_frame(), 1);
    iq.confirm(4).unwrap();
    assert_eq!(iq.base_frame(), 2);
    let after_current: Vec<_> = (5..8).map(|f| plain(iq.iter_current(f).unwrap())).collect();
    let after_pre: Vec<_> = (5..8).map(|f| plain(iq.iter_preinput(f, 2).unwrap())).collect();
    assert_eq!(after_current, before_current[1..].to_vec());
    assert_eq!(after_pre, before_pre[1..].to_vec());
}

#[test]
fn input_future_id_counts_logic_events() {
    let mut iq: Queue = InputEventQueue::new(NumID(100), 2, ());
    assert_eq!(iq.future_id(), 1);
    iq.produce(1, &[btn(RawKey::Jump, true), btn(RawKey::Move, true)], ()).unwrap();
    iq.produce(2, &[btn(RawKey::View, true)], ()).unwrap();
    iq.confirm(2).unwrap();
    iq.produce(3, &[btn(RawKey::Dodge, true), btn(RawKey::Dodge, false)], ()).unwrap();
    assert!(iq.produce(5, &[btn(RawKey::Dodge, true)], ()).is_err());
    iq.confirm(3).unwrap();
    assert_eq!(iq.future_id(), 4);
}

#[test]
fn input_preinput_lies_in_window() {
    let mut iq: Queue = InputEventQueue::new(NumID(100), 2, ());
    for f in 1..=6u32 {
        iq.produce(f, &[btn(RawKey::Attack1, true)], ()).unwrap();
    }
    for f in 1..=8u32 {
        let all = plain(iq.iter_preinput(f, 0).unwrap());
        for (id, frame, _, _) in &all {
            assert!(*frame < f && frame + 2 >= f && *id < iq.future_id());
        }
        let later = iq.iter_preinput(f, 5).unwrap().len();
        assert!(later <= all.len());
    }
}

#[test]
fn input_queue_view_move_keys() {
    let a1_down = btn(RawKey::Attack1, true);
    let a1_up = btn(RawKey::Attack1, false);
    let a5_down = btn(RawKey::Attack5, true);
    let a5_up = btn(RawKey::Attack5, false);
    let s1_down = btn(RawKey::Skill1, true);
    let s1_up = btn(RawKey::Skill1, false);
    let view = btn(RawKey::View, true);
    let move_down = btn(RawKey::Move, true);
    let move_up = btn(RawKey::Move, false);

    let mut iq: Queue = InputEventQueue::new(NumID(0), 3, ());
    iq.produce(1, &[a5_down, view, move_down, a5_up, move_up, a1_down], ()).unwrap();
    assert_eq!(
        plain(iq.iter_current(1).unwrap()),
        vec![evt(1, 1, a5_down), evt(2, 1, a5_up), evt(3, 1, a1_down)]
    );

    iq.produce(2, &[move_down, move_up], ()).unwrap();
    assert_eq!(iq.iter_current(2).unwrap().len(), 0);

    iq.produce(3, &[], ()).unwrap();
    iq.produce(4, &[move_down, view, a1_up], ()).unwrap();
    assert_eq!(plain(iq.iter_current(4).unwrap()), vec![evt(4, 4, a1_up)]);

    iq.produce(5, &[s1_down, s1_up], ()).unwrap();
    assert_eq!(plain(iq.iter_current(5).unwrap()), vec![evt(5, 5, s1_down), evt(6, 5, s1_up)]);
    for f in 1..=5u32 {
        for e in iq.iter_current(f).unwrap() {
            assert!(e.id < iq.future_id());
        }
    }
    assert_eq!(iq.future_id(), 7);
}
