use std::sync::Arc;

use critical_point::generation::SystemGeneration;
use critical_point::random::SystemRandom;
use critical_point::state::FrameBound::{Excluded, Included};
use critical_point::state::{FrameBound, StateSet, SystemState};

fn count(ss: &SystemState<()>, start: FrameBound, end: FrameBound) -> usize {
    ss.range(start, end).unwrap().len()
}

#[test]
fn test_system_generation_state() {
    let mut sys_gen = SystemGeneration::new();

    sys_gen.update(1); // [1]
    let id1_action = sys_gen.gen_action_id();
    let id1_ai = sys_gen.gen_ai_task_id();

    sys_gen.update(2); // [1, 2]
    let id2_action = sys_gen.gen_action_id();
    let id2_ai = sys_gen.gen_ai_task_id();

    sys_gen.restore(1); // [1]
    assert_eq!(sys_gen.gen_action_id(), id1_action);
    assert_eq!(sys_gen.gen_ai_task_id(), id1_ai);

    sys_gen.restore(1); // [1]
    assert_eq!(sys_gen.gen_action_id(), id1_action);
    assert_eq!(sys_gen.gen_ai_task_id(), id1_ai);

    sys_gen.update(2); // [1, 2]
    assert_eq!(sys_gen.gen_action_id(), id2_action);
    assert_eq!(sys_gen.gen_ai_task_id(), id2_ai);

    sys_gen.update(3); // [1, 2, 3]
    let id3_action = sys_gen.gen_action_id();
    let id3_num = sys_gen.gen_num_id();

    sys_gen.discard(2); // [3]
    assert_eq!(sys_gen.history_len(), 1);

    sys_gen.restore(3); // [3]
    assert_eq!(sys_gen.gen_action_id(), id3_action);
    assert_eq!(sys_gen.gen_num_id(), id3_num);

    sys_gen.update(4); // [3, 4]
    let id4_action = sys_gen.gen_action_id();
    sys_gen.update(5); // [3, 4, 5]
    let id5_action = sys_gen.gen_action_id();

    sys_gen.discard(3); // [4, 5]
    assert_eq!(sys_gen.history_len(), 2);

    sys_gen.restore(5); // [4, 5]
    assert_eq!(sys_gen.gen_action_id(), id5_action);

    sys_gen.restore(4); // [4]
    assert_eq!(sys_gen.gen_action_id(), id4_action);
}

#[test]
fn test_state_manager() {
    let mut ss: SystemState<()> = SystemState::new();
    assert_eq!(ss.current_frame(), 0);
    assert_eq!(ss.synced_frame(), 0);
    assert_eq!(ss.unsynced_frame(), 1);

    assert!(ss.init(Arc::new(StateSet::new(1, 0, 0))).is_err());
    ss.init(Arc::new(StateSet::new(0, 0, 0))).unwrap();
    assert_eq!(ss.current_frame(), 0);
    assert_eq!(ss.synced_frame(), 0);
    assert_eq!(ss.unsynced_frame(), 1);
    assert_eq!(ss.len(), 1);
    assert_eq!(count(&ss, Included(0), Excluded(0)), 0);
    assert_eq!(count(&ss, Included(0), Excluded(1)), 1);

    assert!(ss.confirm(2).is_err());
    assert!(ss.restore(2).is_err());

    // frame=1
    ss.append(Arc::new(StateSet::new(1, 0, 0))).unwrap();
    assert_eq!(ss.current_frame(), 1);
    assert_eq!(ss.synced_frame(), 0);
    assert_eq!(ss.unsynced_frame(), 1);
    assert_eq!(ss.len(), 2);
    assert_eq!(count(&ss, Included(0), Included(1)), 2);

    ss.confirm(1).unwrap();
    assert_eq!(ss.current_frame(), 1);
    assert_eq!(ss.synced_frame(), 1);
    assert_eq!(ss.unsynced_frame(), 2);
    assert_eq!(ss.len(), 1);
    assert_eq!(count(&ss, Included(1), Included(1)), 1);

    ss.restore(1).unwrap();
    assert_eq!(ss.current_frame(), 1);
    assert_eq!(ss.synced_frame(), 1);
    assert_eq!(ss.unsynced_frame(), 2);
    assert_eq!(ss.len(), 1);
    assert_eq!(count(&ss, Included(1), Included(1)), 1);

    //frame=4
    ss.append(Arc::new(StateSet::new(2, 0, 0))).unwrap();
    ss.append(Arc::new(StateSet::new(3, 0, 0))).unwrap();
    ss.append(Arc::new(StateSet::new(4, 0, 0))).unwrap();
    assert_eq!(ss.current_frame(), 4);
    assert_eq!(ss.synced_frame(), 1);
    assert_eq!(ss.unsynced_frame(), 2);
    assert_eq!(ss.len(), 4);
    assert_eq!(count(&ss, Included(1), Included(4)), 4);

    ss.confirm(3).unwrap();
    assert_eq!(ss.current_frame(), 4);
    assert_eq!(ss.synced_frame(), 3);
    assert_eq!(ss.unsynced_frame(), 4);
    assert_eq!(ss.len(), 2);
    assert_eq!(count(&ss, Included(3), Included(4)), 2);

    assert!(ss.confirm(5).is_err());
}

#[test]
fn state_restore_before_newest_set_empties_history() {
    let mut ss: SystemState<()> = SystemState::new();
    ss.init(Arc::new(StateSet::new(0, 0, 0))).unwrap();
    ss.append(Arc::new(StateSet::new(1, 0, 0))).unwrap();
    ss.append(Arc::new(StateSet::new(2, 0, 0))).unwrap();
    assert_eq!(ss.len(), 3);
    ss.restore(1).unwrap();
    assert_eq!(ss.current_frame(), 1);
    assert_eq!(ss.len(), 0);
    assert!(ss.get(1).is_none());
}

#[test]
fn state_get_and_confirm_hand_back_sets() {
    let mut ss: SystemState<()> = SystemState::new();
    ss.init(Arc::new(StateSet::new(0, 0, 0))).unwrap();
    ss.append(Arc::new(StateSet::new(1, 0, 0))).unwrap();
    ss.append(Arc::new(StateSet::new(2, 0, 0))).unwrap();
    assert_eq!(ss.get(2).unwrap().frame, 2);
    assert!(ss.get(3).is_none());
    assert!(ss.append(Arc::new(StateSet::new(5, 0, 0))).is_err());
    let outs = ss.confirm(2).unwrap();
    assert_eq!(outs.iter().map(|s| s.frame).collect::<Vec<_>>(), vec![0, 1]);
    assert_eq!(ss.confirm(1).unwrap().len(), 0);
    assert_eq!(ss.synced_frame(), 2);
    assert!(ss.get(1).is_none());
    assert_eq!(ss.get(2).unwrap().frame, 2);
    assert!(ss.range(Included(1), Included(2)).is_err());
    assert!(ss.range(Included(2), Included(3)).is_err());
    assert_eq!(count(&ss, FrameBound::Unbounded, FrameBound::Unbounded), 1);
}

#[test]
fn generation_hands_out_ids_in_order() {
    let mut sys_gen = SystemGeneration::new();
    for n in 0..8u32 {
        assert_eq!(sys_gen.gen_player_id().unwrap().0, 100 + n);
    }
    assert_eq!(sys_gen.gen_player_id().err(), Some(critical_point::error::XError::Overflow));
    assert_eq!(sys_gen.gen_num_id().0, 1000);
    assert_eq!(sys_gen.gen_num_id().0, 1001);
    assert_eq!(sys_gen.gen_action_id(), 0);
    assert_eq!(sys_gen.gen_ai_task_id(), 0);
    let st = sys_gen.state();
    assert_eq!(st.auto_gen_id.0, 1002);
    assert_eq!(st.action_id, 1);
    assert_eq!(st.ai_task_id, 1);
}

#[test]
fn random_streams_follow_oorandom() {
    let mut sys_rand = SystemRandom::new(12345, 67890);
    let st = sys_rand.state();
    assert_eq!(st.state32, (10694831691143060119, 2885390081777926815));
    assert_eq!(
        st.state64,
        (207325815303531314002776407942829246452, 127282724476935860102885390081777926815)
    );
    assert_eq!(sys_rand.rand_u32(), 1321476956);
    assert_eq!(sys_rand.rand_u32(), 17539747);
    assert_eq!(sys_rand.rand_u64(), 13804964736837189601);
    assert_eq!(sys_rand.rand_u64(), 14520791162349858401);
}

#[test]
fn random_rollback_replays_draws() {
    let mut sys_rand = SystemRandom::new(12345, 67890);

    sys_rand.update(1); // [1]
    let a1_32 = sys_rand.rand_u32();
    let a1_64 = sys_rand.rand_u64();

    sys_rand.update(2); // [1, 2]
    let a2_32 = sys_rand.rand_u32();
    let a2_64 = sys_rand.rand_u64();

    sys_rand.restore(1); // [1]
    assert_eq!(sys_rand.rand_u32(), a1_32);
    assert_eq!(sys_rand.rand_u64(), a1_64);

    sys_rand.restore(1); // [1]
    assert_eq!(sys_rand.rand_u32(), a1_32);
    assert_eq!(sys_rand.rand_u64(), a1_64);

    sys_rand.update(2); // [1, 2]
    assert_eq!(sys_rand.rand_u32(), a2_32);
    assert_eq!(sys_rand.rand_u64(), a2_64);

    sys_rand.update(3); // [1, 2, 3]
    let u3_32 = sys_rand.rand_u32();
    let u3_64 = sys_rand.rand_u64();

    sys_rand.discard(2); // [3]
    assert_eq!(sys_rand.history_len(), 1);

    sys_rand.restore(3); // [3]
    assert_eq!(sys_rand.rand_u32(), u3_32);
    assert_eq!(sys_rand.rand_u64(), u3_64);

    sys_rand.update(4); // [3, 4]
    let u4_32 = sys_rand.rand_u32();
    sys_rand.update(5); // [3, 4, 5]
    let u5_32 = sys_rand.rand_u32();

    sys_rand.discard(3); // [4, 5]
    assert_eq!(sys_rand.history_len(), 2);

    sys_rand.restore(5); // [4, 5]
    assert_eq!(sys_rand.rand_u32(), u5_32);

    sys_rand.restore(4); // [4]
    assert_eq!(sys_rand.rand_u32(), u4_32);
}

fn rand_f32(sys: &mut SystemRandom) -> f32 {
    let value = oorandom::Rand32::from_state(sys.state().state32).rand_float();
    sys.rand_u32();
    value
}

fn rand_f64(sys: &mut SystemRandom) -> f64 {
    let value = oorandom::Rand64::from_state(sys.state().state64).rand_float();
    sys.rand_u64();
    value
}

#[test]
fn test_system_random_state() {
    let mut sys_rand = SystemRandom::new(12345, 67890);

    sys_rand.update(1); // [1]
    let f1_32 = rand_f32(&mut sys_rand);
    let f1_64 = rand_f64(&mut sys_rand);

    sys_rand.update(2); // [1, 2]
    let f2_32 = rand_f32(&mut sys_rand);
    let f2_64 = rand_f64(&mut sys_rand);

    sys_rand.restore(1); // [1]
    assert_eq!(rand_f32(&mut sys_rand), f1_32);
    assert_eq!(rand_f64(&mut sys_rand), f1_64);

    sys_rand.restore(1); // in => [1]
    assert_eq!(rand_f32(&mut sys_rand), f1_32);
    assert_eq!(rand_f64(&mut sys_rand), f1_64);

    sys_rand.update(2); // [1, 2]
    assert_eq!(rand_f32(&mut sys_rand), f2_32);
    assert_eq!(rand_f64(&mut sys_rand), f2_64);

    sys_rand.update(3); // [1, 2, 3]
    let u3_32 = sys_rand.rand_u32();
    let u3_64 = sys_rand.rand_u64();

    sys_rand.discard(2); // [3]
    assert_eq!(sys_rand.history_len(), 1);

    sys_rand.restore(3); // [3]
    assert_eq!(sys_rand.rand_u32(), u3_32);
    assert_eq!(sys_rand.rand_u64(), u3_64);

    sys_rand.update(4); // [3, 4]
    let u4_32 = sys_rand.rand_u32();
    sys_rand.update(5); // [3, 4, 5]
    let u5_32 = sys_rand.rand_u32();

    sys_rand.discard(3); // [4, 5]
    assert_eq!(sys_rand.history_len(), 2);

    sys_rand.restore(5); // [4, 5]
    assert_eq!(sys_rand.rand_u32(), u5_32);

    sys_rand.restore(4); // [4]
    assert_eq!(sys_rand.rand_u32(), u4_32);
}

#[test]
fn state_index_reads_held_frames() {
    let mut ss: SystemState<()> = SystemState::default();
    assert_eq!(ss.len(), 0);
    ss.init(Arc::new(StateSet::new(0, 0, 0))).unwrap();
    ss.append(Arc::new(StateSet::new(1, 0, 0))).unwrap();
    assert_eq!(ss.index(1).frame, 1);
    assert_eq!(ss.index(0).frame, 0);
}

#[test]
fn generation_restore_after_later_updates() {
    let mut g = SystemGeneration::new();
    g.update(0);
    g.gen_action_id();
    g.update(1);
    let saved = g.state();
    g.gen_action_id();
    g.gen_num_id();
    g.update(2);
    g.gen_ai_task_id();
    g.update(3);
    g.restore(1);
    assert_eq!(g.state(), saved);
    assert_eq!(g.history_len(), 2);
}

#[test]
fn state_synced_frame_stays_behind_current() {
    let mut ss: SystemState<()> = SystemState::new();
    ss.init(Arc::new(StateSet::new(0, 0, 0))).unwrap();
    for f in 1..=3u32 {
        ss.append(Arc::new(StateSet::new(f, 0, 0))).unwrap();
        assert!(ss.synced_frame() <= ss.current_frame());
    }
    ss.confirm(2).unwrap();
    assert_eq!(ss.synced_frame(), 2);
    assert!(ss.restore(1).is_err());
    ss.confirm(1).unwrap();
    assert_eq!(ss.synced_frame(), 2);
    ss.restore(2).unwrap();
    assert!(ss.synced_frame() <= ss.current_frame());
}
