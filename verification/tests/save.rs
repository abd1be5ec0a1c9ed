use critical_point::error::XError;
use critical_point::save::{
    index_position, input_index_entry_bytes, input_index_start_bytes, state_index_entry_bytes,
    state_index_start_bytes, state_index_tail_bytes, to_decimal, PlaybackCursor, SaveMeta, SaveProgress,
};

fn text(v: Vec<u8>) -> String {
    String::from_utf8(v).unwrap()
}

#[test]
fn decimal_digits() {
    assert_eq!(text(to_decimal(0)), "0");
    assert_eq!(text(to_decimal(7)), "7");
    assert_eq!(text(to_decimal(10)), "10");
    assert_eq!(text(to_decimal(4096)), "4096");
    assert_eq!(text(to_decimal(u32::MAX)), "4294967295");
}

#[test]
fn index_entries() {
    assert_eq!(text(input_index_start_bytes()), "[0]");
    assert_eq!(text(input_index_entry_bytes(1234)), ",1234]");
    assert_eq!(text(state_index_start_bytes()), "[]");
    assert_eq!(text(state_index_entry_bytes(0, 57)), "[0,57],");
    assert_eq!(text(state_index_tail_bytes(300)), "[300,300]]");
}

#[test]
fn input_index_grows_as_json_array() {
    // Each entry is written over the closing bracket.
    let mut file = input_index_start_bytes();
    for pos in [12u32, 40, 1000] {
        file.pop();
        file.extend(input_index_entry_bytes(pos));
    }
    assert_eq!(text(file), "[0,12,40,1000]");
}

#[test]
fn state_index_grows_as_json_array() {
    // The entry and the new closing pair are written where the old closing pair began.
    let mut file = state_index_start_bytes();
    let mut cursor = 1;
    let mut tail = 0u32;
    for (init_len, update_len) in [(0u32, 20u32), (15, 30), (0, 2000)] {
        let init = tail;
        let update = init + init_len;
        tail = update + update_len;
        let entry = state_index_entry_bytes(init, update);
        let closing = state_index_tail_bytes(tail);
        file.truncate(cursor);
        file.extend(entry.iter().copied());
        cursor = file.len();
        file.extend(closing);
    }
    assert_eq!(text(file), "[[0,0],[20,35],[65,65],[2065,2065]]");
}

#[test]
fn index_positions_fit_u32() {
    assert_eq!(index_position(77), Ok(77));
    assert_eq!(index_position(u32::MAX as u64), Ok(u32::MAX));
    assert_eq!(index_position(u32::MAX as u64 + 1), Err(XError::Overflow));
}

#[test]
fn save_progress_takes_frames_in_order() {
    let mut p = SaveProgress::new();
    assert_eq!(p.accept_input(2), Err(XError::BadArgument));
    assert_eq!(p.accept_input(1), Ok(()));
    assert_eq!(p.accept_input(2), Ok(()));
    assert_eq!(p.input_frame, 2);
    assert_eq!(p.accept_state(1), Err(XError::BadArgument));
    assert_eq!(p.accept_state(0), Ok(()));
    assert_eq!(p.accept_state(1), Ok(()));
    assert!(p.stop());
    assert!(!p.stop());
    assert_eq!(p.accept_input(3), Err(XError::BadOperation));
    assert_eq!(p.accept_state(2), Err(XError::BadOperation));
}

#[test]
fn playback_cursor_walks_indexes() {
    let mut c = PlaybackCursor::new();
    let inputs = vec![0u32, 12, 40];
    assert_eq!(c.next_input(&inputs), Some((0, 12)));
    assert_eq!(c.next_input(&inputs), Some((12, 28)));
    assert_eq!(c.next_input(&inputs), None);
    assert_eq!(c.input_ptr, 2);

    let states = vec![(0u32, 0u32), (20, 35), (65, 65)];
    assert_eq!(c.next_state(&states), Some((0, 0, 20)));
    assert_eq!(c.next_state(&states), Some((20, 15, 30)));
    assert_eq!(c.next_state(&states), None);
    assert_eq!(c.state_ptr, 2);
}

#[test]
fn save_meta_holds_names() {
    let m = SaveMeta::new(String::from("Critical Point"), String::from("0.1.0"));
    assert_eq!(m.game, "Critical Point");
    assert_eq!(m.rule_version, "0.1.0");
}
