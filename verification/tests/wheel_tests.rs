use perry_ui::wheel::{
    add_item, bump_settle_gen, click, create, gesture_finished, get_selected, items, mac_key_step,
    new_table, paint_plan, report_if_settled, scroll_notches, set_selected, settle,
    settle_is_current, settled_step, signed_high_word, step_selection, visible_rows, wheel_count,
    win_key_step, WheelTable,
};

const CB: u64 = 0x7ff8_0000_0000_1234;

fn wheel_with(n: usize) -> WheelTable {
    let mut t = new_table();
    create(&mut t, 1, CB);
    for i in 0..n {
        assert!(add_item(&mut t, 1, format!("row {}", i)));
    }
    t
}

#[test]
fn empty_wheel_answers_minus_one() {
    let mut t = new_table();
    create(&mut t, 7, 0);
    assert_eq!(get_selected(&t, 7), -1);
    assert!(add_item(&mut t, 7, "a".to_string()));
    assert_eq!(get_selected(&t, 7), 0);
}

#[test]
fn unknown_handle_changes_nothing() {
    let mut t = wheel_with(2);
    assert!(!add_item(&mut t, 9, "x".to_string()));
    assert!(!set_selected(&mut t, 9, 0));
    assert_eq!(get_selected(&t, 9), -1);
    assert_eq!(report_if_settled(&mut t, 9), None);
    assert_eq!(settle(&mut t, 9), None);
    assert_eq!(scroll_notches(&mut t, 9, 120), 0);
    assert_eq!(bump_settle_gen(&mut t, 9), 0);
    assert!(settle_is_current(&t, 9, 0));
    assert!(items(&t, 9).is_none());
    assert!(paint_plan(&t, 9, 0, 140).is_none());
    assert_eq!(wheel_count(&t), 1);
}

#[test]
fn populating_is_not_a_choice() {
    let mut t = wheel_with(3);
    assert_eq!(get_selected(&t, 1), 0);
    assert_eq!(report_if_settled(&mut t, 1), None);
    let rows = items(&t, 1).unwrap();
    assert_eq!(rows.len(), 3);
    assert_eq!(rows[2], "row 2");
}

#[test]
fn programmatic_selection_is_silent() {
    let mut t = wheel_with(3);
    assert!(set_selected(&mut t, 1, 2));
    assert_eq!(get_selected(&t, 1), 2);
    assert_eq!(report_if_settled(&mut t, 1), None);
    assert_eq!(settle(&mut t, 1), None);
}

#[test]
fn out_of_range_selection_is_refused() {
    let mut t = wheel_with(3);
    assert!(!set_selected(&mut t, 1, 3));
    assert!(!set_selected(&mut t, 1, -1));
    assert_eq!(get_selected(&t, 1), 0);
    let mut empty = wheel_with(0);
    assert!(!set_selected(&mut empty, 1, 0));
    assert_eq!(get_selected(&empty, 1), -1);
}

#[test]
fn settled_choice_is_reported_once() {
    let mut t = wheel_with(5);
    step_selection(&mut t, 1, 2);
    assert_eq!(get_selected(&t, 1), 2);
    assert_eq!(report_if_settled(&mut t, 1), Some((CB, 2)));
    assert_eq!(report_if_settled(&mut t, 1), None);
}

#[test]
fn no_closure_no_report_but_baseline_moves() {
    let mut t = new_table();
    create(&mut t, 4, 0);
    add_item(&mut t, 4, "a".to_string());
    add_item(&mut t, 4, "b".to_string());
    step_selection(&mut t, 4, 1);
    assert_eq!(report_if_settled(&mut t, 4), None);
    assert_eq!(get_selected(&t, 4), 1);
}

#[test]
fn steps_are_held_to_the_rows() {
    let mut t = wheel_with(4);
    step_selection(&mut t, 1, 10);
    assert_eq!(get_selected(&t, 1), 3);
    step_selection(&mut t, 1, -10);
    assert_eq!(get_selected(&t, 1), 0);
    step_selection(&mut t, 1, i64::MAX);
    assert_eq!(get_selected(&t, 1), 3);
    step_selection(&mut t, 1, i64::MIN);
    assert_eq!(get_selected(&t, 1), 0);
    step_selection(&mut t, 1, 0);
    assert_eq!(get_selected(&t, 1), 0);
    let mut empty = wheel_with(0);
    step_selection(&mut empty, 1, 3);
    assert_eq!(get_selected(&empty, 1), -1);
}

#[test]
fn returning_to_the_baseline_reports_nothing() {
    let mut t = wheel_with(4);
    step_selection(&mut t, 1, 2);
    step_selection(&mut t, 1, -2);
    assert_eq!(report_if_settled(&mut t, 1), None);
}

#[test]
fn whole_notches_step_and_remainder_waits() {
    let mut t = wheel_with(5);
    set_selected(&mut t, 1, 2);
    assert_eq!(scroll_notches(&mut t, 1, 60), 0);
    assert_eq!(get_selected(&t, 1), 2);
    // 60 + 60 is one whole notch forward: one row toward earlier rows.
    assert_eq!(scroll_notches(&mut t, 1, 60), 1);
    assert_eq!(get_selected(&t, 1), 1);
    // Backward notches move toward later rows.
    assert_eq!(scroll_notches(&mut t, 1, -240), -2);
    assert_eq!(get_selected(&t, 1), 3);
    // Travel that cancels out is no step.
    assert_eq!(scroll_notches(&mut t, 1, 119), 0);
    assert_eq!(scroll_notches(&mut t, 1, -119), 0);
    assert_eq!(get_selected(&t, 1), 3);
}

#[test]
fn one_notch_is_one_row_and_one_report() {
    let mut t = wheel_with(5);
    set_selected(&mut t, 1, 2);
    assert_eq!(scroll_notches(&mut t, 1, 120), 1);
    assert_eq!(settle(&mut t, 1), Some((CB, 1)));
    assert_eq!(settle(&mut t, 1), None);
    assert_eq!(scroll_notches(&mut t, 1, -120), -1);
    assert_eq!(settle(&mut t, 1), Some((CB, 2)));
}

#[test]
fn settling_drops_partial_travel() {
    let mut t = wheel_with(5);
    set_selected(&mut t, 1, 2);
    scroll_notches(&mut t, 1, 60);
    let plan = paint_plan(&t, 1, 0, 140).unwrap();
    let centre_row = plan.rows.iter().find(|r| r.index == 2).unwrap();
    assert_eq!(centre_row.offset_px, 14);
    settle(&mut t, 1);
    let plan = paint_plan(&t, 1, 0, 140).unwrap();
    let centre_row = plan.rows.iter().find(|r| r.index == 2).unwrap();
    assert_eq!(centre_row.offset_px, 0);
}

#[test]
fn clicks_pick_the_nearest_row() {
    let mut t = wheel_with(5);
    set_selected(&mut t, 1, 2);
    // Client area 0..140: centre line at 70.
    assert_eq!(click(&mut t, 1, 70, 0, 140), None);
    assert_eq!(click(&mut t, 1, 83, 0, 140), None);
    assert_eq!(get_selected(&t, 1), 2);
    assert_eq!(click(&mut t, 1, 84, 0, 140), Some((CB, 3)));
    assert_eq!(click(&mut t, 1, 70 - 28, 0, 140), Some((CB, 2)));
    assert_eq!(click(&mut t, 1, 70 - 42, 0, 140), Some((CB, 0)));
    assert_eq!(click(&mut t, 1, 139, 0, 140), Some((CB, 2)));
}

#[test]
fn arrow_keys_step_one_row() {
    assert_eq!(mac_key_step(126), Some(-1));
    assert_eq!(mac_key_step(125), Some(1));
    assert_eq!(mac_key_step(36), None);
    assert_eq!(win_key_step(0x26), Some(-1));
    assert_eq!(win_key_step(0x28), Some(1));
    assert_eq!(win_key_step(0x41), None);
    let mut t = wheel_with(3);
    assert_eq!(settled_step(&mut t, 1, 1), Some((CB, 1)));
    assert_eq!(settled_step(&mut t, 1, 5), Some((CB, 2)));
    assert_eq!(settled_step(&mut t, 1, 1), None);
}

#[test]
fn gesture_end_detection() {
    assert!(gesture_finished(0, 0));
    assert!(gesture_finished(8, 0));
    assert!(gesture_finished(16, 0));
    assert!(gesture_finished(0, 8));
    assert!(gesture_finished(4, 16));
    assert!(!gesture_finished(1, 0));
    assert!(!gesture_finished(4, 2));
    assert!(!gesture_finished(0, 4));
}

#[test]
fn newer_scroll_makes_queued_settle_stale() {
    let mut t = wheel_with(3);
    let first = bump_settle_gen(&mut t, 1);
    assert_eq!(first, 1);
    assert!(settle_is_current(&t, 1, first));
    let second = bump_settle_gen(&mut t, 1);
    assert_eq!(second, 2);
    assert!(!settle_is_current(&t, 1, first));
    assert!(settle_is_current(&t, 1, second));
}

#[test]
fn visible_rows_around_the_selection() {
    let rows = visible_rows(5, 10);
    let pairs: Vec<(i64, usize)> = rows.iter().map(|r| (r.offset, r.index)).collect();
    assert_eq!(pairs, vec![(-3, 2), (-2, 3), (-1, 4), (0, 5), (1, 6), (2, 7), (3, 8)]);
    let rows = visible_rows(1, 3);
    let pairs: Vec<(i64, usize)> = rows.iter().map(|r| (r.offset, r.index)).collect();
    assert_eq!(pairs, vec![(-1, 0), (0, 1), (1, 2)]);
    assert!(visible_rows(-1, 0).is_empty());
    let rows = visible_rows(0, 1);
    assert_eq!(rows.len(), 1);
    assert_eq!((rows[0].offset, rows[0].index), (0, 0));
}

#[test]
fn paint_geometry() {
    let mut t = wheel_with(4);
    set_selected(&mut t, 1, 1);
    let plan = paint_plan(&t, 1, 0, 140).unwrap();
    assert_eq!(plan.band_top, 56);
    assert_eq!(plan.band_bottom, 84);
    let geo: Vec<(usize, i32, i32, i32)> =
        plan.rows.iter().map(|r| (r.index, r.top, r.bottom, r.offset_px)).collect();
    assert_eq!(
        geo,
        vec![(0, 28, 56, -28), (1, 56, 84, 0), (2, 84, 112, 28), (3, 112, 140, 56)]
    );
    // A backward half notch draws the column 14 pixels up.
    scroll_notches(&mut t, 1, -60);
    let plan = paint_plan(&t, 1, 0, 140).unwrap();
    assert_eq!(plan.rows[1].offset_px, -14);
    assert_eq!(plan.rows[1].top, 42);
    // A 30-unit step is exactly 7 pixels.
    scroll_notches(&mut t, 1, 90);
    let plan = paint_plan(&t, 1, 0, 140).unwrap();
    assert_eq!(plan.rows[1].offset_px, 7);
}

#[test]
fn message_words_decode_signed() {
    assert_eq!(signed_high_word(0x0078_0000), 120);
    assert_eq!(signed_high_word(0xFF88_0000), -120);
    assert_eq!(signed_high_word(0xFFFF_FFFF_FF88_1234), -120);
    assert_eq!(signed_high_word(0x8000_0000), i16::MIN);
    assert_eq!(signed_high_word(0x7FFF_0000), i16::MAX);
    assert_eq!(signed_high_word(0xFFFF), 0);
}

#[test]
fn recreating_a_wheel_resets_it() {
    let mut t = wheel_with(3);
    set_selected(&mut t, 1, 2);
    create(&mut t, 1, CB);
    assert_eq!(get_selected(&t, 1), -1);
    assert_eq!(items(&t, 1).unwrap().len(), 0);
}
