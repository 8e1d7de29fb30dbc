use perry_ui::android;
use perry_ui::ios;
use perry_ui::macos::{provisional_handle, PerryWheelPickerViewIvars};
use perry_ui::style::{base_color, fold_selected_color, in_band, row_color, row_size, RowColor};
use perry_ui::text::str_from_header;
use perry_ui::watchos;
use perry_ui::wheel;

#[test]
fn ios_wheel_reports_user_selection() {
    let mut t = ios::new_table();
    ios::create(&mut t, 3, 42);
    assert_eq!(ios::get_selected(&t, 3), -1);
    assert_eq!(ios::number_of_rows(&t, 3), 0);
    assert!(ios::add_item(&mut t, 3, "one".to_string()));
    assert!(ios::add_item(&mut t, 3, "two".to_string()));
    assert_eq!(ios::get_selected(&t, 3), 0);
    assert_eq!(ios::number_of_rows(&t, 3), 2);
    assert_eq!(ios::did_select_row(&mut t, 3, 1), Some(42));
    assert_eq!(ios::get_selected(&t, 3), 1);
    assert_eq!(ios::did_select_row(&mut t, 3, 2), None);
    assert_eq!(ios::did_select_row(&mut t, 3, -1), None);
    assert_eq!(ios::get_selected(&t, 3), 1);
}

#[test]
fn ios_programmatic_selection() {
    let mut t = ios::new_table();
    ios::create(&mut t, 3, 0);
    ios::add_item(&mut t, 3, "one".to_string());
    ios::add_item(&mut t, 3, "two".to_string());
    assert!(ios::set_selected(&mut t, 3, 1));
    assert!(!ios::set_selected(&mut t, 3, 2));
    assert_eq!(ios::get_selected(&t, 3), 1);
    // Without a closure the user's selection is recorded but nothing fires.
    assert_eq!(ios::did_select_row(&mut t, 3, 0), None);
    assert_eq!(ios::get_selected(&t, 3), 0);
    assert!(!ios::add_item(&mut t, 8, "x".to_string()));
    assert_eq!(ios::get_selected(&t, 8), -1);
    assert_eq!(ios::number_of_rows(&t, 8), 0);
}

#[test]
fn ios_row_labels() {
    let mut t = ios::new_table();
    ios::create(&mut t, 3, 0);
    ios::add_item(&mut t, 3, "one".to_string());
    ios::add_item(&mut t, 3, "two".to_string());
    let l = ios::row_label(&t, 3, 0).unwrap();
    assert_eq!(l.title, "one");
    assert!(l.selected);
    let l = ios::row_label(&t, 3, 1).unwrap();
    assert_eq!(l.title, "two");
    assert!(!l.selected);
    assert!(ios::row_label(&t, 3, 2).is_none());
    assert!(ios::row_label(&t, 3, -1).is_none());
    assert!(ios::row_label(&t, 4, 0).is_none());
    let ivars = ios::PerryWheelPickerDelegateIvars::new(3);
    assert_eq!(ivars.handle, 3);
}

#[test]
fn android_rows_and_selection() {
    let mut t = android::new_table();
    android::create(&mut t, 5, 9);
    assert!(!android::needs_view_value(&t, 5));
    // An empty wheel answers -1 whatever the view would say.
    assert_eq!(android::get_selected(&t, 5, Some(3)), -1);
    assert_eq!(android::set_selected(&t, 5, 0), None);
    assert!(android::add_item(&mut t, 5, "a".to_string()));
    assert!(android::add_item(&mut t, 5, "b".to_string()));
    assert_eq!(android::items(&t, 5).unwrap(), &vec!["a".to_string(), "b".to_string()]);
    assert!(android::needs_view_value(&t, 5));
    assert_eq!(android::get_selected(&t, 5, Some(1)), 1);
    assert_eq!(android::get_selected(&t, 5, None), -1);
    assert_eq!(android::set_selected(&t, 5, 1), Some(1));
    assert_eq!(android::set_selected(&t, 5, 2), None);
    assert_eq!(android::set_selected(&t, 5, -1), None);
    assert!(!android::add_item(&mut t, 6, "x".to_string()));
    assert_eq!(android::get_selected(&t, 6, Some(0)), -1);
    assert!(android::items(&t, 6).is_none());
}

#[test]
fn watchos_node_selection() {
    let mut t = watchos::new_table();
    watchos::create(&mut t, 2, 0);
    assert_eq!(watchos::get_selected(&t, 2), -1);
    assert!(!watchos::add_item(&mut t, 2, None));
    assert_eq!(watchos::get_selected(&t, 2), -1);
    // The stored selection is kept as given, and read once there are rows.
    assert!(watchos::set_selected(&mut t, 2, 4));
    assert_eq!(watchos::get_selected(&t, 2), -1);
    assert!(watchos::add_item(&mut t, 2, Some("a".to_string())));
    assert_eq!(watchos::get_selected(&t, 2), 4);
    assert_eq!(watchos::items(&t, 2).unwrap().len(), 1);
    assert!(!watchos::set_selected(&mut t, 7, 1));
    assert_eq!(watchos::get_selected(&t, 7), -1);
    assert!(!watchos::add_item(&mut t, 7, Some("b".to_string())));
}

#[test]
fn watchos_fresh_node_selects_first_row() {
    let mut t = watchos::new_table();
    watchos::create(&mut t, 2, 0);
    watchos::add_item(&mut t, 2, Some("a".to_string()));
    assert_eq!(watchos::get_selected(&t, 2), 0);
}

#[test]
fn macos_view_handles() {
    let mut t = wheel::new_table();
    assert_eq!(provisional_handle(&t), 1);
    wheel::create(&mut t, 10, 0);
    assert_eq!(provisional_handle(&t), 2);
    let mut ivars = PerryWheelPickerViewIvars::new(2);
    assert_eq!(ivars.handle, 2);
    ivars.retarget(10);
    assert_eq!(ivars.handle, 10);
}

#[test]
fn selected_colour_applies_in_the_band_only() {
    let sel = Some((1u8, 0u8, 0u8));
    let text = Some((0u8, 0u8, 1u8));
    assert_eq!(base_color(true, sel, text), sel);
    assert_eq!(base_color(false, sel, text), text);
    assert_eq!(base_color(true, None, text), text);
    assert_eq!(base_color::<u8>(false, None, None), None);
    assert!(matches!(row_color(true, sel, text), RowColor::Exact((1, 0, 0))));
    assert!(matches!(row_color(false, sel, text), RowColor::Faded((0, 0, 1))));
    assert!(matches!(row_color(true, None, text), RowColor::Faded((0, 0, 1))));
    assert!(matches!(row_color::<u8>(true, None, None), RowColor::Default));
    assert!(matches!(row_color(false, sel, None), RowColor::Default));
}

#[test]
fn row_sizes() {
    assert_eq!(row_size(Some(18u32), true, 15, 13), 18);
    assert_eq!(row_size(Some(18u32), false, 15, 13), 18);
    assert_eq!(row_size(None, true, 15u32, 13), 15);
    assert_eq!(row_size(None, false, 15u32, 13), 13);
}

#[test]
fn selection_band_is_half_a_row_each_way() {
    assert!(in_band(0));
    assert!(in_band(13));
    assert!(in_band(-13));
    assert!(!in_band(14));
    assert!(!in_band(-14));
    assert!(!in_band(i32::MAX));
    assert!(!in_band(i32::MIN));
}

#[test]
fn watchos_folds_selected_colour() {
    assert_eq!(fold_selected_color(None, 7u32), Some(7));
    assert_eq!(fold_selected_color(Some(3u32), 7), Some(3));
}

#[test]
fn string_records_decode() {
    assert_eq!(str_from_header(None), "");
    assert_eq!(str_from_header(Some(b"Minutes")), "Minutes");
    assert_eq!(str_from_header(Some(&[])), "");
    assert_eq!(str_from_header(Some("12 \u{e9}t\u{e9}".as_bytes())), "12 \u{e9}t\u{e9}");
    assert_eq!(str_from_header(Some(&[0x41, 0xff, 0x42])), "A\u{fffd}B");
}
