use perry_ui::layout::{has_dropdown, intrinsic_plan, layout_for, ContainerLayout, Intrinsic, WidgetKind};
use perry_ui::stack::{
    inner_cross, layout_stack, measure_stack, needs_measure, scroll_content, shown_children,
    ChildInfo, Frame, Insets, MeasuredChild, ShownChild, StackChild, StackGeometry,
};

fn info(spacer: bool, fills: bool, fw: Option<i32>, fh: Option<i32>) -> ChildInfo {
    ChildInfo { is_spacer: spacer, fills_remaining: fills, fixed_width: fw, fixed_height: fh }
}

fn column(width: i32, height: i32, spacing: i32) -> StackGeometry {
    StackGeometry {
        vertical: true,
        width,
        height,
        top: 0,
        left: 0,
        bottom: 0,
        right: 0,
        spacing,
    }
}

fn rects(frames: &[Frame]) -> Vec<(i32, i32, i32, i32)> {
    frames.iter().map(|f| (f.x, f.y, f.w, f.h)).collect()
}

fn shown(children: &[StackChild]) -> Vec<ShownChild> {
    shown_children(&children.to_vec())
}

#[test]
fn containers_and_leaves() {
    assert!(matches!(layout_for(WidgetKind::VStack, false), Some(ContainerLayout::Stack { vertical: true })));
    assert!(matches!(layout_for(WidgetKind::Form, false), Some(ContainerLayout::Stack { vertical: true })));
    assert!(matches!(layout_for(WidgetKind::Section, false), Some(ContainerLayout::Stack { vertical: true })));
    assert!(matches!(layout_for(WidgetKind::LazyVStack, false), Some(ContainerLayout::Stack { vertical: true })));
    assert!(matches!(layout_for(WidgetKind::HStack, false), Some(ContainerLayout::Stack { vertical: false })));
    assert!(matches!(layout_for(WidgetKind::ScrollView, false), Some(ContainerLayout::Scroll)));
    assert!(matches!(layout_for(WidgetKind::ZStack, false), Some(ContainerLayout::Overlay)));
    assert!(matches!(layout_for(WidgetKind::NavStack, false), Some(ContainerLayout::Navigation)));
    assert!(layout_for(WidgetKind::VStack, true).is_none());
    assert!(layout_for(WidgetKind::Button, false).is_none());
    assert!(layout_for(WidgetKind::WheelPicker, false).is_none());
}

#[test]
fn intrinsic_sizes() {
    assert!(matches!(intrinsic_plan(WidgetKind::WheelPicker, true, None, None), Intrinsic::Scaled(140)));
    assert!(matches!(intrinsic_plan(WidgetKind::WheelPicker, false, None, None), Intrinsic::Scaled(90)));
    assert!(matches!(intrinsic_plan(WidgetKind::TextField, true, None, None), Intrinsic::Scaled(30)));
    assert!(matches!(intrinsic_plan(WidgetKind::Divider, false, None, None), Intrinsic::Scaled(2)));
    assert!(matches!(intrinsic_plan(WidgetKind::Calendar, false, None, None), Intrinsic::Scaled(280)));
    assert!(matches!(intrinsic_plan(WidgetKind::Picker, true, None, None), Intrinsic::Scaled(28)));
    assert!(matches!(intrinsic_plan(WidgetKind::DatePicker, false, None, None), Intrinsic::Scaled(160)));
    assert!(matches!(intrinsic_plan(WidgetKind::TextArea, true, None, None), Intrinsic::Scaled(120)));
    assert!(matches!(
        intrinsic_plan(WidgetKind::Text, true, None, None),
        Intrinsic::Text { padding: 0, fallback: 20 }
    ));
    assert!(matches!(
        intrinsic_plan(WidgetKind::Button, false, None, None),
        Intrinsic::Text { padding: 32, fallback: 100 }
    ));
    assert!(matches!(intrinsic_plan(WidgetKind::Spacer, true, None, None), Intrinsic::Zero));
    assert!(matches!(intrinsic_plan(WidgetKind::Form, false, None, None), Intrinsic::Stack { vertical: true }));
    assert!(matches!(intrinsic_plan(WidgetKind::HStack, true, None, None), Intrinsic::Stack { vertical: false }));
    // A fixed dimension on the measured axis wins, the other one does not.
    assert!(matches!(intrinsic_plan(WidgetKind::Button, true, Some(80), Some(44)), Intrinsic::Fixed(44)));
    assert!(matches!(intrinsic_plan(WidgetKind::Button, false, Some(80), Some(44)), Intrinsic::Fixed(80)));
    assert!(matches!(intrinsic_plan(WidgetKind::Image, true, Some(56), None), Intrinsic::Scaled(24)));
}

#[test]
fn dropdowns() {
    assert!(has_dropdown(WidgetKind::Picker));
    assert!(has_dropdown(WidgetKind::Combobox));
    assert!(!has_dropdown(WidgetKind::WheelPicker));
}

#[test]
fn hidden_and_absent_children_are_skipped() {
    let children = [
        StackChild::Hidden,
        StackChild::Shown(info(false, false, None, Some(10))),
        StackChild::Absent,
        StackChild::Shown(info(true, false, None, None)),
    ];
    let vis = shown(&children);
    let idx: Vec<usize> = vis.iter().map(|c| c.index).collect();
    assert_eq!(idx, vec![1, 3]);
}

#[test]
fn spacer_takes_the_remaining_space() {
    let vis = shown(&[
        StackChild::Shown(info(false, false, None, Some(50))),
        StackChild::Shown(info(true, false, None, None)),
        StackChild::Shown(info(false, false, Some(40), None)),
    ]);
    assert_eq!(needs_measure(&vis, true, true), vec![false, false, true]);
    let frames = layout_stack(&vis, &vec![0, 0, 30], column(100, 200, 10), true).unwrap();
    assert_eq!(rects(&frames), vec![(0, 0, 100, 50), (0, 60, 100, 100), (0, 170, 40, 30)]);
}

#[test]
fn fill_distribution_stretches_the_last_child() {
    let vis = shown(&[
        StackChild::Shown(info(false, false, None, None)),
        StackChild::Shown(info(false, false, None, None)),
    ]);
    assert_eq!(needs_measure(&vis, true, true), vec![true, false]);
    let frames = layout_stack(&vis, &vec![20, 0], column(50, 100, 5), true).unwrap();
    assert_eq!(rects(&frames), vec![(0, 0, 50, 20), (0, 25, 50, 75)]);
    // Without the fill distribution every child keeps its size.
    assert_eq!(needs_measure(&vis, true, false), vec![true, true]);
    let frames = layout_stack(&vis, &vec![20, 30], column(50, 100, 5), false).unwrap();
    assert_eq!(rects(&frames), vec![(0, 0, 50, 20), (0, 25, 50, 30)]);
}

#[test]
fn spacers_share_equally_with_insets_in_a_row() {
    let vis = shown(&[
        StackChild::Shown(info(true, false, None, None)),
        StackChild::Shown(info(false, false, Some(30), Some(12))),
        StackChild::Shown(info(false, true, None, None)),
    ]);
    let g = StackGeometry {
        vertical: false,
        width: 121,
        height: 40,
        top: 4,
        left: 10,
        bottom: 6,
        right: 10,
        spacing: 0,
    };
    let frames = layout_stack(&vis, &vec![0, 0, 0], g, true).unwrap();
    // 101 - 30 = 71 left, 35 each (the odd pixel is not placed).
    assert_eq!(rects(&frames), vec![(10, 4, 35, 30), (45, 4, 30, 12), (75, 4, 35, 30)]);
}

#[test]
fn content_larger_than_room_gives_spacers_nothing() {
    let vis = shown(&[
        StackChild::Shown(info(false, false, None, Some(80))),
        StackChild::Shown(info(true, false, None, None)),
        StackChild::Shown(info(false, false, None, Some(80))),
    ]);
    let frames = layout_stack(&vis, &vec![0, 0, 0], column(10, 100, 0), true).unwrap();
    assert_eq!(rects(&frames), vec![(0, 0, 10, 80), (0, 80, 10, 0), (0, 80, 10, 80)]);
}

#[test]
fn empty_stack_places_nothing() {
    let vis: Vec<ShownChild> = shown(&[StackChild::Hidden, StackChild::Absent]);
    assert!(vis.is_empty());
    assert_eq!(layout_stack(&vis, &vec![], column(10, 10, 4), true).unwrap().len(), 0);
}

#[test]
fn overflowing_layout_has_no_result() {
    let vis = shown(&[
        StackChild::Shown(info(false, false, None, Some(i32::MAX))),
        StackChild::Shown(info(false, false, None, Some(1))),
    ]);
    assert!(layout_stack(&vis, &vec![0, 0], column(10, 10, 0), false).is_none());
    let g = StackGeometry { top: i32::MAX, bottom: 0, ..column(10, -10, 0) };
    assert!(layout_stack(&vis, &vec![0, 0], g, false).is_none());
}

#[test]
fn stack_measurement_along_and_across() {
    let ins = Insets { top: 5, left: 2, bottom: 5, right: 2 };
    let kids = vec![
        MeasuredChild::Content(20),
        MeasuredChild::Spacer,
        MeasuredChild::Hidden,
        MeasuredChild::Absent,
        MeasuredChild::Content(30),
    ];
    // A column measured along its axis: insets + sizes + two gaps.
    assert_eq!(measure_stack(true, true, ins, 4, 100, &kids), Some(10 + 50 + 8));
    // A column measured across: the widest child with the insets.
    assert_eq!(measure_stack(true, false, ins, 4, 100, &kids), Some(34));
    assert_eq!(measure_stack(false, false, ins, 4, 100, &vec![]), Some(4));
    assert_eq!(measure_stack(true, true, ins, 4, 100, &vec![MeasuredChild::Content(7)]), Some(17));
    assert_eq!(inner_cross(ins, true, 100), Some(96));
    assert_eq!(inner_cross(ins, false, 6), Some(0));
    assert_eq!(measure_stack(true, true, ins, 4, 100, &vec![MeasuredChild::Content(i32::MAX)]), None);
}

#[test]
fn scroll_content_is_at_least_the_viewport() {
    let f = scroll_content(300, 200, Some(500));
    assert_eq!((f.x, f.y, f.w, f.h), (0, 0, 300, 500));
    let f = scroll_content(300, 200, Some(50));
    assert_eq!((f.x, f.y, f.w, f.h), (0, 0, 300, 200));
    let f = scroll_content(300, 200, None);
    assert_eq!(f.h, 200);
}

#[test]
fn hidden_children_do_not_change_measurement() {
    let ins = Insets { top: 1, left: 1, bottom: 1, right: 1 };
    let base = vec![MeasuredChild::Content(12), MeasuredChild::Content(8)];
    let mut with_hidden = base.clone();
    with_hidden.push(MeasuredChild::Hidden);
    with_hidden.push(MeasuredChild::Absent);
    for (column, vertical) in [(true, true), (true, false), (false, true), (false, false)] {
        assert_eq!(
            measure_stack(column, vertical, ins, 3, 50, &with_hidden),
            measure_stack(column, vertical, ins, 3, 50, &base)
        );
    }
}
