use model_meter::windows::{
    detail_position, docked_top, edge_snap_after_drag, get_monitor_top_for_point,
    is_position_on_any_monitor, is_valid_coord, monitor_lost, new_window_placement, rescue_window,
    show_placement, timer_wait, trend_toggle, window_monitor_top, EdgeSnap, Frame, Monitor,
    Placement, Rescue, TimerWait, TrendToggle, VisibleWindows,
};

fn screens() -> Vec<Monitor> {
    vec![
        Monitor { x: 0, y: 0, width: 1920, height: 1080 },
        Monitor { x: 1920, y: -200, width: 1280, height: 1024 },
    ]
}

#[test]
fn valid_coordinates() {
    assert!(is_valid_coord(0));
    assert!(is_valid_coord(-9999));
    assert!(!is_valid_coord(-10000));
    assert!(!is_valid_coord(-32000));
}

#[test]
fn positions_on_monitors() {
    let m = screens();
    assert!(is_position_on_any_monitor(&m, 10, 10));
    assert!(is_position_on_any_monitor(&m, -100, -100));
    assert!(!is_position_on_any_monitor(&m, -101, 10));
    assert!(is_position_on_any_monitor(&m, 2000, -250));
    assert!(!is_position_on_any_monitor(&m, 3200, 0));
    assert!(!is_position_on_any_monitor(&vec![], 0, 0));
}

#[test]
fn monitor_tops() {
    let m = screens();
    assert_eq!(get_monitor_top_for_point(&m, 100, 100), Some(0));
    assert_eq!(get_monitor_top_for_point(&m, 2000, -100), Some(-200));
    assert_eq!(get_monitor_top_for_point(&m, -1, 0), None);
    assert_eq!(window_monitor_top(Some(5), &m, -1, 0), Some(5));
    assert_eq!(window_monitor_top(None, &m, 2000, 0), Some(-200));
}

#[test]
fn edge_snapping() {
    assert!(edge_snap_after_drag(true, Some(0), 10) == EdgeSnap::Snap(0));
    assert!(edge_snap_after_drag(true, Some(0), 11) == EdgeSnap::Release);
    assert!(edge_snap_after_drag(true, Some(-200), -300) == EdgeSnap::Snap(-200));
    assert!(edge_snap_after_drag(true, None, 0) == EdgeSnap::Release);
    assert!(edge_snap_after_drag(false, Some(0), 0) == EdgeSnap::Nothing);
    assert_eq!(docked_top(true, Some(0), 3), Some(0));
    assert_eq!(docked_top(true, Some(0), 30), None);
    assert_eq!(docked_top(false, Some(0), 3), None);
}

#[test]
fn placements() {
    let m = screens();
    assert!(show_placement(Some((100, 100)), &m) == Placement::At(100, 100));
    assert!(show_placement(Some((-5000, 100)), &m) == Placement::Center);
    assert!(show_placement(None, &m) == Placement::Keep);
    assert!(new_window_placement(None, &m) == Placement::Center);
    assert!(new_window_placement(Some((-5000, 1)), &m) == Placement::Center);
    assert!(new_window_placement(Some((5, 6)), &m) == Placement::At(5, 6));
}

#[test]
fn lost_monitors() {
    assert!(monitor_lost(2, 1));
    assert!(!monitor_lost(0, 0));
    assert!(!monitor_lost(1, 2));
    assert!(!monitor_lost(2, 2));
}

#[test]
fn rescued_windows() {
    let m = vec![Monitor { x: 0, y: 0, width: 1920, height: 1080 }];
    let primary = Some(m[0]);
    assert!(rescue_window(2500, 100, &m, primary, Some((400, 781))) == Rescue::MoveTo(760, 149));
    assert!(rescue_window(2500, 100, &m, None, Some((400, 780))) == Rescue::Center);
    assert!(rescue_window(100, 100, &m, primary, Some((400, 780))) == Rescue::Stay);
    assert!(rescue_window(-32000, -32000, &m, primary, Some((400, 780))) == Rescue::Stay);
    let small = Some(Monitor { x: 0, y: 0, width: 100, height: 100 });
    assert!(rescue_window(2500, 100, &m, small, Some((201, 301))) == Rescue::MoveTo(-50, -100));
}

#[test]
fn detail_window_beside_the_panel() {
    let m = screens();
    let main = Frame { x: 100, y: 100, width: 400, height: 780 };
    assert_eq!(detail_position(&m, main, 400, 200), (516, 680));
    let right_edge = Frame { x: 1500, y: 100, width: 400, height: 780 };
    assert_eq!(detail_position(&m, right_edge, 400, 200), (1084, 680));
    let off = Frame { x: 9000, y: 0, width: 400, height: 780 };
    assert_eq!(detail_position(&m, off, 400, 200), (9416, 580));
    let tight = vec![Monitor { x: 0, y: 0, width: 900, height: 1000 }];
    let mid = Frame { x: 300, y: 0, width: 400, height: 780 };
    assert_eq!(detail_position(&tight, mid, 400, 200), (-116, 580));
}

#[test]
fn trend_detail_toggling() {
    assert!(trend_toggle(true, Some("2024-03-05"), "2024-03-05") == TrendToggle::Hide);
    assert!(trend_toggle(true, Some("2024-03-04"), "2024-03-05") == TrendToggle::Update);
    assert!(trend_toggle(true, None, "") == TrendToggle::Hide);
    assert!(trend_toggle(false, Some("2024-03-05"), "2024-03-05") == TrendToggle::Show);
}

#[test]
fn visible_window_count_follows_the_set() {
    let mut w = VisibleWindows::new();
    assert_eq!(w.count(), 0);
    assert!(w.shown("main"));
    assert!(!w.shown("main"));
    assert!(w.shown("widget"));
    assert_eq!(w.count(), 2);
    assert!(w.hidden("main"));
    assert!(!w.hidden("main"));
    assert!(!w.hidden("settings"));
    assert_eq!(w.count(), 1);
    assert!(w.hidden("widget"));
    assert_eq!(w.count(), 0);
}

#[test]
fn timer_waits() {
    assert!(timer_wait(0, 60) == TimerWait::Idle);
    assert!(timer_wait(2, 60) == TimerWait::Refresh(60));
}

#[test]
fn snapped_window_stays_snapped() {
    assert!(edge_snap_after_drag(true, Some(-200), -200) == EdgeSnap::Snap(-200));
    let mut w = VisibleWindows::new();
    w.shown("main");
    assert!(w.shown("settings"));
    assert!(w.hidden("settings"));
    assert_eq!(w.count(), 1);
}
