use ddc_brightness::controller::{Controller, Debounce, EnterPlan, FirstBrightness};
use ddc_brightness::monitor::Monitor;

fn monitor(display_number: u8, name: &str) -> Monitor {
    Monitor { display_number, i2c_bus: None, name: name.to_string() }
}

fn restart(d: &Debounce) -> Option<(u8, u8)> {
    match d {
        Debounce::Restart { display, value } => Some((*display, *value)),
        _ => None,
    }
}

#[test]
fn detection_selects_first_monitor() {
    let mut c = Controller::new();
    assert_eq!(c.selected_display(), None);
    let plan = c.monitors_detected(vec![monitor(3, "A"), monitor(5, "B")], Some((40, 100)));
    assert_eq!(plan.names, vec!["A".to_string(), "B".to_string()]);
    assert!(plan.select_first);
    assert!(matches!(plan.brightness, FirstBrightness::Show { current: 40, max: 100 }));
    assert_eq!(c.selected_display(), Some(3));
    // the selection of the first row, while the list is filled, reads nothing
    assert_eq!(c.selection_changed(0), None);
    c.finish_initializing();
    assert_eq!(c.selection_changed(1), Some(5));
    assert_eq!(c.selected_display(), Some(5));
    assert_eq!(c.selection_changed(2), None);
    assert_eq!(c.selected_display(), Some(5));
}

#[test]
fn startup_brightness_is_shown_without_a_write() {
    let mut c = Controller::new();
    let plan = c.monitors_detected(vec![monitor(1, "LG UltraGear")], Some((70, 100)));
    assert!(matches!(plan.brightness, FirstBrightness::Show { current: 70, max: 100 }));
    assert_eq!(c.selection_changed(0), None);
    c.finish_initializing();
    // the slider and the spin button echo the value shown
    let echo = c.slider_changed(70);
    assert!(matches!(echo.debounce, Debounce::Keep));
    assert!(c.spin_changed(70).is_none());
    c.finish_syncing();
    c.finish_setting();
    // a later move by the user writes
    let moved = c.slider_changed(71);
    assert_eq!(restart(&moved.debounce), Some((1, 71)));
}

#[test]
fn detection_without_brightness_reads_it() {
    let mut c = Controller::new();
    let plan = c.monitors_detected(vec![monitor(9, "X")], None);
    assert!(matches!(plan.brightness, FirstBrightness::Read(9)));
}

#[test]
fn detection_of_nothing() {
    let mut c = Controller::new();
    let plan = c.monitors_detected(vec![], None);
    assert!(plan.names.is_empty());
    assert!(!plan.select_first);
    assert!(matches!(plan.brightness, FirstBrightness::Nothing));
    assert_eq!(c.selected_display(), None);
    assert_eq!(c.selection_changed(0), None);
}

#[test]
fn slider_schedules_write_to_selected_display() {
    let mut c = Controller::new();
    let plan = c.slider_changed(10);
    assert_eq!(plan.spin_value, 10);
    assert!(matches!(plan.debounce, Debounce::Cancel));
    c.finish_syncing();
    c.monitors_detected(vec![monitor(2, "A")], Some((1, 100)));
    c.finish_initializing();
    c.finish_setting();
    let plan = c.slider_changed(60);
    assert_eq!(restart(&plan.debounce), Some((2, 60)));
    // the echo of the spin button being synced is ignored
    assert!(c.spin_changed(60).is_none());
    c.finish_syncing();
}

#[test]
fn programmatic_slider_update_writes_nothing() {
    let mut c = Controller::new();
    c.monitors_detected(vec![monitor(2, "A")], None);
    c.finish_initializing();
    c.brightness_read();
    let plan = c.slider_changed(30);
    assert!(matches!(plan.debounce, Debounce::Keep));
    c.finish_syncing();
    c.finish_setting();
    let plan = c.slider_changed(31);
    assert_eq!(restart(&plan.debounce), Some((2, 31)));
}

#[test]
fn spin_drives_slider_and_write() {
    let mut c = Controller::new();
    c.monitors_detected(vec![monitor(4, "A")], None);
    c.finish_initializing();
    let plan = c.spin_changed(77).unwrap();
    assert_eq!(plan.slider_value, 77);
    assert_eq!(restart(&plan.debounce), Some((4, 77)));
    // the slider echo writes nothing while the spin button sets it
    let echo = c.slider_changed(77);
    assert!(matches!(echo.debounce, Debounce::Keep));
    c.finish_syncing();
    c.finish_setting();
}

#[test]
fn enter_writes_at_once_when_spin_focused() {
    let mut c = Controller::new();
    assert!(matches!(c.enter_pressed(true, 5), EnterPlan::Handled(None)));
    c.monitors_detected(vec![monitor(6, "A")], None);
    assert!(matches!(c.enter_pressed(false, 5), EnterPlan::Propagate));
    assert!(matches!(c.enter_pressed(true, 5), EnterPlan::Handled(Some((6, 5)))));
}

#[test]
fn burst_of_changes_writes_last_value_once() {
    let mut c = Controller::new();
    c.monitors_detected(vec![monitor(3, "A")], None);
    c.finish_initializing();
    c.brightness_read();
    c.finish_setting();
    for v in [10u8, 20, 30] {
        let plan = c.slider_changed(v);
        assert_eq!(restart(&plan.debounce), Some((3, v)));
        c.finish_syncing();
    }
    let plan = c.spin_changed(45).unwrap();
    let echo = c.slider_changed(plan.slider_value);
    assert!(matches!(echo.debounce, Debounce::Keep));
    c.finish_syncing();
    c.finish_setting();
    assert_eq!(c.timer_fired(), Some((3, 45)));
    assert_eq!(c.timer_fired(), None);
}

#[test]
fn enter_cancels_pending_write() {
    let mut c = Controller::new();
    c.monitors_detected(vec![monitor(2, "A")], Some((5, 100)));
    c.finish_initializing();
    c.finish_setting();
    c.slider_changed(9);
    c.finish_syncing();
    assert!(matches!(c.enter_pressed(false, 9), EnterPlan::Propagate));
    assert!(matches!(c.enter_pressed(true, 9), EnterPlan::Handled(Some((2, 9)))));
    assert_eq!(c.timer_fired(), None);
}

#[test]
fn controls_disabled_while_loading() {
    let mut c = Controller::new();
    assert!(!c.controls_enabled());
    c.monitors_detected(vec![monitor(1, "A"), monitor(2, "B")], None);
    assert!(!c.controls_enabled());
    c.finish_initializing();
    c.brightness_read();
    c.finish_setting();
    assert!(c.controls_enabled());
    assert_eq!(c.selection_changed(1), Some(2));
    assert!(!c.controls_enabled());
    c.error_received();
    assert!(c.controls_enabled());
    let mut d = Controller::new();
    d.monitors_detected(vec![monitor(1, "A")], Some((1, 2)));
    assert!(d.controls_enabled());
    let mut e = Controller::new();
    e.monitors_detected(vec![], None);
    assert!(!e.controls_enabled());
}
