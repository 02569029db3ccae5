use car_dashboard::timer::TimerRepeat;
use car_dashboard::ui::{setup_timer, update, UPDATE_INTERVAL_MS};

#[test]
fn setup_timer_starts_a_repeating_refresh() {
    let scheduled = setup_timer(42u32);
    assert_eq!(scheduled.repeat(), TimerRepeat::Repeated);
    assert_eq!(scheduled.interval_ms(), 300);
    assert_eq!(UPDATE_INTERVAL_MS, 300);
    assert!(scheduled.running_after_start());
    let timer = scheduled.timer();
    assert!(timer.running());
    assert_eq!(timer.interval(), std::time::Duration::from_millis(UPDATE_INTERVAL_MS));
    timer.stop();
    assert!(!timer.running());
}

#[test]
fn update_does_nothing() {
    let window = String::from("window");
    update(&window);
    assert_eq!(window, "window");
}
