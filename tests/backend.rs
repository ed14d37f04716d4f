use smithay::backend::{
    damage_for_swap, dispatch_outcome, event_time_ms, reported_buffer_age, supports_damage_tracking,
    DispatchState, WinitError,
};
use smithay::geometry::Rect;

#[test]
fn event_time_in_milliseconds() {
    assert_eq!(event_time_ms(0, 0), 0);
    assert_eq!(event_time_ms(1, 500_000_000), 1500);
    assert_eq!(event_time_ms(2, 999_999), 2000);
    assert_eq!(event_time_ms(4_294_968, 3_000_000), 707);
    assert_eq!(event_time_ms(u64::MAX, 999_999_999), ((1000u128 * u64::MAX as u128 + 999) % (1u128 << 32)) as u32);
}

#[test]
fn key_counter_saturates() {
    let mut state = DispatchState::new();
    assert_eq!(state.key(false), 0);
    assert_eq!(state.key(true), 1);
    assert_eq!(state.key(true), 2);
    assert_eq!(state.key(false), 1);
    assert_eq!(state.key(false), 0);
    assert_eq!(state.key(false), 0);
}

#[test]
fn device_is_announced_once() {
    let mut state = DispatchState::new();
    assert!(state.begin_dispatch());
    assert!(!state.begin_dispatch());
    assert!(!state.begin_dispatch());
}

#[test]
fn closed_window_ends_dispatch() {
    assert_eq!(dispatch_outcome(true), Err(WinitError::WindowClosed));
    assert_eq!(dispatch_outcome(false), Ok(()));
    assert_eq!(WinitError::WindowClosed.message(), "Winit window was closed");
}

#[test]
fn damage_is_flipped_to_bottom_origin() {
    let damage = vec![Rect { x: 10, y: 20, width: 30, height: 40 }, Rect { x: 0, y: 0, width: 5, height: 100 }];
    assert_eq!(
        damage_for_swap(Some(&damage), true, 100),
        Some(vec![Rect { x: 10, y: 40, width: 30, height: 40 }, Rect { x: 0, y: 0, width: 5, height: 100 }])
    );
    assert_eq!(damage_for_swap(Some(&damage), false, 100), None);
    assert_eq!(damage_for_swap(Some(&vec![]), true, 100), None);
    assert_eq!(damage_for_swap(None, true, 100), None);
}

#[test]
fn damage_tracking_needs_both_extensions() {
    let exts = |names: &[&str]| names.iter().map(|n| n.to_string()).collect::<Vec<String>>();
    assert!(supports_damage_tracking(&exts(&["EGL_EXT_buffer_age", "EGL_KHR_swap_buffers_with_damage"])));
    assert!(supports_damage_tracking(&exts(&["EGL_EXT_swap_buffers_with_damage", "X", "EGL_EXT_buffer_age"])));
    assert!(!supports_damage_tracking(&exts(&["EGL_EXT_buffer_age"])));
    assert!(!supports_damage_tracking(&exts(&["EGL_KHR_swap_buffers_with_damage"])));
    assert!(!supports_damage_tracking(&exts(&[])));
}

#[test]
fn buffer_age_without_tracking_is_zero() {
    assert_eq!(reported_buffer_age(false, Some(3)), Some(0));
    assert_eq!(reported_buffer_age(false, None), Some(0));
    assert_eq!(reported_buffer_age(true, Some(3)), Some(3));
    assert_eq!(reported_buffer_age(true, None), None);
}
