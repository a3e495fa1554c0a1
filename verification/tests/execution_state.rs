use caffeinate::platform::windows::desired_execution_state;
use caffeinate::platform::InhibitFlags;
use windows_sys::Win32::System::Power::{
    ES_AWAYMODE_REQUIRED, ES_CONTINUOUS, ES_DISPLAY_REQUIRED, ES_SYSTEM_REQUIRED,
};

#[test]
fn no_assertions_sets_continuous_only() {
    let state = desired_execution_state(InhibitFlags::default());
    assert_eq!(state, ES_CONTINUOUS);
}

#[test]
fn idle_sets_system_required() {
    let state = desired_execution_state(InhibitFlags {
        prevent_idle_sleep: true,
        ..InhibitFlags::default()
    });
    assert_eq!(state, ES_CONTINUOUS | ES_SYSTEM_REQUIRED);
}

#[test]
fn display_sets_display_required() {
    let state = desired_execution_state(InhibitFlags {
        prevent_display_sleep: true,
        ..InhibitFlags::default()
    });
    assert_eq!(state, ES_CONTINUOUS | ES_DISPLAY_REQUIRED);
}

#[test]
fn system_sets_system_and_away_mode() {
    let state = desired_execution_state(InhibitFlags {
        prevent_system_sleep: true,
        ..InhibitFlags::default()
    });
    assert_eq!(
        state,
        ES_CONTINUOUS | ES_SYSTEM_REQUIRED | ES_AWAYMODE_REQUIRED
    );
}

#[test]
fn user_activity_sets_system_and_display() {
    let state = desired_execution_state(InhibitFlags {
        user_active: true,
        ..InhibitFlags::default()
    });
    assert_eq!(
        state,
        ES_CONTINUOUS | ES_SYSTEM_REQUIRED | ES_DISPLAY_REQUIRED
    );
}
