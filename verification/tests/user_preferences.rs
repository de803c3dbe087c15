use thermal_viewer::temperature::TemperatureUnit;
use thermal_viewer::user_preferences::{
    PreferencesError, UserPreferences, MAX_KNOWN_PREFERENCES_VERSION,
};
use thermal_viewer::user_preferences_window::UserPreferencesWindow;

fn prefs(version: u32, directory: &str) -> UserPreferences {
    UserPreferences {
        preferences_version: version,
        temperature_unit: TemperatureUnit::Fahrenheit,
        auto_open_camera: false,
        show_unsupported_cameras: true,
        captures_directory: directory.to_string(),
    }
}

#[test]
fn fresh_preferences_are_of_the_first_version() {
    let p = UserPreferences::with_captures_directory("/pictures/Thermal Cat".to_string());
    assert_eq!(p.preferences_version, 1);
    assert_eq!(p.temperature_unit, TemperatureUnit::Celsius);
    assert!(p.auto_open_camera);
    assert!(!p.show_unsupported_cameras);
    assert_eq!(p.captures_directory, "/pictures/Thermal Cat");
}

#[test]
fn preferences_of_the_first_version_get_a_captures_directory() {
    let migrated = prefs(1, "").migrate("/pictures".to_string());
    assert_eq!(migrated, Ok((prefs(2, "/pictures"), true)));
    let migrated = prefs(0, "old").migrate("/pictures".to_string());
    assert_eq!(migrated, Ok((prefs(2, "/pictures"), true)));
}

#[test]
fn preferences_of_the_newest_version_are_left_alone() {
    assert_eq!(MAX_KNOWN_PREFERENCES_VERSION, 2);
    let migrated = prefs(2, "/mine").migrate("/pictures".to_string());
    assert_eq!(migrated, Ok((prefs(2, "/mine"), false)));
}

#[test]
fn preferences_of_a_later_version_are_refused() {
    assert_eq!(
        prefs(3, "/mine").migrate("/pictures".to_string()),
        Err(PreferencesError::UnknownVersion { found: 3 })
    );
    assert_eq!(
        prefs(u32::MAX, "/mine").migrate("/pictures".to_string()),
        Err(PreferencesError::UnknownVersion { found: u32::MAX })
    );
}

#[test]
fn the_preferences_window_edits_a_copy() {
    let mut stored = prefs(2, "/mine");
    let mut window = UserPreferencesWindow::new();
    assert!(!window.is_open());
    assert!(window.edited_mut().is_none());
    assert!(!window.save(&mut stored));
    assert_eq!(stored, prefs(2, "/mine"));

    window.show(&stored);
    assert!(window.is_open());
    window.edited_mut().unwrap().temperature_unit = TemperatureUnit::Kelvin;
    assert_eq!(stored.temperature_unit, TemperatureUnit::Fahrenheit);
    window.cancel();
    assert!(!window.is_open());
    assert_eq!(stored, prefs(2, "/mine"));

    window.show(&stored);
    window.edited_mut().unwrap().auto_open_camera = true;
    assert!(window.save(&mut stored));
    assert!(!window.is_open());
    assert!(stored.auto_open_camera);
    assert_eq!(stored.captures_directory, "/mine");
}
