use vstd::prelude::*;
use crate::temperature::TemperatureUnit;

verus! {

/// The newest version of the preferences that this library knows.
///
/// Version 1 is the first; version 2 adds the directory for captures.
pub const MAX_KNOWN_PREFERENCES_VERSION: u32 = 2;

/// What the user has chosen once and for all.
#[derive(Debug, Clone, PartialEq, Eq)]
pub struct UserPreferences {
    pub preferences_version: u32,
    pub temperature_unit: TemperatureUnit,
    pub auto_open_camera: bool,
    pub show_unsupported_cameras: bool,
    pub captures_directory: String,
}

/// Why stored preferences cannot be used.
#[derive(Debug, Clone, Copy, PartialEq, Eq, Structural)]
pub enum PreferencesError {
    /// They were written by a newer version of the program.
    UnknownVersion { found: u32 },
}

impl UserPreferences {
    /// The preferences of someone who has chosen nothing yet, with
    /// captures going to `captures_directory`.
    pub fn with_captures_directory(captures_directory: String) -> (p: UserPreferences)
        ensures
            p.preferences_version == 1,
            p.temperature_unit == TemperatureUnit::Celsius,
            p.auto_open_camera,
            !p.show_unsupported_cameras,
            p.captures_directory == captures_directory,
    {
        UserPreferences {
            preferences_version: 1,
            temperature_unit: TemperatureUnit::Celsius,
            auto_open_camera: true,
            show_unsupported_cameras: false,
            captures_directory,
        }
    }

    /// Brings stored preferences up to the newest version, and says whether
    /// anything was changed. Preferences from before version 2 get the
    /// directory for captures given; preferences of a version that is not
    /// known yet are refused.
    pub fn migrate(self, default_captures_directory: String) -> (r: Result<
        (UserPreferences, bool),
        PreferencesError,
    >)
        ensures
            self.preferences_version > MAX_KNOWN_PREFERENCES_VERSION ==> r == Err::<
                (UserPreferences, bool),
                PreferencesError,
            >(PreferencesError::UnknownVersion { found: self.preferences_version }),
            self.preferences_version == MAX_KNOWN_PREFERENCES_VERSION ==> r == Ok::<
                (UserPreferences, bool),
                PreferencesError,
            >((self, false)),
            self.preferences_version < MAX_KNOWN_PREFERENCES_VERSION ==> r == Ok::<
                (UserPreferences, bool),
                PreferencesError,
            >(
                (
                    UserPreferences {
                        preferences_version: 2,
                        captures_directory: default_captures_directory,
                        ..self
                    },
                    true,
                ),
            ),
    {
        if self.preferences_version > MAX_KNOWN_PREFERENCES_VERSION {
            return Err(PreferencesError::UnknownVersion { found: self.preferences_version });
        }
        if self.preferences_version < 2 {
            Ok(
                (
                    UserPreferences {
                        preferences_version: 2,
                        temperature_unit: self.temperature_unit,
                        auto_open_camera: self.auto_open_camera,
                        show_unsupported_cameras: self.show_unsupported_cameras,
                        captures_directory: default_captures_directory,
                    },
                    true,
                ),
            )
        } else {
            Ok((self, false))
        }
    }
}

} // verus!
