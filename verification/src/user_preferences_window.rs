use vstd::prelude::*;
use crate::user_preferences::UserPreferences;

verus! {

/// The window in which the preferences are edited: it works on a copy of
/// the preferences, which takes their place only when the user saves.
pub struct UserPreferencesWindow {
    local_user_preferences: Option<UserPreferences>,
}

impl UserPreferencesWindow {
    /// The copy that is being edited, while the window is open.
    pub closed spec fn edited(&self) -> Option<UserPreferences> {
        self.local_user_preferences
    }

    /// A window that is not open.
    pub fn new() -> (w: UserPreferencesWindow)
        ensures
            w.edited() is None,
    {
        Self { local_user_preferences: None }
    }

    /// Opens the window on a copy of `user_preferences`.
    pub fn show(&mut self, user_preferences: &UserPreferences)
        ensures
            final(self).edited() is Some,
            final(self).edited()->0.preferences_version == user_preferences.preferences_version,
            final(self).edited()->0.temperature_unit == user_preferences.temperature_unit,
            final(self).edited()->0.auto_open_camera == user_preferences.auto_open_camera,
            final(self).edited()->0.show_unsupported_cameras
                == user_preferences.show_unsupported_cameras,
            final(self).edited()->0.captures_directory@ == user_preferences.captures_directory@,
    {
        self.local_user_preferences = Some(
            UserPreferences {
                preferences_version: user_preferences.preferences_version,
                temperature_unit: user_preferences.temperature_unit,
                auto_open_camera: user_preferences.auto_open_camera,
                show_unsupported_cameras: user_preferences.show_unsupported_cameras,
                captures_directory: user_preferences.captures_directory.clone(),
            },
        );
    }

    /// Whether the window is open.
    pub fn is_open(&self) -> (b: bool)
        ensures
            b == self.edited() is Some,
    {
        self.local_user_preferences.is_some()
    }

    /// The copy that is being edited, to change it, while the window is open.
    pub fn edited_mut(&mut self) -> (r: Option<&mut UserPreferences>)
        ensures
            match r {
                Some(p) => old(self).edited() == Some(*p) && final(self).edited() == Some(*final(p)),
                None => old(self).edited() is None && final(self).edited() is None,
            },
    {
        self.local_user_preferences.as_mut()
    }

    /// Closes the window and puts the edited copy in the place of
    /// `user_preferences`. Returns whether there was anything to save: there
    /// is nothing where the window is not open.
    pub fn save(&mut self, user_preferences: &mut UserPreferences) -> (saved: bool)
        ensures
            final(self).edited() is None,
            saved == old(self).edited() is Some,
            saved ==> *final(user_preferences) == old(self).edited()->0,
            !saved ==> *final(user_preferences) == *old(user_preferences),
    {
        match self.local_user_preferences.take() {
            Some(edited) => {
                *user_preferences = edited;
                true
            },
            None => false,
        }
    }

    /// Closes the window and forgets the edited copy.
    pub fn cancel(&mut self)
        ensures
            final(self).edited() is None,
    {
        self.local_user_preferences = None;
    }
}

} // verus!
