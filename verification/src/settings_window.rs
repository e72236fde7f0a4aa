//! The window in which the settings are changed, saved and discarded.
use crate::paths;
use crate::settings::{AppSettings, SettingsView};
use crate::state::{AppView, UpdatesApp, VolatileView};
use std::path::PathBuf;
use vstd::prelude::*;

verus! {

/// Something that was done in the settings window.
#[derive(Debug)]
pub enum SettingsEvent {
    /// A download directory was picked.
    FolderPicked(PathBuf),
    /// `Reset` was clicked.
    PathReset,
    /// The box for toasts was ticked or unticked.
    ShowToasts(bool),
    /// The box for notifications of the system was ticked or unticked.
    ShowNotifications(bool),
    /// `Save settings` was clicked.
    Saved,
    /// `Discard changes` was clicked.
    Discarded,
    /// `Restore to defaults` was clicked.
    DefaultsRestored,
    /// The window was closed.
    Closed,
}

impl<H> AppView<H> {
    /// The application with these settings in the window, not saved yet.
    pub open spec fn edited(self, modified_settings: SettingsView) -> AppView<H> {
        AppView {
            v: VolatileView { modified_settings, settings_dirty: true, ..self.v },
            ..self
        }
    }

    /// The application with these settings in force and in the window, which is shut.
    pub open spec fn settled(self, settings: SettingsView) -> AppView<H> {
        AppView {
            v: VolatileView {
                modified_settings: settings,
                settings_dirty: false,
                show_settings_window: false,
                ..self.v
            },
            settings,
        }
    }

    /// The application after an event of the settings window. `Discard changes` is disabled,
    /// and has no effect, while there are none.
    pub open spec fn after_settings(self, event: SettingsEvent) -> AppView<H> {
        let modified = self.v.modified_settings;
        match event {
            SettingsEvent::FolderPicked(path) => self.edited(modified.with_path(path)),
            SettingsEvent::PathReset => self.edited(modified.with_path(paths::path_of("/pkgs"@))),
            SettingsEvent::ShowToasts(show) => self.edited(modified.with_toasts(show)),
            SettingsEvent::ShowNotifications(show) => self.edited(
                modified.with_notifications(show),
            ),
            SettingsEvent::Saved => self.settled(modified),
            SettingsEvent::Discarded => if self.v.settings_dirty {
                self.settled(self.settings)
            } else {
                self
            },
            SettingsEvent::DefaultsRestored => self.settled(SettingsView::initial()),
            SettingsEvent::Closed => AppView {
                v: VolatileView { show_settings_window: false, ..self.v },
                ..self
            },
        }
    }
}

impl<H> UpdatesApp<H> {
    /// Takes in an event of the settings window.
    pub fn on_settings(&mut self, event: SettingsEvent)
        ensures
            final(self)@ == old(self)@.after_settings(event),
            event is PathReset ==> paths::path_text(
                final(self)@.v.modified_settings.pkg_download_path,
            ) == "/pkgs"@,
    {
        match event {
            SettingsEvent::FolderPicked(path) => {
                self.v.settings_dirty = true;
                self.v.modified_settings.pkg_download_path = path;
            },
            SettingsEvent::PathReset => {
                self.v.settings_dirty = true;
                self.v.modified_settings.pkg_download_path = paths::path_from("/pkgs");
            },
            SettingsEvent::ShowToasts(show) => {
                self.v.modified_settings.show_toasts = show;
                self.v.settings_dirty = true;
            },
            SettingsEvent::ShowNotifications(show) => {
                self.v.modified_settings.show_notifications = show;
                self.v.settings_dirty = true;
            },
            SettingsEvent::Saved => {
                self.v.settings_dirty = false;
                self.v.show_settings_window = false;
                self.settings = self.v.modified_settings.clone();
            },
            SettingsEvent::Discarded => {
                if self.v.settings_dirty {
                    self.v.settings_dirty = false;
                    self.v.show_settings_window = false;
                    self.v.modified_settings = self.settings.clone();
                }
            },
            SettingsEvent::DefaultsRestored => {
                self.v.settings_dirty = false;
                self.v.show_settings_window = false;
                self.settings = AppSettings::default();
                self.v.modified_settings = AppSettings::default();
            },
            SettingsEvent::Closed => {
                self.v.show_settings_window = false;
            },
        }
    }
}

} // verus!
