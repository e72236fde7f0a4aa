//! What the user can set, and what of it is kept between runs.
use crate::paths;
use std::path::PathBuf;
use vstd::prelude::*;

verus! {

/// The settings that the application runs by.
#[derive(Debug)]
pub struct AppSettings {
    /// The directory that packages are downloaded to.
    pub pkg_download_path: PathBuf,
    /// Whether messages are shown as toasts inside the window.
    pub show_toasts: bool,
    /// Whether messages are shown as notifications of the system.
    pub show_notifications: bool,
}

pub struct SettingsView {
    pub pkg_download_path: PathBuf,
    pub show_toasts: bool,
    pub show_notifications: bool,
}

impl View for AppSettings {
    type V = SettingsView;

    open spec fn view(&self) -> SettingsView {
        SettingsView {
            pkg_download_path: self.pkg_download_path,
            show_toasts: self.show_toasts,
            show_notifications: self.show_notifications,
        }
    }
}

impl SettingsView {
    /// The settings of a first run: packages go to `pkgs/` and messages are toasts.
    pub open spec fn initial() -> SettingsView {
        SettingsView {
            pkg_download_path: paths::path_of("pkgs/"@),
            show_toasts: true,
            show_notifications: false,
        }
    }

    pub open spec fn with_path(self, pkg_download_path: PathBuf) -> SettingsView {
        SettingsView { pkg_download_path, ..self }
    }

    pub open spec fn with_toasts(self, show_toasts: bool) -> SettingsView {
        SettingsView { show_toasts, ..self }
    }

    pub open spec fn with_notifications(self, show_notifications: bool) -> SettingsView {
        SettingsView { show_notifications, ..self }
    }
}

impl Default for AppSettings {
    fn default() -> (settings: AppSettings)
        ensures
            settings@ == SettingsView::initial(),
            paths::path_text(settings.pkg_download_path) == "pkgs/"@,
    {
        AppSettings {
            pkg_download_path: paths::path_from("pkgs/"),
            show_toasts: true,
            show_notifications: false,
        }
    }
}

impl Clone for AppSettings {
    fn clone(&self) -> (copy: AppSettings)
        ensures
            copy == *self,
    {
        AppSettings {
            pkg_download_path: self.pkg_download_path.clone(),
            show_toasts: self.show_toasts,
            show_notifications: self.show_notifications,
        }
    }
}

impl AppSettings {
    /// The download path as the settings window shows it.
    pub fn download_path_text(&self) -> (text: String)
        ensures
            text@ == paths::path_text(self.pkg_download_path),
    {
        paths::lossy_text(&self.pkg_download_path)
    }
}

} // verus!
