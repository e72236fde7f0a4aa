use rusty_psn::search_bar::SearchBarEvent;
use rusty_psn::settings::AppSettings;
use rusty_psn::settings_window::SettingsEvent;
use rusty_psn::state::UpdatesApp;
use std::path::PathBuf;

fn fresh() -> UpdatesApp<()> {
    UpdatesApp::new(None, true)
}

fn open(app: &mut UpdatesApp<()>) {
    assert!(app.on_search_bar(SearchBarEvent::SettingsOpened).is_none());
}

#[test]
fn first_settings() {
    let settings = AppSettings::default();
    assert_eq!(settings.pkg_download_path, PathBuf::from("pkgs/"));
    assert!(settings.show_toasts);
    assert!(!settings.show_notifications);
    assert_eq!(settings.download_path_text(), "pkgs/");
}

#[test]
fn a_run_without_stored_settings_starts_with_the_first_ones() {
    let app = fresh();
    assert_eq!(app.settings.pkg_download_path, PathBuf::from("pkgs/"));
    assert!(app.settings.show_toasts);
    assert!(app.v.clipboard_available);
    assert!(app.v.serial_query.is_empty());
    assert!(app.v.update_results.is_empty());
    assert!(app.v.download_queue.is_empty());
    assert!(app.v.completed_downloads.is_empty());
    assert!(app.v.failed_downloads.is_empty());
    assert!(!app.v.show_settings_window);
    assert!(!app.v.settings_dirty);
    assert!(app.v.pending_search.is_none());
    assert!(!UpdatesApp::<()>::new(None, false).v.clipboard_available);
}

#[test]
fn stored_settings_survive_a_restart_and_nothing_else_does() {
    let mut app = fresh();
    app.on_search_bar(SearchBarEvent::QueryEdited("BLUS30001".to_string()));
    open(&mut app);
    app.on_settings(SettingsEvent::FolderPicked(PathBuf::from("/games")));
    app.on_settings(SettingsEvent::ShowNotifications(true));
    app.on_settings(SettingsEvent::Saved);
    let next: UpdatesApp<()> = UpdatesApp::new(Some(app.save()), true);
    assert_eq!(next.settings.pkg_download_path, PathBuf::from("/games"));
    assert!(next.settings.show_notifications);
    assert!(next.v.serial_query.is_empty());
    // The window's own copy starts from the first settings.
    assert_eq!(next.v.modified_settings.pkg_download_path, PathBuf::from("pkgs/"));
}

#[test]
fn edits_are_not_in_force_until_saved() {
    let mut app = fresh();
    open(&mut app);
    assert!(app.v.show_settings_window);
    app.on_settings(SettingsEvent::ShowToasts(false));
    assert!(app.v.settings_dirty);
    assert!(app.settings.show_toasts);
    app.on_settings(SettingsEvent::Saved);
    assert!(!app.settings.show_toasts);
    assert!(!app.v.settings_dirty);
    assert!(!app.v.show_settings_window);
    open(&mut app);
    assert!(!app.v.modified_settings.show_toasts);
}

#[test]
fn discarding_undoes_the_edits() {
    let mut app = fresh();
    open(&mut app);
    app.on_settings(SettingsEvent::FolderPicked(PathBuf::from("/tmp/x")));
    app.on_settings(SettingsEvent::ShowNotifications(true));
    app.on_settings(SettingsEvent::Discarded);
    assert_eq!(app.v.modified_settings.pkg_download_path, PathBuf::from("pkgs/"));
    assert!(!app.v.modified_settings.show_notifications);
    assert_eq!(app.settings.pkg_download_path, PathBuf::from("pkgs/"));
    assert!(!app.v.settings_dirty);
    assert!(!app.v.show_settings_window);
}

#[test]
fn discarding_without_changes_does_nothing() {
    let mut app = fresh();
    open(&mut app);
    app.on_settings(SettingsEvent::Discarded);
    assert!(app.v.show_settings_window);
}

#[test]
fn resetting_the_path() {
    let mut app = fresh();
    open(&mut app);
    app.on_settings(SettingsEvent::PathReset);
    assert_eq!(app.v.modified_settings.pkg_download_path, PathBuf::from("/pkgs"));
    assert_eq!(app.v.modified_settings.download_path_text(), "/pkgs");
    assert!(app.v.settings_dirty);
    assert_eq!(app.settings.pkg_download_path, PathBuf::from("pkgs/"));
}

#[test]
fn restoring_the_defaults_takes_force_at_once() {
    let stored = AppSettings {
        pkg_download_path: PathBuf::from("/games"),
        show_toasts: false,
        show_notifications: true,
    };
    let mut app: UpdatesApp<()> = UpdatesApp::new(Some(stored), false);
    open(&mut app);
    app.on_settings(SettingsEvent::DefaultsRestored);
    assert_eq!(app.settings.pkg_download_path, PathBuf::from("pkgs/"));
    assert!(app.settings.show_toasts);
    assert!(!app.settings.show_notifications);
    assert!(!app.v.show_settings_window);
}

#[test]
fn closing_and_reopening_forgets_the_edits() {
    let mut app = fresh();
    open(&mut app);
    app.on_settings(SettingsEvent::ShowToasts(false));
    app.on_settings(SettingsEvent::Closed);
    assert!(!app.v.show_settings_window);
    assert!(!app.v.modified_settings.show_toasts);
    open(&mut app);
    assert!(app.v.modified_settings.show_toasts);
    // The mark of unsaved changes stays until they are saved or discarded.
    assert!(app.v.settings_dirty);
}
