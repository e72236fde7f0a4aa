//! What the application holds while it runs.
use crate::download;
use crate::download::{ActiveDownload, DownloadView, Release};
use crate::psn;
use crate::psn::{UpdateInfo, UpdateView};
use crate::settings::{AppSettings, SettingsView};
use crate::toast;
use crate::toast::{Corner, ToastLayout, ToastView};
use egui_notify::Toasts;
use vstd::prelude::*;

verus! {

/// Values that are not kept from run to run. `H` is what a transfer under way is reached by.
pub struct VolatileData<H> {
    pub toasts: Toasts,
    /// Whether the clipboard of the system could be opened.
    pub clipboard_available: bool,
    /// The serial that is typed in.
    pub serial_query: String,
    /// The titles found so far, in the order in which they were found.
    pub update_results: Vec<UpdateInfo>,
    pub show_settings_window: bool,
    /// Whether the settings window holds changes that were not saved.
    pub settings_dirty: bool,
    /// The settings as the settings window shows them.
    pub modified_settings: AppSettings,
    pub download_queue: Vec<ActiveDownload<H>>,
    pub failed_downloads: Vec<(String, String)>,
    pub completed_downloads: Vec<(String, String)>,
    /// The number of the lookup that is waited for, if one is.
    pub pending_search: Option<u64>,
    /// The number of the lookup that was started last. The first has the number one.
    pub last_search: u64,
}

pub struct VolatileView<H> {
    pub toasts: Seq<ToastView>,
    pub toast_layout: ToastLayout,
    pub clipboard_available: bool,
    pub serial_query: Seq<char>,
    pub update_results: Seq<UpdateView>,
    pub show_settings_window: bool,
    pub settings_dirty: bool,
    pub modified_settings: SettingsView,
    pub download_queue: Seq<DownloadView<H>>,
    pub failed_downloads: Seq<Release>,
    pub completed_downloads: Seq<Release>,
    pub pending_search: Option<u64>,
    pub last_search: u64,
}

impl<H> View for VolatileData<H> {
    type V = VolatileView<H>;

    open spec fn view(&self) -> VolatileView<H> {
        VolatileView {
            toasts: toast::toasts_held(self.toasts),
            toast_layout: toast::toasts_layout(self.toasts),
            clipboard_available: self.clipboard_available,
            serial_query: self.serial_query@,
            update_results: psn::update_views(self.update_results@),
            show_settings_window: self.show_settings_window,
            settings_dirty: self.settings_dirty,
            modified_settings: self.modified_settings@,
            download_queue: download::download_views(self.download_queue@),
            failed_downloads: download::releases(self.failed_downloads@),
            completed_downloads: download::releases(self.completed_downloads@),
            pending_search: self.pending_search,
            last_search: self.last_search,
        }
    }
}

impl<H> VolatileView<H> {
    /// The values at the start of a run: nothing typed, found, downloaded or shown.
    pub open spec fn initial(clipboard_available: bool) -> VolatileView<H> {
        VolatileView {
            toasts: Seq::empty(),
            toast_layout: ToastLayout { newest_first: true, corner: Corner::BottomRight },
            clipboard_available,
            serial_query: Seq::empty(),
            update_results: Seq::empty(),
            show_settings_window: false,
            settings_dirty: false,
            modified_settings: SettingsView::initial(),
            download_queue: Seq::empty(),
            failed_downloads: Seq::empty(),
            completed_downloads: Seq::empty(),
            pending_search: None,
            last_search: 0,
        }
    }
}

impl<H> VolatileData<H> {
    /// The values at the start of a run.
    pub fn new(clipboard_available: bool) -> (v: VolatileData<H>)
        ensures
            v@ == VolatileView::<H>::initial(clipboard_available),
    {
        let toasts = toast::with_corner(
            toast::with_newest_first(toast::empty_toasts(), true),
            Corner::BottomRight,
        );
        let v = VolatileData {
            toasts,
            clipboard_available,
            serial_query: String::new(),
            update_results: Vec::new(),
            show_settings_window: false,
            settings_dirty: false,
            modified_settings: AppSettings::default(),
            download_queue: Vec::new(),
            failed_downloads: Vec::new(),
            completed_downloads: Vec::new(),
            pending_search: None,
            last_search: 0,
        };
        proof {
            let start = VolatileView::<H>::initial(clipboard_available);
            assert(v@.update_results =~= start.update_results);
            assert(v@.download_queue =~= start.download_queue);
            assert(v@.failed_downloads =~= start.failed_downloads);
            assert(v@.completed_downloads =~= start.completed_downloads);
        }
        v
    }
}

/// The application: what it holds for this run, and its settings.
pub struct UpdatesApp<H> {
    pub v: VolatileData<H>,
    pub settings: AppSettings,
}

pub struct AppView<H> {
    pub v: VolatileView<H>,
    pub settings: SettingsView,
}

impl<H> View for UpdatesApp<H> {
    type V = AppView<H>;

    open spec fn view(&self) -> AppView<H> {
        AppView { v: self.v@, settings: self.settings@ }
    }
}

impl<H> AppView<H> {
    /// The application at the start of a run, `stored` being the settings that an earlier run
    /// left, if they could be read.
    pub open spec fn opened(stored: Option<SettingsView>, clipboard_available: bool) -> AppView<H> {
        AppView {
            v: VolatileView::initial(clipboard_available),
            settings: match stored {
                Some(settings) => settings,
                None => SettingsView::initial(),
            },
        }
    }
}

/// Settings that may be missing.
pub open spec fn stored_view(stored: Option<AppSettings>) -> Option<SettingsView> {
    match stored {
        Some(settings) => Some(settings@),
        None => None,
    }
}

impl<H> UpdatesApp<H> {
    /// Starts a run with the settings that an earlier one left, if they could be read, and
    /// with the first settings otherwise.
    pub fn new(stored: Option<AppSettings>, clipboard_available: bool) -> (app: UpdatesApp<H>)
        ensures
            app@ == AppView::<H>::opened(stored_view(stored), clipboard_available),
    {
        let settings = match stored {
            Some(settings) => settings,
            None => AppSettings::default(),
        };
        UpdatesApp { v: VolatileData::new(clipboard_available), settings }
    }

    /// What is kept for the next run: the settings, and nothing else.
    pub fn save(&self) -> (kept: AppSettings)
        ensures
            kept@ == self@.settings,
    {
        self.settings.clone()
    }
}

} // verus!
