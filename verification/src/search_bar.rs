//! The bar at the top of the window: the serial, the search and the way to the settings.
use crate::psn;
use crate::psn::{LookupJob, LookupJobView, UpdateView};
use crate::state::{AppView, UpdatesApp, VolatileView};
use vstd::prelude::*;

verus! {

/// Something that was done in the search bar.
#[derive(Debug)]
pub enum SearchBarEvent {
    /// The serial was edited and now reads so.
    QueryEdited(String),
    /// `Paste` was clicked while the clipboard held this text.
    Pasted(String),
    /// `Clear` was clicked.
    QueryCleared,
    /// Enter was pressed in the serial (`submitted`), or `Search for updates` was clicked.
    SearchRequested { submitted: bool },
    /// `Clear results` was clicked.
    ResultsCleared,
    /// The button of the settings was clicked.
    SettingsOpened,
}

pub enum SearchBarEventView {
    QueryEdited(Seq<char>),
    Pasted(Seq<char>),
    QueryCleared,
    SearchRequested { submitted: bool },
    ResultsCleared,
    SettingsOpened,
}

impl View for SearchBarEvent {
    type V = SearchBarEventView;

    open spec fn view(&self) -> SearchBarEventView {
        match self {
            SearchBarEvent::QueryEdited(text) => SearchBarEventView::QueryEdited(text@),
            SearchBarEvent::Pasted(text) => SearchBarEventView::Pasted(text@),
            SearchBarEvent::QueryCleared => SearchBarEventView::QueryCleared,
            SearchBarEvent::SearchRequested { submitted } => SearchBarEventView::SearchRequested {
                submitted: *submitted,
            },
            SearchBarEvent::ResultsCleared => SearchBarEventView::ResultsCleared,
            SearchBarEvent::SettingsOpened => SearchBarEventView::SettingsOpened,
        }
    }
}

/// The number of the lookup that is started after the one numbered `number`. After the last
/// number they begin anew.
pub open spec fn next_number(number: u64) -> u64 {
    if number == u64::MAX {
        0
    } else {
        (number + 1) as u64
    }
}

/// Whether a title with this serial is among the results.
pub open spec fn is_found(results: Seq<UpdateView>, serial: Seq<char>) -> bool {
    exists|i: int| 0 <= i < results.len() && (#[trigger] results[i]).title_id == serial
}

impl<H> AppView<H> {
    /// Whether `Clear` can be clicked.
    pub open spec fn can_clear_query(self) -> bool {
        self.v.clipboard_available && self.v.serial_query.len() > 0
    }

    /// Whether `Search for updates` can be clicked.
    pub open spec fn can_search(self) -> bool {
        self.v.serial_query.len() > 0 && self.v.pending_search is None
    }

    /// Whether `Clear results` can be clicked.
    pub open spec fn can_clear_results(self) -> bool {
        self.v.update_results.len() > 0
    }

    /// Whether the typed serial is among the results.
    pub open spec fn already_searched(self) -> bool {
        is_found(self.v.update_results, self.v.serial_query)
    }

    /// Whether a request starts a lookup. Enter asks for one even while the button is
    /// disabled; a serial that was found is not looked up again either way.
    pub open spec fn search_starts(self, submitted: bool) -> bool {
        (submitted || self.can_search()) && !self.already_searched()
    }

    pub open spec fn with_query(self, serial_query: Seq<char>) -> AppView<H> {
        AppView { v: VolatileView { serial_query, ..self.v }, ..self }
    }

    /// The application after an event of the search bar. What a disabled control reports has
    /// no effect.
    pub open spec fn after_search_bar(self, event: SearchBarEventView) -> AppView<H> {
        match event {
            SearchBarEventView::QueryEdited(text) => self.with_query(text),
            SearchBarEventView::Pasted(text) => if self.v.clipboard_available {
                self.with_query(self.v.serial_query + text)
            } else {
                self
            },
            SearchBarEventView::QueryCleared => if self.can_clear_query() {
                self.with_query(Seq::empty())
            } else {
                self
            },
            SearchBarEventView::SearchRequested { submitted } => if self.search_starts(submitted) {
                let number = next_number(self.v.last_search);
                AppView {
                    v: VolatileView {
                        pending_search: Some(number),
                        last_search: number,
                        ..self.v
                    },
                    ..self
                }
            } else {
                self
            },
            SearchBarEventView::ResultsCleared => AppView {
                v: VolatileView { update_results: Seq::empty(), ..self.v },
                ..self
            },
            SearchBarEventView::SettingsOpened => AppView {
                v: VolatileView {
                    modified_settings: self.settings,
                    show_settings_window: true,
                    ..self.v
                },
                ..self
            },
        }
    }

    /// The lookup that an event of the search bar starts, if it starts one: it is for the typed
    /// serial, and under a new number.
    pub open spec fn lookup_started(self, event: SearchBarEventView) -> Option<LookupJobView> {
        match event {
            SearchBarEventView::SearchRequested { submitted } => if self.search_starts(submitted) {
                Some(
                    LookupJobView {
                        number: next_number(self.v.last_search),
                        serial: self.v.serial_query,
                    },
                )
            } else {
                None
            },
            _ => None,
        }
    }
}

impl<H> UpdatesApp<H> {
    /// Whether `Clear` can be clicked.
    pub fn can_clear_query(&self) -> (can: bool)
        ensures
            can == self@.can_clear_query(),
    {
        self.v.clipboard_available && !self.v.serial_query.as_str().is_empty()
    }

    /// Whether `Search for updates` can be clicked.
    pub fn can_search(&self) -> (can: bool)
        ensures
            can == self@.can_search(),
    {
        !self.v.serial_query.as_str().is_empty() && self.v.pending_search.is_none()
    }

    /// Whether `Clear results` can be clicked.
    pub fn can_clear_results(&self) -> (can: bool)
        ensures
            can == (self@.v.update_results.len() > 0),
            can == self@.can_clear_results(),
    {
        self.v.update_results.len() > 0
    }

    /// Whether the typed serial is among the results.
    pub fn already_searched(&self) -> (found: bool)
        ensures
            found == self@.already_searched(),
    {
        let mut i: usize = 0;
        while i < self.v.update_results.len()
            invariant
                i <= self.v.update_results.len(),
                forall|j: int|
                    0 <= j < i ==> (#[trigger] self@.v.update_results[j]).title_id
                        != self@.v.serial_query,
            decreases self.v.update_results.len() - i,
        {
            assert(self@.v.update_results[i as int] == self.v.update_results@[i as int]@);
            if self.v.update_results[i].title_id == self.v.serial_query {
                return true;
            }
            i = i + 1;
        }
        false
    }

    /// Takes in an event of the search bar, and says which lookup is to be started, if one is.
    /// It is then the one that is waited for, and one that was under way no longer is.
    pub fn on_search_bar(&mut self, event: SearchBarEvent) -> (job: Option<LookupJob>)
        ensures
            final(self)@ == old(self)@.after_search_bar(event@),
            psn::lookup_job_view(job) == old(self)@.lookup_started(event@),
    {
        match event {
            SearchBarEvent::QueryEdited(text) => {
                self.v.serial_query = text;
            },
            SearchBarEvent::Pasted(text) => {
                if self.v.clipboard_available {
                    self.v.serial_query.append(text.as_str());
                }
            },
            SearchBarEvent::QueryCleared => {
                if self.can_clear_query() {
                    self.v.serial_query = String::new();
                }
            },
            SearchBarEvent::SearchRequested { submitted } => {
                if (submitted || self.can_search()) && !self.already_searched() {
                    let number = if self.v.last_search == u64::MAX {
                        0
                    } else {
                        self.v.last_search + 1
                    };
                    self.v.pending_search = Some(number);
                    self.v.last_search = number;
                    return Some(LookupJob { number, serial: self.v.serial_query.clone() });
                }
            },
            SearchBarEvent::ResultsCleared => {
                self.v.update_results = Vec::new();
                assert(psn::update_views(self.v.update_results@) =~= Seq::<UpdateView>::empty());
            },
            SearchBarEvent::SettingsOpened => {
                self.v.modified_settings = self.settings.clone();
                self.v.show_settings_window = true;
            },
        }
        None
    }
}

} // verus!
