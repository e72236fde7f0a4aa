//! What is done once per frame, after the window has been drawn: lookups and downloads are
//! polled, and the user is told what became of them.
use crate::download;
use crate::download::DownloadPoll;
use crate::psn;
use crate::psn::{LookupAnswer, LookupAnswerView, UpdateErrorView, UpdateView};
use crate::settings::SettingsView;
use crate::state::{AppView, UpdatesApp, VolatileView};
use crate::text;
use crate::toast;
use crate::toast::{Note, NoteView, ToastLevel, ToastView};
use vstd::prelude::*;

verus! {

/// For how many seconds a toast stays.
pub const TOAST_SECONDS: u64 = 10;

/// A notification that the system is to show.
#[derive(Debug)]
pub struct SystemNotification {
    pub summary: String,
    pub body: String,
}

pub struct NotificationView {
    pub summary: Seq<char>,
    pub body: Seq<char>,
}

impl View for SystemNotification {
    type V = NotificationView;

    open spec fn view(&self) -> NotificationView {
        NotificationView { summary: self.summary@, body: self.body@ }
    }
}

/// What each notification of a list says.
pub open spec fn notification_views(list: Seq<SystemNotification>) -> Seq<NotificationView> {
    list.map_values(|notification: SystemNotification| notification@)
}

/// A notification that may be missing.
pub open spec fn notification_view(notification: Option<SystemNotification>) -> Option<
    NotificationView,
> {
    match notification {
        Some(notification) => Some(notification@),
        None => None,
    }
}

/// The toast that shows a note. The user can close it.
pub open spec fn note_toast(note: NoteView) -> ToastView {
    ToastView { text: note.text, level: note.level, seconds: TOAST_SECONDS, closable: true }
}

/// The notification that shows a text.
pub open spec fn app_notification(body: Seq<char>) -> NotificationView {
    NotificationView { summary: "rusty-psn"@, body }
}

impl SettingsView {
    /// The notifications that show `notes` under these settings.
    pub open spec fn notifications(self, notes: Seq<NoteView>) -> Seq<NotificationView> {
        if self.show_notifications {
            notes.map_values(|note: NoteView| app_notification(note.text))
        } else {
            Seq::empty()
        }
    }
}

/// What the user is told of a lookup that ended.
pub open spec fn lookup_notes(lookup: Option<Result<UpdateView, UpdateErrorView>>) -> Seq<
    NoteView,
> {
    match lookup {
        Some(Err(error)) => seq![
            NoteView { text: text::lookup_failure(error), level: ToastLevel::Error },
        ],
        _ => Seq::empty(),
    }
}

impl<H> AppView<H> {
    /// The application with a toast for a note, unless toasts are turned off.
    pub open spec fn with_note(self, note: NoteView) -> AppView<H> {
        if self.settings.show_toasts {
            AppView {
                v: VolatileView {
                    toasts: toast::with_toast(
                        self.v.toasts,
                        self.v.toast_layout.newest_first,
                        note_toast(note),
                    ),
                    ..self.v
                },
                ..self
            }
        } else {
            self
        }
    }

    /// The application with a toast for each of `notes`, added one after the other.
    pub open spec fn with_notes(self, notes: Seq<NoteView>) -> AppView<H>
        decreases notes.len(),
    {
        if notes.len() == 0 {
            self
        } else {
            self.with_notes(notes.drop_last()).with_note(notes.last())
        }
    }

    /// How the lookup that is waited for ended, if `answer` is its answer.
    pub open spec fn awaited(self, answer: Option<LookupAnswerView>) -> Option<
        Result<UpdateView, UpdateErrorView>,
    > {
        match answer {
            Some(answer) => if self.v.pending_search == Some(answer.number) {
                Some(answer.result)
            } else {
                None
            },
            None => None,
        }
    }

    /// What the user is told in a frame: first of the lookup, then of the downloads.
    pub open spec fn frame_notes(
        self,
        answer: Option<LookupAnswerView>,
        polls: Seq<DownloadPoll>,
    ) -> Seq<NoteView> {
        lookup_notes(self.awaited(answer)) + download::outcome_notes(self.v.download_queue, polls)
    }

    /// The application once an answer has been taken in. One that is not waited for
    /// changes nothing.
    pub open spec fn after_lookup(
        self,
        answer: Option<LookupAnswerView>,
    ) -> AppView<H> {
        match self.awaited(answer) {
            Some(Ok(update)) => AppView {
                v: VolatileView {
                    update_results: self.v.update_results.push(update),
                    pending_search: None,
                    ..self.v
                },
                ..self
            },
            Some(Err(_)) => AppView {
                v: VolatileView { pending_search: None, ..self.v },
                ..self
            },
            None => self,
        }
    }

    /// The application once every download has been polled.
    pub open spec fn after_polls(self, polls: Seq<DownloadPoll>) -> AppView<H> {
        let queue = self.v.download_queue;
        AppView {
            v: VolatileView {
                download_queue: download::still_running(queue, polls),
                completed_downloads: self.v.completed_downloads + download::ended(
                    queue,
                    polls,
                    true,
                ),
                failed_downloads: self.v.failed_downloads + download::ended(queue, polls, false),
                ..self.v
            },
            ..self
        }
    }

    /// The application at the end of a frame.
    pub open spec fn after_frame(
        self,
        answer: Option<LookupAnswerView>,
        polls: Seq<DownloadPoll>,
    ) -> AppView<H> {
        self.after_lookup(answer).after_polls(polls).with_notes(self.frame_notes(answer, polls))
    }
}

impl<H> UpdatesApp<H> {
    /// Tells the user something in the ways that the settings name: by a toast, and by a
    /// notification of the system, which is handed back to be shown.
    pub fn show_notifications(&mut self, msg: String, level: ToastLevel) -> (notification: Option<
        SystemNotification,
    >)
        ensures
            final(self)@ == old(self)@.with_note(NoteView { text: msg@, level }),
            notification_view(notification) == (if old(self)@.settings.show_notifications {
                Some(app_notification(msg@))
            } else {
                None
            }),
            old(self)@.settings.notifications(seq![NoteView { text: msg@, level }]) == (
            match notification {
                Some(sent) => seq![sent@],
                None => Seq::empty(),
            }),
    {
        proof {
            let sent = self@.settings.notifications(seq![NoteView { text: msg@, level }]);
            if self@.settings.show_notifications {
                assert(sent =~= seq![app_notification(msg@)]);
            }
        }
        if self.settings.show_toasts {
            toast::add_toast(&mut self.v.toasts, &msg, level, TOAST_SECONDS);
        }
        if self.settings.show_notifications {
            Some(SystemNotification { summary: "rusty-psn".to_owned(), body: msg })
        } else {
            None
        }
    }

    /// Takes in the answer to a lookup, if it is waited for, and says what the user is told of
    /// it.
    fn take_answer(&mut self, search: Option<LookupAnswer>) -> (notes: Vec<Note>)
        ensures
            final(self)@ == old(self)@.after_lookup(psn::answer_view(search)),
            toast::note_views(notes@) == lookup_notes(old(self)@.awaited(psn::answer_view(search))),
    {
        let ghost start = self@;
        let mut notes: Vec<Note> = Vec::new();
        assert(toast::note_views(notes@) =~= Seq::<NoteView>::empty());
        if let (Some(number), Some(answer)) = (self.v.pending_search, search) {
            if number == answer.number {
                match answer.result {
                    Ok(update_info) => {
                        self.v.update_results.push(update_info);
                        assert(self@.v.update_results =~= start.v.update_results.push(
                            update_info@,
                        ));
                    },
                    Err(e) => {
                        let text = text::lookup_failure_text(&e);
                        notes.push(Note { text, level: ToastLevel::Error });
                        assert(toast::note_views(notes@) =~= lookup_notes(Some(Err(e@))));
                    },
                }
                self.v.pending_search = None;
            }
        }
        notes
    }

    /// Ends a frame. `search` is the answer to a lookup, if one came since the last frame, and
    /// `polls` what each download of the queue had to say. Of answers only that to the lookup
    /// that is waited for counts. The notifications that the system is to show are handed back
    /// in order.
    pub fn update(
        &mut self,
        search: Option<LookupAnswer>,
        polls: &Vec<DownloadPoll>,
    ) -> (notifications: Vec<SystemNotification>)
        requires
            download::polls_fit(old(self)@.v.download_queue, polls@),
        ensures
            final(self)@ == old(self)@.after_frame(psn::answer_view(search), polls@),
            notification_views(notifications@) == old(self)@.settings.notifications(
                old(self)@.frame_notes(psn::answer_view(search), polls@),
            ),
    {
        let ghost start = self@;
        let ghost answer = psn::answer_view(search);
        let mut notes = self.take_answer(search);
        download::poll_downloads(
            &mut self.v.download_queue,
            polls,
            &mut self.v.completed_downloads,
            &mut self.v.failed_downloads,
            &mut notes,
        );
        let ghost polled = self@;
        assert(polled == start.after_lookup(answer).after_polls(polls@));
        let ghost views = toast::note_views(notes@);
        assert(views == start.frame_notes(answer, polls@));
        let mut notifications: Vec<SystemNotification> = Vec::new();
        let mut i: usize = 0;
        assert(notification_views(notifications@) =~= start.settings.notifications(views.take(0)));
        while i < notes.len()
            invariant
                i <= notes.len(),
                views == toast::note_views(notes@),
                self@ == polled.with_notes(views.take(i as int)),
                self@.settings == start.settings,
                notification_views(notifications@) == start.settings.notifications(
                    views.take(i as int),
                ),
            decreases notes.len() - i,
        {
            let ghost shown = notification_views(notifications@);
            let ghost upto = views.take(i + 1);
            let msg = notes[i].text.clone();
            let level = notes[i].level;
            assert(upto.drop_last() =~= views.take(i as int));
            assert(upto.last() == notes@[i as int]@);
            if let Some(notification) = self.show_notifications(msg, level) {
                notifications.push(notification);
                assert(notification_views(notifications@) =~= shown.push(notification@));
            }
            assert(notification_views(notifications@) =~= start.settings.notifications(upto));
            i = i + 1;
        }
        assert(views.take(i as int) =~= views);
        notifications
    }
}

} // verus!
