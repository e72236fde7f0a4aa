//! What holds of the application as a whole, over any state and any run of events.
use crate::download;
use crate::download::{DownloadPoll, DownloadView, JobView, Release};
use crate::psn::{DownloadError, DownloadStatus, LookupAnswerView};
use crate::psn::{PackageView, UpdateErrorView, UpdateView};
use crate::results;
use crate::results::{EntryClicksView, PackageState};
use crate::search_bar;
use crate::search_bar::SearchBarEventView;
use crate::settings::SettingsView;
use crate::settings_window::SettingsEvent;
use crate::state::{AppView, VolatileView};
use crate::toast::{Corner, NoteView, ToastLayout, ToastView};
use crate::update;
use vstd::prelude::*;

verus! {

// ---- Settings ----

/// What a run leaves for the next is its settings: the next run starts with them, and with
/// nothing else of the run before.
pub proof fn law_restart_keeps_the_settings_alone<H>(app: AppView<H>, clipboard_available: bool)
    ensures
        AppView::<H>::opened(Some(app.settings), clipboard_available) == (AppView {
            v: VolatileView::<H>::initial(clipboard_available),
            settings: app.settings,
        }),
{
}

/// The settings in force change only when they are saved or restored to the defaults; no other
/// event of the settings window, no event of the search bar, no queued download and no frame
/// touches them.
pub proof fn law_settings_change_only_when_saved<H>(
    app: AppView<H>,
    event: SettingsEvent,
    bar: SearchBarEventView,
    started: Seq<DownloadView<H>>,
    answer: Option<LookupAnswerView>,
    polls: Seq<DownloadPoll>,
)
    ensures
        !(event is Saved) && !(event is DefaultsRestored) ==> app.after_settings(event).settings
            == app.settings,
        app.after_search_bar(bar).settings == app.settings,
        app.with_downloads(started).settings == app.settings,
        app.after_frame(answer, polls).settings == app.settings,
{
    lemma_notes_touch_toasts_only(
        app.after_lookup(answer).after_polls(polls),
        app.frame_notes(answer, polls),
    );
}

/// Whether an event changes the settings in the window.
pub open spec fn is_edit(event: SettingsEvent) -> bool {
    event is FolderPicked || event is PathReset || event is ShowToasts
        || event is ShowNotifications
}

/// The application after a run of events of the settings window.
pub open spec fn after_edits<H>(app: AppView<H>, events: Seq<SettingsEvent>) -> AppView<H>
    decreases events.len(),
{
    if events.len() == 0 {
        app
    } else {
        after_edits(app, events.drop_last()).after_settings(events.last())
    }
}

/// Edits touch the window's settings and its mark of unsaved changes, and nothing else.
proof fn lemma_edits_stay_in_the_window<H>(app: AppView<H>, events: Seq<SettingsEvent>)
    requires
        forall|i: int| 0 <= i < events.len() ==> is_edit(#[trigger] events[i]),
    ensures
        after_edits(app, events) == (AppView {
            v: VolatileView {
                modified_settings: after_edits(app, events).v.modified_settings,
                settings_dirty: app.v.settings_dirty || events.len() > 0,
                ..app.v
            },
            ..app
        }),
    decreases events.len(),
{
    if events.len() > 0 {
        let before = events.drop_last();
        assert forall|i: int| 0 <= i < before.len() implies is_edit(#[trigger] before[i]) by {
            assert(is_edit(events[i]));
        }
        lemma_edits_stay_in_the_window(app, before);
        assert(is_edit(events[events.len() - 1]));
    }
}

/// Opening the settings window, making any changes in it and discarding them leaves everything
/// as it was, with the window shut and showing the settings in force.
pub proof fn law_discard_undoes_every_edit<H>(app: AppView<H>, events: Seq<SettingsEvent>)
    requires
        events.len() > 0,
        forall|i: int| 0 <= i < events.len() ==> is_edit(#[trigger] events[i]),
    ensures
        after_edits(
            app.after_search_bar(SearchBarEventView::SettingsOpened),
            events,
        ).after_settings(SettingsEvent::Discarded) == app.settled(app.settings),
{
    lemma_edits_stay_in_the_window(
        app.after_search_bar(SearchBarEventView::SettingsOpened),
        events,
    );
}

/// Saving puts in force what the window shows after the changes made in it, and the window
/// shows just that when it is opened again.
pub proof fn law_saved_edits_take_force<H>(app: AppView<H>, events: Seq<SettingsEvent>)
    requires
        forall|i: int| 0 <= i < events.len() ==> is_edit(#[trigger] events[i]),
    ensures
        ({
            let edited = after_edits(
                app.after_search_bar(SearchBarEventView::SettingsOpened),
                events,
            );
            let saved = edited.after_settings(SettingsEvent::Saved);
            let reopened = saved.after_search_bar(SearchBarEventView::SettingsOpened);
            &&& saved == app.settled(edited.v.modified_settings)
            &&& reopened.v.modified_settings == edited.v.modified_settings
            &&& reopened.settings == edited.v.modified_settings
        }),
{
    lemma_edits_stay_in_the_window(
        app.after_search_bar(SearchBarEventView::SettingsOpened),
        events,
    );
}

/// Changes that were made in the settings window and neither saved nor discarded are gone when
/// it is closed and opened again.
pub proof fn law_reopening_forgets_edits<H>(app: AppView<H>, events: Seq<SettingsEvent>)
    requires
        forall|i: int| 0 <= i < events.len() ==> is_edit(#[trigger] events[i]),
    ensures
        ({
            let closed = after_edits(
                app.after_search_bar(SearchBarEventView::SettingsOpened),
                events,
            ).after_settings(SettingsEvent::Closed);
            let reopened = closed.after_search_bar(SearchBarEventView::SettingsOpened);
            &&& !closed.v.show_settings_window
            &&& reopened.v.modified_settings == app.settings
            &&& reopened.settings == app.settings
        }),
{
    lemma_edits_stay_in_the_window(
        app.after_search_bar(SearchBarEventView::SettingsOpened),
        events,
    );
}

// ---- What every operation keeps ----

/// Toasts are stacked newest first in the bottom right corner, an open settings window without
/// unsaved changes shows the settings in force, and no lookup is waited for but the last.
pub open spec fn is_sound<H>(app: AppView<H>) -> bool {
    &&& app.v.toast_layout == (ToastLayout { newest_first: true, corner: Corner::BottomRight })
    &&& app.v.show_settings_window && !app.v.settings_dirty ==> app.v.modified_settings
        == app.settings
    &&& app.v.pending_search is Some ==> app.v.pending_search == Some(app.v.last_search)
}

/// A run starts sound, and every event, every queued download, every message and every frame
/// keeps it so.
pub proof fn law_every_state_is_sound<H>(
    app: AppView<H>,
    stored: Option<SettingsView>,
    clipboard_available: bool,
    bar: SearchBarEventView,
    event: SettingsEvent,
    started: Seq<DownloadView<H>>,
    note: NoteView,
    answer: Option<LookupAnswerView>,
    polls: Seq<DownloadPoll>,
)
    ensures
        is_sound(AppView::<H>::opened(stored, clipboard_available)),
        is_sound(app) ==> {
            &&& is_sound(app.after_search_bar(bar))
            &&& is_sound(app.after_settings(event))
            &&& is_sound(app.with_downloads(started))
            &&& is_sound(app.with_note(note))
            &&& is_sound(app.after_frame(answer, polls))
        },
{
    lemma_notes_touch_toasts_only(
        app.after_lookup(answer).after_polls(polls),
        app.frame_notes(answer, polls),
    );
}

// ---- Messages ----

/// Messages change the toasts, and nothing else.
proof fn lemma_notes_touch_toasts_only<H>(app: AppView<H>, notes: Seq<NoteView>)
    ensures
        app.with_notes(notes) == (AppView {
            v: VolatileView { toasts: app.with_notes(notes).v.toasts, ..app.v },
            ..app
        }),
    decreases notes.len(),
{
    if notes.len() > 0 {
        lemma_notes_touch_toasts_only(app, notes.drop_last());
    }
}

/// The toasts of `notes`, the last of them first.
pub open spec fn toasts_of(notes: Seq<NoteView>) -> Seq<ToastView> {
    notes.map_values(|note: NoteView| update::note_toast(note)).reverse()
}

/// Where toasts are on and stacked newest first, the messages come before the toasts that
/// were there, the last of them at the front.
pub proof fn law_newest_message_comes_first<H>(app: AppView<H>, notes: Seq<NoteView>)
    requires
        app.settings.show_toasts,
        app.v.toast_layout.newest_first,
    ensures
        app.with_notes(notes).v.toasts == toasts_of(notes) + app.v.toasts,
    decreases notes.len(),
{
    if notes.len() > 0 {
        law_newest_message_comes_first(app, notes.drop_last());
        lemma_notes_touch_toasts_only(app, notes.drop_last());
        assert(toasts_of(notes) =~= seq![update::note_toast(notes.last())] + toasts_of(
            notes.drop_last(),
        ));
    }
    assert(app.with_notes(notes).v.toasts =~= toasts_of(notes) + app.v.toasts);
}

/// Where toasts are off no message changes anything, and where notifications are off none is
/// sent; where they are on there is one for each message, and it says the same.
pub proof fn law_messages_obey_the_settings<H>(app: AppView<H>, notes: Seq<NoteView>)
    ensures
        !app.settings.show_toasts ==> app.with_notes(notes) == app,
        !app.settings.show_notifications ==> app.settings.notifications(notes).len() == 0,
        app.settings.show_notifications ==> {
            &&& app.settings.notifications(notes).len() == notes.len()
            &&& forall|i: int|
                0 <= i < notes.len() ==> (#[trigger] app.settings.notifications(notes)[i]).body
                    == notes[i].text
        },
    decreases notes.len(),
{
    if notes.len() > 0 {
        law_messages_obey_the_settings(app, notes.drop_last());
    }
}

// ---- Lookups ----

/// A title that was found is not looked up again, whatever is pressed.
pub proof fn law_found_title_is_not_looked_up_again<H>(app: AppView<H>, bar: SearchBarEventView)
    requires
        app.already_searched(),
    ensures
        app.lookup_started(bar) is None,
        bar is SearchRequested ==> app.after_search_bar(bar) == app,
{
}

/// While a lookup is under way the search button starts no other.
pub proof fn law_button_waits_for_the_lookup<H>(app: AppView<H>)
    requires
        app.v.pending_search is Some,
    ensures
        app.lookup_started(SearchBarEventView::SearchRequested { submitted: false }) is None,
        app.after_search_bar(SearchBarEventView::SearchRequested { submitted: false }) == app,
{
}

/// Once a lookup is started, one that was waited for before no longer is: its answer changes
/// nothing and is not told to the user. The answer to the new one still counts.
pub proof fn law_new_lookup_replaces_the_old<H>(
    app: AppView<H>,
    submitted: bool,
    old_number: u64,
    result: Result<UpdateView, UpdateErrorView>,
)
    requires
        is_sound(app),
        app.search_starts(submitted),
        app.v.pending_search == Some(old_number),
    ensures
        ({
            let request = SearchBarEventView::SearchRequested { submitted };
            let asked = app.after_search_bar(request);
            let late = Some(LookupAnswerView { number: old_number, result });
            let number = app.lookup_started(request)->0.number;
            &&& asked.after_lookup(late) == asked
            &&& update::lookup_notes(asked.awaited(late)).len() == 0
            &&& asked.awaited(Some(LookupAnswerView { number, result })) == Some(result)
        }),
{
}

/// The number of the lookup that is started `count` after the one numbered `number`.
pub open spec fn number_after(number: u64, count: nat) -> u64
    decreases count,
{
    if count == 0 {
        number
    } else {
        search_bar::next_number(number_after(number, (count - 1) as nat))
    }
}

proof fn lemma_number_after(number: u64, count: nat)
    requires
        count <= u64::MAX,
    ensures
        number_after(number, count) == if number + count <= u64::MAX {
            number + count
        } else {
            number + count - u64::MAX - 1
        },
    decreases count,
{
    if count > 0 {
        lemma_number_after(number, (count - 1) as nat);
    }
}

/// However many lookups were started since, up to all the numbers that there are, the answer
/// to an earlier one changes nothing and is not told to the user.
pub proof fn law_late_answers_are_ignored<H>(
    app: AppView<H>,
    number: u64,
    since: nat,
    result: Result<UpdateView, UpdateErrorView>,
)
    requires
        is_sound(app),
        app.v.last_search == number_after(number, since),
        1 <= since <= u64::MAX,
    ensures
        app.after_lookup(Some(LookupAnswerView { number, result })) == app,
        update::lookup_notes(
            app.awaited(Some(LookupAnswerView { number, result })),
        ).len() == 0,
{
    lemma_number_after(number, since);
}

/// A lookup that is started and finds the serial adds the title at the end of the results,
/// tells the user nothing, and is not repeated until the results are cleared; then it is
/// possible again.
pub proof fn law_lookup_that_finds_its_title<H>(
    app: AppView<H>,
    submitted: bool,
    update: UpdateView,
    again: bool,
)
    requires
        app.search_starts(submitted),
        update.title_id == app.v.serial_query,
    ensures
        ({
            let request = SearchBarEventView::SearchRequested { submitted };
            let asked = app.after_search_bar(request);
            let job = app.lookup_started(request)->0;
            let answer = Some(LookupAnswerView { number: job.number, result: Ok(update) });
            let found = asked.after_lookup(answer);
            let cleared = found.after_search_bar(SearchBarEventView::ResultsCleared);
            let repeat = SearchBarEventView::SearchRequested { submitted: again };
            &&& app.lookup_started(request) is Some
            &&& job.serial == app.v.serial_query
            &&& found.v.update_results == app.v.update_results.push(update)
            &&& found.v.pending_search is None
            &&& update::lookup_notes(asked.awaited(answer)).len() == 0
            &&& found.lookup_started(repeat) is None
            &&& app.v.serial_query.len() > 0 ==> {
                &&& cleared.lookup_started(repeat) is Some
                &&& cleared.lookup_started(repeat)->0.serial == app.v.serial_query
            }
        }),
{
    let results = app.v.update_results.push(update);
    assert(results[results.len() - 1].title_id == app.v.serial_query);
    assert(search_bar::is_found(results, app.v.serial_query));
}

/// A lookup that fails leaves the results as they were and tells the user once, with an error,
/// and the same serial can be looked up again.
pub proof fn law_lookup_that_fails<H>(app: AppView<H>, submitted: bool, error: UpdateErrorView)
    requires
        app.search_starts(submitted),
    ensures
        ({
            let request = SearchBarEventView::SearchRequested { submitted };
            let asked = app.after_search_bar(request);
            let job = app.lookup_started(request)->0;
            let answer = Some(LookupAnswerView { number: job.number, result: Err(error) });
            let failed = asked.after_lookup(answer);
            let notes = update::lookup_notes(asked.awaited(answer));
            &&& failed.v.update_results == app.v.update_results
            &&& failed.v.pending_search is None
            &&& notes.len() == 1
            &&& notes[0].level is Error
            &&& failed.search_starts(true)
        }),
{
}

// ---- Which downloads are started ----

/// Whether a job is for a package of one of `updates`, is not being downloaded, and goes to
/// where the settings say.
pub open spec fn is_wanted<H>(app: AppView<H>, updates: Seq<UpdateView>, job: JobView) -> bool {
    &&& !results::is_queued(app.v.download_queue, (job.title_id, job.pkg.version))
    &&& job.download_path == app.settings.pkg_download_path
    &&& exists|i: int|
        0 <= i < updates.len() && (#[trigger] updates[i]).title_id == job.title_id
            && updates[i].packages.contains(job.pkg)
}

proof fn lemma_jobs_for_are_wanted<H>(
    app: AppView<H>,
    update: UpdateView,
    packages: Seq<PackageView>,
    all: bool,
    marks: Seq<bool>,
)
    requires
        forall|j: int|
            0 <= j < packages.len() ==> update.packages.contains(#[trigger] packages[j]),
    ensures
        forall|i: int|
            0 <= i < app.jobs_for(update.title_id, packages, all, marks).len() ==> is_wanted(
                app,
                seq![update],
                #[trigger] app.jobs_for(update.title_id, packages, all, marks)[i],
            ),
    decreases packages.len(),
{
    if packages.len() > 0 {
        let before = packages.drop_last();
        assert forall|j: int| 0 <= j < before.len() implies update.packages.contains(
            #[trigger] before[j],
        ) by {
            assert(update.packages.contains(packages[j]));
        }
        lemma_jobs_for_are_wanted(app, update, before, all, marks);
        assert(update.packages.contains(packages[packages.len() - 1]));
        let jobs = app.jobs_for(update.title_id, packages, all, marks);
        let earlier = app.jobs_for(update.title_id, before, all, marks);
        assert forall|i: int| 0 <= i < jobs.len() implies is_wanted(
            app,
            seq![update],
            #[trigger] jobs[i],
        ) by {
            if i < earlier.len() {
                assert(jobs[i] == earlier[i]);
            } else {
                assert(seq![update][0].title_id == jobs[i].title_id);
            }
        }
    }
}

/// No click starts a download that is under way already: every job is for a package of one of
/// the titles listed whose release is not in the queue, and goes to where the settings say.
pub proof fn law_only_wanted_downloads_start<H>(
    app: AppView<H>,
    updates: Seq<UpdateView>,
    clicks: Seq<EntryClicksView>,
)
    ensures
        forall|i: int|
            0 <= i < app.list_jobs(updates, clicks).len() ==> is_wanted(
                app,
                updates,
                #[trigger] app.list_jobs(updates, clicks)[i],
            ),
    decreases updates.len(),
{
    if updates.len() > 0 {
        let before = updates.drop_last();
        let last = updates.len() - 1;
        let update = updates[last];
        law_only_wanted_downloads_start(app, before, clicks);
        assert forall|j: int| 0 <= j < update.packages.len() implies update.packages.contains(
            #[trigger] update.packages[j],
        ) by {}
        lemma_jobs_for_are_wanted(app, update, update.packages, true, Seq::empty());
        if last < clicks.len() {
            lemma_jobs_for_are_wanted(
                app,
                update,
                update.packages,
                false,
                clicks[last].download_file,
            );
        }
        assert forall|i: int| 0 <= i < app.list_jobs(updates, clicks).len() implies is_wanted(
            app,
            updates,
            #[trigger] app.list_jobs(updates, clicks)[i],
        ) by {
            let job = app.list_jobs(updates, clicks)[i];
            let earlier = app.list_jobs(before, clicks);
            if i < earlier.len() {
                assert(job == earlier[i]);
                assert(is_wanted(app, before, job));
                let k = choose|k: int|
                    0 <= k < before.len() && (#[trigger] before[k]).title_id == job.title_id
                        && before[k].packages.contains(job.pkg);
                assert(updates[k] == before[k]);
            } else {
                assert(is_wanted(app, seq![update], job));
                let k = choose|k: int|
                    0 <= k < seq![update].len() && (#[trigger] seq![update][k]).title_id
                        == job.title_id && seq![update][k].packages.contains(job.pkg);
                assert(updates[last].title_id == job.title_id);
            }
        }
    }
}

proof fn lemma_asked_for_is_among_the_jobs<H>(
    app: AppView<H>,
    title_id: Seq<char>,
    packages: Seq<PackageView>,
    all: bool,
    marks: Seq<bool>,
    j: int,
)
    requires
        0 <= j < packages.len(),
        all || (j < marks.len() && marks[j]),
        !results::is_queued(app.v.download_queue, (title_id, packages[j].version)),
    ensures
        app.jobs_for(title_id, packages, all, marks).contains(app.job(title_id, packages[j])),
    decreases packages.len(),
{
    let jobs = app.jobs_for(title_id, packages, all, marks);
    let wanted = app.job(title_id, packages[j]);
    if j == packages.len() - 1 {
        assert(jobs[jobs.len() - 1] == wanted);
    } else {
        lemma_asked_for_is_among_the_jobs(app, title_id, packages.drop_last(), all, marks, j);
        let earlier = app.jobs_for(title_id, packages.drop_last(), all, marks);
        let k = choose|k: int| 0 <= k < earlier.len() && earlier[k] == wanted;
        assert(jobs[k] == wanted);
    }
}

/// `Download all` leaves out no package of the title that is not under way, and neither does
/// a click on the package itself.
pub proof fn law_every_package_asked_for_starts<H>(
    app: AppView<H>,
    update: UpdateView,
    clicks: EntryClicksView,
    j: int,
)
    requires
        0 <= j < update.packages.len(),
        clicks.download_all || (j < clicks.download_file.len() && clicks.download_file[j]),
        !results::is_queued(app.v.download_queue, (update.title_id, update.packages[j].version)),
    ensures
        app.entry_jobs(update, clicks).contains(app.job(update.title_id, update.packages[j])),
{
    let wanted = app.job(update.title_id, update.packages[j]);
    let jobs = app.entry_jobs(update, clicks);
    if clicks.download_all {
        let all = app.jobs_for(update.title_id, update.packages, true, Seq::empty());
        lemma_asked_for_is_among_the_jobs(
            app,
            update.title_id,
            update.packages,
            true,
            Seq::empty(),
            j,
        );
        let k = choose|k: int| 0 <= k < all.len() && all[k] == wanted;
        assert(jobs[k] == wanted);
    } else {
        let single = app.jobs_for(
            update.title_id,
            update.packages,
            false,
            clicks.download_file,
        );
        lemma_asked_for_is_among_the_jobs(
            app,
            update.title_id,
            update.packages,
            false,
            clicks.download_file,
            j,
        );
        assert(jobs =~= single);
    }
}

/// A list in which nothing was clicked starts nothing.
pub proof fn law_no_click_no_download<H>(
    app: AppView<H>,
    updates: Seq<UpdateView>,
    clicks: Seq<EntryClicksView>,
)
    requires
        forall|i: int|
            0 <= i < clicks.len() ==> !(#[trigger] clicks[i]).download_all && forall|j: int|
                0 <= j < clicks[i].download_file.len() ==> !clicks[i].download_file[j],
    ensures
        app.list_jobs(updates, clicks).len() == 0,
    decreases updates.len(),
{
    if updates.len() > 0 {
        let last = updates.len() - 1;
        law_no_click_no_download(app, updates.drop_last(), clicks);
        if last < clicks.len() {
            lemma_no_mark_no_job(
                app,
                updates[last].title_id,
                updates[last].packages,
                clicks[last].download_file,
            );
        }
    }
}

proof fn lemma_no_mark_no_job<H>(
    app: AppView<H>,
    title_id: Seq<char>,
    packages: Seq<PackageView>,
    marks: Seq<bool>,
)
    requires
        forall|j: int| 0 <= j < marks.len() ==> !marks[j],
    ensures
        app.jobs_for(title_id, packages, false, marks).len() == 0,
    decreases packages.len(),
{
    if packages.len() > 0 {
        lemma_no_mark_no_job(app, title_id, packages.drop_last(), marks);
    }
}

/// A download that was queued shows as such, from nothing up, and its release is not started
/// a second time.
pub proof fn law_queued_download_is_under_way<H>(app: AppView<H>, job: JobView, task: H)
    requires
        !results::is_queued(app.v.download_queue, (job.title_id, job.pkg.version)),
    ensures
        ({
            let release = (job.title_id, job.pkg.version);
            let queued = app.with_downloads(seq![DownloadView::started(job, task)]);
            &&& results::is_queued(queued.v.download_queue, release)
            &&& queued.package_state(release) == (PackageState::Downloading {
                progress: 0,
                size: job.pkg.size,
            })
        }),
{
    let release = (job.title_id, job.pkg.version);
    let download = DownloadView::started(job, task);
    let queue = app.v.download_queue + seq![download];
    results::lemma_first_queued(app.v.download_queue, release);
    assert(queue.drop_last() =~= app.v.download_queue);
    assert(queue.last() == download);
    results::lemma_first_queued(queue, release);
}

/// The release that a job is for.
pub open spec fn job_release(job: JobView) -> Release {
    (job.title_id, job.pkg.version)
}

pub open spec fn job_releases(jobs: Seq<JobView>) -> Seq<Release> {
    jobs.map_values(|job: JobView| job_release(job))
}

pub open spec fn queue_releases<H>(queue: Seq<DownloadView<H>>) -> Seq<Release> {
    queue.map_values(|download: DownloadView<H>| download.release())
}

/// Whether no two of a title's packages have one version.
pub open spec fn versions_differ(packages: Seq<PackageView>) -> bool {
    forall|i: int, j: int|
        0 <= i < j < packages.len() ==> (#[trigger] packages[i]).version != (
        #[trigger] packages[j]).version
}

/// Whether no two titles have one serial, nor two packages of one title one version.
pub open spec fn titles_differ(updates: Seq<UpdateView>) -> bool {
    &&& forall|i: int, j: int|
        0 <= i < j < updates.len() ==> (#[trigger] updates[i]).title_id != (
        #[trigger] updates[j]).title_id
    &&& forall|i: int| 0 <= i < updates.len() ==> versions_differ(#[trigger] updates[i].packages)
}

/// Whether an entry was not asked for as a whole and by its packages at once.
pub open spec fn asks_one_way(clicks: EntryClicksView) -> bool {
    clicks.download_all ==> forall|j: int|
        0 <= j < clicks.download_file.len() ==> !clicks.download_file[j]
}

proof fn lemma_jobs_for_differ<H>(
    app: AppView<H>,
    title_id: Seq<char>,
    packages: Seq<PackageView>,
    all: bool,
    marks: Seq<bool>,
)
    requires
        versions_differ(packages),
    ensures
        job_releases(app.jobs_for(title_id, packages, all, marks)).no_duplicates(),
        forall|i: int|
            0 <= i < app.jobs_for(title_id, packages, all, marks).len() ==> {
                let job = #[trigger] app.jobs_for(title_id, packages, all, marks)[i];
                job.title_id == title_id && packages.contains(job.pkg)
            },
    decreases packages.len(),
{
    if packages.len() > 0 {
        let before = packages.drop_last();
        let last = packages.len() - 1;
        let jobs = app.jobs_for(title_id, packages, all, marks);
        let earlier = app.jobs_for(title_id, before, all, marks);
        lemma_jobs_for_differ(app, title_id, before, all, marks);
        assert forall|i: int| 0 <= i < earlier.len() implies {
            &&& (#[trigger] earlier[i]).title_id == title_id
            &&& packages.contains(earlier[i].pkg)
            &&& earlier[i].pkg.version != packages[last].version
        } by {
            let k = choose|k: int| 0 <= k < before.len() && before[k] == earlier[i].pkg;
            assert(packages[k] == earlier[i].pkg);
        }
        assert(packages.contains(packages[last]));
        assert forall|i: int, j: int| 0 <= i < j < jobs.len() implies job_releases(jobs)[i]
            != job_releases(jobs)[j] by {
            assert(jobs[i] == earlier[i]);
            if j < earlier.len() {
                assert(job_releases(earlier)[i] != job_releases(earlier)[j]);
                assert(jobs[j] == earlier[j]);
            }
        }
        assert forall|i: int| 0 <= i < jobs.len() implies {
            let job = #[trigger] jobs[i];
            job.title_id == title_id && packages.contains(job.pkg)
        } by {
            if i < earlier.len() {
                assert(jobs[i] == earlier[i]);
            }
        }
    }
}

proof fn lemma_entry_jobs_differ<H>(app: AppView<H>, update: UpdateView, clicks: EntryClicksView)
    requires
        versions_differ(update.packages),
        asks_one_way(clicks),
    ensures
        job_releases(app.entry_jobs(update, clicks)).no_duplicates(),
        forall|i: int|
            0 <= i < app.entry_jobs(update, clicks).len() ==> (#[trigger] app.entry_jobs(
                update,
                clicks,
            )[i]).title_id == update.title_id,
{
    let marks = clicks.download_file;
    let single = app.jobs_for(update.title_id, update.packages, false, marks);
    lemma_jobs_for_differ(app, update.title_id, update.packages, false, marks);
    if clicks.download_all {
        let all = app.jobs_for(update.title_id, update.packages, true, Seq::empty());
        lemma_jobs_for_differ(app, update.title_id, update.packages, true, Seq::empty());
        lemma_no_mark_no_job(app, update.title_id, update.packages, marks);
        assert(app.entry_jobs(update, clicks) =~= all);
    } else {
        assert(app.entry_jobs(update, clicks) =~= single);
    }
}

proof fn lemma_list_jobs_differ<H>(
    app: AppView<H>,
    updates: Seq<UpdateView>,
    clicks: Seq<EntryClicksView>,
)
    requires
        titles_differ(updates),
        forall|i: int| 0 <= i < clicks.len() ==> asks_one_way(#[trigger] clicks[i]),
    ensures
        job_releases(app.list_jobs(updates, clicks)).no_duplicates(),
    decreases updates.len(),
{
    if updates.len() > 0 {
        let before = updates.drop_last();
        let last = updates.len() - 1;
        let jobs = app.list_jobs(updates, clicks);
        let earlier = app.list_jobs(before, clicks);
        assert(titles_differ(before)) by {
            assert forall|i: int| 0 <= i < before.len() implies versions_differ(
                #[trigger] before[i].packages,
            ) by {
                assert(versions_differ(updates[i].packages));
            }
        }
        lemma_list_jobs_differ(app, before, clicks);
        law_only_wanted_downloads_start(app, before, clicks);
        if last < clicks.len() {
            let entry = app.entry_jobs(updates[last], clicks[last]);
            assert(versions_differ(updates[last].packages));
            lemma_entry_jobs_differ(app, updates[last], clicks[last]);
            assert forall|i: int, j: int| 0 <= i < j < jobs.len() implies job_releases(jobs)[i]
                != job_releases(jobs)[j] by {
                let n = earlier.len() as int;
                if j < n {
                    assert(job_releases(earlier)[i] != job_releases(earlier)[j]);
                } else if i >= n {
                    assert(job_releases(entry)[i - n] != job_releases(entry)[j - n]);
                } else {
                    let job = earlier[i];
                    assert(is_wanted(app, before, job));
                    let k = choose|k: int|
                        0 <= k < before.len() && (#[trigger] before[k]).title_id == job.title_id
                            && before[k].packages.contains(job.pkg);
                    assert(updates[k].title_id != updates[last].title_id);
                    assert(entry[j - n].title_id == updates[last].title_id);
                }
            }
        }
    }
}

/// No release is downloaded twice at once: where the queue holds none twice, it holds none
/// twice after all that the clicks ask for has been started. The titles listed must differ,
/// and so must the versions of each, and no title may be asked for as a whole and by its
/// packages in the same frame.
pub proof fn law_no_release_is_downloaded_twice<H>(
    app: AppView<H>,
    clicks: Seq<EntryClicksView>,
    started: Seq<DownloadView<H>>,
)
    requires
        queue_releases(app.v.download_queue).no_duplicates(),
        titles_differ(app.v.update_results),
        forall|i: int| 0 <= i < clicks.len() ==> asks_one_way(#[trigger] clicks[i]),
        queue_releases(started) == job_releases(app.list_jobs(app.v.update_results, clicks)),
    ensures
        queue_releases(app.with_downloads(started).v.download_queue).no_duplicates(),
{
    let queue = app.v.download_queue;
    let jobs = app.list_jobs(app.v.update_results, clicks);
    let after = queue_releases(queue + started);
    lemma_list_jobs_differ(app, app.v.update_results, clicks);
    law_only_wanted_downloads_start(app, app.v.update_results, clicks);
    assert(after =~= queue_releases(queue) + job_releases(jobs));
    assert forall|i: int, j: int| 0 <= i < j < after.len() implies after[i] != after[j] by {
        let n = queue.len() as int;
        if j < n {
            assert(queue_releases(queue)[i] != queue_releases(queue)[j]);
        } else if i >= n {
            assert(job_releases(jobs)[i - n] != job_releases(jobs)[j - n]);
        } else {
            assert(is_wanted(app, app.v.update_results, jobs[j - n]));
            assert(queue[i].release() == after[i]);
        }
    }
}

/// A frame brings no release into the queue twice.
pub proof fn law_frame_keeps_releases_apart<H>(
    app: AppView<H>,
    answer: Option<LookupAnswerView>,
    polls: Seq<DownloadPoll>,
)
    requires
        queue_releases(app.v.download_queue).no_duplicates(),
    ensures
        queue_releases(app.after_frame(answer, polls).v.download_queue).no_duplicates(),
{
    lemma_notes_touch_toasts_only(
        app.after_lookup(answer).after_polls(polls),
        app.frame_notes(answer, polls),
    );
    lemma_running_releases_differ(app.v.download_queue, polls);
}

proof fn lemma_running_releases_differ<H>(
    queue: Seq<DownloadView<H>>,
    polls: Seq<DownloadPoll>,
)
    requires
        queue_releases(queue).no_duplicates(),
    ensures
        queue_releases(download::still_running(queue, polls)).no_duplicates(),
    decreases queue.len(),
{
    if queue.len() > 0 {
        let before = queue.drop_last();
        let last = queue.len() - 1;
        let running = download::still_running(queue, polls);
        let earlier = download::still_running(before, polls);
        assert forall|i: int, j: int| 0 <= i < j < before.len() implies queue_releases(before)[i]
            != queue_releases(before)[j] by {
            assert(queue_releases(queue)[i] != queue_releases(queue)[j]);
        }
        lemma_running_releases_differ(before, polls);
        assert forall|i: int, j: int| 0 <= i < j < running.len() implies queue_releases(running)[i]
            != queue_releases(running)[j] by {
            if j < earlier.len() {
                assert(queue_releases(earlier)[i] != queue_releases(earlier)[j]);
            } else {
                law_running_downloads_were_queued(before, polls, i);
                let k = choose|k: int|
                    0 <= k < before.len() && polls[k].outcome is None && earlier[i] == (
                    #[trigger] before[k]).advanced(polls[k].status);
                assert(queue_releases(queue)[k] != queue_releases(queue)[last]);
            }
        }
    }
}

// ---- What becomes of downloads ----

/// What a download has reported over a run of polls.
pub open spec fn after_statuses<H>(
    download: DownloadView<H>,
    statuses: Seq<Option<DownloadStatus>>,
) -> DownloadView<H>
    decreases statuses.len(),
{
    if statuses.len() == 0 {
        download
    } else {
        after_statuses(download, statuses.drop_last()).advanced(statuses.last())
    }
}

/// The bytes that a run of statuses adds up to.
pub open spec fn total_received(statuses: Seq<Option<DownloadStatus>>) -> nat
    decreases statuses.len(),
{
    if statuses.len() == 0 {
        0
    } else {
        total_received(statuses.drop_last()) + download::received(statuses.last())
    }
}

/// The progress of a download is all that it was told has arrived; nothing else about it
/// changes but the last status.
pub proof fn law_progress_adds_up<H>(
    download: DownloadView<H>,
    statuses: Seq<Option<DownloadStatus>>,
)
    requires
        download.progress + total_received(statuses) <= u64::MAX,
    ensures
        after_statuses(download, statuses) == (DownloadView {
            progress: (download.progress + total_received(statuses)) as u64,
            last_received_status: after_statuses(download, statuses).last_received_status,
            ..download
        }),
    decreases statuses.len(),
{
    if statuses.len() > 0 {
        law_progress_adds_up(download, statuses.drop_last());
    }
}

/// No download is lost or counted twice: those still running and those that ended well or
/// badly are together as many as there were, and there is one message for each that ended.
pub proof fn law_downloads_are_conserved<H>(queue: Seq<DownloadView<H>>, polls: Seq<DownloadPoll>)
    ensures
        download::still_running(queue, polls).len() + download::ended(queue, polls, true).len()
            + download::ended(queue, polls, false).len() == queue.len(),
        download::outcome_notes(queue, polls).len() == download::ended(queue, polls, true).len()
            + download::ended(queue, polls, false).len(),
    decreases queue.len(),
{
    if queue.len() > 0 {
        law_downloads_are_conserved(queue.drop_last(), polls);
    }
}

/// Each download goes where its poll sends it: one that has not ended stays in the queue with
/// what it reported, one that ended well is completed, one that ended badly has failed, and of
/// one that ended the user is told.
pub proof fn law_every_download_is_accounted_for<H>(
    queue: Seq<DownloadView<H>>,
    polls: Seq<DownloadPoll>,
    i: int,
)
    requires
        0 <= i < queue.len(),
    ensures
        match polls[i].outcome {
            None => download::still_running(queue, polls).contains(
                queue[i].advanced(polls[i].status),
            ),
            Some(outcome) => {
                &&& download::ended(queue, polls, outcome is Ok).contains(queue[i].release())
                &&& download::outcome_notes(queue, polls).contains(
                    download::outcome_note(queue[i].release(), outcome),
                )
            },
        },
    decreases queue.len(),
{
    let running = download::still_running(queue, polls);
    let notes = download::outcome_notes(queue, polls);
    if i == queue.len() - 1 {
        match polls[i].outcome {
            None => {
                assert(running[running.len() - 1] == queue[i].advanced(polls[i].status));
            },
            Some(outcome) => {
                let list = download::ended(queue, polls, outcome is Ok);
                assert(list[list.len() - 1] == queue[i].release());
                assert(notes[notes.len() - 1] == download::outcome_note(
                    queue[i].release(),
                    outcome,
                ));
            },
        }
    } else {
        let before = queue.drop_last();
        law_every_download_is_accounted_for(before, polls, i);
        match polls[i].outcome {
            None => {
                let earlier = download::still_running(before, polls);
                let k = choose|k: int|
                    0 <= k < earlier.len() && earlier[k] == queue[i].advanced(polls[i].status);
                assert(running[k] == earlier[k]);
            },
            Some(outcome) => {
                let list = download::ended(queue, polls, outcome is Ok);
                let earlier = download::ended(before, polls, outcome is Ok);
                let k = choose|k: int|
                    0 <= k < earlier.len() && earlier[k] == queue[i].release();
                assert(list[k] == earlier[k]);
                let note = download::outcome_note(queue[i].release(), outcome);
                let earlier_notes = download::outcome_notes(before, polls);
                let n = choose|n: int| 0 <= n < earlier_notes.len() && earlier_notes[n] == note;
                assert(notes[n] == earlier_notes[n]);
            },
        }
    }
}

/// A download that is still in the queue was in it before, has not ended, and keeps its
/// release, its size and its task.
pub proof fn law_running_downloads_were_queued<H>(
    queue: Seq<DownloadView<H>>,
    polls: Seq<DownloadPoll>,
    k: int,
)
    requires
        0 <= k < download::still_running(queue, polls).len(),
    ensures
        exists|i: int|
            0 <= i < queue.len() && polls[i].outcome is None && download::still_running(
                queue,
                polls,
            )[k] == (#[trigger] queue[i]).advanced(polls[i].status),
    decreases queue.len(),
{
    let before = queue.drop_last();
    let earlier = download::still_running(before, polls);
    if k < earlier.len() {
        law_running_downloads_were_queued(before, polls, k);
        let i = choose|i: int|
            0 <= i < before.len() && polls[i].outcome is None && earlier[k] == (
            #[trigger] before[i]).advanced(polls[i].status);
        assert(queue[i] == before[i]);
    } else {
        assert(queue[queue.len() - 1] == queue.last());
    }
}

/// What was completed or has failed stays so: a frame only adds to the two lists, at their
/// ends.
pub proof fn law_history_only_grows<H>(
    app: AppView<H>,
    answer: Option<LookupAnswerView>,
    polls: Seq<DownloadPoll>,
)
    ensures
        app.v.completed_downloads.is_prefix_of(
            app.after_frame(answer, polls).v.completed_downloads,
        ),
        app.v.failed_downloads.is_prefix_of(app.after_frame(answer, polls).v.failed_downloads),
{
    lemma_notes_touch_toasts_only(
        app.after_lookup(answer).after_polls(polls),
        app.frame_notes(answer, polls),
    );
}

/// After a frame a release whose download ended shows as completed or failed, unless another
/// download of it is still under way; one that was ever completed never shows as failed.
pub proof fn law_ended_download_shows_its_outcome<H>(
    app: AppView<H>,
    answer: Option<LookupAnswerView>,
    polls: Seq<DownloadPoll>,
    i: int,
    outcome: Result<(), DownloadError>,
)
    requires
        0 <= i < app.v.download_queue.len(),
        polls[i].outcome == Some(outcome),
    ensures
        ({
            let release = app.v.download_queue[i].release();
            let after = app.after_frame(answer, polls);
            !results::is_queued(after.v.download_queue, release) ==> {
                &&& outcome is Ok ==> after.package_state(release) is Completed
                &&& outcome is Err ==> after.package_state(release) == (
                if after.v.completed_downloads.contains(release) {
                    PackageState::Completed
                } else {
                    PackageState::Failed
                })
            }
        }),
{
    let release = app.v.download_queue[i].release();
    let after = app.after_frame(answer, polls);
    let queue = app.v.download_queue;
    lemma_notes_touch_toasts_only(
        app.after_lookup(answer).after_polls(polls),
        app.frame_notes(answer, polls),
    );
    law_every_download_is_accounted_for(queue, polls, i);
    results::lemma_first_queued(after.v.download_queue, release);
    let list = download::ended(queue, polls, outcome is Ok);
    let k = choose|k: int| 0 <= k < list.len() && list[k] == release;
    if outcome is Ok {
        let n = app.v.completed_downloads.len() + k;
        assert(after.v.completed_downloads[n] == release);
    } else {
        let n = app.v.failed_downloads.len() + k;
        assert(after.v.failed_downloads[n] == release);
    }
}

/// A frame in which no lookup ended and no download had anything to say changes nothing and
/// tells the user nothing.
pub proof fn law_quiet_frame_changes_nothing<H>(app: AppView<H>, polls: Seq<DownloadPoll>)
    requires
        polls.len() == app.v.download_queue.len(),
        forall|i: int|
            0 <= i < polls.len() ==> (#[trigger] polls[i]).status is None
                && polls[i].outcome is None,
    ensures
        app.after_frame(None, polls) == app,
        app.frame_notes(None, polls).len() == 0,
{
    lemma_quiet_polls(app.v.download_queue, polls);
    assert(app.frame_notes(None, polls) =~= Seq::<NoteView>::empty());
    assert(app.v.completed_downloads + Seq::<Release>::empty() =~= app.v.completed_downloads);
    assert(app.v.failed_downloads + Seq::<Release>::empty() =~= app.v.failed_downloads);
}

proof fn lemma_quiet_polls<H>(queue: Seq<DownloadView<H>>, polls: Seq<DownloadPoll>)
    requires
        queue.len() <= polls.len(),
        forall|i: int|
            0 <= i < polls.len() ==> (#[trigger] polls[i]).status is None
                && polls[i].outcome is None,
    ensures
        download::still_running(queue, polls) == queue,
        download::ended(queue, polls, true) == Seq::<Release>::empty(),
        download::ended(queue, polls, false) == Seq::<Release>::empty(),
        download::outcome_notes(queue, polls) == Seq::<NoteView>::empty(),
    decreases queue.len(),
{
    if queue.len() > 0 {
        lemma_quiet_polls(queue.drop_last(), polls);
        assert(polls[queue.len() - 1].outcome is None);
        assert(download::still_running(queue, polls) =~= queue);
    } else {
        assert(download::still_running(queue, polls) =~= queue);
    }
}

} // verus!
