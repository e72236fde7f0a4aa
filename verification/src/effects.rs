//! What each operation does, said of the fields and lists that go in and come out.
use crate::download;
use crate::download::{ActiveDownload, DownloadJob, DownloadPoll, DownloadView, JobView, Release};
use crate::laws;
use crate::paths;
use crate::psn;
use crate::psn::{DownloadError, DownloadStatus, LookupAnswer, LookupAnswerView, LookupJob};
use crate::psn::{LookupJobView, PackageInfo, PackageView, UpdateError, UpdateErrorView};
use crate::psn::{UpdateInfo, UpdateView};
use crate::removal;
use crate::results;
use crate::results::{EntryClicks, EntryClicksView, PackageState};
use crate::search_bar::{SearchBarEvent, SearchBarEventView};
use crate::settings::{AppSettings, SettingsView};
use crate::settings_window::SettingsEvent;
use crate::state;
use crate::state::{AppView, UpdatesApp, VolatileView};
use crate::text;
use crate::text::PackageLines;
use crate::toast;
use crate::toast::{Corner, Note, NoteView, ToastLayout, ToastLevel, ToastView};
use crate::update;
use crate::update::{NotificationView, SystemNotification};
use std::path::PathBuf;
use vstd::prelude::*;

verus! {

// ---- Picking from a list ----

/// The numbers below `n`, in order.
pub open spec fn upto(n: nat) -> Seq<int> {
    Seq::new(n, |i: int| i)
}

/// What `make` makes of each of the numbers below `n` that `keep` keeps, in order.
pub open spec fn picked<A>(
    n: nat,
    keep: spec_fn(int) -> bool,
    make: spec_fn(int) -> A,
) -> Seq<A> {
    upto(n).filter(keep).map_values(make)
}

proof fn lemma_picked_none<A>(keep: spec_fn(int) -> bool, make: spec_fn(int) -> A)
    ensures
        picked(0, keep, make) == Seq::<A>::empty(),
{
    reveal(Seq::filter);
    assert(picked(0, keep, make) =~= Seq::<A>::empty());
}

proof fn lemma_picked_next<A>(n: nat, keep: spec_fn(int) -> bool, make: spec_fn(int) -> A)
    ensures
        picked((n + 1) as nat, keep, make) == if keep(n as int) {
            picked(n, keep, make).push(make(n as int))
        } else {
            picked(n, keep, make)
        },
{
    reveal(Seq::filter);
    assert(upto((n + 1) as nat).drop_last() =~= upto(n));
    assert(upto((n + 1) as nat).last() == n);
    if keep(n as int) {
        assert(picked((n + 1) as nat, keep, make) =~= picked(n, keep, make).push(make(n as int)));
    }
}

/// An item at a position that is not listed moves down by the number of listed positions
/// before it, and as many items go as positions are listed.
pub proof fn law_unlisted_items_move_down<T>(items: Seq<T>, entries: Seq<usize>, p: int, k: int)
    requires
        forall|i: int| 0 <= i < entries.len() ==> entries[i] < items.len(),
        forall|i: int, j: int| 0 <= i < j < entries.len() ==> entries[i] < entries[j],
        0 <= p < items.len(),
        0 <= k <= entries.len(),
        forall|i: int| 0 <= i < k ==> entries[i] < p,
        forall|i: int| k <= i < entries.len() ==> entries[i] > p,
    ensures
        removal::without(items, entries).len() == items.len() - entries.len(),
        0 <= p - k < removal::without(items, entries).len(),
        removal::without(items, entries)[p - k] == items[p],
{
    lemma_without_len(items, entries, entries.len() as int);
    lemma_without_item(items, entries, p, k);
}

proof fn lemma_without_len<T>(items: Seq<T>, entries: Seq<usize>, n: int)
    requires
        forall|i: int, j: int| 0 <= i < j < entries.len() ==> entries[i] < entries[j],
        0 <= n <= entries.len(),
        forall|i: int| 0 <= i < n ==> entries[i] < items.len(),
        forall|i: int| n <= i < entries.len() ==> entries[i] >= items.len(),
    ensures
        removal::without(items, entries).len() == items.len() - n,
    decreases items.len(),
{
    if items.len() > 0 {
        let last = items.len() - 1;
        if n > 0 && entries[n - 1] == last {
            assert(removal::listed(entries, last));
            lemma_without_len(items.drop_last(), entries, n - 1);
        } else {
            assert(!removal::listed(entries, last));
            assert forall|i: int| 0 <= i < n implies entries[i] < last by {
                assert(entries[i] <= entries[n - 1]);
            }
            lemma_without_len(items.drop_last(), entries, n);
        }
    } else if n > 0 {
        assert(entries[0] < items.len());
    }
}

proof fn lemma_without_item<T>(items: Seq<T>, entries: Seq<usize>, p: int, k: int)
    requires
        forall|i: int, j: int| 0 <= i < j < entries.len() ==> entries[i] < entries[j],
        0 <= p < items.len(),
        0 <= k <= entries.len(),
        forall|i: int| 0 <= i < k ==> entries[i] < p,
        forall|i: int| k <= i < entries.len() ==> entries[i] > p,
    ensures
        0 <= p - k < removal::without(items, entries).len(),
        removal::without(items, entries)[p - k] == items[p],
    decreases items.len(),
{
    let before = items.drop_last();
    if p == items.len() - 1 {
        assert(!removal::listed(entries, p));
        lemma_without_len(before, entries, k);
    } else {
        lemma_without_item(before, entries, p, k);
    }
}

// ---- Views ----

/// What is known of a title is all that its record holds, package by package.
pub proof fn law_view_of_a_title(update: UpdateInfo)
    ensures
        update@.title_id == update.title_id@,
        update@.titles.len() == update.titles@.len(),
        forall|i: int|
            0 <= i < update.titles@.len() ==> #[trigger] update@.titles[i] == update.titles@[i]@,
        update@.packages.len() == update.packages@.len(),
        forall|i: int|
            0 <= i < update.packages@.len() ==> {
                let pkg = #[trigger] update@.packages[i];
                &&& pkg.url == update.packages@[i].url@
                &&& pkg.version == update.packages@[i].version@
                &&& pkg.size == update.packages@[i].size
                &&& pkg.sha1sum == update.packages@[i].sha1sum@
            },
{
}

/// What is known of a package, a job, a download and its state is all that the records hold.
pub proof fn law_view_of_a_download<H>(
    pkg: PackageInfo,
    job: DownloadJob,
    download: ActiveDownload<H>,
)
    ensures
        pkg@.url == pkg.url@,
        pkg@.version == pkg.version@,
        pkg@.size == pkg.size,
        pkg@.sha1sum == pkg.sha1sum@,
        job@.title_id == job.title_id@,
        job@.pkg == job.pkg@,
        job@.download_path == job.download_path,
        download@.id == download.id@,
        download@.version == download.version@,
        download@.size == download.size,
        download@.progress == download.progress,
        download@.last_received_status == download.last_received_status,
        download@.task == download.task,
{
}

/// What is known of the application is all that it holds, item by item.
pub proof fn law_view_of_the_application<H>(app: UpdatesApp<H>)
    ensures
        app@.settings.pkg_download_path == app.settings.pkg_download_path,
        app@.settings.show_toasts == app.settings.show_toasts,
        app@.settings.show_notifications == app.settings.show_notifications,
        app@.v.toasts == toast::toasts_held(app.v.toasts),
        app@.v.toast_layout == toast::toasts_layout(app.v.toasts),
        app@.v.clipboard_available == app.v.clipboard_available,
        app@.v.serial_query == app.v.serial_query@,
        app@.v.update_results.len() == app.v.update_results@.len(),
        forall|i: int|
            0 <= i < app.v.update_results@.len() ==> #[trigger] app@.v.update_results[i]
                == app.v.update_results@[i]@,
        app@.v.show_settings_window == app.v.show_settings_window,
        app@.v.settings_dirty == app.v.settings_dirty,
        app@.v.modified_settings.pkg_download_path == app.v.modified_settings.pkg_download_path,
        app@.v.modified_settings.show_toasts == app.v.modified_settings.show_toasts,
        app@.v.modified_settings.show_notifications == app.v.modified_settings.show_notifications,
        app@.v.download_queue.len() == app.v.download_queue@.len(),
        forall|i: int|
            0 <= i < app.v.download_queue@.len() ==> #[trigger] app@.v.download_queue[i]
                == app.v.download_queue@[i]@,
        app@.v.failed_downloads.len() == app.v.failed_downloads@.len(),
        forall|i: int|
            0 <= i < app.v.failed_downloads@.len() ==> #[trigger] app@.v.failed_downloads[i] == (
                app.v.failed_downloads@[i].0@,
                app.v.failed_downloads@[i].1@,
            ),
        app@.v.completed_downloads.len() == app.v.completed_downloads@.len(),
        forall|i: int|
            0 <= i < app.v.completed_downloads@.len() ==> #[trigger] app@.v.completed_downloads[i]
                == (app.v.completed_downloads@[i].0@, app.v.completed_downloads@[i].1@),
        app@.v.pending_search == app.v.pending_search,
        app@.v.last_search == app.v.last_search,
{
}

/// What is known of a list handed in or out is what is known of its items, in order.
pub proof fn law_views_of_lists<H>(
    jobs: Seq<DownloadJob>,
    started: Seq<ActiveDownload<H>>,
    clicks: Seq<EntryClicks>,
    notes: Seq<Note>,
    list: Seq<SystemNotification>,
    pairs: Seq<(String, String)>,
)
    ensures
        download::job_views(jobs).len() == jobs.len(),
        forall|i: int|
            0 <= i < jobs.len() ==> #[trigger] download::job_views(jobs)[i] == jobs[i]@,
        download::download_views(started).len() == started.len(),
        forall|i: int|
            0 <= i < started.len() ==> #[trigger] download::download_views(started)[i]
                == started[i]@,
        results::clicks_views(clicks).len() == clicks.len(),
        forall|i: int|
            0 <= i < clicks.len() ==> {
                let entry = #[trigger] results::clicks_views(clicks)[i];
                &&& entry.download_all == clicks[i].download_all
                &&& entry.download_file == clicks[i].download_file@
            },
        toast::note_views(notes).len() == notes.len(),
        forall|i: int|
            0 <= i < notes.len() ==> {
                let note = #[trigger] toast::note_views(notes)[i];
                &&& note.text == notes[i].text@
                &&& note.level == notes[i].level
            },
        update::notification_views(list).len() == list.len(),
        forall|i: int|
            0 <= i < list.len() ==> {
                let notification = #[trigger] update::notification_views(list)[i];
                &&& notification.summary == list[i].summary@
                &&& notification.body == list[i].body@
            },
        download::releases(pairs).len() == pairs.len(),
        forall|i: int|
            0 <= i < pairs.len() ==> #[trigger] download::releases(pairs)[i] == (
                pairs[i].0@,
                pairs[i].1@,
            ),
{
}

/// What is known of an event, a lookup, an answer, stored settings or a notification is all
/// that it holds, and of one that is missing that it is.
pub proof fn law_views_of_what_is_handed_over(
    event: SearchBarEvent,
    error: UpdateError,
    job: Option<LookupJob>,
    answer: Option<LookupAnswer>,
    stored: Option<AppSettings>,
    notification: Option<SystemNotification>,
    clicks: EntryClicks,
)
    ensures
        event@ == (match event {
            SearchBarEvent::QueryEdited(s) => SearchBarEventView::QueryEdited(s@),
            SearchBarEvent::Pasted(s) => SearchBarEventView::Pasted(s@),
            SearchBarEvent::QueryCleared => SearchBarEventView::QueryCleared,
            SearchBarEvent::SearchRequested { submitted } => SearchBarEventView::SearchRequested {
                submitted,
            },
            SearchBarEvent::ResultsCleared => SearchBarEventView::ResultsCleared,
            SearchBarEvent::SettingsOpened => SearchBarEventView::SettingsOpened,
        }),
        error@ == (match error {
            UpdateError::InvalidSerial => UpdateErrorView::InvalidSerial,
            UpdateError::NoUpdatesAvailable => UpdateErrorView::NoUpdatesAvailable,
            UpdateError::Reqwest(e) => UpdateErrorView::Reqwest(e@),
            UpdateError::XmlParsing(e) => UpdateErrorView::XmlParsing(e@),
        }),
        psn::lookup_job_view(job) is Some <==> job is Some,
        job is Some ==> {
            &&& psn::lookup_job_view(job)->0.number == job->0.number
            &&& psn::lookup_job_view(job)->0.serial == job->0.serial@
        },
        psn::answer_view(answer) is Some <==> answer is Some,
        answer is Some ==> {
            let seen = psn::answer_view(answer)->0;
            &&& seen.number == answer->0.number
            &&& answer->0.result matches Ok(found) ==> seen.result
                == Ok::<UpdateView, UpdateErrorView>(found@)
            &&& answer->0.result matches Err(e) ==> seen.result
                == Err::<UpdateView, UpdateErrorView>(e@)
        },
        state::stored_view(stored) is Some <==> stored is Some,
        stored is Some ==> {
            let seen = state::stored_view(stored)->0;
            &&& seen.pkg_download_path == stored->0.pkg_download_path
            &&& seen.show_toasts == stored->0.show_toasts
            &&& seen.show_notifications == stored->0.show_notifications
        },
        update::notification_view(notification) is Some <==> notification is Some,
        notification is Some ==> {
            let seen = update::notification_view(notification)->0;
            &&& seen.summary == notification->0.summary@
            &&& seen.body == notification->0.body@
        },
        clicks@.download_all == clicks.download_all,
        clicks@.download_file == clicks.download_file@,
{
}

// ---- Texts ----

/// The number that a row of decimal digits stands for.
pub open spec fn value_of(digits: Seq<char>) -> int
    decreases digits.len(),
{
    if digits.len() == 0 {
        0
    } else {
        10 * value_of(digits.drop_last()) + (digits.last() as int - '0' as int)
    }
}

/// A number is written in the ten digits, without leading zeros, so that it reads back.
pub proof fn law_numbers_read_back(n: nat)
    ensures
        value_of(text::decimal(n)) == n,
        text::decimal(n).len() > 0,
        n > 0 ==> text::decimal(n)[0] != '0',
        n == 0 ==> text::decimal(n) == seq!['0'],
        forall|i: int|
            0 <= i < text::decimal(n).len() ==> '0' as int <= (
            #[trigger] text::decimal(n)[i]) as int <= '9' as int,
    decreases n,
{
    reveal_with_fuel(value_of, 2);
    if n < 10 {
        assert(text::decimal(n).drop_last() =~= Seq::<char>::empty());
    } else {
        law_numbers_read_back(n / 10);
        assert(text::decimal(n).drop_last() =~= text::decimal(n / 10));
    }
}

/// The size of a list of packages is the sum of their sizes, however the list is cut in two.
pub proof fn law_sizes_add_up(packages: Seq<PackageView>, more: Seq<PackageView>, pkg: PackageView)
    ensures
        psn::total_size(Seq::empty()) == 0,
        psn::total_size(seq![pkg]) == pkg.size,
        psn::total_size(packages + more) == psn::total_size(packages) + psn::total_size(more),
        forall|i: int|
            0 <= i < packages.len() ==> (#[trigger] packages[i]).size <= psn::total_size(packages),
    decreases packages.len() + more.len(),
{
    reveal_with_fuel(psn::total_size, 2);
    assert(seq![pkg].drop_last() =~= Seq::<PackageView>::empty());
    if more.len() > 0 {
        law_sizes_add_up(packages, more.drop_last(), pkg);
        assert((packages + more).drop_last() =~= packages + more.drop_last());
    } else {
        assert(packages + more =~= packages);
        if packages.len() > 0 {
            law_sizes_add_up(packages.drop_last(), more, pkg);
            assert forall|i: int| 0 <= i < packages.len() implies (#[trigger] packages[i]).size
                <= psn::total_size(packages) by {
                if i < packages.len() - 1 {
                    assert(packages.drop_last()[i].size <= psn::total_size(packages.drop_last()));
                }
            }
        }
    }
}

/// The line above a title names its serial, its first name, how many packages it has and how
/// large they are; without a name it is the serial. Nothing else about the title counts.
pub proof fn law_header_line(update: UpdateView, other: UpdateView, size: Seq<char>)
    ensures
        update.titles.len() == 0 ==> text::header_line(update, size) == update.title_id,
        update.titles.len() > 0 ==> text::header_line(update, size) == update.title_id + " - "@
            + update.titles[0] + " ("@ + text::decimal(update.packages.len()) + " update(s) - "@
            + size + " total)"@,
        update.titles.len() > 0 && other.titles.len() > 0 && update.titles[0] == other.titles[0]
            && update.title_id == other.title_id && update.packages.len() == other.packages.len()
            ==> text::header_line(update, size) == text::header_line(other, size),
{
}

/// Each title has a key of its own, which is its serial behind a fixed word.
pub proof fn law_header_keys_differ(a: Seq<char>, b: Seq<char>)
    ensures
        text::header_key(a) == "pkg_header_"@ + a,
        text::header_key(a) == text::header_key(b) ==> a == b,
{
    if text::header_key(a) == text::header_key(b) {
        let n = "pkg_header_"@.len() as int;
        assert(text::header_key(a).skip(n) =~= a);
        assert(text::header_key(b).skip(n) =~= b);
    }
}

/// The lines of a package give its version, its size and its hash, each behind its label.
pub proof fn law_package_lines(lines: PackageLines, pkg: PackageView, size: Seq<char>)
    ensures
        text::describes(lines, pkg, size) <==> {
            &&& lines.version@ == "Package Version: "@ + pkg.version
            &&& lines.size@ == "Size: "@ + size
            &&& lines.sha1sum@ == "SHA-1 hashsum: "@ + pkg.sha1sum
        },
{
}

/// What the user is told of a failed lookup, error by error and with the reason that came.
pub proof fn law_lookup_failures(reason: Seq<char>)
    ensures
        text::lookup_failure(UpdateErrorView::InvalidSerial)
            == "The provided serial didn't give any results, double-check your input."@,
        text::lookup_failure(UpdateErrorView::NoUpdatesAvailable)
            == "The provided serial doesn't have any available updates."@,
        text::lookup_failure(UpdateErrorView::Reqwest(reason))
            == "There was an error completing the request ("@ + reason + ")."@,
        text::lookup_failure(UpdateErrorView::XmlParsing(reason))
            == "Error parsing response from Sony, try again later ("@ + reason + ")."@,
{
}

/// What the user is told of a download that ended names it and how it ended.
pub proof fn law_outcome_lines(id: Seq<char>, version: Seq<char>)
    ensures
        text::outcome_line(id, version, Ok(())) == id + " v"@ + version
            + " downloaded successfully!"@,
        text::outcome_line(id, version, Err(DownloadError::HashMismatch)) == "Failed to download "@
            + id + " v"@ + version + ": Hash mismatch."@,
        text::outcome_line(id, version, Err(DownloadError::Tokio)) == "Failed to download "@ + id
            + " v"@ + version + ". Check the log for details."@,
        text::outcome_line(id, version, Err(DownloadError::Reqwest)) == "Failed to download "@ + id
            + " v"@ + version + ". Check the log for details."@,
{
}

// ---- Start of a run ----

/// A run starts with the stored settings, or else with toasts on, notifications off and
/// `pkgs/` to download to, and otherwise with nothing at all.
pub proof fn law_start_of_a_run<H>(stored: Option<SettingsView>, clipboard_available: bool)
    ensures
        ({
            let app = AppView::<H>::opened(stored, clipboard_available);
            &&& stored is Some ==> app.settings == stored->0
            &&& stored is None ==> {
                &&& app.settings.pkg_download_path == paths::path_of("pkgs/"@)
                &&& app.settings.show_toasts
                &&& !app.settings.show_notifications
            }
            &&& app.v.modified_settings.pkg_download_path == paths::path_of("pkgs/"@)
            &&& app.v.modified_settings.show_toasts
            &&& !app.v.modified_settings.show_notifications
            &&& app.v.toasts.len() == 0
            &&& app.v.toast_layout.newest_first
            &&& app.v.toast_layout.corner is BottomRight
            &&& app.v.clipboard_available == clipboard_available
            &&& app.v.serial_query.len() == 0
            &&& app.v.update_results.len() == 0
            &&& !app.v.show_settings_window
            &&& !app.v.settings_dirty
            &&& app.v.download_queue.len() == 0
            &&& app.v.failed_downloads.len() == 0
            &&& app.v.completed_downloads.len() == 0
            &&& app.v.pending_search is None
            &&& app.v.last_search == 0
        }),
{
}

// ---- Settings window ----

/// An edit sets its own field of the window's settings to the value given, marks them as
/// changed, and touches nothing else.
pub proof fn law_edit_sets_its_own_field<H>(app: AppView<H>, path: PathBuf, show: bool)
    ensures
        ({
            let after = app.after_settings(SettingsEvent::FolderPicked(path));
            &&& after.v.modified_settings.pkg_download_path == path
            &&& after.v.modified_settings.show_toasts == app.v.modified_settings.show_toasts
            &&& after.v.modified_settings.show_notifications
                == app.v.modified_settings.show_notifications
            &&& is_only_edited(app, after)
        }),
        ({
            let after = app.after_settings(SettingsEvent::PathReset);
            &&& after.v.modified_settings.pkg_download_path == paths::path_of("/pkgs"@)
            &&& after.v.modified_settings.show_toasts == app.v.modified_settings.show_toasts
            &&& after.v.modified_settings.show_notifications
                == app.v.modified_settings.show_notifications
            &&& is_only_edited(app, after)
        }),
        ({
            let after = app.after_settings(SettingsEvent::ShowToasts(show));
            &&& after.v.modified_settings.pkg_download_path
                == app.v.modified_settings.pkg_download_path
            &&& after.v.modified_settings.show_toasts == show
            &&& after.v.modified_settings.show_notifications
                == app.v.modified_settings.show_notifications
            &&& is_only_edited(app, after)
        }),
        ({
            let after = app.after_settings(SettingsEvent::ShowNotifications(show));
            &&& after.v.modified_settings.pkg_download_path
                == app.v.modified_settings.pkg_download_path
            &&& after.v.modified_settings.show_toasts == app.v.modified_settings.show_toasts
            &&& after.v.modified_settings.show_notifications == show
            &&& is_only_edited(app, after)
        }),
{
}

/// Whether `after` differs from `app` in the window's settings alone, and has them marked as
/// changed.
pub open spec fn is_only_edited<H>(app: AppView<H>, after: AppView<H>) -> bool {
    &&& after.v.settings_dirty
    &&& after.settings == app.settings
    &&& after.v == (VolatileView {
        modified_settings: after.v.modified_settings,
        settings_dirty: true,
        ..app.v
    })
}

/// Of two edits of one field the later stands; edits of different fields do not disturb each
/// other.
pub proof fn law_later_edit_stands<H>(
    app: AppView<H>,
    path: PathBuf,
    other_path: PathBuf,
    a: bool,
    b: bool,
)
    ensures
        app.after_settings(SettingsEvent::FolderPicked(other_path)).after_settings(
            SettingsEvent::FolderPicked(path),
        ) == app.after_settings(SettingsEvent::FolderPicked(path)),
        app.after_settings(SettingsEvent::ShowToasts(b)).after_settings(
            SettingsEvent::ShowToasts(a),
        ) == app.after_settings(SettingsEvent::ShowToasts(a)),
        app.after_settings(SettingsEvent::ShowNotifications(b)).after_settings(
            SettingsEvent::ShowNotifications(a),
        ) == app.after_settings(SettingsEvent::ShowNotifications(a)),
        app.after_settings(SettingsEvent::ShowToasts(a)).after_settings(
            SettingsEvent::ShowNotifications(b),
        ) == app.after_settings(SettingsEvent::ShowNotifications(b)).after_settings(
            SettingsEvent::ShowToasts(a),
        ),
        app.after_settings(SettingsEvent::FolderPicked(path)).after_settings(
            SettingsEvent::ShowToasts(a),
        ) == app.after_settings(SettingsEvent::ShowToasts(a)).after_settings(
            SettingsEvent::FolderPicked(path),
        ),
        app.after_settings(SettingsEvent::FolderPicked(path)).after_settings(
            SettingsEvent::ShowNotifications(b),
        ) == app.after_settings(SettingsEvent::ShowNotifications(b)).after_settings(
            SettingsEvent::FolderPicked(path),
        ),
{
}

/// Whatever is set in the window is in force once it is saved.
pub proof fn law_what_is_set_and_saved_is_in_force<H>(
    app: AppView<H>,
    path: PathBuf,
    show_toasts: bool,
    show_notifications: bool,
)
    ensures
        app.after_settings(SettingsEvent::FolderPicked(path)).after_settings(
            SettingsEvent::ShowToasts(show_toasts),
        ).after_settings(SettingsEvent::ShowNotifications(show_notifications)).after_settings(
            SettingsEvent::Saved,
        ).settings == (SettingsView { pkg_download_path: path, show_toasts, show_notifications }),
{
}

/// Saving puts the window's settings in force, discarding puts those in force back into the
/// window where it holds changes, and restoring puts the first settings in both places. Each
/// shuts the window and clears the mark; closing shuts the window and no more.
pub proof fn law_leaving_the_settings<H>(app: AppView<H>)
    ensures
        ({
            let saved = app.after_settings(SettingsEvent::Saved);
            &&& saved.settings == app.v.modified_settings
            &&& saved.v == (VolatileView {
                settings_dirty: false,
                show_settings_window: false,
                ..app.v
            })
        }),
        ({
            let discarded = app.after_settings(SettingsEvent::Discarded);
            &&& discarded.settings == app.settings
            &&& app.v.settings_dirty ==> discarded.v == (VolatileView {
                modified_settings: app.settings,
                settings_dirty: false,
                show_settings_window: false,
                ..app.v
            })
            &&& !app.v.settings_dirty ==> discarded.v == app.v
        }),
        ({
            let restored = app.after_settings(SettingsEvent::DefaultsRestored);
            &&& restored.settings.pkg_download_path == paths::path_of("pkgs/"@)
            &&& restored.settings.show_toasts
            &&& !restored.settings.show_notifications
            &&& restored.v == (VolatileView {
                modified_settings: restored.settings,
                settings_dirty: false,
                show_settings_window: false,
                ..app.v
            })
        }),
        ({
            let closed = app.after_settings(SettingsEvent::Closed);
            &&& closed.settings == app.settings
            &&& closed.v == (VolatileView { show_settings_window: false, ..app.v })
        }),
{
}

// ---- Search bar ----

/// The events of the search bar that start no lookup change just the query, the results or
/// the settings window, and what a control without a clipboard reports changes nothing.
pub proof fn law_search_bar_without_a_lookup<H>(app: AppView<H>, typed: Seq<char>)
    ensures
        app.after_search_bar(SearchBarEventView::QueryEdited(typed)) == (AppView {
            v: VolatileView { serial_query: typed, ..app.v },
            ..app
        }),
        app.v.clipboard_available ==> app.after_search_bar(SearchBarEventView::Pasted(typed)) == (
        AppView {
            v: VolatileView { serial_query: app.v.serial_query + typed, ..app.v },
            ..app
        }),
        app.v.clipboard_available ==> app.after_search_bar(SearchBarEventView::QueryCleared) == (
        AppView { v: VolatileView { serial_query: Seq::empty(), ..app.v }, ..app }),
        !app.v.clipboard_available ==> {
            &&& app.after_search_bar(SearchBarEventView::Pasted(typed)) == app
            &&& app.after_search_bar(SearchBarEventView::QueryCleared) == app
        },
        app.after_search_bar(SearchBarEventView::ResultsCleared) == (AppView {
            v: VolatileView { update_results: Seq::empty(), ..app.v },
            ..app
        }),
        app.after_search_bar(SearchBarEventView::SettingsOpened) == (AppView {
            v: VolatileView {
                modified_settings: app.settings,
                show_settings_window: true,
                ..app.v
            },
            ..app
        }),
        app.lookup_started(SearchBarEventView::QueryEdited(typed)) is None,
        app.lookup_started(SearchBarEventView::Pasted(typed)) is None,
        app.lookup_started(SearchBarEventView::QueryCleared) is None,
        app.lookup_started(SearchBarEventView::ResultsCleared) is None,
        app.lookup_started(SearchBarEventView::SettingsOpened) is None,
{
    if app.v.clipboard_available && app.v.serial_query.len() == 0 {
        assert(app.v.serial_query =~= Seq::<char>::empty());
    }
}

/// A serial that any of the results has is not looked up, by Enter or by the button, and the
/// request changes nothing.
pub proof fn law_listed_serial_starts_no_lookup<H>(app: AppView<H>, submitted: bool, i: int)
    requires
        0 <= i < app.v.update_results.len(),
        app.v.update_results[i].title_id == app.v.serial_query,
    ensures
        app.already_searched(),
        app.lookup_started(SearchBarEventView::SearchRequested { submitted }) is None,
        app.after_search_bar(SearchBarEventView::SearchRequested { submitted }) == app,
{
}

/// A serial that none of the results has is looked up: by Enter always, and by the button
/// where something is typed and no lookup runs. The lookup has the serial as it was typed and
/// the number after that of the last, and is then the one waited for.
pub proof fn law_unlisted_serial_starts_a_lookup<H>(app: AppView<H>, submitted: bool)
    requires
        forall|i: int|
            0 <= i < app.v.update_results.len() ==> (#[trigger] app.v.update_results[i]).title_id
                != app.v.serial_query,
    ensures
        !app.already_searched(),
        ({
            let request = SearchBarEventView::SearchRequested { submitted };
            let after = app.after_search_bar(request);
            if submitted || (app.v.serial_query.len() > 0 && app.v.pending_search is None) {
                let job = app.lookup_started(request)->0;
                &&& app.lookup_started(request) is Some
                &&& job.serial == app.v.serial_query
                &&& app.v.last_search < u64::MAX ==> job.number == app.v.last_search + 1
                &&& app.v.last_search == u64::MAX ==> job.number == 0
                &&& after == (AppView {
                    v: VolatileView {
                        pending_search: Some(job.number),
                        last_search: job.number,
                        ..app.v
                    },
                    ..app
                })
            } else {
                &&& app.lookup_started(request) is None
                &&& after == app
            }
        }),
{
}

/// When the controls of the search bar can be clicked.
pub proof fn law_controls_of_the_search_bar<H>(app: AppView<H>)
    ensures
        app.can_search() <==> app.v.serial_query.len() > 0 && app.v.pending_search is None,
        app.can_clear_query() <==> app.v.clipboard_available && app.v.serial_query.len() > 0,
        app.can_clear_results() <==> app.v.update_results.len() != 0,
        app.after_search_bar(SearchBarEventView::ResultsCleared) == app
            <==> !app.can_clear_results(),
{
    let cleared = app.after_search_bar(SearchBarEventView::ResultsCleared);
    if !app.can_clear_results() {
        assert(app.v.update_results =~= cleared.v.update_results);
    }
}

/// The search button works just where a click on it has something looked up, unless the serial
/// is listed already.
pub proof fn law_search_button_works_when_enabled<H>(app: AppView<H>)
    requires
        forall|i: int|
            0 <= i < app.v.update_results.len() ==> (#[trigger] app.v.update_results[i]).title_id
                != app.v.serial_query,
    ensures
        app.can_search() <==> app.lookup_started(
            SearchBarEventView::SearchRequested { submitted: false },
        ) is Some,
{
}

// ---- Results ----

/// Whether a download of this title and version is in the queue.
pub open spec fn is_under_way<H>(
    queue: Seq<DownloadView<H>>,
    title_id: Seq<char>,
    version: Seq<char>,
) -> bool {
    exists|k: int|
        0 <= k < queue.len() && (#[trigger] queue[k]).id == title_id && queue[k].version
            == version
}

/// A release counts as queued where a download of both its title and its version is queued.
pub proof fn law_queued_means_title_and_version<H>(
    queue: Seq<DownloadView<H>>,
    title_id: Seq<char>,
    version: Seq<char>,
)
    ensures
        results::is_queued(queue, (title_id, version)) <==> is_under_way(queue, title_id, version),
{
    if results::is_queued(queue, (title_id, version)) {
        let k = choose|k: int|
            0 <= k < queue.len() && (#[trigger] queue[k]).release() == (title_id, version);
        assert(queue[k].id == title_id);
    }
    if is_under_way(queue, title_id, version) {
        let k = choose|k: int|
            0 <= k < queue.len() && (#[trigger] queue[k]).id == title_id && queue[k].version
                == version;
        assert(queue[k].release() == (title_id, version));
    }
}

/// A job is for the title and the package given, and goes to where the settings in force say.
pub proof fn law_job_is_for_its_package<H>(app: AppView<H>, title_id: Seq<char>, pkg: PackageView)
    ensures
        app.job(title_id, pkg).title_id == title_id,
        app.job(title_id, pkg).pkg == pkg,
        app.job(title_id, pkg).download_path == app.settings.pkg_download_path,
{
}

/// A download starts with nothing there, under the title and version of its job, and with the
/// size that the package has.
pub proof fn law_download_starts_empty<H>(job: JobView, task: H)
    ensures
        DownloadView::started(job, task).id == job.title_id,
        DownloadView::started(job, task).version == job.pkg.version,
        DownloadView::started(job, task).size == job.pkg.size,
        DownloadView::started(job, task).progress == 0,
        DownloadView::started(job, task).last_received_status is Verifying,
        DownloadView::started(job, task).task == task,
{
}

/// Downloads that were started go to the end of the queue, in order, and touch nothing else.
pub proof fn law_started_downloads_go_last<H>(app: AppView<H>, started: Seq<DownloadView<H>>)
    ensures
        ({
            let after = app.with_downloads(started);
            &&& after.v.download_queue.len() == app.v.download_queue.len() + started.len()
            &&& forall|i: int|
                0 <= i < app.v.download_queue.len() ==> #[trigger] after.v.download_queue[i]
                    == app.v.download_queue[i]
            &&& forall|i: int|
                0 <= i < started.len() ==> after.v.download_queue[app.v.download_queue.len() + i]
                    == #[trigger] started[i]
            &&& after.settings == app.settings
            &&& after.v == (VolatileView { download_queue: after.v.download_queue, ..app.v })
        }),
{
}

/// Whether the package at a position is asked for, by `all` or by its mark, and not under way.
pub open spec fn to_start<H>(
    queue: Seq<DownloadView<H>>,
    update: UpdateView,
    all: bool,
    marks: Seq<bool>,
) -> spec_fn(int) -> bool {
    |j: int|
        (all || (j < marks.len() && marks[j])) && !is_under_way(
            queue,
            update.title_id,
            update.packages[j].version,
        )
}

/// The job for the package at a position.
pub open spec fn job_at(update: UpdateView, download_path: PathBuf) -> spec_fn(int) -> JobView {
    |j: int| JobView { title_id: update.title_id, pkg: update.packages[j], download_path }
}

proof fn lemma_jobs_for_are_picked<H>(
    app: AppView<H>,
    update: UpdateView,
    all: bool,
    marks: Seq<bool>,
    n: nat,
)
    requires
        n <= update.packages.len(),
    ensures
        app.jobs_for(update.title_id, update.packages.take(n as int), all, marks) == picked(
            n,
            to_start(app.v.download_queue, update, all, marks),
            job_at(update, app.settings.pkg_download_path),
        ),
    decreases n,
{
    let keep = to_start(app.v.download_queue, update, all, marks);
    let make = job_at(update, app.settings.pkg_download_path);
    if n == 0 {
        lemma_picked_none(keep, make);
    } else {
        let m = (n - 1) as nat;
        let packages = update.packages.take(n as int);
        lemma_jobs_for_are_picked(app, update, all, marks, m);
        lemma_picked_next(m, keep, make);
        assert(packages.drop_last() =~= update.packages.take(m as int));
        law_queued_means_title_and_version(
            app.v.download_queue,
            update.title_id,
            update.packages[m as int].version,
        );
        assert(packages[m as int] == update.packages[m as int]);
    }
}

/// The clicks in an entry start, in the order of the packages, first all that are not under
/// way where all are asked for, then those that were clicked one by one and are not under way.
pub proof fn law_entry_starts_what_is_asked_for<H>(
    app: AppView<H>,
    update: UpdateView,
    clicks: EntryClicksView,
)
    ensures
        ({
            let n = update.packages.len();
            let queue = app.v.download_queue;
            let make = job_at(update, app.settings.pkg_download_path);
            let all = if clicks.download_all {
                picked(n, to_start(queue, update, true, Seq::empty()), make)
            } else {
                Seq::empty()
            };
            app.entry_jobs(update, clicks) == all + picked(
                n,
                to_start(queue, update, false, clicks.download_file),
                make,
            )
        }),
{
    let n = update.packages.len();
    assert(update.packages.take(n as int) =~= update.packages);
    lemma_jobs_for_are_picked(app, update, true, Seq::empty(), n);
    lemma_jobs_for_are_picked(app, update, false, clicks.download_file, n);
}

/// The jobs of each of the first `n` entries.
pub open spec fn jobs_by_entry<H>(
    app: AppView<H>,
    updates: Seq<UpdateView>,
    clicks: Seq<EntryClicksView>,
    n: nat,
) -> Seq<Seq<JobView>> {
    Seq::new(n, |i: int| app.entry_jobs(updates[i], clicks[i]))
}

proof fn lemma_list_jobs_join<H>(
    app: AppView<H>,
    updates: Seq<UpdateView>,
    clicks: Seq<EntryClicksView>,
    n: nat,
)
    requires
        n <= updates.len(),
    ensures
        app.list_jobs(updates.take(n as int), clicks) == jobs_by_entry(
            app,
            updates,
            clicks,
            if n <= clicks.len() {
                n
            } else {
                clicks.len()
            },
        ).flatten_alt(),
    decreases n,
{
    let shown = updates.take(n as int);
    if n > 0 {
        let m = (n - 1) as nat;
        lemma_list_jobs_join(app, updates, clicks, m);
        assert(shown.drop_last() =~= updates.take(m as int));
        assert(shown[m as int] == updates[m as int]);
        if m < clicks.len() {
            let parts = jobs_by_entry(app, updates, clicks, n);
            assert(parts.drop_last() =~= jobs_by_entry(app, updates, clicks, m));
            assert(parts.last() == app.entry_jobs(updates[m as int], clicks[m as int]));
        }
    }
}

/// The clicks in the list start what each of its entries starts, entry after entry from the
/// first to the last.
pub proof fn law_list_starts_what_its_entries_start<H>(
    app: AppView<H>,
    updates: Seq<UpdateView>,
    clicks: Seq<EntryClicksView>,
)
    ensures
        app.list_jobs(updates, clicks) == jobs_by_entry(
            app,
            updates,
            clicks,
            if updates.len() <= clicks.len() {
                updates.len()
            } else {
                clicks.len()
            },
        ).flatten(),
{
    let n = updates.len();
    let m = if n <= clicks.len() {
        n
    } else {
        clicks.len()
    };
    assert(updates.take(n as int) =~= updates);
    lemma_list_jobs_join(app, updates, clicks, n);
    jobs_by_entry(app, updates, clicks, m).lemma_flatten_and_flatten_alt_are_equivalent();
}

proof fn lemma_entry_is_in_the_list<H>(
    app: AppView<H>,
    updates: Seq<UpdateView>,
    clicks: Seq<EntryClicksView>,
    i: int,
    job: JobView,
)
    requires
        0 <= i < updates.len(),
        i < clicks.len(),
        app.entry_jobs(updates[i], clicks[i]).contains(job),
    ensures
        app.list_jobs(updates, clicks).contains(job),
    decreases updates.len(),
{
    let before = updates.drop_last();
    let jobs = app.list_jobs(updates, clicks);
    let earlier = app.list_jobs(before, clicks);
    if i == updates.len() - 1 {
        let entry = app.entry_jobs(updates[i], clicks[i]);
        let k = choose|k: int| 0 <= k < entry.len() && entry[k] == job;
        assert(jobs[earlier.len() + k] == job);
    } else {
        assert(before[i] == updates[i]);
        lemma_entry_is_in_the_list(app, before, clicks, i, job);
        let k = choose|k: int| 0 <= k < earlier.len() && earlier[k] == job;
        assert(jobs[k] == job);
    }
}

/// Whatever an entry of the list starts, the list starts.
pub proof fn law_every_entry_counts<H>(
    app: AppView<H>,
    updates: Seq<UpdateView>,
    clicks: Seq<EntryClicksView>,
    i: int,
)
    requires
        0 <= i < updates.len(),
        i < clicks.len(),
    ensures
        forall|job: JobView|
            app.entry_jobs(updates[i], clicks[i]).contains(job) ==> #[trigger] app.list_jobs(
                updates,
                clicks,
            ).contains(job),
{
    assert forall|job: JobView|
        app.entry_jobs(updates[i], clicks[i]).contains(job) implies #[trigger] app.list_jobs(
        updates,
        clicks,
    ).contains(job) by {
        lemma_entry_is_in_the_list(app, updates, clicks, i, job);
    }
}

/// Wherever in the list a package is asked for, by its title or by itself, and is not under
/// way, it is started, for its title and to where the settings say.
pub proof fn law_every_package_of_the_list_starts<H>(
    app: AppView<H>,
    updates: Seq<UpdateView>,
    clicks: Seq<EntryClicksView>,
    i: int,
    j: int,
)
    requires
        0 <= i < updates.len(),
        i < clicks.len(),
        0 <= j < updates[i].packages.len(),
        clicks[i].download_all || (j < clicks[i].download_file.len()
            && clicks[i].download_file[j]),
        !is_under_way(app.v.download_queue, updates[i].title_id, updates[i].packages[j].version),
    ensures
        app.list_jobs(updates, clicks).contains(
            JobView {
                title_id: updates[i].title_id,
                pkg: updates[i].packages[j],
                download_path: app.settings.pkg_download_path,
            },
        ),
{
    law_queued_means_title_and_version(
        app.v.download_queue,
        updates[i].title_id,
        updates[i].packages[j].version,
    );
    laws::law_every_package_asked_for_starts(app, updates[i], clicks[i], j);
    lemma_entry_is_in_the_list(
        app,
        updates,
        clicks,
        i,
        app.job(updates[i].title_id, updates[i].packages[j]),
    );
}

/// Whether a job is for the package at a place in the list, asked for there, not under way,
/// and going to where the settings say.
pub open spec fn is_asked_for_at<H>(
    app: AppView<H>,
    updates: Seq<UpdateView>,
    clicks: Seq<EntryClicksView>,
    job: JobView,
    i: int,
    j: int,
) -> bool {
    &&& 0 <= i < updates.len()
    &&& i < clicks.len()
    &&& 0 <= j < updates[i].packages.len()
    &&& clicks[i].download_all || (j < clicks[i].download_file.len() && clicks[i].download_file[j])
    &&& job.title_id == updates[i].title_id
    &&& job.pkg == updates[i].packages[j]
    &&& job.download_path == app.settings.pkg_download_path
    &&& !is_under_way(app.v.download_queue, job.title_id, job.pkg.version)
}

proof fn lemma_picked_source<A>(
    n: nat,
    keep: spec_fn(int) -> bool,
    make: spec_fn(int) -> A,
    k: int,
) -> (j: int)
    requires
        0 <= k < picked(n, keep, make).len(),
    ensures
        0 <= j < n,
        keep(j),
        picked(n, keep, make)[k] == make(j),
    decreases n,
{
    if n == 0 {
        lemma_picked_none(keep, make);
        0
    } else {
        let m = (n - 1) as nat;
        lemma_picked_next(m, keep, make);
        if k < picked(m, keep, make).len() {
            lemma_picked_source(m, keep, make, k)
        } else {
            m as int
        }
    }
}

/// The list starts nothing but what is asked for somewhere in it.
pub proof fn law_nothing_else_starts<H>(
    app: AppView<H>,
    updates: Seq<UpdateView>,
    clicks: Seq<EntryClicksView>,
    k: int,
)
    requires
        0 <= k < app.list_jobs(updates, clicks).len(),
    ensures
        exists|i: int, j: int|
            is_asked_for_at(app, updates, clicks, app.list_jobs(updates, clicks)[k], i, j),
    decreases updates.len(),
{
    let job = app.list_jobs(updates, clicks)[k];
    let before = updates.drop_last();
    let earlier = app.list_jobs(before, clicks);
    if k < earlier.len() {
        law_nothing_else_starts(app, before, clicks, k);
        let (i, j) = choose|i: int, j: int|
            is_asked_for_at(app, before, clicks, earlier[k], i, j);
        assert(before[i] == updates[i]);
        assert(is_asked_for_at(app, updates, clicks, job, i, j));
    } else {
        let i = updates.len() - 1;
        let update = updates[i];
        let n = update.packages.len();
        let queue = app.v.download_queue;
        let make = job_at(update, app.settings.pkg_download_path);
        let every = to_start(queue, update, true, Seq::empty());
        let marked = to_start(queue, update, false, clicks[i].download_file);
        law_entry_starts_what_is_asked_for(app, update, clicks[i]);
        let p = k - earlier.len();
        let all_len = if clicks[i].download_all {
            picked(n, every, make).len() as int
        } else {
            0
        };
        assert(job == app.entry_jobs(update, clicks[i])[p]);
        let j = if p < all_len {
            lemma_picked_source(n, every, make, p)
        } else {
            lemma_picked_source(n, marked, make, p - all_len)
        };
        assert(is_asked_for_at(app, updates, clicks, job, i, j));
    }
}

proof fn lemma_first_queued_is<H>(queue: Seq<DownloadView<H>>, release: Release, i: int)
    requires
        0 <= i < queue.len(),
        queue[i].release() == release,
        forall|k: int| 0 <= k < i ==> (#[trigger] queue[k]).release() != release,
    ensures
        results::first_queued(queue, release) == Some(queue[i]),
    decreases queue.len(),
{
    let before = queue.drop_last();
    if i == queue.len() - 1 {
        results::lemma_first_queued(before, release);
        assert forall|k: int| 0 <= k < before.len() implies (#[trigger] before[k]).release()
            != release by {
            assert(queue[k].release() != release);
        }
    } else {
        assert(before[i] == queue[i]);
        assert forall|k: int| 0 <= k < i implies (#[trigger] before[k]).release() != release by {
            assert(queue[k].release() != release);
        }
        lemma_first_queued_is(before, release, i);
    }
}

/// A package under way shows how far the first download of its title and version is.
pub proof fn law_package_under_way<H>(
    app: AppView<H>,
    title_id: Seq<char>,
    version: Seq<char>,
    i: int,
)
    requires
        0 <= i < app.v.download_queue.len(),
        app.v.download_queue[i].id == title_id,
        app.v.download_queue[i].version == version,
        forall|k: int|
            0 <= k < i ==> !((#[trigger] app.v.download_queue[k]).id == title_id
                && app.v.download_queue[k].version == version),
    ensures
        app.package_state((title_id, version)) == (PackageState::Downloading {
            progress: app.v.download_queue[i].progress,
            size: app.v.download_queue[i].size,
        }),
{
    lemma_first_queued_is(app.v.download_queue, (title_id, version), i);
}

/// A package that is not under way is completed where its very title and version were
/// completed, else failed where they failed, and else untouched.
pub proof fn law_package_not_under_way<H>(
    app: AppView<H>,
    title_id: Seq<char>,
    version: Seq<char>,
)
    requires
        !is_under_way(app.v.download_queue, title_id, version),
    ensures
        ({
            let state = app.package_state((title_id, version));
            let completed = exists|i: int|
                0 <= i < app.v.completed_downloads.len() && (
                #[trigger] app.v.completed_downloads[i]) == (title_id, version);
            let failed = exists|i: int|
                0 <= i < app.v.failed_downloads.len() && (#[trigger] app.v.failed_downloads[i])
                    == (title_id, version);
            &&& state is Completed <==> completed
            &&& state is Failed <==> failed && !completed
            &&& state is Untouched <==> !failed && !completed
        }),
{
    law_queued_means_title_and_version(app.v.download_queue, title_id, version);
    results::lemma_first_queued(app.v.download_queue, (title_id, version));
}

/// The button of a package can be clicked just where no download of its title and version is
/// under way, which is where the package does not show one. Then a click on it starts the
/// download, and else nothing of that title and version starts.
pub proof fn law_download_button_works_when_enabled<H>(
    app: AppView<H>,
    update: UpdateView,
    clicks: EntryClicksView,
    j: int,
)
    requires
        0 <= j < update.packages.len(),
        j < clicks.download_file.len(),
        clicks.download_file[j],
    ensures
        ({
            let pkg = update.packages[j];
            let release = (update.title_id, pkg.version);
            let jobs = app.list_jobs(seq![update], seq![clicks]);
            &&& app.can_download(release) <==> !is_under_way(
                app.v.download_queue,
                update.title_id,
                pkg.version,
            )
            &&& app.can_download(release) <==> !(app.package_state(release) is Downloading)
            &&& app.can_download(release) ==> jobs.contains(
                JobView {
                    title_id: update.title_id,
                    pkg,
                    download_path: app.settings.pkg_download_path,
                },
            )
            &&& !app.can_download(release) ==> forall|k: int|
                0 <= k < jobs.len() ==> !((#[trigger] jobs[k]).title_id == update.title_id
                    && jobs[k].pkg.version == pkg.version)
        }),
{
    let pkg = update.packages[j];
    let release = (update.title_id, pkg.version);
    let updates = seq![update];
    let all_clicks = seq![clicks];
    law_queued_means_title_and_version(app.v.download_queue, update.title_id, pkg.version);
    results::lemma_first_queued(app.v.download_queue, release);
    laws::law_only_wanted_downloads_start(app, updates, all_clicks);
    assert(updates[0] == update && all_clicks[0] == clicks);
    if app.can_download(release) {
        law_every_package_of_the_list_starts(app, updates, all_clicks, 0, j);
    } else {
        let jobs = app.list_jobs(updates, all_clicks);
        assert forall|k: int| 0 <= k < jobs.len() implies !((#[trigger] jobs[k]).title_id
            == update.title_id && jobs[k].pkg.version == pkg.version) by {
            assert(laws::is_wanted(app, updates, jobs[k]));
        }
    }
}

// ---- Downloads ----

/// A download that reports bytes has exactly so many more, one that reports anything has it
/// as its last status, and one that reports nothing stays as it was.
pub proof fn law_report_counts_in_full<H>(download: DownloadView<H>, bytes: u64)
    requires
        download.progress + bytes <= u64::MAX,
    ensures
        download.advanced(Some(DownloadStatus::Progress(bytes))).progress == download.progress
            + bytes,
        download.advanced(Some(DownloadStatus::Progress(bytes))) == (DownloadView {
            progress: (download.progress + bytes) as u64,
            last_received_status: DownloadStatus::Progress(bytes),
            ..download
        }),
        download.advanced(Some(DownloadStatus::Verifying)) == (DownloadView {
            last_received_status: DownloadStatus::Verifying,
            ..download
        }),
        download.advanced(None) == download,
{
}

/// Polls can be taken in wherever there is one for each download and no progress leaves 64
/// bits.
pub proof fn law_polls_that_fit<H>(queue: Seq<DownloadView<H>>, polls: Seq<DownloadPoll>)
    ensures
        download::polls_fit(queue, polls) <==> {
            &&& polls.len() == queue.len()
            &&& forall|i: int|
                #![trigger polls[i]]
                0 <= i < queue.len() ==> match polls[i].status {
                    Some(DownloadStatus::Progress(bytes)) => queue[i].progress + bytes <= u64::MAX,
                    _ => true,
                }
        },
{
    let fits = {
        &&& polls.len() == queue.len()
        &&& forall|i: int|
            #![trigger polls[i]]
            0 <= i < queue.len() ==> match polls[i].status {
                Some(DownloadStatus::Progress(bytes)) => queue[i].progress + bytes <= u64::MAX,
                _ => true,
            }
    };
    if download::polls_fit(queue, polls) {
        assert forall|i: int| #![trigger polls[i]] 0 <= i < queue.len() implies match
            polls[i].status {
            Some(DownloadStatus::Progress(bytes)) => queue[i].progress + bytes <= u64::MAX,
            _ => true,
        } by {
            assert(queue[i].progress + download::received(polls[i].status) <= u64::MAX);
        }
    }
    if fits {
        assert forall|i: int| 0 <= i < queue.len() implies (#[trigger] queue[i]).progress
            + download::received(polls[i].status) <= u64::MAX by {
            let poll = polls[i];
        }
    }
}

/// Whether the download at a position has not ended.
pub open spec fn has_not_ended(polls: Seq<DownloadPoll>) -> spec_fn(int) -> bool {
    |i: int| polls[i].outcome is None
}

/// Whether the download at a position ended well.
pub open spec fn ended_well(polls: Seq<DownloadPoll>) -> spec_fn(int) -> bool {
    |i: int| polls[i].outcome is Some && polls[i].outcome->0 is Ok
}

/// Whether the download at a position ended badly.
pub open spec fn ended_badly(polls: Seq<DownloadPoll>) -> spec_fn(int) -> bool {
    |i: int| polls[i].outcome is Some && polls[i].outcome->0 is Err
}

/// Whether the download at a position ended.
pub open spec fn has_ended(polls: Seq<DownloadPoll>) -> spec_fn(int) -> bool {
    |i: int| polls[i].outcome is Some
}

/// The download at a position with what it reported.
pub open spec fn with_report<H>(
    queue: Seq<DownloadView<H>>,
    polls: Seq<DownloadPoll>,
) -> spec_fn(int) -> DownloadView<H> {
    |i: int|
        match polls[i].status {
            None => queue[i],
            Some(DownloadStatus::Progress(bytes)) => DownloadView {
                progress: (queue[i].progress + bytes) as u64,
                last_received_status: DownloadStatus::Progress(bytes),
                ..queue[i]
            },
            Some(DownloadStatus::Verifying) => DownloadView {
                last_received_status: DownloadStatus::Verifying,
                ..queue[i]
            },
        }
}

/// The title and the version of the download at a position.
pub open spec fn title_and_version<H>(queue: Seq<DownloadView<H>>) -> spec_fn(int) -> Release {
    |i: int| (queue[i].id, queue[i].version)
}

/// What the user is told of the download at a position, which ended.
pub open spec fn outcome_told<H>(
    queue: Seq<DownloadView<H>>,
    polls: Seq<DownloadPoll>,
) -> spec_fn(int) -> NoteView {
    |i: int|
        NoteView {
            text: text::outcome_line(queue[i].id, queue[i].version, polls[i].outcome->0),
            level: if polls[i].outcome->0 is Ok {
                ToastLevel::Success
            } else {
                ToastLevel::Error
            },
        }
}

proof fn lemma_polls_pick<H>(queue: Seq<DownloadView<H>>, polls: Seq<DownloadPoll>, n: nat)
    requires
        n <= queue.len(),
    ensures
        download::still_running(queue.take(n as int), polls) == picked(
            n,
            has_not_ended(polls),
            with_report(queue, polls),
        ),
        download::ended(queue.take(n as int), polls, true) == picked(
            n,
            ended_well(polls),
            title_and_version(queue),
        ),
        download::ended(queue.take(n as int), polls, false) == picked(
            n,
            ended_badly(polls),
            title_and_version(queue),
        ),
        download::outcome_notes(queue.take(n as int), polls) == picked(
            n,
            has_ended(polls),
            outcome_told(queue, polls),
        ),
    decreases n,
{
    if n == 0 {
        lemma_picked_none(has_not_ended(polls), with_report(queue, polls));
        lemma_picked_none(ended_well(polls), title_and_version(queue));
        lemma_picked_none(ended_badly(polls), title_and_version(queue));
        lemma_picked_none(has_ended(polls), outcome_told(queue, polls));
    } else {
        let m = (n - 1) as nat;
        let front = queue.take(n as int);
        lemma_polls_pick(queue, polls, m);
        lemma_picked_next(m, has_not_ended(polls), with_report(queue, polls));
        lemma_picked_next(m, ended_well(polls), title_and_version(queue));
        lemma_picked_next(m, ended_badly(polls), title_and_version(queue));
        lemma_picked_next(m, has_ended(polls), outcome_told(queue, polls));
        assert(front.drop_last() =~= queue.take(m as int));
        assert(front.last() == queue[m as int]);
    }
}

/// Polling leaves in the queue just the downloads that have not ended, in their order and with
/// what they reported; lists those that ended well and those that ended badly, in their order;
/// and tells the user of each that ended, in their order.
pub proof fn law_polls_sort_the_downloads<H>(queue: Seq<DownloadView<H>>, polls: Seq<DownloadPoll>)
    ensures
        download::still_running(queue, polls) == picked(
            queue.len(),
            has_not_ended(polls),
            with_report(queue, polls),
        ),
        download::ended(queue, polls, true) == picked(
            queue.len(),
            ended_well(polls),
            title_and_version(queue),
        ),
        download::ended(queue, polls, false) == picked(
            queue.len(),
            ended_badly(polls),
            title_and_version(queue),
        ),
        download::outcome_notes(queue, polls) == picked(
            queue.len(),
            has_ended(polls),
            outcome_told(queue, polls),
        ),
{
    assert(queue.take(queue.len() as int) =~= queue);
    lemma_polls_pick(queue, polls, queue.len());
}

// ---- Frames and messages ----

/// Whether an answer is to the lookup that is waited for.
pub open spec fn is_waited_for<H>(app: AppView<H>, answer: Option<LookupAnswerView>) -> bool {
    answer is Some && app.v.pending_search is Some && app.v.pending_search->0 == answer->0.number
}

proof fn lemma_frame_touches<H>(
    app: AppView<H>,
    answer: Option<LookupAnswerView>,
    polls: Seq<DownloadPoll>,
)
    ensures
        ({
            let polled = app.after_lookup(answer).after_polls(polls);
            app.after_frame(answer, polls) == (AppView {
                v: VolatileView { toasts: app.after_frame(answer, polls).v.toasts, ..polled.v },
                ..polled
            })
        }),
{
    lemma_toasts_after_notes(
        app.after_lookup(answer).after_polls(polls),
        app.frame_notes(answer, polls),
    );
}

/// A frame takes in the answer that is waited for: a title found goes to the end of the
/// results, and nothing is waited for any more. Any other answer, or none, leaves both alone.
pub proof fn law_frame_takes_the_answer<H>(
    app: AppView<H>,
    answer: Option<LookupAnswerView>,
    polls: Seq<DownloadPoll>,
)
    ensures
        ({
            let after = app.after_frame(answer, polls);
            if is_waited_for(app, answer) {
                &&& after.v.pending_search is None
                &&& answer->0.result matches Ok(found) ==> after.v.update_results
                    == app.v.update_results.push(found)
                &&& answer->0.result is Err ==> after.v.update_results == app.v.update_results
            } else {
                &&& after.v.pending_search == app.v.pending_search
                &&& after.v.update_results == app.v.update_results
            }
        }),
{
    lemma_frame_touches(app, answer, polls);
}

/// A frame leaves in the queue just the downloads that have not ended, with what they
/// reported, and adds the others to the completed or the failed, always in their order.
pub proof fn law_frame_sorts_the_downloads<H>(
    app: AppView<H>,
    answer: Option<LookupAnswerView>,
    polls: Seq<DownloadPoll>,
)
    ensures
        ({
            let after = app.after_frame(answer, polls);
            let queue = app.v.download_queue;
            let n = queue.len();
            &&& after.v.download_queue == picked(
                n,
                has_not_ended(polls),
                with_report(queue, polls),
            )
            &&& after.v.completed_downloads == app.v.completed_downloads + picked(
                n,
                ended_well(polls),
                title_and_version(queue),
            )
            &&& after.v.failed_downloads == app.v.failed_downloads + picked(
                n,
                ended_badly(polls),
                title_and_version(queue),
            )
        }),
{
    lemma_frame_touches(app, answer, polls);
    law_polls_sort_the_downloads(app.v.download_queue, polls);
}

/// A frame leaves alone the settings, what is typed, the settings window, the layout of the
/// toasts, and the count of lookups.
pub proof fn law_frame_leaves_the_rest<H>(
    app: AppView<H>,
    answer: Option<LookupAnswerView>,
    polls: Seq<DownloadPoll>,
)
    ensures
        ({
            let after = app.after_frame(answer, polls);
            &&& after.settings == app.settings
            &&& after.v.serial_query == app.v.serial_query
            &&& after.v.clipboard_available == app.v.clipboard_available
            &&& after.v.show_settings_window == app.v.show_settings_window
            &&& after.v.settings_dirty == app.v.settings_dirty
            &&& after.v.modified_settings == app.v.modified_settings
            &&& after.v.toast_layout == app.v.toast_layout
            &&& after.v.last_search == app.v.last_search
        }),
{
    lemma_frame_touches(app, answer, polls);
}

/// In a frame the user is told first of the lookup, if the one waited for failed, and then of
/// each download that ended, in the order of the queue.
pub proof fn law_frame_tells<H>(
    app: AppView<H>,
    answer: Option<LookupAnswerView>,
    polls: Seq<DownloadPoll>,
)
    ensures
        ({
            let notes = app.frame_notes(answer, polls);
            let queue = app.v.download_queue;
            let told = picked(queue.len(), has_ended(polls), outcome_told(queue, polls));
            if is_waited_for(app, answer) && answer->0.result is Err {
                &&& notes.len() == 1 + told.len()
                &&& notes[0].text == text::lookup_failure(answer->0.result->Err_0)
                &&& notes[0].level is Error
                &&& notes.skip(1) == told
            } else {
                notes == told
            }
        }),
{
    let notes = app.frame_notes(answer, polls);
    let queue = app.v.download_queue;
    law_polls_sort_the_downloads(queue, polls);
    let told = download::outcome_notes(queue, polls);
    if is_waited_for(app, answer) && answer->0.result is Err {
        assert(notes.skip(1) =~= told);
    } else {
        assert(notes =~= told);
    }
}

/// Whether a toast shows this note: its text at its level, for ten seconds, and closable.
pub open spec fn shows(shown: ToastView, note: NoteView) -> bool {
    &&& shown.text == note.text
    &&& shown.level == note.level
    &&& shown.seconds == 10
    &&& shown.closable
}

/// A message adds one toast, at the front of a stack set up newest first and else at its end,
/// where toasts are turned on, and touches nothing else.
pub proof fn law_message_adds_a_toast<H>(app: AppView<H>, note: NoteView)
    ensures
        ({
            let after = app.with_note(note);
            &&& after.settings == app.settings
            &&& after.v == (VolatileView { toasts: after.v.toasts, ..app.v })
            &&& !app.settings.show_toasts ==> after.v.toasts == app.v.toasts
            &&& app.settings.show_toasts ==> {
                &&& after.v.toasts.len() == app.v.toasts.len() + 1
                &&& app.v.toast_layout.newest_first ==> {
                    &&& shows(after.v.toasts[0], note)
                    &&& after.v.toasts.skip(1) == app.v.toasts
                }
                &&& !app.v.toast_layout.newest_first ==> {
                    &&& shows(after.v.toasts.last(), note)
                    &&& after.v.toasts.drop_last() == app.v.toasts
                }
            }
        }),
{
    let after = app.with_note(note);
    if app.settings.show_toasts {
        if app.v.toast_layout.newest_first {
            assert(after.v.toasts.skip(1) =~= app.v.toasts);
        } else {
            assert(after.v.toasts.drop_last() =~= app.v.toasts);
        }
    }
}

/// Whether the stack `after` is `before` with a toast for each note, the last note first in a
/// stack set up newest first, and else the last note last.
pub open spec fn shows_all(
    after: Seq<ToastView>,
    before: Seq<ToastView>,
    notes: Seq<NoteView>,
    newest_first: bool,
) -> bool {
    let n = notes.len() as int;
    &&& after.len() == before.len() + n
    &&& newest_first ==> {
        &&& forall|k: int|
            0 <= k < n ==> shows(after[n - 1 - k], #[trigger] notes[k])
        &&& forall|k: int| 0 <= k < before.len() ==> after[n + k] == #[trigger] before[k]
    }
    &&& !newest_first ==> {
        &&& forall|k: int| 0 <= k < before.len() ==> after[k] == #[trigger] before[k]
        &&& forall|k: int|
            0 <= k < n ==> shows(after[before.len() + k], #[trigger] notes[k])
    }
}

proof fn lemma_toasts_after_notes<H>(app: AppView<H>, notes: Seq<NoteView>)
    ensures
        ({
            let after = app.with_notes(notes);
            &&& after == (AppView {
                v: VolatileView { toasts: after.v.toasts, ..app.v },
                ..app
            })
            &&& !app.settings.show_toasts ==> after.v.toasts == app.v.toasts
            &&& app.settings.show_toasts ==> shows_all(
                after.v.toasts,
                app.v.toasts,
                notes,
                app.v.toast_layout.newest_first,
            )
        }),
    decreases notes.len(),
{
    if notes.len() > 0 {
        let front = notes.drop_last();
        let middle = app.with_notes(front);
        let after = app.with_notes(notes);
        let n = notes.len() as int;
        lemma_toasts_after_notes(app, front);
        law_message_adds_a_toast(middle, notes.last());
        if app.settings.show_toasts {
            let newest_first = app.v.toast_layout.newest_first;
            if newest_first {
                assert forall|k: int| 0 <= k < n implies shows(
                    after.v.toasts[n - 1 - k],
                    #[trigger] notes[k],
                ) by {
                    if k < n - 1 {
                        assert(front[k] == notes[k]);
                        assert(shows(middle.v.toasts[n - 2 - k], front[k]));
                        assert(after.v.toasts.skip(1)[n - 2 - k] == after.v.toasts[n - 1 - k]);
                    }
                }
                assert forall|k: int| 0 <= k < app.v.toasts.len() implies after.v.toasts[n + k]
                    == #[trigger] app.v.toasts[k] by {
                    assert(middle.v.toasts[n - 1 + k] == app.v.toasts[k]);
                    assert(after.v.toasts.skip(1)[n - 1 + k] == after.v.toasts[n + k]);
                }
            } else {
                let held = app.v.toasts.len() as int;
                assert forall|k: int| 0 <= k < held implies after.v.toasts[k]
                    == #[trigger] app.v.toasts[k] by {
                    assert(middle.v.toasts[k] == app.v.toasts[k]);
                    assert(after.v.toasts.drop_last()[k] == after.v.toasts[k]);
                }
                assert forall|k: int| 0 <= k < n implies shows(
                    after.v.toasts[held + k],
                    #[trigger] notes[k],
                ) by {
                    if k < n - 1 {
                        assert(front[k] == notes[k]);
                        assert(shows(middle.v.toasts[held + k], front[k]));
                        assert(after.v.toasts.drop_last()[held + k] == after.v.toasts[held + k]);
                    }
                }
            }
        }
    }
}

/// A frame adds a toast for each thing that the user is told, in order, where toasts are turned
/// on, and none where they are turned off.
pub proof fn law_frame_adds_its_toasts<H>(
    app: AppView<H>,
    answer: Option<LookupAnswerView>,
    polls: Seq<DownloadPoll>,
)
    ensures
        ({
            let after = app.after_frame(answer, polls);
            &&& !app.settings.show_toasts ==> after.v.toasts == app.v.toasts
            &&& app.settings.show_toasts ==> shows_all(
                after.v.toasts,
                app.v.toasts,
                app.frame_notes(answer, polls),
                app.v.toast_layout.newest_first,
            )
        }),
{
    lemma_toasts_after_notes(
        app.after_lookup(answer).after_polls(polls),
        app.frame_notes(answer, polls),
    );
}

/// Where notifications are turned on there is one for each thing that the user is told, in
/// order, with its text under the name of the application; where they are off there is none.
pub proof fn law_notifications_say_the_same(settings: SettingsView, notes: Seq<NoteView>)
    ensures
        !settings.show_notifications ==> settings.notifications(notes).len() == 0,
        settings.show_notifications ==> settings.notifications(notes).len() == notes.len(),
        settings.show_notifications ==> forall|i: int|
            0 <= i < notes.len() ==> {
                let shown = #[trigger] settings.notifications(notes)[i];
                &&& shown.summary == "rusty-psn"@
                &&& shown.body == notes[i].text
            },
        forall|i: int|
            0 <= i < notes.len() ==> (#[trigger] update::app_notification(notes[i].text)) == (
            NotificationView { summary: "rusty-psn"@, body: notes[i].text }),
{
}

} // verus!
