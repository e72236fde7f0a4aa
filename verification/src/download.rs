//! Downloads that are under way: how each is described, and what becomes of them as they are
//! polled.
use crate::psn::{DownloadError, DownloadStatus, PackageInfo, PackageView};
use crate::removal;
use crate::text;
use crate::toast;
use crate::toast::{Note, NoteView, ToastLevel};
use std::path::PathBuf;
use vstd::prelude::*;

verus! {

/// A download that is to be started.
#[derive(Debug)]
pub struct DownloadJob {
    /// The serial of the title that the package updates.
    pub title_id: String,
    pub pkg: PackageInfo,
    /// The directory that the package goes to.
    pub download_path: PathBuf,
}

pub struct JobView {
    pub title_id: Seq<char>,
    pub pkg: PackageView,
    pub download_path: PathBuf,
}

impl View for DownloadJob {
    type V = JobView;

    open spec fn view(&self) -> JobView {
        JobView {
            title_id: self.title_id@,
            pkg: self.pkg@,
            download_path: self.download_path,
        }
    }
}

/// What is known of each job of a list.
pub open spec fn job_views(jobs: Seq<DownloadJob>) -> Seq<JobView> {
    jobs.map_values(|job: DownloadJob| job@)
}

/// A download that has been started. `H` is what the caller reaches the transfer by; it is
/// kept beside the record and never looked at.
pub struct ActiveDownload<H> {
    pub id: String,
    pub version: String,
    /// The bytes that the package has.
    pub size: u64,
    /// The bytes that have arrived.
    pub progress: u64,
    pub last_received_status: DownloadStatus,
    pub task: H,
}

pub struct DownloadView<H> {
    pub id: Seq<char>,
    pub version: Seq<char>,
    pub size: u64,
    pub progress: u64,
    pub last_received_status: DownloadStatus,
    pub task: H,
}

impl<H> View for ActiveDownload<H> {
    type V = DownloadView<H>;

    open spec fn view(&self) -> DownloadView<H> {
        DownloadView {
            id: self.id@,
            version: self.version@,
            size: self.size,
            progress: self.progress,
            last_received_status: self.last_received_status,
            task: self.task,
        }
    }
}

/// What is known of each download of a list.
pub open spec fn download_views<H>(downloads: Seq<ActiveDownload<H>>) -> Seq<DownloadView<H>> {
    downloads.map_values(|d: ActiveDownload<H>| d@)
}

/// A title and the version of one of its packages.
pub type Release = (Seq<char>, Seq<char>);

/// What each pair of a list names.
pub open spec fn releases(pairs: Seq<(String, String)>) -> Seq<Release> {
    pairs.map_values(|pair: (String, String)| (pair.0@, pair.1@))
}

/// The bytes that a status adds to a download.
pub open spec fn received(status: Option<DownloadStatus>) -> nat {
    match status {
        Some(DownloadStatus::Progress(bytes)) => bytes as nat,
        _ => 0,
    }
}

impl<H> DownloadView<H> {
    /// A download of which nothing has arrived yet.
    pub open spec fn started(job: JobView, task: H) -> DownloadView<H> {
        DownloadView {
            id: job.title_id,
            version: job.pkg.version,
            size: job.pkg.size,
            progress: 0,
            last_received_status: DownloadStatus::Verifying,
            task,
        }
    }

    pub open spec fn release(self) -> Release {
        (self.id, self.version)
    }

    /// The download once it has reported `status`, if it reported anything.
    pub open spec fn advanced(self, status: Option<DownloadStatus>) -> DownloadView<H> {
        match status {
            None => self,
            Some(last_received_status) => DownloadView {
                progress: (self.progress + received(status)) as u64,
                last_received_status,
                ..self
            },
        }
    }
}

/// What a download had to say when it was polled: a status, if one had come, and how it
/// ended, if it has.
#[derive(Clone, Copy, Debug)]
pub struct DownloadPoll {
    pub status: Option<DownloadStatus>,
    pub outcome: Option<Result<(), DownloadError>>,
}

/// Whether each poll can be taken in: there is one for every download, and no count of bytes
/// leaves 64 bits.
pub open spec fn polls_fit<H>(queue: Seq<DownloadView<H>>, polls: Seq<DownloadPoll>) -> bool {
    &&& polls.len() == queue.len()
    &&& forall|i: int|
        0 <= i < queue.len() ==> (#[trigger] queue[i]).progress + received(polls[i].status)
            <= u64::MAX
}

/// The downloads that have not ended, in their order and with what they reported.
pub open spec fn still_running<H>(
    queue: Seq<DownloadView<H>>,
    polls: Seq<DownloadPoll>,
) -> Seq<DownloadView<H>>
    decreases queue.len(),
{
    if queue.len() == 0 {
        Seq::empty()
    } else {
        let before = still_running(queue.drop_last(), polls);
        let poll = polls[queue.len() - 1];
        if poll.outcome is None {
            before.push(queue.last().advanced(poll.status))
        } else {
            before
        }
    }
}

/// The downloads that ended well (`well`) or badly, in their order.
pub open spec fn ended<H>(
    queue: Seq<DownloadView<H>>,
    polls: Seq<DownloadPoll>,
    well: bool,
) -> Seq<Release>
    decreases queue.len(),
{
    if queue.len() == 0 {
        Seq::empty()
    } else {
        let before = ended(queue.drop_last(), polls, well);
        match polls[queue.len() - 1].outcome {
            Some(outcome) if outcome is Ok == well => before.push(queue.last().release()),
            _ => before,
        }
    }
}

/// What the user is told of a download that ended.
pub open spec fn outcome_note(release: Release, outcome: Result<(), DownloadError>) -> NoteView {
    NoteView {
        text: text::outcome_line(release.0, release.1, outcome),
        level: if outcome is Ok {
            ToastLevel::Success
        } else {
            ToastLevel::Error
        },
    }
}

/// What the user is told of the downloads that ended, in their order.
pub open spec fn outcome_notes<H>(
    queue: Seq<DownloadView<H>>,
    polls: Seq<DownloadPoll>,
) -> Seq<NoteView>
    decreases queue.len(),
{
    if queue.len() == 0 {
        Seq::empty()
    } else {
        let before = outcome_notes(queue.drop_last(), polls);
        match polls[queue.len() - 1].outcome {
            Some(outcome) => before.push(outcome_note(queue.last().release(), outcome)),
            None => before,
        }
    }
}

impl<H> ActiveDownload<H> {
    /// The record of a job that has just been started as `task`.
    pub fn new(job: DownloadJob, task: H) -> (download: ActiveDownload<H>)
        ensures
            download@ == DownloadView::started(job@, task),
    {
        ActiveDownload {
            id: job.title_id,
            version: job.pkg.version,
            size: job.pkg.size,
            progress: 0,
            last_received_status: DownloadStatus::Verifying,
            task,
        }
    }

    /// Takes in what the download reported.
    pub fn receive(&mut self, status: Option<DownloadStatus>)
        requires
            old(self).progress + received(status) <= u64::MAX,
        ensures
            final(self)@ == old(self)@.advanced(status),
            final(self).id == old(self).id,
            final(self).version == old(self).version,
    {
        if let Some(status) = status {
            if let DownloadStatus::Progress(progress) = status {
                self.progress = self.progress + progress;
            }
            self.last_received_status = status;
        }
    }
}

/// Keeping the unlisted of the advanced downloads is keeping those still running.
proof fn lemma_unlisted_are_running<H>(
    queue: Seq<DownloadView<H>>,
    advanced: Seq<ActiveDownload<H>>,
    polls: Seq<DownloadPoll>,
    entries: Seq<usize>,
)
    requires
        advanced.len() == queue.len(),
        forall|i: int|
            0 <= i < queue.len() ==> (#[trigger] advanced[i])@ == queue[i].advanced(
                polls[i].status,
            ),
        forall|i: int|
            0 <= i < queue.len() ==> #[trigger] removal::listed(entries, i) == (
            polls[i].outcome is Some),
    ensures
        download_views(removal::without(advanced, entries)) == still_running(queue, polls),
    decreases queue.len(),
{
    if queue.len() > 0 {
        let last = queue.len() - 1;
        assert forall|i: int| 0 <= i < last implies (#[trigger] advanced.drop_last()[i])@
            == queue.drop_last()[i].advanced(polls[i].status) by {
            assert(advanced[i]@ == queue[i].advanced(polls[i].status));
        }
        lemma_unlisted_are_running(queue.drop_last(), advanced.drop_last(), polls, entries);
        assert(removal::listed(entries, last) == (polls[last].outcome is Some));
        assert(advanced[last]@ == queue[last].advanced(polls[last].status));
    }
    assert(download_views(removal::without(advanced, entries)) =~= still_running(queue, polls));
}

/// Takes in one poll of every download of the queue. Those that ended leave it: each is added
/// to `completed` or to `failed`, and to `notes` what the user is told of it.
pub fn poll_downloads<H>(
    queue: &mut Vec<ActiveDownload<H>>,
    polls: &Vec<DownloadPoll>,
    completed: &mut Vec<(String, String)>,
    failed: &mut Vec<(String, String)>,
    notes: &mut Vec<Note>,
)
    requires
        polls_fit(download_views(old(queue)@), polls@),
    ensures
        download_views(final(queue)@) == still_running(download_views(old(queue)@), polls@),
        releases(final(completed)@) == releases(old(completed)@) + ended(
            download_views(old(queue)@),
            polls@,
            true,
        ),
        releases(final(failed)@) == releases(old(failed)@) + ended(
            download_views(old(queue)@),
            polls@,
            false,
        ),
        toast::note_views(final(notes)@) == toast::note_views(old(notes)@) + outcome_notes(
            download_views(old(queue)@),
            polls@,
        ),
{
    let ghost before = queue@;
    let ghost views = download_views(before);
    let ghost completed_before = releases(completed@);
    let ghost failed_before = releases(failed@);
    let ghost notes_before = toast::note_views(notes@);
    let mut entries_to_remove: Vec<usize> = Vec::new();
    let mut i: usize = 0;
    while i < queue.len()
        invariant
            i <= queue@.len(),
            queue@.len() == before.len(),
            views == download_views(before),
            polls_fit(views, polls@),
            forall|j: int|
                0 <= j < i ==> (#[trigger] queue@[j])@ == views[j].advanced(polls@[j].status),
            forall|j: int| i <= j < before.len() ==> #[trigger] queue@[j] == before[j],
            removal::positions(entries_to_remove@, i as int),
            forall|j: int|
                0 <= j < i ==> #[trigger] removal::listed(entries_to_remove@, j) == (
                polls@[j].outcome is Some),
            releases(completed@) == completed_before + ended(views.take(i as int), polls@, true),
            releases(failed@) == failed_before + ended(views.take(i as int), polls@, false),
            toast::note_views(notes@) == notes_before + outcome_notes(
                views.take(i as int),
                polls@,
            ),
        decreases queue@.len() - i,
    {
        let poll = polls[i];
        assert(queue@[i as int] == before[i as int]);
        assert(views[i as int].progress + received(poll.status) <= u64::MAX);
        queue[i].receive(poll.status);
        let ghost entries = entries_to_remove@;
        let ghost completed_so_far = completed@;
        let ghost failed_so_far = failed@;
        let ghost notes_so_far = notes@;
        if let Some(outcome) = poll.outcome {
            entries_to_remove.push(i);
            let release = (queue[i].id.clone(), queue[i].version.clone());
            let text = text::outcome_text(&release.0, &release.1, outcome);
            match outcome {
                Ok(_) => {
                    notes.push(Note { text, level: ToastLevel::Success });
                    completed.push(release);
                },
                Err(_) => {
                    failed.push(release);
                    notes.push(Note { text, level: ToastLevel::Error });
                },
            }
        }
        proof {
            let n = i as int;
            assert(views.take(n + 1).drop_last() =~= views.take(n));
            assert forall|j: int| 0 <= j < n + 1 implies #[trigger] removal::listed(
                entries_to_remove@,
                j,
            ) == (polls@[j].outcome is Some) by {
                if j < n {
                    assert(removal::listed(entries, j) == (polls@[j].outcome is Some));
                    if removal::listed(entries, j) {
                        let k = choose|k: int| 0 <= k < entries.len() && entries[k] == j;
                        assert(entries_to_remove@[k] == j);
                    }
                } else if poll.outcome is Some {
                    assert(entries_to_remove@[entries.len() as int] == j);
                }
            }
            let upto = views.take(n + 1);
            assert(upto.last() == views[n]);
            if let Some(outcome) = poll.outcome {
                assert(queue@[n]@.release() == views[n].release());
                if outcome is Ok {
                    assert(releases(completed@) =~= releases(completed_so_far).push(
                        views[n].release(),
                    ));
                } else {
                    assert(releases(failed@) =~= releases(failed_so_far).push(views[n].release()));
                }
                assert(toast::note_views(notes@) =~= toast::note_views(notes_so_far).push(
                    outcome_note(views[n].release(), outcome),
                ));
            }
            assert(releases(completed@) =~= completed_before + ended(upto, polls@, true));
            assert(releases(failed@) =~= failed_before + ended(views.take(n + 1), polls@, false));
            assert(toast::note_views(notes@) =~= notes_before + outcome_notes(
                views.take(n + 1),
                polls@,
            ));
        }
        i = i + 1;
    }
    assert(views.take(i as int) =~= views);
    proof {
        lemma_unlisted_are_running(views, queue@, polls@, entries_to_remove@);
    }
    removal::remove_entries(queue, &entries_to_remove);
}

} // verus!
