//! The list of titles found: which downloads a click asks for, and how each package stands.
use crate::download;
use crate::download::{ActiveDownload, DownloadJob, DownloadView, JobView, Release};
use crate::psn::{PackageInfo, PackageView, UpdateInfo, UpdateView};
use crate::state::{AppView, UpdatesApp, VolatileView};
use vstd::prelude::*;

verus! {

/// What was clicked in the entry of one title.
#[derive(Debug)]
pub struct EntryClicks {
    /// Whether `Download all` was clicked.
    pub download_all: bool,
    /// For each package in order whether its `Download file` was clicked. It is shorter than
    /// the packages, or empty, where not all of them were drawn.
    pub download_file: Vec<bool>,
}

pub struct EntryClicksView {
    pub download_all: bool,
    pub download_file: Seq<bool>,
}

impl View for EntryClicks {
    type V = EntryClicksView;

    open spec fn view(&self) -> EntryClicksView {
        EntryClicksView {
            download_all: self.download_all,
            download_file: self.download_file@,
        }
    }
}

/// What was clicked in each entry of a list.
pub open spec fn clicks_views(clicks: Seq<EntryClicks>) -> Seq<EntryClicksView> {
    clicks.map_values(|entry: EntryClicks| entry@)
}

/// How a package stands.
#[derive(Clone, Copy, Debug, PartialEq, Eq, Structural)]
pub enum PackageState {
    /// It is being downloaded: `progress` of `size` bytes are there.
    Downloading { progress: u64, size: u64 },
    Completed,
    Failed,
    /// Nothing is known of it.
    Untouched,
}

/// Whether a download of this release is in the queue.
pub open spec fn is_queued<H>(queue: Seq<DownloadView<H>>, release: Release) -> bool {
    exists|i: int| 0 <= i < queue.len() && (#[trigger] queue[i]).release() == release
}

/// The first download of this release in the queue.
pub open spec fn first_queued<H>(
    queue: Seq<DownloadView<H>>,
    release: Release,
) -> Option<DownloadView<H>>
    decreases queue.len(),
{
    if queue.len() == 0 {
        None
    } else {
        match first_queued(queue.drop_last(), release) {
            Some(download) => Some(download),
            None => if queue.last().release() == release {
                Some(queue.last())
            } else {
                None
            },
        }
    }
}

/// There is a first download of a release exactly where there is one.
pub proof fn lemma_first_queued<H>(queue: Seq<DownloadView<H>>, release: Release)
    ensures
        first_queued(queue, release) is Some <==> is_queued(queue, release),
        first_queued(queue, release) matches Some(d) ==> d.release() == release,
    decreases queue.len(),
{
    if queue.len() > 0 {
        let before = queue.drop_last();
        lemma_first_queued(before, release);
        if is_queued(before, release) {
            let i = choose|i: int|
                0 <= i < before.len() && (#[trigger] before[i]).release() == release;
            assert(queue[i].release() == release);
        }
        if is_queued(queue, release) {
            let i = choose|i: int|
                0 <= i < queue.len() && (#[trigger] queue[i]).release() == release;
            if i < before.len() {
                assert(before[i].release() == release);
            }
        }
    }
}

impl<H> AppView<H> {
    /// The job of downloading a package to where the settings say.
    pub open spec fn job(self, title_id: Seq<char>, pkg: PackageView) -> JobView {
        JobView { title_id, pkg, download_path: self.settings.pkg_download_path }
    }

    /// The jobs for those of a title's packages that are asked for (by `all`, or each by its
    /// mark) and are not being downloaded already.
    pub open spec fn jobs_for(
        self,
        title_id: Seq<char>,
        packages: Seq<PackageView>,
        all: bool,
        marks: Seq<bool>,
    ) -> Seq<JobView>
        decreases packages.len(),
    {
        if packages.len() == 0 {
            Seq::empty()
        } else {
            let before = self.jobs_for(title_id, packages.drop_last(), all, marks);
            let last = packages.len() - 1;
            let pkg = packages[last];
            if (all || (last < marks.len() && marks[last])) && !is_queued(
                self.v.download_queue,
                (title_id, pkg.version),
            ) {
                before.push(self.job(title_id, pkg))
            } else {
                before
            }
        }
    }

    /// The jobs that the clicks in a title's entry ask for: first those of `Download all`,
    /// then those of the single packages.
    pub open spec fn entry_jobs(self, update: UpdateView, clicks: EntryClicksView) -> Seq<JobView> {
        let all = if clicks.download_all {
            self.jobs_for(update.title_id, update.packages, true, Seq::empty())
        } else {
            Seq::empty()
        };
        all + self.jobs_for(update.title_id, update.packages, false, clicks.download_file)
    }

    /// The jobs that the clicks in the entries of `updates` ask for, entry by entry.
    pub open spec fn list_jobs(
        self,
        updates: Seq<UpdateView>,
        clicks: Seq<EntryClicksView>,
    ) -> Seq<JobView>
        decreases updates.len(),
    {
        if updates.len() == 0 {
            Seq::empty()
        } else {
            let before = self.list_jobs(updates.drop_last(), clicks);
            let last = updates.len() - 1;
            if last < clicks.len() {
                before + self.entry_jobs(updates[last], clicks[last])
            } else {
                before
            }
        }
    }

    pub open spec fn with_downloads(self, started: Seq<DownloadView<H>>) -> AppView<H> {
        AppView {
            v: VolatileView { download_queue: self.v.download_queue + started, ..self.v },
            ..self
        }
    }

    /// Whether the `Download file` of a release can be clicked.
    pub open spec fn can_download(self, release: Release) -> bool {
        !is_queued(self.v.download_queue, release)
    }

    /// How a release stands. One that is being downloaded shows its progress, whatever became
    /// of earlier tries; one that was completed once counts as completed.
    pub open spec fn package_state(self, release: Release) -> PackageState {
        match first_queued(self.v.download_queue, release) {
            Some(download) => PackageState::Downloading {
                progress: download.progress,
                size: download.size,
            },
            None => if self.v.completed_downloads.contains(release) {
                PackageState::Completed
            } else if self.v.failed_downloads.contains(release) {
                PackageState::Failed
            } else {
                PackageState::Untouched
            },
        }
    }
}

/// Whether a release is in a list.
fn has_release(pairs: &Vec<(String, String)>, title_id: &String, version: &String) -> (found: bool)
    ensures
        found == download::releases(pairs@).contains((title_id@, version@)),
{
    let mut i: usize = 0;
    while i < pairs.len()
        invariant
            i <= pairs.len(),
            forall|j: int|
                0 <= j < i ==> #[trigger] download::releases(pairs@)[j] != (title_id@, version@),
        decreases pairs.len() - i,
    {
        assert(download::releases(pairs@)[i as int] == (
            pairs@[i as int].0@,
            pairs@[i as int].1@,
        ));
        if pairs[i].0 == *title_id && pairs[i].1 == *version {
            return true;
        }
        i = i + 1;
    }
    false
}

impl<H> UpdatesApp<H> {
    /// The first download of a package in the queue.
    fn existing_download(&self, title_id: &String, version: &String) -> (found: Option<
        &ActiveDownload<H>,
    >)
        ensures
            first_queued(self@.v.download_queue, (title_id@, version@)) == (match found {
                Some(download) => Some(download@),
                None => None,
            }),
    {
        let ghost queue = self@.v.download_queue;
        let ghost release = (title_id@, version@);
        let mut i: usize = 0;
        while i < self.v.download_queue.len()
            invariant
                i <= self.v.download_queue.len(),
                queue == self@.v.download_queue,
                release == (title_id@, version@),
                first_queued(queue.take(i as int), release) is None,
            decreases self.v.download_queue.len() - i,
        {
            let download = &self.v.download_queue[i];
            assert(queue.take(i + 1).drop_last() =~= queue.take(i as int));
            assert(queue[i as int] == download@);
            if download.id == *title_id && download.version == *version {
                proof {
                    lemma_first_stays(queue, release, i + 1);
                }
                return Some(download);
            }
            i = i + 1;
        }
        assert(queue.take(i as int) =~= queue);
        None
    }

    /// The job of downloading a package of a title to where the settings say.
    pub fn start_download(&self, title_id: String, pkg: PackageInfo) -> (job: DownloadJob)
        ensures
            job@ == self@.job(title_id@, pkg@),
    {
        DownloadJob { title_id, pkg, download_path: self.settings.pkg_download_path.clone() }
    }

    /// The jobs for those of a title's packages that are asked for and not being downloaded.
    fn wanted_downloads(&self, update: &UpdateInfo, all: bool, marks: &Vec<bool>) -> (jobs: Vec<
        DownloadJob,
    >)
        ensures
            download::job_views(jobs@) == self@.jobs_for(
                update@.title_id,
                update@.packages,
                all,
                marks@,
            ),
    {
        let ghost packages = update@.packages;
        let mut jobs: Vec<DownloadJob> = Vec::new();
        let mut i: usize = 0;
        assert(download::job_views(jobs@) =~= Seq::<JobView>::empty());
        while i < update.packages.len()
            invariant
                i <= update.packages.len(),
                packages == update@.packages,
                download::job_views(jobs@) == self@.jobs_for(
                    update@.title_id,
                    packages.take(i as int),
                    all,
                    marks@,
                ),
            decreases update.packages.len() - i,
        {
            let pkg = &update.packages[i];
            let ghost jobs_so_far = jobs@;
            proof {
                assert(packages.take(i + 1).drop_last() =~= packages.take(i as int));
                assert(packages[i as int] == pkg@);
                lemma_first_queued(self@.v.download_queue, (update@.title_id, pkg@.version));
            }
            if (all || (i < marks.len() && marks[i])) && self.existing_download(
                &update.title_id,
                &pkg.version,
            ).is_none() {
                let job = self.start_download(update.title_id.clone(), pkg.clone());
                jobs.push(job);
                assert(download::job_views(jobs@) =~= download::job_views(jobs_so_far).push(job@));
            }
            i = i + 1;
        }
        assert(packages.take(i as int) =~= packages);
        jobs
    }

    /// The downloads that the clicks in the entry of a title ask for.
    pub fn entry_downloads(&self, update: &UpdateInfo, clicks: &EntryClicks) -> (jobs: Vec<
        DownloadJob,
    >)
        ensures
            download::job_views(jobs@) == self@.entry_jobs(update@, clicks@),
    {
        let mut jobs: Vec<DownloadJob> = Vec::new();
        assert(download::job_views(jobs@) =~= Seq::<JobView>::empty());
        if clicks.download_all {
            let none: Vec<bool> = Vec::new();
            jobs = self.wanted_downloads(update, true, &none);
        }
        let mut single = self.wanted_downloads(update, false, &clicks.download_file);
        let ghost all = jobs@;
        let ghost one_by_one = single@;
        jobs.append(&mut single);
        assert(download::job_views(jobs@) =~= download::job_views(all) + download::job_views(
            one_by_one,
        ));
        jobs
    }

    /// The downloads that the clicks in the list of titles ask for, given for each title in
    /// order.
    pub fn list_downloads(&self, clicks: &Vec<EntryClicks>) -> (jobs: Vec<DownloadJob>)
        ensures
            download::job_views(jobs@) == self@.list_jobs(
                self@.v.update_results,
                clicks_views(clicks@),
            ),
    {
        let ghost updates = self@.v.update_results;
        let ghost views = clicks_views(clicks@);
        let mut jobs: Vec<DownloadJob> = Vec::new();
        let mut i: usize = 0;
        assert(download::job_views(jobs@) =~= Seq::<JobView>::empty());
        while i < self.v.update_results.len()
            invariant
                i <= self.v.update_results.len(),
                updates == self@.v.update_results,
                views == clicks_views(clicks@),
                download::job_views(jobs@) == self@.list_jobs(updates.take(i as int), views),
            decreases self.v.update_results.len() - i,
        {
            assert(updates.take(i + 1).drop_last() =~= updates.take(i as int));
            assert(updates[i as int] == self.v.update_results@[i as int]@);
            if i < clicks.len() {
                let mut entry = self.entry_downloads(&self.v.update_results[i], &clicks[i]);
                let ghost jobs_so_far = jobs@;
                let ghost entry_jobs = entry@;
                jobs.append(&mut entry);
                assert(download::job_views(jobs@) =~= download::job_views(jobs_so_far)
                    + download::job_views(entry_jobs));
            }
            i = i + 1;
        }
        assert(updates.take(i as int) =~= updates);
        jobs
    }

    /// Puts downloads that have been started at the end of the queue.
    pub fn queue_downloads(&mut self, started: Vec<ActiveDownload<H>>)
        ensures
            final(self)@ == old(self)@.with_downloads(download::download_views(started@)),
    {
        let ghost before = self@;
        let mut started = started;
        let ghost new_downloads = download::download_views(started@);
        self.v.download_queue.append(&mut started);
        assert(self@.v.download_queue =~= before.v.download_queue + new_downloads);
    }

    /// How a package of a title stands.
    pub fn package_state(&self, title_id: &String, pkg: &PackageInfo) -> (state: PackageState)
        ensures
            state == self@.package_state((title_id@, pkg@.version)),
    {
        if let Some(download) = self.existing_download(title_id, &pkg.version) {
            PackageState::Downloading { progress: download.progress, size: download.size }
        } else if has_release(&self.v.completed_downloads, title_id, &pkg.version) {
            PackageState::Completed
        } else if has_release(&self.v.failed_downloads, title_id, &pkg.version) {
            PackageState::Failed
        } else {
            PackageState::Untouched
        }
    }

    /// Whether the `Download file` of a package can be clicked.
    pub fn can_download(&self, title_id: &String, pkg: &PackageInfo) -> (can: bool)
        ensures
            can == !is_queued(self@.v.download_queue, (title_id@, pkg@.version)),
            can == self@.can_download((title_id@, pkg@.version)),
    {
        proof {
            lemma_first_queued(self@.v.download_queue, (title_id@, pkg@.version));
        }
        self.existing_download(title_id, &pkg.version).is_none()
    }
}

/// A first download found in the front part of the queue is the first of the whole.
proof fn lemma_first_stays<H>(queue: Seq<DownloadView<H>>, release: Release, n: int)
    requires
        0 <= n <= queue.len(),
        first_queued(queue.take(n), release) is Some,
    ensures
        first_queued(queue, release) == first_queued(queue.take(n), release),
    decreases queue.len(),
{
    if n < queue.len() {
        assert(queue.drop_last().take(n) =~= queue.take(n));
        lemma_first_stays(queue.drop_last(), release, n);
    } else {
        assert(queue.take(n) =~= queue);
    }
}

} // verus!
