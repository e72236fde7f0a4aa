//! What the update server offers for a title, and how looking it up or downloading it can go.
use vstd::prelude::*;

verus! {

/// One update package of a title.
#[derive(Debug)]
pub struct PackageInfo {
    /// Where the package is downloaded from.
    pub url: String,
    pub version: String,
    /// The size of the package in bytes.
    pub size: u64,
    pub sha1sum: String,
}

pub struct PackageView {
    pub url: Seq<char>,
    pub version: Seq<char>,
    pub size: u64,
    pub sha1sum: Seq<char>,
}

impl View for PackageInfo {
    type V = PackageView;

    open spec fn view(&self) -> PackageView {
        PackageView {
            url: self.url@,
            version: self.version@,
            size: self.size,
            sha1sum: self.sha1sum@,
        }
    }
}

impl Clone for PackageInfo {
    fn clone(&self) -> (copy: PackageInfo)
        ensures
            copy == *self,
    {
        PackageInfo {
            url: self.url.clone(),
            version: self.version.clone(),
            size: self.size,
            sha1sum: self.sha1sum.clone(),
        }
    }
}

/// What is known of each package of a list.
pub open spec fn package_views(packages: Seq<PackageInfo>) -> Seq<PackageView> {
    packages.map_values(|pkg: PackageInfo| pkg@)
}

/// What each string of a list reads.
pub open spec fn texts(strings: Seq<String>) -> Seq<Seq<char>> {
    strings.map_values(|s: String| s@)
}

/// The updates found for one title.
#[derive(Debug)]
pub struct UpdateInfo {
    /// The serial of the title.
    pub title_id: String,
    /// The names of the title; there may be none.
    pub titles: Vec<String>,
    pub packages: Vec<PackageInfo>,
}

pub struct UpdateView {
    pub title_id: Seq<char>,
    pub titles: Seq<Seq<char>>,
    pub packages: Seq<PackageView>,
}

impl View for UpdateInfo {
    type V = UpdateView;

    open spec fn view(&self) -> UpdateView {
        UpdateView {
            title_id: self.title_id@,
            titles: texts(self.titles@),
            packages: package_views(self.packages@),
        }
    }
}

/// What is known of each title of a list.
pub open spec fn update_views(updates: Seq<UpdateInfo>) -> Seq<UpdateView> {
    updates.map_values(|update: UpdateInfo| update@)
}

/// Why a lookup gave no updates.
#[derive(Debug)]
pub enum UpdateError {
    InvalidSerial,
    NoUpdatesAvailable,
    /// The request failed; the text says how.
    Reqwest(String),
    /// The answer could not be read; the text says why.
    XmlParsing(String),
}

pub enum UpdateErrorView {
    InvalidSerial,
    NoUpdatesAvailable,
    Reqwest(Seq<char>),
    XmlParsing(Seq<char>),
}

impl View for UpdateError {
    type V = UpdateErrorView;

    open spec fn view(&self) -> UpdateErrorView {
        match self {
            UpdateError::InvalidSerial => UpdateErrorView::InvalidSerial,
            UpdateError::NoUpdatesAvailable => UpdateErrorView::NoUpdatesAvailable,
            UpdateError::Reqwest(e) => UpdateErrorView::Reqwest(e@),
            UpdateError::XmlParsing(e) => UpdateErrorView::XmlParsing(e@),
        }
    }
}

/// A lookup that is to be started, and the number that its answer is known by.
#[derive(Debug)]
pub struct LookupJob {
    pub number: u64,
    pub serial: String,
}

pub struct LookupJobView {
    pub number: u64,
    pub serial: Seq<char>,
}

impl View for LookupJob {
    type V = LookupJobView;

    open spec fn view(&self) -> LookupJobView {
        LookupJobView { number: self.number, serial: self.serial@ }
    }
}

/// A lookup, where there is one to start.
pub open spec fn lookup_job_view(job: Option<LookupJob>) -> Option<LookupJobView> {
    match job {
        Some(job) => Some(job@),
        None => None,
    }
}

/// How the lookup with a number ended.
#[derive(Debug)]
pub struct LookupAnswer {
    pub number: u64,
    pub result: Result<UpdateInfo, UpdateError>,
}

pub struct LookupAnswerView {
    pub number: u64,
    pub result: Result<UpdateView, UpdateErrorView>,
}

impl View for LookupAnswer {
    type V = LookupAnswerView;

    open spec fn view(&self) -> LookupAnswerView {
        LookupAnswerView {
            number: self.number,
            result: match self.result {
                Ok(update) => Ok(update@),
                Err(e) => Err(e@),
            },
        }
    }
}

/// An answer, where one has come.
pub open spec fn answer_view(answer: Option<LookupAnswer>) -> Option<LookupAnswerView> {
    match answer {
        Some(answer) => Some(answer@),
        None => None,
    }
}

/// What a running download reports.
#[derive(Clone, Copy, Debug, PartialEq, Eq, Structural)]
pub enum DownloadStatus {
    /// So many more bytes have arrived.
    Progress(u64),
    /// The hash of the file is being compared.
    Verifying,
}

/// Why a download failed.
#[derive(Clone, Copy, Debug, PartialEq, Eq, Structural)]
pub enum DownloadError {
    HashMismatch,
    /// The file could not be written.
    Tokio,
    /// The request failed.
    Reqwest,
}

/// The sum of the sizes of a list of packages, in bytes.
pub open spec fn total_size(packages: Seq<PackageView>) -> nat
    decreases packages.len(),
{
    if packages.len() == 0 {
        0
    } else {
        total_size(packages.drop_last()) + packages.last().size as nat
    }
}

/// A part of a list of packages is no larger than the list.
proof fn lemma_total_size_grows(packages: Seq<PackageView>, n: int)
    requires
        0 <= n <= packages.len(),
    ensures
        total_size(packages.take(n)) <= total_size(packages),
    decreases packages.len() - n,
{
    if n < packages.len() {
        lemma_total_size_grows(packages, n + 1);
        assert(packages.take(n + 1).drop_last() =~= packages.take(n));
    } else {
        assert(packages.take(n) =~= packages);
    }
}

impl UpdateInfo {
    /// The size in bytes of all packages of the title together.
    pub fn total_updates_size(&self) -> (size: u64)
        requires
            total_size(self@.packages) <= u64::MAX,
        ensures
            size == total_size(self@.packages),
    {
        let mut size: u64 = 0;
        let mut i: usize = 0;
        while i < self.packages.len()
            invariant
                i <= self.packages.len(),
                size == total_size(self@.packages.take(i as int)),
                total_size(self@.packages) <= u64::MAX,
            decreases self.packages.len() - i,
        {
            proof {
                let packages = self@.packages;
                lemma_total_size_grows(packages, i + 1);
                assert(packages.take(i + 1).drop_last() =~= packages.take(i as int));
            }
            size = size + self.packages[i].size;
            i = i + 1;
        }
        assert(self@.packages.take(i as int) =~= self@.packages);
        size
    }
}

} // verus!
