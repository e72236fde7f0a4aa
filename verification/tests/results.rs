use rusty_psn::download::{ActiveDownload, DownloadJob, DownloadPoll};
use rusty_psn::psn::{DownloadError, DownloadStatus, LookupAnswer, PackageInfo, UpdateInfo};
use rusty_psn::removal::remove_entries;
use rusty_psn::results::{EntryClicks, PackageState};
use rusty_psn::search_bar::SearchBarEvent;
use rusty_psn::settings::AppSettings;
use rusty_psn::state::UpdatesApp;
use rusty_psn::text::{
    decimal_text, header_key_text, header_line_text, header_text, package_lines,
    package_lines_with_size,
};
use std::path::PathBuf;

fn package(version: &str, size: u64) -> PackageInfo {
    PackageInfo {
        url: format!("http://host/{}", version),
        version: version.to_string(),
        size,
        sha1sum: "d0be2dc421be4fcd0172e5afceea3970e2f3d940".to_string(),
    }
}

fn title(serial: &str, versions: &[&str]) -> UpdateInfo {
    UpdateInfo {
        title_id: serial.to_string(),
        titles: vec!["A Game".to_string(), "Ein Spiel".to_string()],
        packages: versions.iter().map(|v| package(v, 100)).collect(),
    }
}

fn app_with(updates: Vec<UpdateInfo>) -> UpdatesApp<u32> {
    let stored = AppSettings {
        pkg_download_path: PathBuf::from("/games"),
        show_toasts: true,
        show_notifications: false,
    };
    let mut app = UpdatesApp::new(Some(stored), true);
    for update in updates {
        app.on_search_bar(SearchBarEvent::QueryEdited(update.title_id.clone()));
        let job = app.on_search_bar(SearchBarEvent::SearchRequested { submitted: true }).unwrap();
        let polls = quiet(&app);
        app.update(Some(LookupAnswer { number: job.number, result: Ok(update) }), &polls);
    }
    app
}

fn quiet(app: &UpdatesApp<u32>) -> Vec<DownloadPoll> {
    app.v.download_queue.iter().map(|_| DownloadPoll { status: None, outcome: None }).collect()
}

fn names(jobs: &[DownloadJob]) -> Vec<(String, String)> {
    jobs.iter().map(|j| (j.title_id.clone(), j.pkg.version.clone())).collect()
}

fn pairs(expected: &[(&str, &str)]) -> Vec<(String, String)> {
    expected.iter().map(|(a, b)| (a.to_string(), b.to_string())).collect()
}

fn no_clicks() -> EntryClicks {
    EntryClicks { download_all: false, download_file: vec![] }
}

fn start_all(app: &mut UpdatesApp<u32>, entry: usize) {
    let mut clicks: Vec<EntryClicks> = app.v.update_results.iter().map(|_| no_clicks()).collect();
    clicks[entry].download_all = true;
    let jobs = app.list_downloads(&clicks);
    let first = app.v.download_queue.len() as u32;
    let started = jobs
        .into_iter()
        .enumerate()
        .map(|(i, job)| ActiveDownload::new(job, first + i as u32))
        .collect();
    app.queue_downloads(started);
}

#[test]
fn download_all_asks_for_every_package_in_order() {
    let app = app_with(vec![title("A", &["01.00", "01.01"]), title("B", &["02.00"])]);
    let jobs = app.list_downloads(&vec![
        EntryClicks { download_all: true, download_file: vec![] },
        EntryClicks { download_all: true, download_file: vec![false] },
    ]);
    assert_eq!(names(&jobs), pairs(&[("A", "01.00"), ("A", "01.01"), ("B", "02.00")]));
    assert_eq!(jobs[0].download_path, PathBuf::from("/games"));
    assert_eq!(jobs[1].pkg.url, "http://host/01.01");
    assert_eq!(jobs[1].pkg.size, 100);
}

#[test]
fn single_packages_follow_those_of_download_all() {
    let app = app_with(vec![title("A", &["1", "2"])]);
    let clicks = EntryClicks { download_all: true, download_file: vec![false, true] };
    let jobs = app.entry_downloads(&app.v.update_results[0], &clicks);
    assert_eq!(names(&jobs), pairs(&[("A", "1"), ("A", "2"), ("A", "2")]));
    let clicks = EntryClicks { download_all: false, download_file: vec![false, true] };
    let jobs = app.entry_downloads(&app.v.update_results[0], &clicks);
    assert_eq!(names(&jobs), pairs(&[("A", "2")]));
}

#[test]
fn nothing_clicked_nothing_asked_for() {
    let app = app_with(vec![title("A", &["1", "2"]), title("B", &["1"])]);
    assert!(app.list_downloads(&vec![no_clicks(), no_clicks()]).is_empty());
    assert!(app.list_downloads(&vec![]).is_empty());
}

#[test]
fn a_package_under_way_is_not_asked_for_again() {
    let mut app = app_with(vec![title("A", &["1", "2"]), title("B", &["1"])]);
    let job = app.start_download("A".to_string(), package("1", 100));
    app.queue_downloads(vec![ActiveDownload::new(job, 7)]);
    let jobs = app.list_downloads(&vec![
        EntryClicks { download_all: true, download_file: vec![true, false] },
        EntryClicks { download_all: true, download_file: vec![] },
    ]);
    assert_eq!(names(&jobs), pairs(&[("A", "2"), ("B", "1")]));
    assert!(!app.can_download(&"A".to_string(), &package("1", 100)));
    assert!(app.can_download(&"A".to_string(), &package("2", 100)));
    assert!(app.can_download(&"B".to_string(), &package("1", 100)));
}

#[test]
fn no_release_is_queued_twice() {
    let mut app = app_with(vec![title("A", &["1", "2"]), title("B", &["1", "2"])]);
    start_all(&mut app, 0);
    start_all(&mut app, 1);
    start_all(&mut app, 0);
    let queued: Vec<(&str, &str)> =
        app.v.download_queue.iter().map(|d| (d.id.as_str(), d.version.as_str())).collect();
    assert_eq!(queued, vec![("A", "1"), ("A", "2"), ("B", "1"), ("B", "2")]);
    let mut polls = quiet(&app);
    polls[1].outcome = Some(Ok(()));
    app.update(None, &polls);
    // One that ended can be started again.
    start_all(&mut app, 0);
    let queued: Vec<(&str, &str)> =
        app.v.download_queue.iter().map(|d| (d.id.as_str(), d.version.as_str())).collect();
    assert_eq!(queued, vec![("A", "1"), ("B", "1"), ("B", "2"), ("A", "2")]);
    assert_eq!(app.v.completed_downloads.len(), 1);
}

#[test]
fn a_new_download_starts_from_nothing() {
    let app = app_with(vec![]);
    let job = app.start_download("A".to_string(), package("1", 300));
    assert_eq!(job.title_id, "A");
    assert_eq!(job.download_path, PathBuf::from("/games"));
    let download = ActiveDownload::new(job, 9u32);
    assert_eq!(download.id, "A");
    assert_eq!(download.version, "1");
    assert_eq!(download.size, 300);
    assert_eq!(download.progress, 0);
    assert_eq!(download.last_received_status, DownloadStatus::Verifying);
    assert_eq!(download.task, 9);
}

#[test]
fn how_a_package_stands() {
    let mut app = app_with(vec![title("A", &["1", "2", "3"])]);
    let a = "A".to_string();
    assert_eq!(app.package_state(&a, &package("1", 100)), PackageState::Untouched);
    start_all(&mut app, 0);
    let polls = vec![
        DownloadPoll { status: Some(DownloadStatus::Progress(40)), outcome: None },
        DownloadPoll { status: None, outcome: Some(Ok(())) },
        DownloadPoll { status: None, outcome: Some(Err(DownloadError::Tokio)) },
    ];
    app.update(None, &polls);
    assert_eq!(
        app.package_state(&a, &package("1", 100)),
        PackageState::Downloading { progress: 40, size: 100 }
    );
    assert_eq!(app.package_state(&a, &package("2", 100)), PackageState::Completed);
    assert_eq!(app.package_state(&a, &package("3", 100)), PackageState::Failed);
    assert_eq!(app.package_state(&"B".to_string(), &package("2", 100)), PackageState::Untouched);

    // A second try shows its progress, and a completed package stays completed after a failure.
    let job = app.start_download(a.clone(), package("2", 100));
    app.queue_downloads(vec![ActiveDownload::new(job, 50)]);
    assert_eq!(
        app.package_state(&a, &package("2", 100)),
        PackageState::Downloading { progress: 0, size: 100 }
    );
    let polls = vec![
        DownloadPoll { status: None, outcome: None },
        DownloadPoll { status: None, outcome: Some(Err(DownloadError::Reqwest)) },
    ];
    app.update(None, &polls);
    assert_eq!(app.package_state(&a, &package("2", 100)), PackageState::Completed);
}

#[test]
fn of_two_downloads_of_a_package_the_first_is_shown() {
    let mut app = app_with(vec![]);
    for task in 0..2 {
        let job = app.start_download("A".to_string(), package("1", 100));
        app.queue_downloads(vec![ActiveDownload::new(job, task)]);
    }
    let polls = vec![
        DownloadPoll { status: Some(DownloadStatus::Progress(5)), outcome: None },
        DownloadPoll { status: Some(DownloadStatus::Progress(8)), outcome: None },
    ];
    app.update(None, &polls);
    assert_eq!(
        app.package_state(&"A".to_string(), &package("1", 100)),
        PackageState::Downloading { progress: 5, size: 100 }
    );
}

#[test]
fn removing_entries_by_their_first_positions() {
    let mut items = vec!['a', 'b', 'c', 'd', 'e'];
    remove_entries(&mut items, &vec![0, 2, 3]);
    assert_eq!(items, vec!['b', 'e']);
    remove_entries(&mut items, &vec![]);
    assert_eq!(items, vec!['b', 'e']);
    remove_entries(&mut items, &vec![0, 1]);
    assert!(items.is_empty());
}

#[test]
fn the_line_above_a_title() {
    let update = title("BCES00000", &["1", "2"]);
    assert_eq!(update.total_updates_size(), 200);
    assert_eq!(header_text(&update), "BCES00000 - A Game (2 update(s) - 200 B total)");
    assert_eq!(
        header_line_text(&update, &"4.5 GB".to_string()),
        "BCES00000 - A Game (2 update(s) - 4.5 GB total)"
    );
    let big = UpdateInfo {
        title_id: "X".to_string(),
        titles: vec!["Y".to_string()],
        packages: vec![package("1", 1_000_000), package("2", 1_500_000)],
    };
    assert_eq!(header_text(&big), "X - Y (2 update(s) - 2.5 MB total)");
    assert_eq!(header_key_text(&update.title_id), "pkg_header_BCES00000");
}

#[test]
fn a_title_without_a_name_shows_its_serial() {
    let update = UpdateInfo {
        title_id: "BCES00000".to_string(),
        titles: vec![],
        packages: vec![package("1", 10)],
    };
    assert_eq!(header_text(&update), "BCES00000");
}

#[test]
fn the_lines_of_a_package() {
    let lines = package_lines(&package("01.02", 1500));
    assert_eq!(lines.version, "Package Version: 01.02");
    assert_eq!(lines.size, "Size: 1.5 KB");
    assert_eq!(lines.sha1sum, "SHA-1 hashsum: d0be2dc421be4fcd0172e5afceea3970e2f3d940");
    assert_eq!(package_lines(&package("1", 0)).size, "Size: 0 B");
    assert_eq!(package_lines(&package("1", 999)).size, "Size: 999 B");
    assert_eq!(package_lines(&package("1", 1000)).size, "Size: 1.0 KB");
    assert_eq!(package_lines_with_size(&package("1", 5), &"much".to_string()).size, "Size: much");
}

#[test]
fn numbers_in_decimal() {
    for n in [0usize, 1, 9, 10, 99, 100, 1024, 1234567890, usize::MAX] {
        assert_eq!(decimal_text(n), format!("{}", n));
    }
}
