use eframe::egui;
use rusty_psn::download::{ActiveDownload, DownloadPoll};
use rusty_psn::psn::{
    DownloadError, DownloadStatus, LookupAnswer, PackageInfo, UpdateError, UpdateInfo,
};
use rusty_psn::search_bar::SearchBarEvent;
use rusty_psn::settings::AppSettings;
use rusty_psn::state::UpdatesApp;
use rusty_psn::text::lookup_failure_text;
use rusty_psn::toast::ToastLevel;
use std::path::PathBuf;

const ERROR_ICON: &str = "！";
const SUCCESS_ICON: &str = "✅";
const CROSS: &str = "❌";

fn app(show_toasts: bool, show_notifications: bool, releases: &[(&str, &str)]) -> UpdatesApp<u32> {
    let stored =
        AppSettings { pkg_download_path: PathBuf::from("pkgs/"), show_toasts, show_notifications };
    let mut app = UpdatesApp::new(Some(stored), true);
    for (i, (id, version)) in releases.iter().enumerate() {
        let pkg = PackageInfo {
            url: String::new(),
            version: version.to_string(),
            size: 1000,
            sha1sum: String::new(),
        };
        let job = app.start_download(id.to_string(), pkg);
        app.queue_downloads(vec![ActiveDownload::new(job, i as u32)]);
    }
    app
}

fn poll(status: Option<DownloadStatus>, outcome: Option<Result<(), DownloadError>>) -> DownloadPoll {
    DownloadPoll { status, outcome }
}

fn running() -> DownloadPoll {
    poll(None, None)
}

fn ended(outcome: Result<(), DownloadError>) -> DownloadPoll {
    poll(None, Some(outcome))
}

/// Draws the toasts on a screen of 800 by 600 and gives the texts with their places.
fn draw(ctx: &egui::Context, time: f64, app: &mut UpdatesApp<u32>) -> Vec<(String, egui::Pos2)> {
    let input = egui::RawInput {
        screen_rect: Some(egui::Rect::from_min_size(egui::pos2(0., 0.), egui::vec2(800., 600.))),
        time: Some(time),
        ..Default::default()
    };
    let output = ctx.run(input, |ctx| app.v.toasts.show(ctx));
    let mut texts = Vec::new();
    for clipped in output.shapes {
        if let egui::Shape::Text(text) = clipped.1 {
            texts.push((text.galley.text().to_string(), text.pos));
        }
    }
    texts
}

fn drawn(app: &mut UpdatesApp<u32>) -> Vec<String> {
    draw(&egui::Context::default(), 0., app).into_iter().map(|(text, _)| text).collect()
}

fn names(pairs: &[(String, String)]) -> Vec<(&str, &str)> {
    pairs.iter().map(|(a, b)| (a.as_str(), b.as_str())).collect()
}

#[test]
fn downloads_go_where_their_polls_send_them() {
    let mut app = app(
        true,
        true,
        &[("A", "1"), ("B", "2"), ("C", "3"), ("D", "4"), ("E", "5"), ("F", "6")],
    );
    let notifications = app.update(
        None,
        &vec![
            ended(Ok(())),
            poll(Some(DownloadStatus::Progress(10)), None),
            ended(Err(DownloadError::HashMismatch)),
            ended(Err(DownloadError::Tokio)),
            poll(Some(DownloadStatus::Verifying), None),
            poll(Some(DownloadStatus::Progress(3)), Some(Err(DownloadError::Reqwest))),
        ],
    );
    let left: Vec<(&str, u64, u32)> =
        app.v.download_queue.iter().map(|d| (d.id.as_str(), d.progress, d.task)).collect();
    assert_eq!(left, vec![("B", 10, 1), ("E", 0, 4)]);
    assert_eq!(app.v.download_queue[0].last_received_status, DownloadStatus::Progress(10));
    assert_eq!(app.v.download_queue[1].last_received_status, DownloadStatus::Verifying);
    assert_eq!(names(&app.v.completed_downloads), vec![("A", "1")]);
    assert_eq!(names(&app.v.failed_downloads), vec![("C", "3"), ("D", "4"), ("F", "6")]);
    let bodies: Vec<&str> = notifications.iter().map(|n| n.body.as_str()).collect();
    assert_eq!(
        bodies,
        vec![
            "A v1 downloaded successfully!",
            "Failed to download C v3: Hash mismatch.",
            "Failed to download D v4. Check the log for details.",
            "Failed to download F v6. Check the log for details.",
        ]
    );
    assert!(notifications.iter().all(|n| n.summary == "rusty-psn"));
}

#[test]
fn progress_adds_up_over_frames() {
    let mut app = app(true, false, &[("A", "1")]);
    for bytes in [100, 250, 0, 650] {
        app.update(None, &vec![poll(Some(DownloadStatus::Progress(bytes)), None)]);
    }
    assert_eq!(app.v.download_queue[0].progress, 1000);
    assert_eq!(app.v.download_queue[0].last_received_status, DownloadStatus::Progress(650));
    app.update(None, &vec![poll(Some(DownloadStatus::Verifying), None)]);
    assert_eq!(app.v.download_queue[0].progress, 1000);
    assert_eq!(app.v.download_queue[0].last_received_status, DownloadStatus::Verifying);
}

#[test]
fn a_quiet_frame_changes_nothing() {
    let mut app = app(true, true, &[("A", "1"), ("B", "2")]);
    app.on_search_bar(SearchBarEvent::SearchRequested { submitted: true });
    assert!(app.update(None, &vec![running(), running()]).is_empty());
    assert_eq!(app.v.download_queue.len(), 2);
    assert!(app.v.pending_search.is_some());
    assert!(drawn(&mut app).is_empty());
}

#[test]
fn the_newest_toast_comes_first() {
    let mut app = app(true, false, &[("A", "1"), ("B", "2"), ("C", "3")]);
    app.update(None, &vec![ended(Ok(())), running(), ended(Err(DownloadError::HashMismatch))]);
    app.update(None, &vec![ended(Ok(()))]);
    assert_eq!(
        drawn(&mut app),
        vec![
            SUCCESS_ICON,
            "B v2 downloaded successfully!",
            CROSS,
            ERROR_ICON,
            "Failed to download C v3: Hash mismatch.",
            CROSS,
            SUCCESS_ICON,
            "A v1 downloaded successfully!",
            CROSS,
        ]
    );
}

#[test]
fn toasts_sit_in_the_bottom_right_corner_for_ten_seconds() {
    let mut app = app(true, false, &[("A", "1")]);
    app.update(None, &vec![ended(Ok(()))]);
    let ctx = egui::Context::default();
    let mut seen = 0;
    for frame in 0..200 {
        let texts = draw(&ctx, frame as f64 * 0.1, &mut app);
        if !texts.is_empty() {
            seen += 1;
        }
        if frame == 20 {
            assert_eq!(texts[1].0, "A v1 downloaded successfully!");
            assert!(texts[1].1.x > 400. && texts[1].1.y > 500.);
        }
    }
    // Ten seconds are a hundred frames, and moving in and out takes a few more.
    assert!(seen > 100 && seen < 115, "{}", seen);
}

#[test]
fn toasts_can_be_turned_off() {
    let mut app = app(false, true, &[("A", "1")]);
    let notifications = app.update(None, &vec![ended(Ok(()))]);
    assert_eq!(notifications.len(), 1);
    assert!(drawn(&mut app).is_empty());
}

#[test]
fn notifications_can_be_turned_off() {
    let mut app = app(true, false, &[("A", "1")]);
    assert!(app.update(None, &vec![ended(Ok(()))]).is_empty());
    assert_eq!(drawn(&mut app).len(), 3);
}

#[test]
fn every_level_has_its_icon() {
    for (level, icon) in [
        (ToastLevel::Info, Some("ℹ")),
        (ToastLevel::Warning, Some("⚠")),
        (ToastLevel::Error, Some(ERROR_ICON)),
        (ToastLevel::Success, Some(SUCCESS_ICON)),
        (ToastLevel::Plain, None),
    ] {
        let mut app = app(true, true, &[]);
        let notification = app.show_notifications("hello".to_string(), level).unwrap();
        assert_eq!(notification.summary, "rusty-psn");
        assert_eq!(notification.body, "hello");
        let mut expected: Vec<&str> = icon.into_iter().collect();
        expected.push("hello");
        expected.push(CROSS);
        assert_eq!(drawn(&mut app), expected);
    }
}

#[test]
fn failed_lookups_say_why() {
    for (error, text) in [
        (
            UpdateError::InvalidSerial,
            "The provided serial didn't give any results, double-check your input.",
        ),
        (
            UpdateError::NoUpdatesAvailable,
            "The provided serial doesn't have any available updates.",
        ),
        (
            UpdateError::Reqwest("timed out".to_string()),
            "There was an error completing the request (timed out).",
        ),
        (
            UpdateError::XmlParsing("no root".to_string()),
            "Error parsing response from Sony, try again later (no root).",
        ),
    ] {
        assert_eq!(lookup_failure_text(&error), text);
        let mut app = app(true, true, &[("A", "1")]);
        let job = app.on_search_bar(SearchBarEvent::SearchRequested { submitted: true }).unwrap();
        let answer = LookupAnswer { number: job.number, result: Err(error) };
        let notifications = app.update(Some(answer), &vec![ended(Ok(()))]);
        let bodies: Vec<&str> = notifications.iter().map(|n| n.body.as_str()).collect();
        assert_eq!(bodies, vec![text, "A v1 downloaded successfully!"]);
        assert!(app.v.pending_search.is_none());
        assert_eq!(
            drawn(&mut app),
            vec![SUCCESS_ICON, "A v1 downloaded successfully!", CROSS, ERROR_ICON, text, CROSS]
        );
    }
}

#[test]
fn a_lookup_that_nobody_waits_for_is_ignored() {
    let mut app = app(true, true, &[]);
    let update = UpdateInfo { title_id: "A".to_string(), titles: vec![], packages: vec![] };
    let answer = LookupAnswer { number: 0, result: Ok(update) };
    assert!(app.update(Some(answer), &vec![]).is_empty());
    assert!(app.v.update_results.is_empty());
    let answer = LookupAnswer { number: 1, result: Err(UpdateError::InvalidSerial) };
    assert!(app.update(Some(answer), &vec![]).is_empty());
    assert!(drawn(&mut app).is_empty());
}
