use rusty_psn::psn::{LookupAnswer, UpdateError, UpdateInfo};
use rusty_psn::search_bar::SearchBarEvent;
use rusty_psn::state::UpdatesApp;

const CLICKED: SearchBarEvent = SearchBarEvent::SearchRequested { submitted: false };
const ENTER: SearchBarEvent = SearchBarEvent::SearchRequested { submitted: true };

fn typed(serial: &str) -> UpdatesApp<()> {
    let mut app = UpdatesApp::new(None, true);
    app.on_search_bar(SearchBarEvent::QueryEdited(serial.to_string()));
    app
}

/// Has something searched for, and gives the serial that is looked up.
fn request(app: &mut UpdatesApp<()>, event: SearchBarEvent) -> Option<String> {
    app.on_search_bar(event).map(|job| job.serial)
}

/// Answers the lookup that is waited for.
fn answer(app: &mut UpdatesApp<()>, result: Result<UpdateInfo, UpdateError>) {
    let number = app.v.pending_search.unwrap();
    assert!(app.update(Some(LookupAnswer { number, result }), &vec![]).is_empty());
}

fn title(serial: &str) -> UpdateInfo {
    UpdateInfo { title_id: serial.to_string(), titles: vec![], packages: vec![] }
}

#[test]
fn searching_by_click() {
    let mut app = typed("NPUB30826");
    assert!(app.can_search());
    assert_eq!(request(&mut app, CLICKED), Some("NPUB30826".to_string()));
    assert!(app.v.pending_search.is_some());
}

#[test]
fn the_button_is_off_while_a_lookup_runs_and_without_a_serial() {
    let mut app = typed("NPUB30826");
    app.on_search_bar(CLICKED);
    assert!(!app.can_search());
    assert_eq!(request(&mut app, CLICKED), None);
    let mut app = typed("");
    assert!(!app.can_search());
    assert_eq!(request(&mut app, CLICKED), None);
    assert!(app.v.pending_search.is_none());
}

#[test]
fn enter_searches_even_where_the_button_is_off() {
    let mut app = typed("NPUB30826");
    app.on_search_bar(ENTER);
    app.on_search_bar(SearchBarEvent::QueryEdited("BCES00000".to_string()));
    assert_eq!(request(&mut app, ENTER), Some("BCES00000".to_string()));
    let mut app = typed("");
    assert_eq!(request(&mut app, ENTER), Some(String::new()));
}

#[test]
fn a_found_title_is_not_searched_again_until_the_results_are_cleared() {
    let mut app = typed("NPUB30826");
    app.on_search_bar(CLICKED);
    answer(&mut app, Ok(title("NPUB30826")));
    assert_eq!(app.v.update_results.len(), 1);
    assert!(app.v.pending_search.is_none());
    assert!(app.already_searched());
    assert_eq!(request(&mut app, ENTER), None);
    assert_eq!(request(&mut app, CLICKED), None);
    assert!(app.can_clear_results());
    app.on_search_bar(SearchBarEvent::ResultsCleared);
    assert!(!app.can_clear_results());
    assert_eq!(request(&mut app, CLICKED), Some("NPUB30826".to_string()));
}

#[test]
fn a_failed_lookup_can_be_repeated() {
    let mut app = typed("NPUB30826");
    app.on_search_bar(CLICKED);
    answer(&mut app, Err(UpdateError::NoUpdatesAvailable));
    assert!(app.v.update_results.is_empty());
    assert_eq!(request(&mut app, CLICKED), Some("NPUB30826".to_string()));
}

#[test]
fn results_come_in_the_order_in_which_they_are_found() {
    let mut app = typed("A");
    app.on_search_bar(CLICKED);
    answer(&mut app, Ok(title("A")));
    app.on_search_bar(SearchBarEvent::QueryEdited("B".to_string()));
    app.on_search_bar(CLICKED);
    answer(&mut app, Ok(title("B")));
    let ids: Vec<&str> = app.v.update_results.iter().map(|u| u.title_id.as_str()).collect();
    assert_eq!(ids, vec!["A", "B"]);
}

#[test]
fn pasting_appends_and_clearing_empties() {
    let mut app = typed("NPUB");
    assert!(app.on_search_bar(SearchBarEvent::Pasted("30826".to_string())).is_none());
    assert_eq!(app.v.serial_query, "NPUB30826");
    assert!(app.can_clear_query());
    app.on_search_bar(SearchBarEvent::QueryCleared);
    assert_eq!(app.v.serial_query, "");
    assert!(!app.can_clear_query());
}

#[test]
fn the_menu_needs_a_clipboard() {
    let mut app: UpdatesApp<()> = UpdatesApp::new(None, false);
    app.on_search_bar(SearchBarEvent::QueryEdited("X".to_string()));
    assert!(!app.can_clear_query());
    app.on_search_bar(SearchBarEvent::Pasted("Y".to_string()));
    app.on_search_bar(SearchBarEvent::QueryCleared);
    assert_eq!(app.v.serial_query, "X");
}

#[test]
fn a_new_lookup_replaces_the_old() {
    let mut app = typed("OLD");
    let old = app.on_search_bar(ENTER).unwrap();
    app.on_search_bar(SearchBarEvent::QueryEdited("NEW".to_string()));
    let new = app.on_search_bar(ENTER).unwrap();
    assert_eq!((old.number, old.serial.as_str()), (1, "OLD"));
    assert_eq!((new.number, new.serial.as_str()), (2, "NEW"));
    // The late answer is ignored, and the new one is still waited for.
    app.update(Some(LookupAnswer { number: old.number, result: Ok(title("OLD")) }), &vec![]);
    assert!(app.v.update_results.is_empty());
    assert_eq!(app.v.pending_search, Some(2));
    app.update(Some(LookupAnswer { number: new.number, result: Ok(title("NEW")) }), &vec![]);
    assert_eq!(app.v.update_results[0].title_id, "NEW");
    assert_eq!(app.v.pending_search, None);
    // So it is after the answer that was waited for.
    app.update(Some(LookupAnswer { number: old.number, result: Ok(title("OLD")) }), &vec![]);
    assert_eq!(app.v.update_results.len(), 1);
}

#[test]
fn after_the_last_number_they_begin_anew() {
    let mut app = typed("A");
    app.v.last_search = u64::MAX - 1;
    assert_eq!(app.on_search_bar(ENTER).unwrap().number, u64::MAX);
    assert_eq!(app.on_search_bar(ENTER).unwrap().number, 0);
    assert_eq!(app.v.pending_search, Some(0));
}
