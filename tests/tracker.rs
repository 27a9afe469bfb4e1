use hike_tracker::model::{apply_rename, new_tracker, same_id, HikeModel, HikePeak, HikeTrackerModel};
use hike_tracker::store::{tracker_to_seed, StoreError, TrackerStore};
use hike_tracker::view::{
    after_submit, boiler, display_fragment, edit_fragment, hike_peak_list, not_found_fragment,
    render, root, Mode,
};

const NOT_FOUND: &str = "<h1>Not Found</h1>";

fn id(b: u8) -> [u8; 12] {
    [b; 12]
}

#[test]
fn seeding_twice_keeps_one_tracker() {
    let mut store = TrackerStore::new();
    let first = store.seed_if_absent("first").unwrap();
    let second = store.seed_if_absent("first").unwrap();
    assert_eq!(first, second);
    assert_eq!(store.len(), 1);
    assert_eq!(store.find_by_name("first").unwrap().name, "first");
}

#[test]
fn seeded_tracker_is_fresh() {
    let mut store = TrackerStore::new();
    let tid = store.seed_if_absent("first").unwrap();
    let t = store.find_by_id(&tid).unwrap();
    assert_eq!(t.name, "first");
    assert!(t.hikes.is_empty());
    assert_eq!(t.created_at, t.updated_at);
}

#[test]
fn seed_with_existing_name_answers_existing_id() {
    let mut store = TrackerStore::new();
    assert_eq!(store.seed_with("first".to_string(), id(1), id(9), 100), Ok(id(1)));
    assert_eq!(store.seed_with("first".to_string(), id(2), id(9), 200), Ok(id(1)));
    assert_eq!(store.len(), 1);
    assert_eq!(store.find_by_id(&id(1)).unwrap().created_at, 100);
    assert!(store.find_by_id(&id(2)).is_none());
}

#[test]
fn seed_with_taken_id_is_a_conflict() {
    let mut store = TrackerStore::new();
    store.seed_with("first".to_string(), id(1), id(9), 100).unwrap();
    assert_eq!(store.seed_with("other".to_string(), id(1), id(9), 200), Err(StoreError::Conflict));
    assert_eq!(store.len(), 1);
    assert!(store.find_by_name("other").is_none());
}

#[test]
fn competing_renames_one_wins() {
    let mut store = TrackerStore::new();
    store.seed_with("a".to_string(), id(1), id(9), 10).unwrap();
    store.seed_with("b".to_string(), id(2), id(9), 10).unwrap();
    assert_eq!(store.rename_at(&id(1), "peak".to_string(), 20), Ok(()));
    assert_eq!(store.rename_at(&id(2), "peak".to_string(), 30), Err(StoreError::Conflict));
    let b = store.find_by_id(&id(2)).unwrap();
    assert_eq!(b.name, "b");
    assert_eq!(b.updated_at, 10);
    let a = store.find_by_id(&id(1)).unwrap();
    assert_eq!(a.name, "peak");
    assert_eq!(a.updated_at, 20);
}

#[test]
fn rename_unknown_id_is_not_found() {
    let mut store = TrackerStore::new();
    store.seed_with("a".to_string(), id(1), id(9), 10).unwrap();
    assert_eq!(store.rename_at(&id(7), "x".to_string(), 20), Err(StoreError::NotFound));
    assert_eq!(store.find_by_id(&id(1)).unwrap().name, "a");
}

#[test]
fn rename_to_own_name_succeeds_and_keeps_later_stamp() {
    let mut store = TrackerStore::new();
    store.seed_with("a".to_string(), id(1), id(9), 50).unwrap();
    assert_eq!(store.rename_at(&id(1), "a".to_string(), 40), Ok(()));
    let a = store.find_by_id(&id(1)).unwrap();
    assert_eq!(a.updated_at, 50);
    assert_eq!(a.created_at, 50);
}

#[test]
fn rename_with_clock_stamps_update() {
    let mut store = TrackerStore::new();
    let tid = store.seed_if_absent("first").unwrap();
    assert_eq!(store.rename(&tid, "second".to_string()), Ok(()));
    let t = store.find_by_id(&tid).unwrap();
    assert_eq!(t.name, "second");
    assert!(t.updated_at >= t.created_at);
}

#[test]
fn cancel_round_trip_renders_display_again() {
    let mut store = TrackerStore::new();
    store.seed_with("first".to_string(), id(1), id(9), 10).unwrap();
    let direct = store.view_tracker("first", Mode::Display);
    let form = store.view_tracker("first", Mode::Edit);
    assert!(form.contains("<button class=\"btn\" hx-get=\"/tracker/first\">Cancel</button>"));
    let after_cancel = store.view_tracker("first", Mode::Display);
    assert_eq!(direct, after_cancel);
    assert_eq!(store.len(), 1);
}

#[test]
fn unknown_key_is_not_found_in_both_modes() {
    let mut store = TrackerStore::new();
    store.seed_with("first".to_string(), id(1), id(9), 10).unwrap();
    assert_eq!(store.view_tracker("unknown-id", Mode::Display), NOT_FOUND);
    assert_eq!(store.view_tracker("unknown-id", Mode::Edit), NOT_FOUND);
    assert_eq!(render(None, Mode::Display), NOT_FOUND);
    assert_eq!(render(None, Mode::Edit), NOT_FOUND);
}

#[test]
fn seed_view_edit_submit_scenario() {
    let mut store = TrackerStore::new();
    let tid = store.seed_if_absent("first").unwrap();
    let shown = store.view_tracker("first", Mode::Display);
    assert!(shown.contains("first"));
    assert!(shown.contains("hx-get=\"/tracker/first/edit\""));
    let form = store.view_tracker("first", Mode::Edit);
    assert!(form.contains("value=\"first\""));
    let answer = store.submit("first", "second".to_string(), i64::MAX);
    assert!(answer.contains("second"));
    assert_eq!(store.view_tracker("first", Mode::Display), NOT_FOUND);
    assert!(store.view_tracker("second", Mode::Display).contains("second"));
    assert_eq!(store.find_by_id(&tid).unwrap().name, "second");
}

#[test]
fn submit_conflict_keeps_input_and_store() {
    let mut store = TrackerStore::new();
    store.seed_with("a".to_string(), id(1), id(9), 10).unwrap();
    store.seed_with("b".to_string(), id(2), id(9), 10).unwrap();
    let answer = store.submit("a", "b".to_string(), 20);
    assert_eq!(answer, edit_fragment("a", "b", true));
    assert!(answer.contains("value=\"b\""));
    assert!(answer.contains("already taken"));
    assert_eq!(store.find_by_id(&id(1)).unwrap().name, "a");
}

#[test]
fn submit_unknown_key_is_not_found() {
    let mut store = TrackerStore::new();
    assert_eq!(store.submit("nobody", "x".to_string(), 5), NOT_FOUND);
    assert_eq!(store.len(), 0);
}

#[test]
fn display_fragment_exact() {
    let t = HikeTrackerModel {
        _id: id(1),
        name: "Tom & <Jo>".to_string(),
        created_by_id: id(2),
        hikes: vec![
            HikeModel { name: "Mount \"Whitney\"".to_string(), rank: 1, created_at: 0, updated_at: 0 },
            HikeModel { name: "Half Dome".to_string(), rank: 250, created_at: 0, updated_at: 0 },
        ],
        created_at: 0,
        updated_at: 0,
    };
    assert_eq!(
        display_fragment(&t),
        "<div hx-target=\"this\" hx-swap=\"outerHTML\"><div><label>Name: </label>Tom &amp; &lt;Jo&gt;</div>\
<ul><li>Mount &quot;Whitney&quot;, rank: 1</li><li>Half Dome, rank: 250</li></ul>\
<button hx-get=\"/tracker/Tom &amp; &lt;Jo&gt;/edit\" class=\"btn btn-primary\">Click To Edit</button></div>"
    );
}

#[test]
fn edit_fragment_exact() {
    assert_eq!(
        edit_fragment("first", "first", false),
        "<form hx-put=\"/tracker/first\" hx-target=\"this\" hx-swap=\"outerHTML\"><div><label>Name</label>\
<input type=\"text\" name=\"trackerName\" value=\"first\"></div><button class=\"btn\">Submit</button>\
<button class=\"btn\" hx-get=\"/tracker/first\">Cancel</button></form>"
    );
}

#[test]
fn after_submit_outcomes() {
    let t = new_tracker("second".to_string(), id(1), id(2), 7);
    assert_eq!(after_submit("first", "second", Ok(&t)), display_fragment(&t));
    assert_eq!(after_submit("first", "second", Err(StoreError::NotFound)), NOT_FOUND);
    assert_eq!(
        after_submit("first", "second", Err(StoreError::StoreUnavailable)),
        "<h1>Server Error</h1>"
    );
    assert_eq!(after_submit("first", "x", Err(StoreError::Conflict)), edit_fragment("first", "x", true));
}

#[test]
fn peak_list_exact() {
    let peaks = vec![
        HikePeak { name: "Mount Whitney".to_string(), elevation: 14505 },
        HikePeak { name: "Baldy".to_string(), elevation: 0 },
        HikePeak { name: "Top".to_string(), elevation: 65535 },
    ];
    assert_eq!(
        hike_peak_list(&peaks),
        "<li>name: Mount Whitney, elevation: 14505</li><li>name: Baldy, elevation: 0</li>\
<li>name: Top, elevation: 65535</li>"
    );
    assert_eq!(hike_peak_list(&vec![]), "");
}

#[test]
fn page_wraps_fragment() {
    let page = boiler("<p>x</p>");
    assert!(page.starts_with("<!DOCTYPE html><html lang=\"en\">"));
    assert!(page.ends_with("<p>x</p></body></html>"));
    assert!(page.contains("<title>TEST</title>"));
    assert!(page.contains("integrity=\"sha384-0gxUXCCR8yv9FM2b+U3FDbsKthCI66oH5IA9fHppQq9DDMHuMauqq1ZHBpJxQ0J0\""));
    let empty = boiler("");
    assert!(empty.starts_with("<!DOCTYPE html><html lang=\"en\"><head><meta charset=\"utf-8\">"));
    assert!(empty.contains("https://unpkg.com/htmx.org@1.9.11"));
    assert!(empty.ends_with("<h1>The Body Mint</h1><div id=\"the-one\">Div</div></body></html>"));
    assert!(root(None).contains(NOT_FOUND));
    assert_eq!(not_found_fragment(), NOT_FOUND);
}

#[test]
fn seed_decision() {
    let t = new_tracker("first".to_string(), id(1), id(2), 7);
    assert!(tracker_to_seed(Some(&t), "first").is_none());
    let fresh = tracker_to_seed(None, "first").unwrap();
    assert_eq!(fresh.name, "first");
    assert!(fresh.hikes.is_empty());
    assert_eq!(fresh.created_at, fresh.updated_at);
    assert!(!same_id(&fresh._id, &fresh.created_by_id));
}

#[test]
fn apply_rename_moves_stamp_forward() {
    let t = new_tracker("a".to_string(), id(1), id(2), 7);
    let r = apply_rename(t, "b".to_string(), 9);
    assert_eq!(r.name, "b");
    assert_eq!(r.created_at, 7);
    assert_eq!(r.updated_at, 9);
    assert!(same_id(&r._id, &id(1)));
    assert!(!same_id(&id(1), &id(2)));
}

#[test]
fn controls_keep_the_name_one_path_segment() {
    let t = new_tracker("a/b?c#d%e\"f".to_string(), id(1), id(2), 7);
    let shown = display_fragment(&t);
    assert!(shown.contains("hx-get=\"/tracker/a%2Fb%3Fc%23d%25e&quot;f/edit\""));
    assert!(shown.contains("<label>Name: </label>a/b?c#d%e&quot;f</div>"));
    let form = edit_fragment("x/y", "x/y", false);
    assert!(form.contains("hx-put=\"/tracker/x%2Fy\""));
    assert!(form.contains("hx-get=\"/tracker/x%2Fy\">Cancel"));
    assert!(form.contains("value=\"x/y\""));
}
