use lol_scrim_exporter::decode::RemoteError;
use lol_scrim_exporter::pagination::{
    paging_after, sync_once, PageFetch, Paging, RemotePage, PAGE_SIZE, RUN_INTERVAL_SECONDS,
    SERIES_TYPE,
};
use lol_scrim_exporter::remote::{PageInfo, SeriesNode, TeamInfo};
use lol_scrim_exporter::store::Store;
use lol_scrim_exporter::sync::RemoteSeries;

fn item(id: &str) -> RemoteSeries {
    RemoteSeries {
        node: SeriesNode {
            id: id.to_string(),
            finished: false,
            start_time_scheduled: None,
            teams: vec![TeamInfo { base_info: None }, TeamInfo { base_info: None }],
        },
        scores: None,
        summary: None,
        event_log: None,
    }
}

fn page(ids: &[&str], has_next_page: bool, cursor: Option<&str>) -> PageFetch {
    PageFetch::Page(RemotePage {
        items: ids.iter().map(|id| item(id)).collect(),
        page_info: PageInfo { has_next_page, end_cursor: cursor.map(|c| c.to_string()) },
    })
}

fn stored(store: &Store) -> Vec<String> {
    store.series.iter().map(|s| s.series_id.clone()).collect()
}

#[test]
fn page_without_a_next_page_ends_the_run_whatever_its_cursor() {
    let with_cursor = PageInfo { has_next_page: false, end_cursor: Some("abc".to_string()) };
    assert!(matches!(paging_after(&with_cursor), Paging::Done));
    let without = PageInfo { has_next_page: false, end_cursor: None };
    assert!(matches!(paging_after(&without), Paging::Done));
}

#[test]
fn page_with_a_next_page_hands_on_its_cursor() {
    let info = PageInfo { has_next_page: true, end_cursor: Some("abc".to_string()) };
    match paging_after(&info) {
        Paging::Next { after } => assert_eq!(after.as_deref(), Some("abc")),
        Paging::Done => panic!("the listing goes on"),
    }
    let no_cursor = PageInfo { has_next_page: true, end_cursor: None };
    assert!(matches!(paging_after(&no_cursor), Paging::Next { after: None }));
}

#[test]
fn run_reads_pages_up_to_the_last() {
    let mut store = Store::new();
    let fetches = vec![
        page(&["a", "b"], true, Some("c1")),
        page(&["c"], true, Some("c2")),
        page(&["d", "a"], false, Some("c3")),
        page(&["never"], false, None),
        PageFetch::Failed(RemoteError::MaxRetries),
    ];
    assert!(matches!(sync_once(&mut store, &fetches), Ok(4)));
    assert_eq!(stored(&store), vec!["a", "b", "c", "d"]);
}

#[test]
fn run_over_no_pages_inserts_nothing() {
    let mut store = Store::new();
    assert!(matches!(sync_once(&mut store, &Vec::new()), Ok(0)));
    assert!(store.series.is_empty());
}

#[test]
fn run_that_runs_out_of_pages_reports_what_it_inserted() {
    let mut store = Store::new();
    let fetches = vec![page(&["a"], true, Some("c1")), page(&["b"], true, Some("c2"))];
    assert!(matches!(sync_once(&mut store, &fetches), Ok(2)));
}

#[test]
fn page_that_could_not_be_had_aborts_the_run() {
    let mut store = Store::new();
    let fetches = vec![
        page(&["a", "b"], true, Some("c1")),
        PageFetch::Failed(RemoteError::Reported("rate limit, again".to_string())),
        page(&["c"], false, None),
    ];
    match sync_once(&mut store, &fetches) {
        Err(RemoteError::Reported(message)) => assert_eq!(message, "rate limit, again"),
        other => panic!("unexpected result {:?}", other),
    }
    assert_eq!(stored(&store), vec!["a", "b"]);
    let mut fresh = Store::new();
    assert!(matches!(
        sync_once(&mut fresh, &vec![PageFetch::Failed(RemoteError::MaxRetries)]),
        Err(RemoteError::MaxRetries)
    ));
    assert!(fresh.series.is_empty());
}

#[test]
fn second_run_over_an_unchanged_listing_inserts_nothing() {
    let mut store = Store::new();
    let fetches = vec![page(&["a", "b"], true, Some("c1")), page(&["c"], false, None)];
    assert!(matches!(sync_once(&mut store, &fetches), Ok(3)));
    let first = format!("{:?}", store);
    assert!(matches!(sync_once(&mut store, &fetches), Ok(0)));
    assert_eq!(format!("{:?}", store), first);
}

#[test]
fn listing_is_asked_for_in_pages_of_fifty_scrims() {
    assert_eq!(PAGE_SIZE, 50);
    assert_eq!(SERIES_TYPE, "SCRIM");
    assert_eq!(RUN_INTERVAL_SECONDS, 600);
}
