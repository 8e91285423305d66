use bucket_lister::enumerator::{completion_message, EnumerationError, Enumerator};
use bucket_lister::page::{outcome_events, report_key, Event, PageOutcome, PageRequest};

fn start(bucket: &str, max_keys: i32) -> Enumerator {
    Enumerator::new(Some("ap-northeast-1".to_string()), bucket.to_string(), max_keys).unwrap()
}

fn listed(keys: &[&str], next: Option<&str>) -> PageOutcome {
    PageOutcome::Listed {
        keys: keys.iter().map(|k| Some(k.to_string())).collect(),
        next_cursor: next.map(|c| c.to_string()),
    }
}

fn key(k: &str) -> Event {
    Event::Key(k.to_string())
}

/// Serves `objects` at most `n` to a page, with cursor "c<k>" after page k,
/// answering whatever cursor the enumerator sends; returns the requests and
/// the events.
fn enumerate_listing(objects: &[&str], n: i32) -> (Vec<PageRequest>, Vec<Event>) {
    let mut e = start("bucket", n);
    let mut requests = Vec::new();
    let mut events = Vec::new();
    while let Some(req) = e.next_request() {
        let page: usize = match &req.cursor {
            None => 0,
            Some(c) => c[1..].parse::<usize>().unwrap() + 1,
        };
        let from = page * n as usize;
        let to = (from + n as usize).min(objects.len());
        let next = if to < objects.len() { Some(format!("c{}", page)) } else { None };
        let outcome = listed(&objects[from..to], next.as_deref());
        requests.push(req);
        events.extend(e.on_page(&outcome));
    }
    (requests, events)
}

#[test]
fn full_listing_takes_ceil_pages() {
    let objects = ["a", "b", "c", "d", "e"];
    for n in 1..=6 {
        let (requests, events) = enumerate_listing(&objects, n);
        let expected_pages = (objects.len() + n as usize - 1) / n as usize;
        assert_eq!(requests.len(), expected_pages);
        let keys: Vec<Event> = objects.iter().map(|k| key(k)).collect();
        assert_eq!(events, keys);
        for r in &requests {
            assert_eq!(r.bucket, "bucket");
            assert_eq!(r.max_keys, n);
        }
    }
}

#[test]
fn five_objects_two_to_a_page() {
    let (requests, events) = enumerate_listing(&["a", "b", "c", "d", "e"], 2);
    assert_eq!(requests.len(), 3);
    assert_eq!(events, vec![key("a"), key("b"), key("c"), key("d"), key("e")]);
}

#[test]
fn first_page_failure_ends_enumeration() {
    let mut e = start("bucket", 10);
    let req = e.next_request().unwrap();
    assert_eq!(req.cursor, None);
    let events = e.on_page(&PageOutcome::Failed { description: "access denied".to_string() });
    assert_eq!(events, vec![Event::PageFailure("access denied".to_string())]);
    assert!(e.is_done());
    assert!(e.next_request().is_none());
}

#[test]
fn missing_key_reports_sentinel_and_continues() {
    let mut e = start("bucket", 10);
    let outcome = PageOutcome::Listed {
        keys: vec![Some("a".to_string()), None, Some("c".to_string())],
        next_cursor: None,
    };
    let events = e.on_page(&outcome);
    assert_eq!(events, vec![key("a"), key("unknown"), key("c")]);
    assert!(e.is_done());
}

#[test]
fn report_key_sentinel() {
    assert_eq!(report_key(&None), "unknown");
    assert_eq!(report_key(&Some("photos/1.png".to_string())), "photos/1.png");
}

#[test]
fn empty_bucket_one_request() {
    let mut e = start("bucket", 10);
    let mut requests = 0;
    let mut events = Vec::new();
    while let Some(_req) = e.next_request() {
        requests += 1;
        events.extend(e.on_page(&listed(&[], None)));
    }
    assert_eq!(requests, 1);
    assert!(events.is_empty());
    assert!(e.is_done());
}

#[test]
fn three_page_cursor_chain() {
    let mut e = start("bucket", 2);
    let responses = [
        listed(&["a", "b"], Some("tok-1")),
        listed(&["c", "d"], Some("tok-2")),
        listed(&["e"], None),
    ];
    let mut cursors = Vec::new();
    let mut events = Vec::new();
    let mut i = 0;
    while let Some(req) = e.next_request() {
        cursors.push(req.cursor.clone());
        events.extend(e.on_page(&responses[i]));
        i += 1;
    }
    assert_eq!(cursors, vec![None, Some("tok-1".to_string()), Some("tok-2".to_string())]);
    assert_eq!(events, vec![key("a"), key("b"), key("c"), key("d"), key("e")]);
    assert!(e.is_done());
}

#[test]
fn interleaved_enumerations_keep_their_own_cursors() {
    let mut a = start("bucket-a", 1);
    let mut b = start("bucket-b", 1);
    let ra = a.next_request().unwrap();
    let rb = b.next_request().unwrap();
    assert_eq!((ra.bucket.as_str(), ra.cursor.clone()), ("bucket-a", None));
    assert_eq!((rb.bucket.as_str(), rb.cursor.clone()), ("bucket-b", None));
    a.on_page(&listed(&["a1"], Some("a-next")));
    b.on_page(&listed(&["b1"], Some("b-next")));
    let ra = a.next_request().unwrap();
    let rb = b.next_request().unwrap();
    assert_eq!((ra.bucket.as_str(), ra.cursor.as_deref()), ("bucket-a", Some("a-next")));
    assert_eq!((rb.bucket.as_str(), rb.cursor.as_deref()), ("bucket-b", Some("b-next")));
    assert_eq!(b.on_page(&listed(&["b2"], None)), vec![key("b2")]);
    assert!(b.is_done());
    assert!(!a.is_done());
    assert_eq!(a.next_request().unwrap().cursor.as_deref(), Some("a-next"));
}

#[test]
fn missing_region_is_configuration_error() {
    let r = Enumerator::new(None, "bucket".to_string(), 10);
    assert_eq!(r.unwrap_err(), EnumerationError::Configuration);
}

#[test]
fn new_keeps_parameters() {
    let e = start("t-bucket", 10);
    assert_eq!(e.region(), "ap-northeast-1");
    assert_eq!(e.bucket(), "t-bucket");
    assert_eq!(e.max_keys(), 10);
    assert!(!e.is_done());
    let req = e.next_request().unwrap();
    assert_eq!(req.bucket, "t-bucket");
    assert_eq!(req.max_keys, 10);
    assert_eq!(req.cursor, None);
}

#[test]
fn pages_after_done_are_ignored() {
    let mut e = start("bucket", 10);
    e.on_page(&listed(&["a"], None));
    assert!(e.is_done());
    assert!(e.on_page(&listed(&["b"], Some("x"))).is_empty());
    assert!(e.is_done());
    assert!(e.next_request().is_none());
}

#[test]
fn failure_outcome_events() {
    let events = outcome_events(&PageOutcome::Failed { description: "timeout".to_string() });
    assert_eq!(events, vec![Event::PageFailure("timeout".to_string())]);
}

#[test]
fn completion_message_text() {
    assert_eq!(completion_message(), "Hello! You've been greeted from Rust!");
}
