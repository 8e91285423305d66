//! Page requests, page outcomes and the events reported for them.
use vstd::prelude::*;

verus! {

/// What is reported for an object whose key is missing from a response.
pub open spec fn unknown_key() -> Seq<char> {
    "unknown"@
}

/// One request for a page of the listing.
#[derive(Debug)]
pub struct PageRequest {
    pub bucket: String,
    pub max_keys: i32,
    /// Continuation cursor handed out by the previous response; absent on
    /// the first request.
    pub cursor: Option<String>,
}

/// What came back for one page request.
#[derive(Debug)]
pub enum PageOutcome {
    /// The objects of the page, in order, each with its key if the response
    /// held one, and the cursor of the next page if there is one.
    Listed { keys: Vec<Option<String>>, next_cursor: Option<String> },
    /// The request failed; the description says why.
    Failed { description: String },
}

/// One observable event of an enumeration.
#[derive(Debug, PartialEq, Eq)]
pub enum Event {
    /// The key of one listed object, or the sentinel for a missing key.
    Key(String),
    /// A page request failed.
    PageFailure(String),
}

/// The model of a page request.
pub ghost struct RequestView {
    pub bucket: Seq<char>,
    pub max_keys: int,
    pub cursor: Option<Seq<char>>,
}

/// The model of a page outcome.
pub ghost enum OutcomeView {
    Listed { keys: Seq<Option<Seq<char>>>, next_cursor: Option<Seq<char>> },
    Failed { description: Seq<char> },
}

/// The model of an event.
pub ghost enum EventView {
    Key(Seq<char>),
    PageFailure(Seq<char>),
}

pub open spec fn opt_view(o: Option<String>) -> Option<Seq<char>> {
    match o {
        Some(s) => Some(s@),
        None => None,
    }
}

impl View for PageRequest {
    type V = RequestView;

    open spec fn view(&self) -> RequestView {
        RequestView { bucket: self.bucket@, max_keys: self.max_keys as int, cursor: opt_view(self.cursor) }
    }
}

impl View for PageOutcome {
    type V = OutcomeView;

    open spec fn view(&self) -> OutcomeView {
        match self {
            PageOutcome::Listed { keys, next_cursor } => OutcomeView::Listed {
                keys: keys@.map_values(|k: Option<String>| opt_view(k)),
                next_cursor: opt_view(*next_cursor),
            },
            PageOutcome::Failed { description } => OutcomeView::Failed { description: description@ },
        }
    }
}

impl View for Event {
    type V = EventView;

    open spec fn view(&self) -> EventView {
        match self {
            Event::Key(k) => EventView::Key(k@),
            Event::PageFailure(d) => EventView::PageFailure(d@),
        }
    }
}

/// The views of a sequence of events.
pub open spec fn events_view(events: Seq<Event>) -> Seq<EventView> {
    events.map_values(|e: Event| e@)
}

/// The key reported for an object: its own, or the sentinel where it has none.
pub open spec fn reported_key(key: Option<Seq<char>>) -> Seq<char> {
    match key {
        Some(k) => k,
        None => unknown_key(),
    }
}

/// The events reported for one page outcome: one per object, in order, or
/// one failure.
pub open spec fn page_events(outcome: OutcomeView) -> Seq<EventView> {
    match outcome {
        OutcomeView::Listed { keys, .. } => keys.map_values(|k: Option<Seq<char>>| EventView::Key(reported_key(k))),
        OutcomeView::Failed { description } => seq![EventView::PageFailure(description)],
    }
}

/// A copy of an optional string.
pub(crate) fn copy_opt(o: &Option<String>) -> (r: Option<String>)
    ensures
        opt_view(r) == opt_view(*o),
{
    match o {
        Some(s) => Some(s.clone()),
        None => None,
    }
}

/// The key to report for one object entry.
pub fn report_key(key: &Option<String>) -> (r: String)
    ensures
        r@ == reported_key(opt_view(*key)),
{
    match key {
        Some(k) => k.clone(),
        None => {
            proof {
                reveal_strlit("unknown");
            }
            "unknown".to_owned()
        },
    }
}

/// The events for one page outcome, in the order they are reported.
pub fn outcome_events(outcome: &PageOutcome) -> (r: Vec<Event>)
    ensures
        events_view(r@) == page_events(outcome@),
{
    let mut events: Vec<Event> = Vec::new();
    match outcome {
        PageOutcome::Listed { keys, .. } => {
            let ghost keys_view = keys@.map_values(|k: Option<String>| opt_view(k));
            let ghost want = page_events(outcome@);
            let mut i: usize = 0;
            while i < keys.len()
                invariant
                    i <= keys.len(),
                    keys_view == keys@.map_values(|k: Option<String>| opt_view(k)),
                    outcome@ == (OutcomeView::Listed { keys: keys_view, next_cursor: outcome@->next_cursor }),
                    want == page_events(outcome@),
                    want.len() == keys.len(),
                    events.len() == i,
                    forall|j: int| 0 <= j < i ==> #[trigger] events@[j]@ == want[j],
                decreases keys.len() - i,
            {
                let k = report_key(&keys[i]);
                assert(keys_view[i as int] == opt_view(keys@[i as int]));
                assert(want[i as int] == EventView::Key(reported_key(keys_view[i as int])));
                events.push(Event::Key(k));
                i = i + 1;
            }
            assert(events_view(events@) =~= want);
        },
        PageOutcome::Failed { description } => {
            events.push(Event::PageFailure(description.clone()));
            assert(events_view(events@) =~= page_events(outcome@));
        },
    }
    events
}

} // verus!
