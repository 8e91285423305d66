//! The state machine of one enumeration: which page to ask for next and
//! what each page outcome changes.
use vstd::prelude::*;
use crate::page::{
    copy_opt, opt_view, outcome_events, page_events, Event, EventView, OutcomeView, PageOutcome, PageRequest,
    RequestView, events_view,
};

verus! {

/// Why an enumeration could not start.
#[derive(Clone, Copy, Debug, PartialEq, Eq)]
pub enum EnumerationError {
    /// No region could be resolved from the ambient configuration.
    Configuration,
}

/// Where an enumeration stands.
#[derive(Debug)]
pub enum Phase {
    /// A page is still to be requested, with this cursor (none for the first).
    Pending { cursor: Option<String> },
    /// Enumeration is over: no further request is issued.
    Done,
}

/// The model of a phase: cursors as character sequences.
pub ghost enum PhaseView {
    Pending { cursor: Option<Seq<char>> },
    Done,
}

/// One enumeration of the objects of a bucket, page by page.
#[derive(Debug)]
pub struct Enumerator {
    region: String,
    bucket: String,
    max_keys: i32,
    phase: Phase,
}

/// The model of an enumerator.
pub ghost struct EnumeratorView {
    pub region: Seq<char>,
    pub bucket: Seq<char>,
    pub max_keys: int,
    pub phase: PhaseView,
}

impl View for Phase {
    type V = PhaseView;

    open spec fn view(&self) -> PhaseView {
        match self {
            Phase::Pending { cursor } => PhaseView::Pending { cursor: opt_view(*cursor) },
            Phase::Done => PhaseView::Done,
        }
    }
}

impl View for Enumerator {
    type V = EnumeratorView;

    closed spec fn view(&self) -> EnumeratorView {
        EnumeratorView {
            region: self.region@,
            bucket: self.bucket@,
            max_keys: self.max_keys as int,
            phase: self.phase@,
        }
    }
}

/// The state before the first request: nothing asked yet, no cursor.
pub open spec fn initial(region: Seq<char>, bucket: Seq<char>, max_keys: int) -> EnumeratorView {
    EnumeratorView { region, bucket, max_keys, phase: PhaseView::Pending { cursor: None } }
}

pub open spec fn is_done(v: EnumeratorView) -> bool {
    v.phase is Done
}

/// The request issued from a state that is not done: the bucket, the page
/// bound, and the cursor that the previous response handed out.
pub open spec fn request_for(v: EnumeratorView) -> RequestView {
    RequestView {
        bucket: v.bucket,
        max_keys: v.max_keys,
        cursor: match v.phase {
            PhaseView::Pending { cursor } => cursor,
            PhaseView::Done => None,
        },
    }
}

/// The state after a page outcome. A listed page with a cursor leads to the
/// next page; a listed page without one, or a failure, ends enumeration.
/// Once done, the state no longer changes.
pub open spec fn after_page(v: EnumeratorView, outcome: OutcomeView) -> EnumeratorView {
    if is_done(v) {
        v
    } else {
        match outcome {
            OutcomeView::Listed { next_cursor: Some(c), .. } => EnumeratorView {
                phase: PhaseView::Pending { cursor: Some(c) },
                ..v
            },
            _ => EnumeratorView { phase: PhaseView::Done, ..v },
        }
    }
}

/// The events reported when a page outcome arrives in a state: none once done.
pub open spec fn events_after(v: EnumeratorView, outcome: OutcomeView) -> Seq<EventView> {
    if is_done(v) {
        Seq::empty()
    } else {
        page_events(outcome)
    }
}

pub open spec fn completion_text() -> Seq<char> {
    "Hello! You've been greeted from Rust!"@
}

/// The message returned to the caller once enumeration is over.
pub fn completion_message() -> (r: String)
    ensures
        r@ == completion_text(),
{
    proof {
        reveal_strlit("Hello! You've been greeted from Rust!");
    }
    "Hello! You've been greeted from Rust!".to_owned()
}

impl Enumerator {
    /// Starts an enumeration of `bucket`, at most `max_keys` objects a page,
    /// against the region that configuration resolved. Without a region it
    /// fails with a configuration error, before any request.
    pub fn new(region: Option<String>, bucket: String, max_keys: i32) -> (r: Result<Enumerator, EnumerationError>)
        requires
            max_keys >= 1,
        ensures
            region is None <==> r is Err,
            r is Err ==> r == Err::<Enumerator, EnumerationError>(EnumerationError::Configuration),
            r matches Ok(e) ==> e@ == initial(region->0@, bucket@, max_keys as int),
    {
        match region {
            Some(region) => Ok(Enumerator { region, bucket, max_keys, phase: Phase::Pending { cursor: None } }),
            None => Err(EnumerationError::Configuration),
        }
    }

    pub fn region(&self) -> (r: &String)
        ensures
            r@ == self@.region,
    {
        &self.region
    }

    pub fn bucket(&self) -> (r: &String)
        ensures
            r@ == self@.bucket,
    {
        &self.bucket
    }

    pub fn max_keys(&self) -> (r: i32)
        ensures
            r as int == self@.max_keys,
    {
        self.max_keys
    }

    pub fn is_done(&self) -> (r: bool)
        ensures
            r == is_done(self@),
    {
        match self.phase {
            Phase::Done => true,
            Phase::Pending { .. } => false,
        }
    }

    /// The request to issue next, or none once enumeration is over.
    pub fn next_request(&self) -> (r: Option<PageRequest>)
        ensures
            r is None <==> is_done(self@),
            r matches Some(q) ==> q@ == request_for(self@),
    {
        match &self.phase {
            Phase::Pending { cursor } => Some(
                PageRequest { bucket: self.bucket.clone(), max_keys: self.max_keys, cursor: copy_opt(cursor) },
            ),
            Phase::Done => None,
        }
    }

    /// Takes the outcome of the request last issued and returns the events
    /// it brings: each object's key in order (the sentinel where a key is
    /// missing), or the one failure. Continues with the response's cursor if
    /// it has one; otherwise enumeration is over. An outcome that arrives
    /// once enumeration is over changes nothing and reports nothing.
    pub fn on_page(&mut self, outcome: &PageOutcome) -> (r: Vec<Event>)
        ensures
            final(self)@ == after_page(old(self)@, outcome@),
            events_view(r@) == events_after(old(self)@, outcome@),
    {
        if self.is_done() {
            let r: Vec<Event> = Vec::new();
            assert(events_view(r@) =~= Seq::empty());
            return r;
        }
        let events = outcome_events(outcome);
        match outcome {
            PageOutcome::Listed { next_cursor: Some(c), .. } => {
                self.phase = Phase::Pending { cursor: Some(c.clone()) };
            },
            _ => {
                self.phase = Phase::Done;
            },
        }
        events
    }
}

} // verus!
