//! What holds of whole enumerations: the run of an enumerator over the page
//! outcomes that the service hands back, one per request, and the laws that
//! follow from the state machine.
use vstd::prelude::*;
use crate::page::{page_events, EventView, OutcomeView, RequestView};
use crate::enumerator::{after_page, initial, is_done, request_for, EnumeratorView, PhaseView};

verus! {

/// The observable record of an enumeration: the requests issued, the events
/// reported, and the state reached.
pub ghost struct Trace {
    pub requests: Seq<RequestView>,
    pub events: Seq<EventView>,
    pub last: EnumeratorView,
}

pub open spec fn empty_trace(v: EnumeratorView) -> Trace {
    Trace { requests: Seq::empty(), events: Seq::empty(), last: v }
}

/// The trace of one step from `v` with `outcome`, followed by `rest`: a state
/// that is done issues no request and reports nothing.
pub open spec fn prepend_step(v: EnumeratorView, outcome: OutcomeView, rest: Trace) -> Trace {
    if is_done(v) {
        rest
    } else {
        Trace {
            requests: seq![request_for(v)] + rest.requests,
            events: page_events(outcome) + rest.events,
            last: rest.last,
        }
    }
}

/// The trace of an enumerator from `v` when the `i`-th request it issues is
/// answered by `outcomes[i]`.
pub open spec fn run(v: EnumeratorView, outcomes: Seq<OutcomeView>) -> Trace
    decreases outcomes.len(),
{
    if outcomes.len() == 0 {
        empty_trace(v)
    } else {
        prepend_step(v, outcomes[0], run(after_page(v, outcomes[0]), outcomes.drop_first()))
    }
}

/// A finished enumeration issues nothing more, whatever arrives.
pub proof fn lemma_run_done(v: EnumeratorView, outcomes: Seq<OutcomeView>)
    requires
        is_done(v),
    ensures
        run(v, outcomes) == empty_trace(v),
    decreases outcomes.len(),
{
    if outcomes.len() > 0 {
        lemma_run_done(after_page(v, outcomes[0]), outcomes.drop_first());
    }
}

/// If the first page fails, exactly one request is issued, exactly one
/// failure is reported, and the enumeration is over.
pub proof fn law_first_page_failure(v: EnumeratorView, outcomes: Seq<OutcomeView>)
    requires
        !is_done(v),
        outcomes.len() >= 1,
        outcomes[0] is Failed,
    ensures
        run(v, outcomes).requests == seq![request_for(v)],
        run(v, outcomes).events == seq![EventView::PageFailure(outcomes[0]->description)],
        is_done(run(v, outcomes).last),
{
    lemma_run_done(after_page(v, outcomes[0]), outcomes.drop_first());
    assert(run(v, outcomes).requests =~= seq![request_for(v)]);
    assert(run(v, outcomes).events =~= seq![EventView::PageFailure(outcomes[0]->description)]);
}

/// If the first page lists no object and hands out no cursor, exactly one
/// request is issued, nothing is reported, and the enumeration is over.
pub proof fn law_empty_bucket(v: EnumeratorView, outcomes: Seq<OutcomeView>)
    requires
        !is_done(v),
        outcomes.len() >= 1,
        outcomes[0] == (OutcomeView::Listed { keys: Seq::empty(), next_cursor: None }),
    ensures
        run(v, outcomes).requests == seq![request_for(v)],
        run(v, outcomes).events == Seq::<EventView>::empty(),
        is_done(run(v, outcomes).last),
{
    lemma_run_done(after_page(v, outcomes[0]), outcomes.drop_first());
    assert(page_events(outcomes[0]) =~= Seq::<EventView>::empty());
    assert(run(v, outcomes).requests =~= seq![request_for(v)]);
    assert(run(v, outcomes).events =~= Seq::<EventView>::empty());
}

/// Cursor chaining: every request goes to the enumerator's own bucket with
/// its own page bound; the first carries the cursor of the starting state,
/// and each later one carries exactly the cursor that the previous response
/// handed out, which was a listed page. At most one request is issued per
/// outcome.
pub proof fn law_cursor_chain(v: EnumeratorView, outcomes: Seq<OutcomeView>)
    requires
        !is_done(v),
        outcomes.len() >= 1,
    ensures
        run(v, outcomes).requests.len() >= 1,
        run(v, outcomes).requests.len() <= outcomes.len(),
        run(v, outcomes).requests[0] == request_for(v),
        forall|k: int| 0 <= k < run(v, outcomes).requests.len() ==> {
            &&& (#[trigger] run(v, outcomes).requests[k]).bucket == v.bucket
            &&& run(v, outcomes).requests[k].max_keys == v.max_keys
        },
        forall|k: int| 0 <= k < run(v, outcomes).requests.len() - 1 ==> {
            &&& outcomes[k] is Listed
            &&& (#[trigger] run(v, outcomes).requests[k + 1]).cursor == outcomes[k]->next_cursor
        },
    decreases outcomes.len(),
{
    let o = outcomes[0];
    let v1 = after_page(v, o);
    let rest = outcomes.drop_first();
    let t = run(v, outcomes);
    let r = run(v1, rest);
    assert(t.requests == seq![request_for(v)] + r.requests);
    if is_done(v1) || rest.len() == 0 {
        if is_done(v1) {
            lemma_run_done(v1, rest);
        }
        assert(t.requests =~= seq![request_for(v)]);
    } else {
        law_cursor_chain(v1, rest);
        assert forall|k: int| 0 <= k < t.requests.len() - 1 implies {
            &&& outcomes[k] is Listed
            &&& (#[trigger] t.requests[k + 1]).cursor == outcomes[k]->next_cursor
        } by {
            if k > 0 {
                assert(t.requests[k + 1] == r.requests[k]);
                assert(rest[k - 1] == outcomes[k]);
            }
        }
        assert forall|k: int| 0 <= k < t.requests.len() implies {
            &&& (#[trigger] t.requests[k]).bucket == v.bucket
            &&& t.requests[k].max_keys == v.max_keys
        } by {
            if k > 0 {
                assert(t.requests[k] == r.requests[k - 1]);
            }
        }
    }
}

/// The outcomes of `tagged` that belong to one side (`true` for the first
/// enumeration, `false` for the second), in order.
pub open spec fn own_outcomes(tagged: Seq<(bool, OutcomeView)>, side: bool) -> Seq<OutcomeView>
    decreases tagged.len(),
{
    if tagged.len() == 0 {
        Seq::empty()
    } else if tagged[0].0 == side {
        seq![tagged[0].1] + own_outcomes(tagged.drop_first(), side)
    } else {
        own_outcomes(tagged.drop_first(), side)
    }
}

/// Two enumerations run side by side: each entry of `tagged` answers the
/// pending request of the first (`true`) or of the second (`false`).
pub open spec fn run_pair(a: EnumeratorView, b: EnumeratorView, tagged: Seq<(bool, OutcomeView)>) -> (
    Trace,
    Trace,
)
    decreases tagged.len(),
{
    if tagged.len() == 0 {
        (empty_trace(a), empty_trace(b))
    } else {
        let o = tagged[0].1;
        if tagged[0].0 {
            let (ta, tb) = run_pair(after_page(a, o), b, tagged.drop_first());
            (prepend_step(a, o, ta), tb)
        } else {
            let (ta, tb) = run_pair(a, after_page(b, o), tagged.drop_first());
            (ta, prepend_step(b, o, tb))
        }
    }
}

/// Independent enumerations: however the pages of two enumerations
/// interleave, each issues the requests, follows the cursors and reports the
/// events that it would alone on its own pages.
pub proof fn law_independent_runs(a: EnumeratorView, b: EnumeratorView, tagged: Seq<(bool, OutcomeView)>)
    ensures
        run_pair(a, b, tagged).0 == run(a, own_outcomes(tagged, true)),
        run_pair(a, b, tagged).1 == run(b, own_outcomes(tagged, false)),
    decreases tagged.len(),
{
    if tagged.len() > 0 {
        let o = tagged[0].1;
        let rest = tagged.drop_first();
        if tagged[0].0 {
            law_independent_runs(after_page(a, o), b, rest);
            assert((seq![o] + own_outcomes(rest, true)).drop_first() =~= own_outcomes(rest, true));
        } else {
            law_independent_runs(a, after_page(b, o), rest);
            assert((seq![o] + own_outcomes(rest, false)).drop_first() =~= own_outcomes(rest, false));
        }
    }
}

/// The number of pages of `total` objects at most `n` to a page, for a
/// listing that is not empty.
pub open spec fn page_count(total: int, n: int) -> int {
    (total + n - 1) / n
}

/// Page `k` of `objects` served `n` at a time: the objects from `k * n` on,
/// and a cursor out of `tokens` while objects remain after it.
pub open spec fn listing_page(objects: Seq<Seq<char>>, n: int, tokens: Seq<Seq<char>>, k: int) -> OutcomeView {
    let more = (k + 1) * n < objects.len();
    let end = if more { (k + 1) * n } else { objects.len() as int };
    OutcomeView::Listed {
        keys: objects.subrange(k * n, end).map_values(|o: Seq<char>| Some(o)),
        next_cursor: if more { Some(tokens[k]) } else { None },
    }
}

/// The responses of a service that never fails and serves `objects` in
/// pages of at most `n`.
pub open spec fn listing_pages(objects: Seq<Seq<char>>, n: int, tokens: Seq<Seq<char>>) -> Seq<OutcomeView> {
    Seq::new(page_count(objects.len() as int, n) as nat, |k: int| listing_page(objects, n, tokens, k))
}

pub open spec fn key_events(objects: Seq<Seq<char>>) -> Seq<EventView> {
    objects.map_values(|o: Seq<char>| EventView::Key(o))
}

proof fn lemma_page_count_positive(total: int, n: int)
    requires
        total >= 1,
        n >= 1,
    ensures
        page_count(total, n) >= 1,
{
    let p = page_count(total, n);
    vstd::arithmetic::div_mod::lemma_fundamental_div_mod(total + n - 1, n);
    assert(n * p > 0);
    assert(p >= 1) by (nonlinear_arith)
        requires
            n * p > 0,
            n >= 1,
    ;
}

proof fn lemma_page_bounds(total: int, n: int, k: int)
    requires
        total >= 1,
        n >= 1,
        0 <= k < page_count(total, n),
    ensures
        page_count(total, n) >= 1,
        0 <= k * n < total,
        k + 1 < page_count(total, n) ==> (k + 1) * n < total,
        k + 1 == page_count(total, n) ==> (k + 1) * n >= total,
        (k + 1) * n == k * n + n,
{
    assert((k + 1) * n == k * n + n) by (nonlinear_arith);
    let p = page_count(total, n);
    vstd::arithmetic::div_mod::lemma_fundamental_div_mod(total + n - 1, n);
    let r = (total + n - 1) % n;
    assert(total + n - 1 == n * p + r);
    assert(0 <= r < n);
    assert(0 <= k * n) by (nonlinear_arith)
        requires
            0 <= k,
            n >= 1,
    ;
    assert(k * n <= (p - 1) * n) by (nonlinear_arith)
        requires
            k <= p - 1,
            n >= 1,
    ;
    assert((p - 1) * n == n * p - n) by (nonlinear_arith);
    if k + 1 < p {
        assert((k + 1) * n <= (p - 1) * n) by (nonlinear_arith)
            requires
                k + 1 <= p - 1,
                n >= 1,
        ;
    }
    if k + 1 == p {
        assert((k + 1) * n == n * p) by (nonlinear_arith)
            requires
                k + 1 == p,
        ;
    }
}

proof fn lemma_listing_from(
    w: EnumeratorView,
    objects: Seq<Seq<char>>,
    n: int,
    tokens: Seq<Seq<char>>,
    k: int,
)
    requires
        !is_done(w),
        objects.len() >= 1,
        n >= 1,
        tokens.len() >= page_count(objects.len() as int, n) - 1,
        0 <= k < page_count(objects.len() as int, n),
    ensures
        ({
            let p = page_count(objects.len() as int, n);
            let t = run(w, listing_pages(objects, n, tokens).subrange(k, p));
            &&& t.requests.len() == p - k
            &&& t.events == key_events(objects.subrange(k * n, objects.len() as int))
            &&& is_done(t.last)
        }),
    decreases page_count(objects.len() as int, n) - k,
{
    let total = objects.len() as int;
    let p = page_count(total, n);
    let pages = listing_pages(objects, n, tokens);
    let s = pages.subrange(k, p);
    lemma_page_bounds(total, n, k);
    let page = listing_page(objects, n, tokens, k);
    assert(s[0] == page);
    let w1 = after_page(w, page);
    let t = run(w, s);
    let r = run(w1, s.drop_first());
    assert(t == prepend_step(w, page, r));
    let end = if k + 1 < p { (k + 1) * n } else { total };
    let keys = objects.subrange(k * n, end).map_values(|o: Seq<char>| Some(o));
    assert(page_events(page) =~= key_events(objects.subrange(k * n, end)));
    if k + 1 < p {
        assert(s.drop_first() =~= pages.subrange(k + 1, p));
        lemma_listing_from(w1, objects, n, tokens, k + 1);
        let head = objects.subrange(k * n, end);
        let tail = objects.subrange(end, total);
        assert(head + tail =~= objects.subrange(k * n, total));
        assert(key_events(head) + key_events(tail) =~= key_events(head + tail));
    } else {
        assert(s.drop_first().len() == 0);
        assert(r == empty_trace(w1));
        assert(t.requests =~= seq![request_for(w)]);
        assert(t.events =~= key_events(objects.subrange(k * n, total)));
    }
}

/// Against a service that never fails and serves a non-empty listing of
/// `objects` at most `n` to a page, handing out cursors from `tokens`, an
/// enumeration started with page bound `n` issues ceil(len / n) requests,
/// reports every key once, in the order of the listing, and ends.
pub proof fn law_full_listing(
    region: Seq<char>,
    bucket: Seq<char>,
    objects: Seq<Seq<char>>,
    n: int,
    tokens: Seq<Seq<char>>,
)
    requires
        objects.len() >= 1,
        n >= 1,
        tokens.len() >= page_count(objects.len() as int, n) - 1,
    ensures
        ({
            let t = run(initial(region, bucket, n), listing_pages(objects, n, tokens));
            &&& t.requests.len() == page_count(objects.len() as int, n)
            &&& t.events == key_events(objects)
            &&& is_done(t.last)
        }),
{
    let p = page_count(objects.len() as int, n);
    lemma_page_count_positive(objects.len() as int, n);
    let pages = listing_pages(objects, n, tokens);
    assert(pages.subrange(0, p) =~= pages);
    assert(objects.subrange(0 * n, objects.len() as int) =~= objects);
    lemma_listing_from(initial(region, bucket, n), objects, n, tokens, 0);
}

} // verus!
