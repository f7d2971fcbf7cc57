//! Ordering events by when they happened, and picking the most recent ones.
use vstd::prelude::*;

use crate::k8s::Event;
use crate::logic::{event_summary_of, last_n, to_event_summary, truncate_to_last_n, RECENT_EVENTS};
use crate::types::{event_views, EventSummary, EventSummaryView};

verus! {

broadcast use vstd::seq_lib::group_to_multiset_ensures;

/// When an event counts as having happened: its last timestamp, else its creation
/// timestamp, else before every timestamp.
pub open spec fn event_time(ev: Event) -> int {
    match ev.last_timestamp {
        Some(t) => t as int,
        None => match ev.creation_timestamp {
            Some(c) => c as int,
            None => i64::MIN as int - 1,
        },
    }
}

/// `s` with `e` placed after every element that did not happen later than it (so events
/// of equal time keep their order).
pub open spec fn insert_by_time(s: Seq<Event>, e: Event) -> Seq<Event>
    decreases s.len(),
{
    if s.len() == 0 {
        seq![e]
    } else if event_time(s.last()) <= event_time(e) {
        s.push(e)
    } else {
        insert_by_time(s.drop_last(), e).push(s.last())
    }
}

/// `s` ordered from oldest to newest; events of equal time keep their order.
pub open spec fn sort_by_time(s: Seq<Event>) -> Seq<Event>
    decreases s.len(),
{
    if s.len() == 0 {
        Seq::empty()
    } else {
        insert_by_time(sort_by_time(s.drop_last()), s.last())
    }
}

/// Ordered from oldest to newest.
pub open spec fn ordered_by_time(s: Seq<Event>) -> bool {
    forall|i: int, j: int| 0 <= i < j < s.len() ==> event_time(#[trigger] s[i]) <= event_time(#[trigger] s[j])
}

/// The summaries of the five most recent of `evs` (all when fewer), oldest first.
pub open spec fn recent_views(evs: Seq<Event>) -> Seq<EventSummaryView> {
    last_n(sort_by_time(evs).map_values(|e: Event| event_summary_of(e)), RECENT_EVENTS as nat)
}

/// The events that `idx` points at, in the order of `idx`.
pub open spec fn pick(events: Seq<Event>, idx: Seq<usize>) -> Seq<Event> {
    idx.map_values(|i: usize| events[i as int])
}

/// Inserting by time keeps an ordered list ordered, and adds exactly the new event.
pub proof fn lemma_insert_by_time(s: Seq<Event>, e: Event)
    requires
        ordered_by_time(s),
    ensures
        ordered_by_time(insert_by_time(s, e)),
        insert_by_time(s, e).to_multiset() == s.to_multiset().insert(e),
    decreases s.len(),
{
    if s.len() == 0 {
        assert(seq![e] =~= Seq::<Event>::empty().push(e));
    } else if event_time(s.last()) <= event_time(e) {
        assert(s =~= s.drop_last().push(s.last()));
    } else {
        let d = s.drop_last();
        let r1 = insert_by_time(d, e);
        lemma_insert_by_time(d, e);
        assert(s =~= d.push(s.last()));
        assert(r1.to_multiset() == d.to_multiset().insert(e));
        assert(insert_by_time(s, e).to_multiset() =~= s.to_multiset().insert(e));
        let r = r1.push(s.last());
        assert forall|i: int, j: int| 0 <= i < j < r.len() implies event_time(#[trigger] r[i]) <= event_time(
            #[trigger] r[j],
        ) by {
            if j == r.len() - 1 {
                let x = r1[i];
                assert(r1.to_multiset().count(x) > 0);
                if x != e {
                    assert(d.to_multiset().count(x) > 0);
                    assert(d.contains(x));
                    let k = choose|k: int| 0 <= k < d.len() && d[k] == x;
                    assert(s[k] == x);
                }
            } else {
                assert(r[i] == r1[i]);
                assert(r[j] == r1[j]);
            }
        }
    }
}

/// Sorting by time orders the events from oldest to newest and keeps every event.
pub proof fn lemma_sort_by_time(s: Seq<Event>)
    ensures
        ordered_by_time(sort_by_time(s)),
        sort_by_time(s).to_multiset() == s.to_multiset(),
    decreases s.len(),
{
    if s.len() == 0 {
        assert(s =~= Seq::<Event>::empty());
    } else {
        lemma_sort_by_time(s.drop_last());
        lemma_insert_by_time(sort_by_time(s.drop_last()), s.last());
        assert(s =~= s.drop_last().push(s.last()));
    }
}

/// Inserting `e` at `p`, where everything from `p` on happened later than `e` and the
/// element before `p` did not, is inserting by time.
proof fn lemma_insert_at(s: Seq<Event>, e: Event, p: int)
    requires
        0 <= p <= s.len(),
        p > 0 ==> event_time(s[p - 1]) <= event_time(e),
        forall|q: int| p <= q < s.len() ==> event_time(#[trigger] s[q]) > event_time(e),
    ensures
        insert_by_time(s, e) == s.insert(p, e),
    decreases s.len(),
{
    if s.len() == 0 {
        assert(s.insert(p, e) =~= seq![e]);
    } else if event_time(s.last()) <= event_time(e) {
        assert(s.insert(p, e) =~= s.push(e));
    } else {
        let d = s.drop_last();
        lemma_insert_at(d, e, p);
        assert(s.insert(p, e) =~= d.insert(p, e).push(s.last()));
    }
}

/// The moment an event counts as having happened (see `event_time`).
pub fn event_time_of(ev: &Event) -> (r: i128)
    ensures
        r == event_time(*ev),
{
    match ev.last_timestamp {
        Some(t) => t as i128,
        None => match ev.creation_timestamp {
            Some(c) => c as i128,
            None => i64::MIN as i128 - 1,
        },
    }
}

/// The summaries of the five most recent of the events that `idx` points at, oldest first.
pub fn recent_summaries(events: &Vec<Event>, idx: &Vec<usize>) -> (r: Vec<EventSummary>)
    requires
        forall|k: int| 0 <= k < idx@.len() ==> #[trigger] idx@[k] < events@.len(),
    ensures
        event_views(r@) == recent_views(pick(events@, idx@)),
{
    let mut order: Vec<usize> = Vec::new();
    let mut j: usize = 0;
    while j < idx.len()
        invariant
            j <= idx@.len(),
            forall|k: int| 0 <= k < idx@.len() ==> #[trigger] idx@[k] < events@.len(),
            forall|k: int| 0 <= k < order@.len() ==> #[trigger] order@[k] < events@.len(),
            pick(events@, order@) == sort_by_time(pick(events@, idx@.take(j as int))),
        decreases idx@.len() - j,
    {
        let x = idx[j];
        let t = event_time_of(&events[x]);
        let ghost s = pick(events@, order@);
        let ghost e = events@[x as int];
        let mut p: usize = order.len();
        while p > 0 && event_time_of(&events[order[p - 1]]) > t
            invariant
                p <= order@.len(),
                s == pick(events@, order@),
                t == event_time(e),
                forall|k: int| 0 <= k < order@.len() ==> #[trigger] order@[k] < events@.len(),
                forall|q: int| p <= q < s.len() ==> event_time(#[trigger] s[q]) > t,
            decreases p,
        {
            p = p - 1;
        }
        proof {
            lemma_insert_at(s, e, p as int);
            let taken = pick(events@, idx@.take(j + 1));
            assert(taken.drop_last() =~= pick(events@, idx@.take(j as int)));
            assert(taken.last() == e);
        }
        order.insert(p, x);
        proof {
            assert(pick(events@, order@) =~= s.insert(p as int, e));
        }
        j = j + 1;
    }
    assert(idx@.take(j as int) =~= idx@);
    let mut r: Vec<EventSummary> = Vec::new();
    let mut i: usize = 0;
    while i < order.len()
        invariant
            i <= order@.len(),
            forall|k: int| 0 <= k < order@.len() ==> #[trigger] order@[k] < events@.len(),
            event_views(r@) =~= pick(events@, order@).take(i as int).map_values(
                |e: Event| event_summary_of(e),
            ),
        decreases order@.len() - i,
    {
        let s = to_event_summary(&events[order[i]]);
        let ghost before = r@;
        r.push(s);
        proof {
            assert(event_views(r@) =~= event_views(before).push(s@));
            assert(pick(events@, order@).take(i + 1) =~= pick(events@, order@).take(i as int).push(
                events@[order@[i as int] as int],
            ));
        }
        i = i + 1;
    }
    assert(pick(events@, order@).take(i as int) =~= pick(events@, order@));
    let ghost all = r@;
    truncate_to_last_n(&mut r, RECENT_EVENTS);
    assert(event_views(r@) =~= last_n(event_views(all), RECENT_EVENTS as nat));
    r
}

} // verus!
