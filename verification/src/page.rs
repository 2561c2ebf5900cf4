//! The pagination policy: draining a server-paged, single-pass member
//! list into a finite in-memory sequence.
//!
//! A page source yields one [`PageEvent`] per request: a record, an
//! explicit end-of-sequence signal, or a failure.  The drain policy
//! keeps every record seen before the first non-record event and stops
//! there: an end signal terminates normally, and a failure aborts
//! pagination immediately, returning everything accumulated so far.
//! The total count a source reports up front is a progress hint only
//! and never decides termination, since such counts may be stale.

use vstd::prelude::*;

use crate::member::{same_records, MemberRecord};

verus! {

/// One answer from a page source: the next record, the end of the
/// sequence, or a per-element failure.
#[derive(Debug)]
pub enum PageEvent {
    Item(MemberRecord),
    End,
    Fail,
}

/// The records a drain keeps: every item before the first event that is
/// not an item.
pub open spec fn spec_drain(events: Seq<PageEvent>) -> Seq<MemberRecord>
    decreases events.len(),
{
    if events.len() == 0 {
        Seq::empty()
    } else {
        match events[0] {
            PageEvent::Item(m) => seq![m] + spec_drain(events.drop_first()),
            PageEvent::End => Seq::empty(),
            PageEvent::Fail => Seq::empty(),
        }
    }
}

/// Whether pagination goes on after this event: only a record keeps the
/// drain running; an end signal or a failure stops it.
pub fn keeps_going(event: &PageEvent) -> (r: bool)
    ensures
        r == (*event is Item),
{
    match event {
        PageEvent::Item(_) => true,
        PageEvent::End => false,
        PageEvent::Fail => false,
    }
}

/// Drains a page source whose answers arrived as `events`: returns the
/// content of every record before the first end signal or failure, in
/// page order.
pub fn drain(events: &Vec<PageEvent>) -> (records: Vec<MemberRecord>)
    ensures
        same_records(records@, spec_drain(events@)),
{
    let mut records: Vec<MemberRecord> = Vec::new();
    let mut i: usize = 0;
    proof {
        assert(events@.subrange(0, events@.len() as int) =~= events@);
        assert(spec_drain(events@).skip(0) =~= spec_drain(events@));
    }
    loop
        invariant_except_break
            i <= events@.len(),
            spec_drain(events@.subrange(i as int, events@.len() as int)) == spec_drain(
                events@,
            ).skip(i as int),
            spec_drain(events@).len() >= i,
            records@.len() == i,
            forall|j: int| 0 <= j < i ==> records@[j]@ == spec_drain(events@)[j]@,
        ensures
            same_records(records@, spec_drain(events@)),
        decreases events@.len() - i,
    {
        if i >= events.len() {
            proof {
                assert(events@.subrange(i as int, events@.len() as int) =~= Seq::<
                    PageEvent,
                >::empty());
                assert(spec_drain(Seq::<PageEvent>::empty()) =~= Seq::<MemberRecord>::empty());
                assert(spec_drain(events@).len() == i);
            }
            break ;
        }
        proof {
            lemma_drain_unfolds(events@, i as int);
        }
        match &events[i] {
            PageEvent::Item(m) => {
                records.push(m.clone());
            },
            PageEvent::End => {
                break ;
            },
            PageEvent::Fail => {
                break ;
            },
        }
        i += 1;
    }
    records
}

/// Unfolding fact for one drain step: past `i` leading items, the rest
/// of the drained sequence is decided by the events from `i` on.
proof fn lemma_drain_unfolds(events: Seq<PageEvent>, i: int)
    requires
        0 <= i < events.len(),
        spec_drain(events).len() >= i,
        spec_drain(events.subrange(i, events.len() as int)) == spec_drain(events).skip(i),
    ensures
        events[i] is Item ==> {
            &&& spec_drain(events).len() > i
            &&& spec_drain(events)[i] == events[i]->0
            &&& spec_drain(events.subrange(i + 1, events.len() as int)) == spec_drain(events).skip(
                i + 1,
            )
        },
        !(events[i] is Item) ==> spec_drain(events).len() == i,
{
    let tail = events.subrange(i, events.len() as int);
    assert(tail[0] == events[i]);
    match events[i] {
        PageEvent::Item(m) => {
            let d = spec_drain(events);
            let rest = spec_drain(tail.drop_first());
            assert(tail.drop_first() =~= events.subrange(i + 1, events.len() as int));
            assert(spec_drain(tail) == seq![m] + rest);
            assert(d.skip(i).len() == 1 + rest.len());
            assert(d.skip(i).len() == d.len() - i);
            assert(d.len() == i + 1 + rest.len());
            assert(d.skip(i)[0] == d[i]);
            assert((seq![m] + rest)[0] == m);
            assert(d[i] == m);
            assert(rest =~= d.skip(i + 1)) by {
                assert forall|j: int| 0 <= j < rest.len() implies rest[j] == d.skip(i + 1)[j] by {
                    assert(rest[j] == (seq![m] + rest)[j + 1]);
                    assert(d.skip(i)[j + 1] == d[i + 1 + j]);
                    assert(d.skip(i + 1)[j] == d[i + 1 + j]);
                }
            }
        },
        PageEvent::End => {
            assert(spec_drain(tail).len() == 0);
            assert(spec_drain(events).skip(i).len() == spec_drain(events).len() - i);
        },
        PageEvent::Fail => {
            assert(spec_drain(tail).len() == 0);
            assert(spec_drain(events).skip(i).len() == spec_drain(events).len() - i);
        },
    }
}

/// Stale-count robustness: when a source reports `total` elements but
/// signals end-of-sequence after `k` records, a drain returns exactly
/// those `k` records, whatever the reported total said.
pub proof fn lemma_drain_stops_at_end(events: Seq<PageEvent>, k: int, total: int)
    requires
        0 <= k < events.len(),
        events[k] is End,
        forall|i: int| 0 <= i < k ==> events[i] is Item,
        k < total,
    ensures
        spec_drain(events).len() == k,
        forall|i: int| 0 <= i < k ==> spec_drain(events)[i] == events[i]->0,
    decreases k,
{
    lemma_drain_prefix_of_items(events, k);
}

/// Failure robustness: when a source fails at position `k` after `k`
/// successfully retrieved records, a drain returns exactly those `k`
/// records — not zero, and not the reported total.
pub proof fn lemma_drain_stops_at_failure(events: Seq<PageEvent>, k: int)
    requires
        0 <= k < events.len(),
        events[k] is Fail,
        forall|i: int| 0 <= i < k ==> events[i] is Item,
    ensures
        spec_drain(events).len() == k,
        forall|i: int| 0 <= i < k ==> spec_drain(events)[i] == events[i]->0,
{
    lemma_drain_prefix_of_items(events, k);
}

/// A drain over `k` leading items and then any non-item event returns
/// exactly the `k` item records, in page order.
proof fn lemma_drain_prefix_of_items(events: Seq<PageEvent>, k: int)
    requires
        0 <= k < events.len(),
        !(events[k] is Item),
        forall|i: int| 0 <= i < k ==> events[i] is Item,
    ensures
        spec_drain(events).len() == k,
        forall|i: int| 0 <= i < k ==> spec_drain(events)[i] == events[i]->0,
    decreases k,
{
    if k == 0 {
        assert(spec_drain(events).len() == 0);
    } else {
        let rest = events.drop_first();
        assert(events[0] is Item);
        assert(rest[k - 1] == events[k]);
        assert(forall|i: int| 0 <= i < k - 1 ==> rest[i] == events[i + 1] && events[i + 1] is Item);
        lemma_drain_prefix_of_items(rest, k - 1);
        assert(spec_drain(events) == seq![events[0]->0] + spec_drain(rest));
        assert(forall|i: int| 1 <= i < k ==> spec_drain(events)[i] == spec_drain(rest)[i - 1]
            && spec_drain(rest)[i - 1] == rest[i - 1]->0 && rest[i - 1] == events[i]);
    }
}

} // verus!
