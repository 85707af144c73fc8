//! What holds of every run of the coordinator.
//!
//! A run is a sequence of events fed to [`Model::step`] one after the other.
//! The laws below speak of the state a run ends in and of the actions it
//! asked for on the way, whatever the events were and in whatever order
//! chunks came back.

use crate::chunk::{chunk_bounds, chunk_length};
use crate::error::UploadError;
use crate::model::{
    confirm_preserves_wf, flying, pending_is_idle, refill_preserves_wf, refill_saturates,
    retry_preserves_wf, schedule_preserves_wf, sending_is_short, settle_preserves_wf, slot_of,
    step_preserves_wf, Action, Event, Flight, Model, Phase,
};
use vstd::prelude::*;

verus! {

/// The state after a sequence of events.
pub open spec fn run(m: Model, events: Seq<Event>) -> Model
    decreases events.len(),
{
    if events.len() == 0 {
        m
    } else {
        run(m, events.drop_last()).step(events.last()).0
    }
}

/// The actions asked for along a sequence of events, in order.
pub open spec fn emitted(m: Model, events: Seq<Event>) -> Seq<Action>
    decreases events.len(),
{
    if events.len() == 0 {
        Seq::empty()
    } else {
        emitted(m, events.drop_last()) + run(m, events.drop_last()).step(events.last()).1
    }
}

/// The figures of the cumulative channel among `actions`, in order.
pub open spec fn confirmed_reports(actions: Seq<Action>) -> Seq<nat>
    decreases actions.len(),
{
    if actions.len() == 0 {
        Seq::empty()
    } else {
        let earlier = confirmed_reports(actions.drop_last());
        match actions.last() {
            Action::ReportConfirmed { confirmed, .. } => earlier.push(confirmed as nat),
            _ => earlier,
        }
    }
}

/// The byte counts of the per-attempt channel among `actions`, in order.
pub open spec fn attempt_reports(actions: Seq<Action>) -> Seq<nat>
    decreases actions.len(),
{
    if actions.len() == 0 {
        Seq::empty()
    } else {
        let earlier = attempt_reports(actions.drop_last());
        match actions.last() {
            Action::ReportAttempt { bytes, .. } => earlier.push(bytes as nat),
            _ => earlier,
        }
    }
}

/// The lengths of the chunks that `actions` orders to send, in order.
pub open spec fn sent_lengths(actions: Seq<Action>) -> Seq<nat>
    decreases actions.len(),
{
    if actions.len() == 0 {
        Seq::empty()
    } else {
        let earlier = sent_lengths(actions.drop_last());
        match actions.last() {
            Action::Send { chunk, .. } => earlier.push(chunk.length as nat),
            _ => earlier,
        }
    }
}

/// Whether `actions` holds nothing but orders to send and their reports.
pub open spec fn only_sending(actions: Seq<Action>) -> bool {
    forall|i: int|
        0 <= i < actions.len() ==> (#[trigger] actions[i]) is Send || actions[i] is ReportAttempt
}

/// How far an upload has come: a phase is never followed by an earlier one.
pub open spec fn rank(phase: Phase) -> nat {
    match phase {
        Phase::Pending => 0,
        Phase::Transmitting => 1,
        Phase::Finalizing => 2,
        Phase::Completed => 3,
        Phase::Failed(_) => 3,
    }
}

/// The cumulative figures of two lists of actions, one after the other.
pub proof fn reports_concat(a: Seq<Action>, b: Seq<Action>)
    ensures
        confirmed_reports(a + b) == confirmed_reports(a) + confirmed_reports(b),
    decreases b.len(),
{
    if b.len() == 0 {
        assert(a + b =~= a);
        assert(confirmed_reports(a) + confirmed_reports(b) =~= confirmed_reports(a));
    } else {
        assert((a + b).drop_last() =~= a + b.drop_last());
        reports_concat(a, b.drop_last());
        assert(confirmed_reports(a + b) =~= confirmed_reports(a) + confirmed_reports(b));
    }
}

/// The per-attempt figures of two lists of actions, one after the other.
pub proof fn attempts_concat(a: Seq<Action>, b: Seq<Action>)
    ensures
        attempt_reports(a + b) == attempt_reports(a) + attempt_reports(b),
        sent_lengths(a + b) == sent_lengths(a) + sent_lengths(b),
    decreases b.len(),
{
    if b.len() == 0 {
        assert(a + b =~= a);
        assert(attempt_reports(a) + attempt_reports(b) =~= attempt_reports(a));
        assert(sent_lengths(a) + sent_lengths(b) =~= sent_lengths(a));
    } else {
        assert((a + b).drop_last() =~= a + b.drop_last());
        attempts_concat(a, b.drop_last());
        assert(attempt_reports(a + b) =~= attempt_reports(a) + attempt_reports(b));
        assert(sent_lengths(a + b) =~= sent_lengths(a) + sent_lengths(b));
    }
}

/// An order to send followed by its report shows the length of the chunk
/// on the per-attempt channel.
pub proof fn attempt_of_order(m: Model, flight: Flight)
    requires
        m.wf(),
        flight.index < m.count(),
    ensures
        attempt_reports(seq![m.send(flight), m.attempt_report(flight.index as nat)]) == sent_lengths(
            seq![m.send(flight), m.attempt_report(flight.index as nat)],
        ),
{
    let pair = seq![m.send(flight), m.attempt_report(flight.index as nat)];
    chunk_bounds(m.total, m.size, flight.index as nat);
    assert(pair.drop_last() =~= seq![m.send(flight)]);
    assert(pair.drop_last().drop_last() =~= Seq::<Action>::empty());
    reveal_with_fuel(attempt_reports, 3);
    reveal_with_fuel(sent_lengths, 3);
    assert(attempt_reports(pair) =~= sent_lengths(pair));
}

/// Lists that neither send nor report an attempt show nothing on the
/// per-attempt channel.
pub proof fn attempts_of_others(actions: Seq<Action>)
    requires
        forall|i: int|
            0 <= i < actions.len() ==> !(#[trigger] actions[i] is Send) && !(actions[i]
                is ReportAttempt),
    ensures
        attempt_reports(actions) == Seq::<nat>::empty(),
        sent_lengths(actions) == Seq::<nat>::empty(),
    decreases actions.len(),
{
    if actions.len() > 0 {
        attempts_of_others(actions.drop_last());
    }
}

/// Handing out chunks reports every attempt it orders.
pub proof fn refill_reports_attempts(m: Model)
    requires
        m.wf(),
        m.phase is Transmitting,
    ensures
        attempt_reports(m.refill().1) == sent_lengths(m.refill().1),
    decreases m.count() - m.next,
{
    if m.can_schedule() {
        let flight = Flight { index: m.next as u64, retries: 0 };
        let pair = seq![m.send(flight), m.attempt_report(m.next)];
        schedule_preserves_wf(m);
        refill_reports_attempts(m.schedule());
        attempt_of_order(m, flight);
        attempts_concat(pair, m.schedule().refill().1);
    }
}

/// Every step reports each attempt it orders: the per-attempt figures of a
/// step are the lengths of the chunks it sends.
pub proof fn step_reports_attempts(m: Model, event: Event)
    requires
        m.wf(),
    ensures
        attempt_reports(m.step(event).1) == sent_lengths(m.step(event).1),
{
    let acts = m.step(event).1;
    match m.phase {
        Phase::Pending => {
            if event is Begin && m.count() > 0 {
                let started = Model { phase: Phase::Transmitting, ..m };
                pending_is_idle(m);
                assert(started.wf());
                refill_reports_attempts(started);
            } else {
                attempts_of_others(acts);
            }
        },
        Phase::Transmitting => {
            match event {
                Event::ChunkSucceeded { index } => {
                    if flying(m.in_flight, index as nat) {
                        settle_preserves_wf(m, index as nat);
                        let settled = m.settle(index as nat);
                        let report = Action::ReportConfirmed {
                            chunk_bytes: chunk_length(m.total, m.size, index as nat) as u64,
                            confirmed: settled.confirmed_bytes as u64,
                            total: m.total as u64,
                        };
                        if settled.confirmed_chunks != m.count() {
                            refill_reports_attempts(settled);
                            attempts_of_others(seq![report]);
                            attempts_concat(seq![report], settled.refill().1);
                            assert(attempt_reports(acts) =~= sent_lengths(acts));
                        } else {
                            attempts_of_others(acts);
                        }
                    } else {
                        attempts_of_others(acts);
                    }
                },
                Event::ChunkFailed { index } => {
                    if flying(m.in_flight, index as nat) {
                        retry_preserves_wf(m, index as nat);
                        let slot = slot_of(m.in_flight, index as nat);
                        let flight = m.in_flight[slot];
                        if m.policy.allows(flight.retries as nat) {
                            let again = Flight {
                                index: flight.index,
                                retries: (flight.retries + 1) as u32,
                            };
                            attempt_of_order(m, again);
                        } else {
                            attempts_of_others(acts);
                        }
                    } else {
                        attempts_of_others(acts);
                    }
                },
                _ => {
                    attempts_of_others(acts);
                },
            }
        },
        _ => {
            attempts_of_others(acts);
        },
    }
}

/// A list without cumulative reports shows no figure.
pub proof fn reports_of_sending(actions: Seq<Action>)
    requires
        forall|i: int| 0 <= i < actions.len() ==> !(#[trigger] actions[i] is ReportConfirmed),
    ensures
        confirmed_reports(actions) == Seq::<nat>::empty(),
    decreases actions.len(),
{
    if actions.len() > 0 {
        reports_of_sending(actions.drop_last());
    }
}

/// Handing out chunks asks for nothing but sending, and what it sends is in
/// flight afterwards, as is whatever was in flight before.
pub proof fn refill_only_sends(m: Model)
    requires
        m.wf(),
        m.phase is Transmitting,
    ensures
        only_sending(m.refill().1),
        forall|index: nat| #[trigger]
            flying(m.in_flight, index) ==> flying(m.refill().0.in_flight, index),
        forall|i: int|
            0 <= i < m.refill().1.len() ==> ((#[trigger] m.refill().1[i]) matches Action::Send {
                chunk,
                ..
            } ==> flying(m.refill().0.in_flight, chunk.index as nat)),
    decreases m.count() - m.next,
{
    if m.can_schedule() {
        let next = m.schedule();
        schedule_preserves_wf(m);
        refill_only_sends(next);
        let last = m.in_flight.len() as int;
        assert(next.in_flight[last].index == m.next);
        assert(flying(next.in_flight, m.next));
        assert forall|index: nat| #[trigger] flying(m.in_flight, index) implies flying(
            m.refill().0.in_flight,
            index,
        ) by {
            let w = slot_of(m.in_flight, index);
            assert(next.in_flight[w] == m.in_flight[w]);
            assert(flying(next.in_flight, index));
        }
    }
}

/// An order to send names a chunk that is in flight once the step is taken.
pub proof fn sent_chunks_are_in_flight(m: Model, event: Event)
    requires
        m.wf(),
    ensures
        forall|i: int|
            0 <= i < m.step(event).1.len() ==> ((#[trigger] m.step(event).1[i]) matches Action::Send {
                chunk,
                ..
            } ==> flying(m.step(event).0.in_flight, chunk.index as nat)),
{
    match m.phase {
        Phase::Pending => {
            if event is Begin && m.count() > 0 {
                let started = Model { phase: Phase::Transmitting, ..m };
                pending_is_idle(m);
                assert(started.wf());
                refill_only_sends(started);
            }
        },
        Phase::Transmitting => {
            match event {
                Event::ChunkSucceeded { index } => {
                    if flying(m.in_flight, index as nat) {
                        settle_preserves_wf(m, index as nat);
                        let settled = m.settle(index as nat);
                        if settled.confirmed_chunks != m.count() {
                            refill_only_sends(settled);
                            let acts = m.step(event).1;
                            let rest = settled.refill().1;
                            assert forall|i: int| 0 <= i < acts.len() implies ((
                            #[trigger] acts[i]) matches Action::Send { chunk, .. } ==> flying(
                                m.step(event).0.in_flight,
                                chunk.index as nat,
                            )) by {
                                if i > 0 {
                                    assert(acts[i] == rest[i - 1]);
                                }
                            }
                        }
                    }
                },
                Event::ChunkFailed { index } => {
                    if flying(m.in_flight, index as nat) {
                        let slot = slot_of(m.in_flight, index as nat);
                        let after = m.step(event).0;
                        if m.policy.allows(m.in_flight[slot].retries as nat) {
                            assert(after.in_flight[slot].index == index);
                            assert(flying(after.in_flight, index as nat));
                        }
                    }
                },
                _ => {},
            }
        },
        _ => {},
    }
}

/// A step shows a cumulative figure exactly when it confirms bytes, and the
/// figure is the new total of confirmed bytes, which never shrinks.
pub proof fn step_reports(m: Model, event: Event)
    requires
        m.wf(),
    ensures
        m.confirmed_bytes <= m.step(event).0.confirmed_bytes <= m.total,
        confirmed_reports(m.step(event).1) == if m.step(event).0.confirmed_bytes
            > m.confirmed_bytes {
            seq![m.step(event).0.confirmed_bytes]
        } else {
            Seq::<nat>::empty()
        },
        m.step(event).0.confirmed_chunks == m.confirmed_chunks + confirmed_reports(
            m.step(event).1,
        ).len(),
        m.step(event).0.confirmed_bytes > m.confirmed_bytes ==> m.step(event).0.phase
            is Finalizing || m.step(event).0.confirmed_bytes < m.total,
{
    let after = m.step(event).0;
    let acts = m.step(event).1;
    step_preserves_wf(m, event);
    match m.phase {
        Phase::Pending => {
            if event is Begin && m.count() > 0 {
                let started = Model { phase: Phase::Transmitting, ..m };
                pending_is_idle(m);
                assert(started.wf());
                refill_preserves_wf(started);
                refill_only_sends(started);
            }
            reports_of_sending(acts);
        },
        Phase::Transmitting => {
            match event {
                Event::ChunkSucceeded { index } => {
                    if flying(m.in_flight, index as nat) {
                        confirm_preserves_wf(m, index as nat);
                        settle_preserves_wf(m, index as nat);
                        let settled = m.settle(index as nat);
                        let report = Action::ReportConfirmed {
                            chunk_bytes: chunk_length(m.total, m.size, index as nat) as u64,
                            confirmed: settled.confirmed_bytes as u64,
                            total: m.total as u64,
                        };
                        let rest = if settled.confirmed_chunks == m.count() {
                            seq![Action::Finalize]
                        } else {
                            settled.refill().1
                        };
                        if settled.confirmed_chunks != m.count() {
                            refill_only_sends(settled);
                            refill_preserves_wf(settled);
                            sending_is_short(after);
                        }
                        assert(acts =~= seq![report] + rest);
                        reports_concat(seq![report], rest);
                        reports_of_sending(rest);
                        assert(seq![report].drop_last() =~= Seq::<Action>::empty());
                        assert(confirmed_reports(seq![report]) =~= seq![
                            settled.confirmed_bytes,
                        ]) by {
                            reveal_with_fuel(confirmed_reports, 2);
                        }
                        assert(confirmed_reports(acts) =~= seq![after.confirmed_bytes]);
                    } else {
                        reports_of_sending(acts);
                    }
                },
                Event::ChunkFailed { index } => {
                    if flying(m.in_flight, index as nat) {
                        retry_preserves_wf(m, index as nat);
                    }
                    reports_of_sending(acts);
                },
                _ => {
                    reports_of_sending(acts);
                },
            }
        },
        _ => {
            reports_of_sending(acts);
        },
    }
}

/// A step asks for the file to be assembled only on entering the finalizing
/// phase, and no step leads back to an earlier phase.
pub proof fn step_advances(m: Model, event: Event)
    requires
        m.wf(),
    ensures
        rank(m.phase) <= rank(m.step(event).0.phase),
        m.step(event).1.contains(Action::Finalize) ==> rank(m.phase) < 2 && m.step(
            event,
        ).0.phase is Finalizing,
{
    let acts = m.step(event).1;
    step_preserves_wf(m, event);
    match m.phase {
        Phase::Pending => {
            if event is Begin && m.count() > 0 {
                let started = Model { phase: Phase::Transmitting, ..m };
                pending_is_idle(m);
                assert(started.wf());
                refill_preserves_wf(started);
                refill_only_sends(started);
            }
        },
        Phase::Transmitting => {
            match event {
                Event::ChunkSucceeded { index } => {
                    if flying(m.in_flight, index as nat) {
                        confirm_preserves_wf(m, index as nat);
                        settle_preserves_wf(m, index as nat);
                        let settled = m.settle(index as nat);
                        if settled.confirmed_chunks != m.count() {
                            refill_only_sends(settled);
                            refill_preserves_wf(settled);
                            let rest = settled.refill().1;
                            if acts.contains(Action::Finalize) {
                                let i = choose|i: int|
                                    0 <= i < acts.len() && acts[i] == Action::Finalize;
                                if i > 0 {
                                    assert(acts[i] == rest[i - 1]);
                                }
                            }
                        }
                    }
                },
                _ => {},
            }
        },
        _ => {},
    }
}

/// Every run from a well-formed state ends in a well-formed state of the
/// same upload.
pub proof fn run_preserves_wf(m: Model, events: Seq<Event>)
    requires
        m.wf(),
    ensures
        run(m, events).wf(),
        run(m, events).total == m.total,
        run(m, events).size == m.size,
        run(m, events).limit == m.limit,
        run(m, events).policy == m.policy,
        rank(m.phase) <= rank(run(m, events).phase),
    decreases events.len(),
{
    if events.len() > 0 {
        run_preserves_wf(m, events.drop_last());
        step_preserves_wf(run(m, events.drop_last()), events.last());
        step_advances(run(m, events.drop_last()), events.last());
    }
}

/// Along a run, every attempt to send a chunk, retries included, shows on
/// the per-attempt channel with the length of the chunk, and nothing else
/// shows there.
pub proof fn every_attempt_is_reported(m: Model, events: Seq<Event>)
    requires
        m.wf(),
    ensures
        attempt_reports(emitted(m, events)) == sent_lengths(emitted(m, events)),
    decreases events.len(),
{
    if events.len() > 0 {
        let before = run(m, events.drop_last());
        every_attempt_is_reported(m, events.drop_last());
        run_preserves_wf(m, events.drop_last());
        step_reports_attempts(before, events.last());
        attempts_concat(emitted(m, events.drop_last()), before.step(events.last()).1);
    }
}

/// At no point of a run are more chunks in flight than the limit allows.
/// The limit is the one the coordinator goes by: a transmitter made with a
/// limit of zero goes by a limit of one.
pub proof fn in_flight_within_limit(m: Model, events: Seq<Event>)
    requires
        m.wf(),
    ensures
        run(m, events).in_flight.len() <= m.limit,
{
    run_preserves_wf(m, events);
}

/// The figures of the cumulative channel grow strictly along a run, never
/// pass the length of the file, and the last one shown is what the
/// coordinator holds as confirmed. A figure equal to the length of the file
/// can therefore only be the last one, and once every chunk is confirmed the
/// confirmed bytes are the length of the file, however often chunks were
/// sent again.
pub proof fn confirmed_reports_increase(m: Model, events: Seq<Event>)
    requires
        m.wf(),
    ensures
        ({
            let shown = confirmed_reports(emitted(m, events));
            let end = run(m, events);
            &&& forall|i: int| 0 <= i < shown.len() ==> m.confirmed_bytes < #[trigger] shown[i] <= m.total
            &&& forall|i: int, j: int| 0 <= i < j < shown.len() ==> #[trigger] shown[i] < #[trigger] shown[j]
            &&& forall|i: int| 0 <= i < shown.len() && #[trigger] shown[i] == m.total ==> i == shown.len() - 1
            &&& end.confirmed_bytes == if shown.len() > 0 {
                shown.last()
            } else {
                m.confirmed_bytes
            }
            &&& (end.phase is Finalizing || end.phase is Completed) ==> end.confirmed_bytes == m.total
            &&& (end.phase is Finalizing || end.phase is Completed) && m.confirmed_bytes < m.total
                ==> shown.len() > 0 && shown.last() == m.total
        }),
    decreases events.len(),
{
    run_preserves_wf(m, events);
    if events.len() > 0 {
        let before = run(m, events.drop_last());
        let earlier = emitted(m, events.drop_last());
        let now = before.step(events.last()).1;
        confirmed_reports_increase(m, events.drop_last());
        run_preserves_wf(m, events.drop_last());
        step_reports(before, events.last());
        reports_concat(earlier, now);
        let shown = confirmed_reports(emitted(m, events));
        assert(shown =~= confirmed_reports(earlier) + confirmed_reports(now));
    }
}

/// Once the upload has ended, nothing that happens changes its state or
/// asks for anything.
pub proof fn finished_is_final(m: Model, events: Seq<Event>)
    requires
        m.finished(),
    ensures
        run(m, events) == m,
        emitted(m, events) == Seq::<Action>::empty(),
    decreases events.len(),
{
    if events.len() > 0 {
        finished_is_final(m, events.drop_last());
    }
}

/// A run can be cut anywhere: the second part goes on from where the first
/// part ended.
pub proof fn run_split(m: Model, events: Seq<Event>, at: int)
    requires
        0 <= at <= events.len(),
    ensures
        run(m, events) == run(run(m, events.take(at)), events.skip(at)),
        emitted(m, events) == emitted(m, events.take(at)) + emitted(
            run(m, events.take(at)),
            events.skip(at),
        ),
    decreases events.len(),
{
    if at == events.len() {
        assert(events.take(at) =~= events);
        assert(events.skip(at) =~= Seq::<Event>::empty());
        assert(emitted(m, events) =~= emitted(m, events) + Seq::<Action>::empty());
    } else {
        let front = events.drop_last();
        run_split(m, front, at);
        assert(front.take(at) =~= events.take(at));
        assert(front.skip(at) =~= events.skip(at).drop_last());
        assert(events.skip(at).last() == events.last());
        let middle = run(m, events.take(at));
        assert(emitted(m, events) =~= emitted(m, events.take(at)) + emitted(
            middle,
            events.skip(at),
        ));
    }
}

/// Two lists that do not ask for the file to be assembled do not ask for it
/// when put one after the other.
pub proof fn finalize_in_neither(a: Seq<Action>, b: Seq<Action>)
    requires
        !a.contains(Action::Finalize),
        !b.contains(Action::Finalize),
    ensures
        !(a + b).contains(Action::Finalize),
{
    if (a + b).contains(Action::Finalize) {
        let i = choose|i: int| 0 <= i < (a + b).len() && (a + b)[i] == Action::Finalize;
        if i < a.len() {
            assert(a[i] == Action::Finalize);
        } else {
            assert(b[i - a.len()] == Action::Finalize);
        }
    }
}

/// While chunks are still being sent, the endpoint has not been asked to
/// assemble the file.
pub proof fn no_finalize_while_sending(m: Model, events: Seq<Event>)
    requires
        m.wf(),
        rank(run(m, events).phase) < 2,
    ensures
        !emitted(m, events).contains(Action::Finalize),
    decreases events.len(),
{
    if events.len() > 0 {
        let before = run(m, events.drop_last());
        let earlier = emitted(m, events.drop_last());
        let now = before.step(events.last()).1;
        run_preserves_wf(m, events.drop_last());
        step_advances(before, events.last());
        no_finalize_while_sending(m, events.drop_last());
        finalize_in_neither(earlier, now);
    }
}

/// If at some point of a run a chunk fails with its retries spent, the run
/// ends in `ChunkUploadFailed` for that chunk, whatever follows, and the
/// endpoint is never asked to assemble the file.
pub proof fn exhausted_chunk_fails_upload(m: Model, events: Seq<Event>, at: int, index: u64)
    requires
        m.wf(),
        0 <= at < events.len(),
        events[at] == (Event::ChunkFailed { index }),
        run(m, events.take(at)).phase is Transmitting,
        flying(run(m, events.take(at)).in_flight, index as nat),
        !m.policy.allows(
            run(m, events.take(at)).in_flight[slot_of(
                run(m, events.take(at)).in_flight,
                index as nat,
            )].retries as nat,
        ),
    ensures
        run(m, events).phase == Phase::Failed(
            UploadError::ChunkUploadFailed { offset: (index * m.size) as u64 },
        ),
        !emitted(m, events).contains(Action::Finalize),
{
    let head = events.take(at + 1);
    let tail = events.skip(at + 1);
    let before = run(m, events.take(at));
    assert(head.drop_last() =~= events.take(at));
    assert(head.last() == events[at]);
    run_preserves_wf(m, events.take(at));
    no_finalize_while_sending(m, events.take(at));
    let failed = run(m, head);
    assert(failed == before.step(events[at]).0);
    assert(failed.finished());
    run_split(m, events, at + 1);
    finished_is_final(failed, tail);
    let earlier = emitted(m, events.take(at));
    let now = before.step(events[at]).1;
    assert(emitted(m, events) =~= earlier + now);
    step_advances(before, events[at]);
    finalize_in_neither(earlier, now);
}

/// Every confirmed chunk shows one figure on the cumulative channel and
/// nothing else shows there: a run shows as many figures as it confirms
/// chunks, which is every chunk of the file once the upload is being
/// finalized or has completed.
pub proof fn one_figure_per_chunk(m: Model, events: Seq<Event>)
    requires
        m.wf(),
    ensures
        run(m, events).confirmed_chunks == m.confirmed_chunks + confirmed_reports(
            emitted(m, events),
        ).len(),
        run(m, events).phase is Finalizing || run(m, events).phase is Completed ==> m.confirmed_chunks
            + confirmed_reports(emitted(m, events)).len() == m.count(),
    decreases events.len(),
{
    run_preserves_wf(m, events);
    if events.len() > 0 {
        let before = run(m, events.drop_last());
        one_figure_per_chunk(m, events.drop_last());
        run_preserves_wf(m, events.drop_last());
        step_reports(before, events.last());
        reports_concat(emitted(m, events.drop_last()), before.step(events.last()).1);
    }
}

/// No figure is larger than the chunks confirmed so far can hold: the
/// figure shown with the `n`-th confirmed chunk is at most `n` chunk sizes.
pub proof fn figures_stay_under_chunks(m: Model, events: Seq<Event>)
    requires
        m.wf(),
    ensures
        forall|i: int|
            0 <= i < confirmed_reports(emitted(m, events)).len() ==> #[trigger] confirmed_reports(
                emitted(m, events),
            )[i] <= (m.confirmed_chunks + i + 1) * m.size,
    decreases events.len(),
{
    if events.len() > 0 {
        let before = run(m, events.drop_last());
        let earlier = confirmed_reports(emitted(m, events.drop_last()));
        let now = confirmed_reports(before.step(events.last()).1);
        figures_stay_under_chunks(m, events.drop_last());
        one_figure_per_chunk(m, events.drop_last());
        run_preserves_wf(m, events.drop_last());
        run_preserves_wf(m, events);
        step_reports(before, events.last());
        reports_concat(emitted(m, events.drop_last()), before.step(events.last()).1);
        let shown = confirmed_reports(emitted(m, events));
        assert(shown =~= earlier + now);
        assert forall|i: int| 0 <= i < shown.len() implies #[trigger] shown[i] <= (
        m.confirmed_chunks + i + 1) * m.size by {
            if i < earlier.len() {
                assert(shown[i] == earlier[i]);
            } else {
                assert(shown[i] == run(m, events).confirmed_bytes);
                assert(run(m, events).confirmed_chunks == m.confirmed_chunks + i + 1);
            }
        }
    }
}

/// The phases that follow the confirmation of the last chunk.
pub open spec fn after_sending(phase: Phase) -> bool {
    ||| phase is Finalizing
    ||| phase is Completed
    ||| phase == Phase::Failed(UploadError::FinalizeFailed)
    ||| phase == Phase::Failed(UploadError::UploadCancelled)
}

/// Once the length of the file has been shown, every chunk is confirmed, so
/// no chunk can fail any more: a run that ends in `ChunkUploadFailed` has
/// never shown the length of the file.
pub proof fn failed_chunk_never_shows_total(m: Model, events: Seq<Event>)
    requires
        m.wf(),
    ensures
        forall|i: int|
            0 <= i < confirmed_reports(emitted(m, events)).len() && #[trigger] confirmed_reports(
                emitted(m, events),
            )[i] == m.total ==> after_sending(run(m, events).phase),
        run(m, events).phase matches Phase::Failed(UploadError::ChunkUploadFailed { .. })
            ==> forall|i: int|
            0 <= i < confirmed_reports(emitted(m, events)).len() ==> #[trigger] confirmed_reports(
                emitted(m, events),
            )[i] != m.total,
    decreases events.len(),
{
    if events.len() > 0 {
        let before = run(m, events.drop_last());
        let earlier = confirmed_reports(emitted(m, events.drop_last()));
        let now = confirmed_reports(before.step(events.last()).1);
        failed_chunk_never_shows_total(m, events.drop_last());
        run_preserves_wf(m, events.drop_last());
        step_reports(before, events.last());
        reports_concat(emitted(m, events.drop_last()), before.step(events.last()).1);
        let shown = confirmed_reports(emitted(m, events));
        assert(shown =~= earlier + now);
        assert forall|i: int| 0 <= i < shown.len() && #[trigger] shown[i] == m.total implies after_sending(
            run(m, events).phase,
        ) by {
            if i < earlier.len() {
                assert(earlier[i] == m.total);
                assert(after_sending(before.phase));
            }
        }
    }
}

/// A step leaves no chunk held back that could be sent.
pub proof fn step_keeps_busy(m: Model, event: Event)
    requires
        m.wf(),
        m.busy(),
    ensures
        m.step(event).0.busy(),
{
    match m.phase {
        Phase::Pending => {
            if event is Begin && m.count() > 0 {
                pending_is_idle(m);
                refill_preserves_wf(Model { phase: Phase::Transmitting, ..m });
                refill_saturates(Model { phase: Phase::Transmitting, ..m });
            }
        },
        Phase::Transmitting => {
            match event {
                Event::ChunkSucceeded { index } => {
                    if flying(m.in_flight, index as nat) {
                        settle_preserves_wf(m, index as nat);
                        let settled = m.settle(index as nat);
                        if settled.confirmed_chunks != m.count() {
                            refill_preserves_wf(settled);
                            refill_saturates(settled);
                        }
                    }
                },
                _ => {},
            }
        },
        _ => {},
    }
}

/// A coordinator that may send at least one chunk at a time never waits
/// with nothing to wait for: while it is sending, a chunk is in flight.
pub proof fn sending_never_stalls(m: Model, events: Seq<Event>)
    requires
        m.wf(),
        m.limit >= 1,
        m.busy(),
    ensures
        run(m, events).busy(),
        run(m, events).phase is Transmitting ==> run(m, events).in_flight.len() > 0,
    decreases events.len(),
{
    run_preserves_wf(m, events);
    if events.len() > 0 {
        sending_never_stalls(m, events.drop_last());
        run_preserves_wf(m, events.drop_last());
        step_keeps_busy(run(m, events.drop_last()), events.last());
    }
}

/// Cancelling an upload that has not ended ends it as `UploadCancelled`
/// with nothing left in flight, and whatever happens afterwards changes
/// nothing and shows no further progress.
pub proof fn cancellation_is_final(m: Model, later: Seq<Event>)
    requires
        !m.finished(),
    ensures
        m.step(Event::Cancel).0.phase == Phase::Failed(UploadError::UploadCancelled),
        m.step(Event::Cancel).0.in_flight.len() == 0,
        m.step(Event::Cancel).0.confirmed_bytes == m.confirmed_bytes,
        m.step(Event::Cancel).1 == seq![Action::Fail(UploadError::UploadCancelled)],
        run(m.step(Event::Cancel).0, later) == m.step(Event::Cancel).0,
        emitted(m.step(Event::Cancel).0, later) == Seq::<Action>::empty(),
        confirmed_reports(emitted(m.step(Event::Cancel).0, later)) == Seq::<nat>::empty(),
{
    finished_is_final(m.step(Event::Cancel).0, later);
}

} // verus!
