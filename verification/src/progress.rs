//! Delivering progress to the observer.
//!
//! Two channels lead to the observer. The cumulative channel carries the
//! running total of confirmed bytes and drives the progress bar; the
//! per-attempt channel carries the size of every attempt, retries included,
//! and serves only to estimate the speed. Both are unbounded queues: offering
//! a figure never waits, and an observer that is gone does not stop the
//! upload.

use crate::model::Action;
use crate::trace::{attempt_reports, confirmed_reports};
use tokio::sync::mpsc::UnboundedSender;
use vstd::prelude::*;

verus! {

/// The sending half of tokio's unbounded channel, carried as an opaque value.
#[verifier::external_type_specification]
#[verifier::external_body]
#[verifier::reject_recursive_types(T)]
pub struct ExUnboundedSender<T>(UnboundedSender<T>);

/// Calls `UnboundedSender::send`, which queues `(bytes, total)` without
/// waiting and fails only when the receiving half is closed or dropped. The
/// result tells which of the two happened; nothing is claimed about it,
/// since it depends on what the observer has done.
#[verifier::external_body]
fn offer(channel: &UnboundedSender<(u64, u64)>, bytes: u64, total: u64) -> (accepted: bool) {
    channel.send((bytes, total)).is_ok()
}

/// The two channels to the observer.
#[derive(Clone, Copy, Debug, PartialEq, Eq, Structural)]
pub enum Lane {
    /// Carries the running total of confirmed bytes.
    Cumulative,
    /// Carries the size of every attempt.
    PerAttempt,
}

/// One figure for the observer and the channel it goes out on.
#[derive(Clone, Copy, Debug, PartialEq, Eq, Structural)]
pub struct Report {
    /// The channel the figure goes out on.
    pub lane: Lane,
    /// The figure: confirmed bytes so far, or the bytes of one attempt.
    pub bytes: u64,
    /// Length of the file.
    pub total: u64,
}

/// What became of an action that was shown to the reporter.
#[derive(Clone, Copy, Debug, PartialEq, Eq, Structural)]
pub enum Delivery {
    /// The action is no progress report; nothing was sent.
    NotProgress,
    /// The figure was queued for the observer.
    Delivered,
    /// The observer is gone; the figure was dropped.
    ObserverGone,
}

/// What an action tells the observer, and on which channel: a confirmation
/// puts the running total on the cumulative channel, an attempt puts its
/// bytes on the per-attempt channel, and no other action tells anything.
pub open spec fn report_of(action: Action) -> Option<Report> {
    match action {
        Action::ReportConfirmed { confirmed, total, .. } => Some(
            Report { lane: Lane::Cumulative, bytes: confirmed, total },
        ),
        Action::ReportAttempt { bytes, total } => Some(
            Report { lane: Lane::PerAttempt, bytes, total },
        ),
        _ => None,
    }
}

/// The reports among `actions`, in order.
pub open spec fn reports_of(actions: Seq<Action>) -> Seq<Report>
    decreases actions.len(),
{
    if actions.len() == 0 {
        Seq::empty()
    } else {
        let earlier = reports_of(actions.drop_last());
        match report_of(actions.last()) {
            Some(report) => earlier.push(report),
            None => earlier,
        }
    }
}

/// The figures that `reports` put on one channel, in order.
pub open spec fn figures_on(reports: Seq<Report>, lane: Lane) -> Seq<nat>
    decreases reports.len(),
{
    if reports.len() == 0 {
        Seq::empty()
    } else {
        let earlier = figures_on(reports.drop_last(), lane);
        if reports.last().lane == lane {
            earlier.push(reports.last().bytes as nat)
        } else {
            earlier
        }
    }
}

/// The cumulative channel is offered exactly the confirmed totals that the
/// coordinator reports, and the per-attempt channel exactly the sizes of the
/// attempts, each in the order in which the coordinator asked for them.
pub proof fn lanes_carry_the_reports(actions: Seq<Action>)
    ensures
        figures_on(reports_of(actions), Lane::Cumulative) == confirmed_reports(actions),
        figures_on(reports_of(actions), Lane::PerAttempt) == attempt_reports(actions),
    decreases actions.len(),
{
    if actions.len() > 0 {
        lanes_carry_the_reports(actions.drop_last());
        let earlier = reports_of(actions.drop_last());
        match report_of(actions.last()) {
            Some(report) => {
                assert(earlier.push(report).drop_last() =~= earlier);
            },
            None => {},
        }
    }
}

/// What an action tells the observer, and on which channel.
pub fn routed(action: Action) -> (report: Option<Report>)
    ensures
        report == report_of(action),
{
    match action {
        Action::ReportConfirmed { confirmed, total, .. } => Some(
            Report { lane: Lane::Cumulative, bytes: confirmed, total },
        ),
        Action::ReportAttempt { bytes, total } => Some(
            Report { lane: Lane::PerAttempt, bytes, total },
        ),
        _ => None,
    }
}

/// The two channels to the observer.
pub struct ProgressReporter {
    confirmed: UnboundedSender<(u64, u64)>,
    attempts: UnboundedSender<(u64, u64)>,
}

impl ProgressReporter {
    /// A reporter that sends cumulative figures to `confirmed` and the sizes
    /// of attempts to `attempts`.
    pub fn new(
        confirmed: UnboundedSender<(u64, u64)>,
        attempts: UnboundedSender<(u64, u64)>,
    ) -> (reporter: ProgressReporter)
        ensures
            reporter.cumulative() == confirmed,
            reporter.per_attempt() == attempts,
    {
        ProgressReporter { confirmed, attempts }
    }

    /// The channel that carries the running total of confirmed bytes.
    pub closed spec fn cumulative(&self) -> UnboundedSender<(u64, u64)> {
        self.confirmed
    }

    /// The channel that carries the size of every attempt.
    pub closed spec fn per_attempt(&self) -> UnboundedSender<(u64, u64)> {
        self.attempts
    }

    /// Offers a report to the channel it names. Tells whether the observer
    /// took it; an observer that is gone is no error.
    fn offer_on(&self, report: Report) -> (accepted: bool) {
        match report.lane {
            Lane::Cumulative => offer(&self.confirmed, report.bytes, report.total),
            Lane::PerAttempt => offer(&self.attempts, report.bytes, report.total),
        }
    }

    /// Sends what `action` tells the observer, as [`routed`] gives it, to the
    /// channel it belongs on, and leaves an action that tells nothing alone.
    /// Whether the observer was still there is reported, and is no error.
    pub fn publish(&self, action: Action) -> (delivery: Delivery)
        ensures
            delivery is NotProgress <==> report_of(action) is None,
    {
        match routed(action) {
            Some(report) => {
                if self.offer_on(report) {
                    Delivery::Delivered
                } else {
                    Delivery::ObserverGone
                }
            },
            None => Delivery::NotProgress,
        }
    }

    /// Sends every report among `actions`, in order, and returns how many
    /// there were.
    pub fn publish_all(&self, actions: &Vec<Action>) -> (offered: usize)
        ensures
            offered == reports_of(actions@).len(),
    {
        let mut offered: usize = 0;
        let mut at: usize = 0;
        while at < actions.len()
            invariant
                at <= actions.len(),
                offered <= at,
                offered == reports_of(actions@.take(at as int)).len(),
            decreases actions.len() - at,
        {
            assert(actions@.take(at + 1).drop_last() =~= actions@.take(at as int));
            let delivery = self.publish(actions[at]);
            if delivery != Delivery::NotProgress {
                offered = offered + 1;
            }
            at = at + 1;
        }
        assert(actions@.take(at as int) =~= actions@);
        offered
    }
}

} // verus!
