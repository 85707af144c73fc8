//! The coordinator of an upload as a state machine.
//!
//! One task owns the state. Workers and the user never touch it: what they do
//! reaches the coordinator as an [`Event`], and what the coordinator wants
//! done leaves it as a list of [`Action`]s. [`Model::step`] is the whole
//! transition function; everything else in this module is stated about it.

use crate::chunk::{
    chunk_bounds, chunk_count, chunk_count_is_ceiling, chunk_length, chunk_of, chunk_offset,
    lengths_sum, lengths_sum_closed_form, Chunk,
};
use crate::error::UploadError;
use crate::retry::{backoff, RetryPolicy};
use vstd::prelude::*;

verus! {

/// A chunk that was handed to a worker and has not come back yet.
#[derive(Clone, Copy, Debug, PartialEq, Eq, Structural)]
pub struct Flight {
    /// Position of the chunk in the file.
    pub index: u64,
    /// How many times the chunk was sent again after a failure.
    pub retries: u32,
}

/// Where an upload stands.
#[derive(Clone, Copy, Debug, PartialEq, Eq, Structural)]
pub enum Phase {
    /// Created, nothing sent yet.
    Pending,
    /// Chunks are being sent.
    Transmitting,
    /// Every chunk is confirmed; the endpoint was asked to assemble them.
    Finalizing,
    /// The endpoint assembled the file.
    Completed,
    /// The upload ended without the file being assembled.
    Failed(UploadError),
}

/// What happened outside the coordinator.
#[derive(Clone, Copy, Debug, PartialEq, Eq, Structural)]
pub enum Event {
    /// The driver is ready to send.
    Begin,
    /// The endpoint confirmed the chunk at `index`.
    ChunkSucceeded { index: u64 },
    /// An attempt to send the chunk at `index` failed transiently.
    ChunkFailed { index: u64 },
    /// The endpoint assembled the file.
    FinalizeSucceeded,
    /// The endpoint refused to assemble the file.
    FinalizeFailed,
    /// The user asked to stop.
    Cancel,
}

/// What the coordinator asks its driver to do.
#[derive(Clone, Copy, Debug, PartialEq, Eq, Structural)]
pub enum Action {
    /// Send `chunk`, all of it, after waiting `backoff_secs`; `retry` counts
    /// the earlier failed attempts on this chunk.
    Send { chunk: Chunk, retry: u32, backoff_secs: u64 },
    /// Tell the observer that an attempt carrying `bytes` bytes was started.
    /// A retried chunk is reported once per attempt.
    ReportAttempt { bytes: u64, total: u64 },
    /// Tell the observer that a chunk of `chunk_bytes` bytes has arrived, and
    /// that with it `confirmed` of `total` bytes have. A chunk is reported
    /// once, however often it was sent.
    ReportConfirmed { chunk_bytes: u64, confirmed: u64, total: u64 },
    /// Ask the endpoint to assemble the file.
    Finalize,
    /// Hand the caller its result: the upload succeeded.
    Complete,
    /// Drop whatever is still being sent and hand the caller this error.
    Fail(UploadError),
}

/// Whether the chunk at `index` is among `flights`.
pub open spec fn flying(flights: Seq<Flight>, index: nat) -> bool {
    exists|i: int| 0 <= i < flights.len() && (#[trigger] flights[i]).index == index
}

/// Position in `flights` of the chunk at `index`, where it is among them.
pub open spec fn slot_of(flights: Seq<Flight>, index: nat) -> int {
    choose|i: int| 0 <= i < flights.len() && (#[trigger] flights[i]).index == index
}

/// No chunk is in flight twice.
pub open spec fn distinct(flights: Seq<Flight>) -> bool {
    forall|i: int, j: int|
        0 <= i < j < flights.len() ==> (#[trigger] flights[i]).index != (
        #[trigger] flights[j]).index
}

/// Bytes of the first `upto` chunks that are not in flight.
pub open spec fn settled_bytes(total: nat, size: nat, flights: Seq<Flight>, upto: nat) -> nat
    decreases upto,
{
    if upto == 0 {
        0
    } else {
        let index = (upto - 1) as nat;
        settled_bytes(total, size, flights, index) + if flying(flights, index) {
            0
        } else {
            chunk_length(total, size, index)
        }
    }
}

/// The state of the coordinator.
pub struct Model {
    /// Length of the file in bytes.
    pub total: nat,
    /// Length of every chunk but the last.
    pub size: nat,
    /// Number of chunks handed to workers so far.
    pub next: nat,
    /// Most chunks that may be in flight at once.
    pub limit: nat,
    /// Retry budget of each chunk.
    pub policy: RetryPolicy,
    /// Chunks handed out and not yet resolved.
    pub in_flight: Seq<Flight>,
    /// Number of chunks the endpoint confirmed.
    pub confirmed_chunks: nat,
    /// Bytes of the chunks the endpoint confirmed.
    pub confirmed_bytes: nat,
    /// Where the upload stands.
    pub phase: Phase,
}

impl Model {
    /// The state before anything happened.
    pub open spec fn initial(total: nat, size: nat, limit: nat, policy: RetryPolicy) -> Model {
        Model {
            total,
            size,
            next: 0,
            limit,
            policy,
            in_flight: Seq::empty(),
            confirmed_chunks: 0,
            confirmed_bytes: 0,
            phase: Phase::Pending,
        }
    }

    /// Number of chunks of the file.
    pub open spec fn count(self) -> nat {
        chunk_count(self.total, self.size)
    }

    /// Whether the upload has ended, one way or the other.
    pub open spec fn finished(self) -> bool {
        self.phase is Completed || self.phase is Failed
    }

    /// Every chunk handed out is either confirmed or in flight, and the
    /// confirmed bytes are the bytes of the confirmed chunks.
    pub open spec fn accounted(self) -> bool {
        &&& self.confirmed_chunks + self.in_flight.len() == self.next
        &&& self.confirmed_bytes == settled_bytes(self.total, self.size, self.in_flight, self.next)
    }

    /// What holds of every state the coordinator can reach.
    pub open spec fn wf(self) -> bool {
        &&& 0 < self.size <= u32::MAX
        &&& self.total <= u64::MAX
        &&& self.limit <= usize::MAX
        &&& self.next <= self.count()
        &&& self.in_flight.len() <= self.limit
        &&& self.confirmed_chunks <= self.count()
        &&& self.confirmed_bytes <= self.total
        &&& self.confirmed_bytes <= self.confirmed_chunks * self.size
        &&& distinct(self.in_flight)
        &&& forall|i: int|
            0 <= i < self.in_flight.len() ==> (#[trigger] self.in_flight[i]).index < self.next
                && self.in_flight[i].retries <= self.policy.max_retries
        &&& match self.phase {
            Phase::Pending => self.next == 0 && self.confirmed_chunks == 0 && self.confirmed_bytes
                == 0,
            Phase::Transmitting => self.accounted() && self.confirmed_chunks < self.count(),
            Phase::Finalizing | Phase::Completed => {
                &&& self.in_flight.len() == 0
                &&& self.next == self.count()
                &&& self.confirmed_chunks == self.count()
                &&& self.confirmed_bytes == self.total
            },
            Phase::Failed(_) => self.in_flight.len() == 0,
        }
    }

    /// The order to send a chunk.
    pub open spec fn send(self, flight: Flight) -> Action {
        Action::Send {
            chunk: chunk_of(self.total, self.size, flight.index as nat),
            retry: flight.retries,
            backoff_secs: backoff(self.policy.max_backoff_secs as nat, flight.retries as nat) as u64,
        }
    }

    /// The per-attempt report that goes with sending the chunk at `index`.
    pub open spec fn attempt_report(self, index: nat) -> Action {
        Action::ReportAttempt {
            bytes: chunk_length(self.total, self.size, index) as u64,
            total: self.total as u64,
        }
    }

    /// Whether a chunk is left and the limit leaves room to send it.
    pub open spec fn can_schedule(self) -> bool {
        self.in_flight.len() < self.limit && self.next < self.count()
    }

    /// While chunks are being sent, none is held back that could be sent:
    /// the limit is reached or no chunk is left to hand out.
    pub open spec fn busy(self) -> bool {
        self.phase is Transmitting ==> !self.can_schedule()
    }

    /// The state after the next chunk was handed to a worker.
    pub open spec fn schedule(self) -> Model {
        Model {
            next: self.next + 1,
            in_flight: self.in_flight.push(Flight { index: self.next as u64, retries: 0 }),
            ..self
        }
    }

    /// Hands out chunks in order until the limit is reached or none is left.
    pub open spec fn refill(self) -> (Model, Seq<Action>)
        decreases self.count() - self.next,
    {
        if self.can_schedule() {
            let flight = Flight { index: self.next as u64, retries: 0 };
            let rest = self.schedule().refill();
            (rest.0, seq![self.send(flight), self.attempt_report(self.next)] + rest.1)
        } else {
            (self, Seq::empty())
        }
    }

    /// Ends the upload with `error` and abandons what is in flight.
    pub open spec fn fail(self, error: UploadError) -> (Model, Seq<Action>) {
        (
            Model { phase: Phase::Failed(error), in_flight: Seq::empty(), ..self },
            seq![Action::Fail(error)],
        )
    }

    /// Starts sending; a file without chunks goes straight to finalizing.
    pub open spec fn begin(self) -> (Model, Seq<Action>) {
        if self.count() == 0 {
            (Model { phase: Phase::Finalizing, ..self }, seq![Action::Finalize])
        } else {
            (Model { phase: Phase::Transmitting, ..self }).refill()
        }
    }

    /// The state after the chunk at `index` left flight and its bytes were
    /// added to the confirmed total.
    pub open spec fn settle(self, index: nat) -> Model {
        Model {
            in_flight: self.in_flight.remove(slot_of(self.in_flight, index)),
            confirmed_chunks: self.confirmed_chunks + 1,
            confirmed_bytes: self.confirmed_bytes + chunk_length(self.total, self.size, index),
            ..self
        }
    }

    /// Books a confirmed chunk, reports the new total, and either asks for
    /// the file to be assembled or hands out the next chunk.
    pub open spec fn confirm(self, index: nat) -> (Model, Seq<Action>) {
        let settled = self.settle(index);
        let report = Action::ReportConfirmed {
            chunk_bytes: chunk_length(self.total, self.size, index) as u64,
            confirmed: settled.confirmed_bytes as u64,
            total: self.total as u64,
        };
        if settled.confirmed_chunks == self.count() {
            (Model { phase: Phase::Finalizing, ..settled }, seq![report, Action::Finalize])
        } else {
            let rest = settled.refill();
            (rest.0, seq![report] + rest.1)
        }
    }

    /// Sends a failed chunk again while its budget lasts, and fails the
    /// upload when it is spent.
    pub open spec fn retry(self, index: nat) -> (Model, Seq<Action>) {
        let slot = slot_of(self.in_flight, index);
        let flight = self.in_flight[slot];
        if self.policy.allows(flight.retries as nat) {
            let again = Flight { index: flight.index, retries: (flight.retries + 1) as u32 };
            (
                Model { in_flight: self.in_flight.update(slot, again), ..self },
                seq![self.send(again), self.attempt_report(index)],
            )
        } else {
            self.fail(UploadError::ChunkUploadFailed { offset: chunk_offset(self.size, index) as u64 })
        }
    }

    /// The transition function: the state after `event` and the actions it
    /// causes. An event that does not fit the state changes nothing.
    pub open spec fn step(self, event: Event) -> (Model, Seq<Action>) {
        match self.phase {
            Phase::Pending => match event {
                Event::Begin => self.begin(),
                Event::Cancel => self.fail(UploadError::UploadCancelled),
                _ => (self, Seq::empty()),
            },
            Phase::Transmitting => match event {
                Event::ChunkSucceeded { index } => if flying(self.in_flight, index as nat) {
                    self.confirm(index as nat)
                } else {
                    (self, Seq::empty())
                },
                Event::ChunkFailed { index } => if flying(self.in_flight, index as nat) {
                    self.retry(index as nat)
                } else {
                    (self, Seq::empty())
                },
                Event::Cancel => self.fail(UploadError::UploadCancelled),
                _ => (self, Seq::empty()),
            },
            Phase::Finalizing => match event {
                Event::FinalizeSucceeded => (
                    Model { phase: Phase::Completed, ..self },
                    seq![Action::Complete],
                ),
                Event::FinalizeFailed => self.fail(UploadError::FinalizeFailed),
                Event::Cancel => self.fail(UploadError::UploadCancelled),
                _ => (self, Seq::empty()),
            },
            Phase::Completed | Phase::Failed(_) => (self, Seq::empty()),
        }
    }
}

/// Flights that agree on which chunks are in flight settle the same bytes.
pub proof fn settled_frame(total: nat, size: nat, a: Seq<Flight>, b: Seq<Flight>, upto: nat)
    requires
        forall|i: nat| i < upto ==> #[trigger] flying(a, i) == flying(b, i),
    ensures
        settled_bytes(total, size, a, upto) == settled_bytes(total, size, b, upto),
    decreases upto,
{
    if upto > 0 {
        settled_frame(total, size, a, b, (upto - 1) as nat);
    }
}

/// Handing out the next chunk settles nothing.
pub proof fn settled_after_schedule(total: nat, size: nat, flights: Seq<Flight>, next: nat)
    requires
        next <= u64::MAX,
        forall|i: int| 0 <= i < flights.len() ==> (#[trigger] flights[i]).index < next,
    ensures
        settled_bytes(
            total,
            size,
            flights.push(Flight { index: next as u64, retries: 0 }),
            next + 1,
        ) == settled_bytes(total, size, flights, next),
{
    let pushed = flights.push(Flight { index: next as u64, retries: 0 });
    assert(pushed[flights.len() as int].index == next);
    assert(flying(pushed, next));
    assert forall|i: nat| i < next implies #[trigger] flying(pushed, i) == flying(flights, i) by {
        if flying(flights, i) {
            let w = slot_of(flights, i);
            assert(pushed[w] == flights[w]);
        }
        if flying(pushed, i) {
            let w = slot_of(pushed, i);
            assert(w < flights.len());
            assert(pushed[w] == flights[w]);
        }
    }
    settled_frame(total, size, pushed, flights, next);
}

/// Taking a chunk out of flight settles exactly its bytes.
pub proof fn settled_after_confirm(
    total: nat,
    size: nat,
    flights: Seq<Flight>,
    slot: int,
    upto: nat,
)
    requires
        distinct(flights),
        0 <= slot < flights.len(),
    ensures
        settled_bytes(total, size, flights.remove(slot), upto) == settled_bytes(
            total,
            size,
            flights,
            upto,
        ) + if flights[slot].index < upto {
            chunk_length(total, size, flights[slot].index as nat)
        } else {
            0
        },
    decreases upto,
{
    if upto > 0 {
        let index = (upto - 1) as nat;
        let removed = flights.remove(slot);
        flights.remove_ensures(slot);
        settled_after_confirm(total, size, flights, slot, index);
        if index == flights[slot].index {
            assert(flying(flights, index));
            if flying(removed, index) {
                let w = slot_of(removed, index);
                if w < slot {
                    assert(removed[w] == flights[w]);
                } else {
                    assert(removed[w] == flights[w + 1]);
                }
            }
        } else {
            if flying(flights, index) {
                let w = slot_of(flights, index);
                if w < slot {
                    assert(removed[w] == flights[w]);
                } else {
                    assert(removed[w - 1] == flights[w]);
                }
            }
            if flying(removed, index) {
                let w = slot_of(removed, index);
                if w < slot {
                    assert(removed[w] == flights[w]);
                } else {
                    assert(removed[w] == flights[w + 1]);
                }
            }
        }
    }
}

/// The settled bytes of the first chunks are at most the bytes of those
/// chunks, and all of them when nothing is in flight.
pub proof fn settled_bound(total: nat, size: nat, flights: Seq<Flight>, upto: nat)
    requires
        size > 0,
        upto <= chunk_count(total, size),
    ensures
        settled_bytes(total, size, flights, upto) <= lengths_sum(total, size, upto) <= total,
        flights.len() == 0 ==> settled_bytes(total, size, flights, upto) == lengths_sum(
            total,
            size,
            upto,
        ),
    decreases upto,
{
    lengths_sum_closed_form(total, size, upto);
    if upto > 0 {
        settled_bound(total, size, flights, (upto - 1) as nat);
    }
}

/// Before the start nothing is in flight, and a file with chunks can go over
/// to sending.
pub proof fn pending_is_idle(m: Model)
    requires
        m.wf(),
        m.phase is Pending,
    ensures
        m.in_flight.len() == 0,
        m.count() > 0 ==> (Model { phase: Phase::Transmitting, ..m }).wf(),
{
    if m.in_flight.len() > 0 {
        assert(m.in_flight[0].index < m.next);
    }
}

/// The settled bytes of the first chunks leave out the bytes of every chunk
/// among them that is in flight.
pub proof fn settled_misses_flight(
    total: nat,
    size: nat,
    flights: Seq<Flight>,
    upto: nat,
    index: nat,
)
    requires
        size > 0,
        upto <= chunk_count(total, size),
        index < upto,
        flying(flights, index),
    ensures
        settled_bytes(total, size, flights, upto) + chunk_length(total, size, index) <= lengths_sum(
            total,
            size,
            upto,
        ),
    decreases upto,
{
    let last = (upto - 1) as nat;
    if last == index {
        settled_bound(total, size, flights, last);
    } else {
        settled_misses_flight(total, size, flights, last, index);
    }
}

/// While chunks are being sent, fewer bytes are confirmed than the file has.
pub proof fn sending_is_short(m: Model)
    requires
        m.wf(),
        m.phase is Transmitting,
    ensures
        m.confirmed_bytes < m.total,
{
    if m.next < m.count() {
        settled_bound(m.total, m.size, m.in_flight, m.next);
        lengths_sum_closed_form(m.total, m.size, m.next);
        chunk_bounds(m.total, m.size, m.next);
    } else {
        let index = m.in_flight[0].index as nat;
        assert(flying(m.in_flight, index));
        settled_misses_flight(m.total, m.size, m.in_flight, m.next, index);
        lengths_sum_closed_form(m.total, m.size, m.next);
        chunk_bounds(m.total, m.size, index);
    }
}

/// Handing out chunks stops only when the limit is reached or no chunk is
/// left.
pub proof fn refill_saturates(m: Model)
    ensures
        !m.refill().0.can_schedule(),
    decreases m.count() - m.next,
{
    if m.can_schedule() {
        refill_saturates(m.schedule());
    }
}

/// Handing out one chunk keeps the state well formed.
pub proof fn schedule_preserves_wf(m: Model)
    requires
        m.wf(),
        m.phase is Transmitting,
        m.can_schedule(),
    ensures
        m.schedule().wf(),
        m.next < u64::MAX,
{
    chunk_count_is_ceiling(m.total, m.size);
    settled_after_schedule(m.total, m.size, m.in_flight, m.next);
    assert(distinct(m.schedule().in_flight));
}

/// Handing out chunks keeps the state well formed, stays in the sending
/// phase and never exceeds the limit.
pub proof fn refill_preserves_wf(m: Model)
    requires
        m.wf(),
        m.phase is Transmitting,
    ensures
        m.refill().0.wf(),
        m.refill().0.phase is Transmitting,
        m.refill().0.confirmed_chunks == m.confirmed_chunks,
        m.refill().0.confirmed_bytes == m.confirmed_bytes,
        m.refill().0.total == m.total,
        m.refill().0.size == m.size,
        m.refill().0.limit == m.limit,
        m.refill().0.policy == m.policy,
        m.refill().0.next >= m.next,
    decreases m.count() - m.next,
{
    if m.can_schedule() {
        schedule_preserves_wf(m);
        refill_preserves_wf(m.schedule());
    }
}

/// Every transition keeps the state well formed.
pub proof fn step_preserves_wf(m: Model, event: Event)
    requires
        m.wf(),
    ensures
        m.step(event).0.wf(),
        m.step(event).0.total == m.total,
        m.step(event).0.size == m.size,
        m.step(event).0.limit == m.limit,
        m.step(event).0.policy == m.policy,
{
    match m.phase {
        Phase::Pending => {
            if event is Begin && m.count() > 0 {
                let started = Model { phase: Phase::Transmitting, ..m };
                pending_is_idle(m);
                assert(started.wf());
                refill_preserves_wf(started);
            } else if event is Begin {
                settled_bound(m.total, m.size, m.in_flight, 0);
                chunk_count_is_ceiling(m.total, m.size);
                pending_is_idle(m);
                lengths_sum_closed_form(m.total, m.size, 0);
            }
        },
        Phase::Transmitting => {
            match event {
                Event::ChunkSucceeded { index } => {
                    if flying(m.in_flight, index as nat) {
                        confirm_preserves_wf(m, index as nat);
                    }
                },
                Event::ChunkFailed { index } => {
                    if flying(m.in_flight, index as nat) {
                        retry_preserves_wf(m, index as nat);
                    }
                },
                _ => {},
            }
        },
        _ => {},
    }
}

/// Taking a confirmed chunk out of flight adds its bytes, which are more than
/// none, and leaves a well-formed state: one that goes on sending, or one
/// that has every chunk confirmed and is ready to be finalized.
pub proof fn settle_preserves_wf(m: Model, index: nat)
    requires
        m.wf(),
        m.phase is Transmitting,
        flying(m.in_flight, index),
    ensures
        index < m.next,
        m.in_flight.len() > 0,
        m.confirmed_bytes < m.settle(index).confirmed_bytes <= m.total,
        m.settle(index).confirmed_chunks <= m.count(),
        m.settle(index).confirmed_chunks < m.count() ==> m.settle(index).wf(),
        m.settle(index).confirmed_chunks == m.count() ==> (Model {
            phase: Phase::Finalizing,
            ..m.settle(index)
        }).wf(),
{
    let slot = slot_of(m.in_flight, index);
    let removed = m.in_flight.remove(slot);
    let settled = m.settle(index);
    m.in_flight.remove_ensures(slot);
    assert(m.in_flight[slot].index == index);
    chunk_bounds(m.total, m.size, index);
    assert((m.confirmed_chunks + 1) * m.size == m.confirmed_chunks * m.size + m.size)
        by (nonlinear_arith);
    settled_after_confirm(m.total, m.size, m.in_flight, slot, m.next);
    settled_bound(m.total, m.size, removed, m.next);
    assert(distinct(removed)) by {
        assert forall|i: int, j: int| 0 <= i < j < removed.len() implies (#[trigger] removed[i]).index
            != (#[trigger] removed[j]).index by {
            let a = if i < slot {
                i
            } else {
                i + 1
            };
            let b = if j < slot {
                j
            } else {
                j + 1
            };
            assert(removed[i] == m.in_flight[a]);
            assert(removed[j] == m.in_flight[b]);
        }
    }
    assert forall|i: int| 0 <= i < removed.len() implies (#[trigger] removed[i]).index < m.next
        && removed[i].retries <= m.policy.max_retries by {
        let a = if i < slot {
            i
        } else {
            i + 1
        };
        assert(removed[i] == m.in_flight[a]);
    }
    if settled.confirmed_chunks == m.count() {
        assert(removed.len() == 0);
        lengths_sum_closed_form(m.total, m.size, m.next);
    }
}

/// Booking a confirmed chunk keeps the state well formed and adds exactly
/// the chunk's bytes, which are more than none.
pub proof fn confirm_preserves_wf(m: Model, index: nat)
    requires
        m.wf(),
        m.phase is Transmitting,
        flying(m.in_flight, index),
    ensures
        m.confirm(index).0.wf(),
        m.confirm(index).0.total == m.total,
        m.confirm(index).0.size == m.size,
        m.confirm(index).0.limit == m.limit,
        m.confirm(index).0.policy == m.policy,
        m.confirm(index).0.confirmed_bytes == m.confirmed_bytes + chunk_length(
            m.total,
            m.size,
            index,
        ),
        m.confirmed_bytes < m.confirm(index).0.confirmed_bytes <= m.total,
        m.confirm(index).0.phase is Finalizing || m.confirm(index).0.phase is Transmitting,
        index < m.next,
{
    settle_preserves_wf(m, index);
    if m.settle(index).confirmed_chunks != m.count() {
        refill_preserves_wf(m.settle(index));
    }
}

/// Sending a chunk again, or giving up on it, keeps the state well formed
/// and leaves the confirmed bytes alone.
pub proof fn retry_preserves_wf(m: Model, index: nat)
    requires
        m.wf(),
        m.phase is Transmitting,
        flying(m.in_flight, index),
    ensures
        m.retry(index).0.wf(),
        m.retry(index).0.total == m.total,
        m.retry(index).0.size == m.size,
        m.retry(index).0.limit == m.limit,
        m.retry(index).0.policy == m.policy,
        m.retry(index).0.confirmed_bytes == m.confirmed_bytes,
        index < m.next,
{
    let slot = slot_of(m.in_flight, index);
    let flight = m.in_flight[slot];
    assert(flight.index == index);
    if m.policy.allows(flight.retries as nat) {
        let again = Flight { index: flight.index, retries: (flight.retries + 1) as u32 };
        let updated = m.in_flight.update(slot, again);
        assert forall|i: nat| i < m.next implies #[trigger] flying(updated, i) == flying(
            m.in_flight,
            i,
        ) by {
            if flying(m.in_flight, i) {
                let w = slot_of(m.in_flight, i);
                assert(updated[w].index == m.in_flight[w].index);
            }
            if flying(updated, i) {
                let w = slot_of(updated, i);
                assert(updated[w].index == m.in_flight[w].index);
            }
        }
        settled_frame(m.total, m.size, updated, m.in_flight, m.next);
        assert(distinct(updated)) by {
            assert forall|i: int, j: int| 0 <= i < j < updated.len() implies (
            #[trigger] updated[i]).index != (#[trigger] updated[j]).index by {
                assert(updated[i].index == m.in_flight[i].index);
                assert(updated[j].index == m.in_flight[j].index);
            }
        }
        assert forall|i: int| 0 <= i < updated.len() implies (#[trigger] updated[i]).index
            < m.next && updated[i].retries <= m.policy.max_retries by {
            assert(updated[i].index == m.in_flight[i].index);
            if i != slot {
                assert(updated[i] == m.in_flight[i]);
            }
        }
    }
}

} // verus!
