//! The coordinator that runs: [`Transmitter`] holds the state of one upload
//! and turns each event into the actions the transition function asks for.

use crate::cancel::CancellationToken;
use crate::chunk::{chunk_bounds, chunk_count_is_ceiling, chunk_of, Chunk, ChunkSource};
use crate::error::UploadError;
use crate::model::{
    distinct, flying, pending_is_idle, retry_preserves_wf, schedule_preserves_wf,
    settle_preserves_wf, slot_of, step_preserves_wf, Action, Event, Flight, Model, Phase,
};
use crate::retry::RetryPolicy;
use vstd::prelude::*;

verus! {

/// How far an upload has come, in bytes.
#[derive(Clone, Copy, Debug, PartialEq, Eq, Structural)]
pub struct ProgressState {
    /// Bytes of the chunks the endpoint has confirmed.
    pub bytes_confirmed: u64,
    /// Length of the file.
    pub total_size: u64,
}

/// The limit a coordinator goes by when it is asked for `limit`: at least
/// one chunk at a time.
pub open spec fn effective_limit(limit: nat) -> nat {
    if limit == 0 {
        1
    } else {
        limit
    }
}

/// The state of one upload, owned by the task that coordinates it.
pub struct Transmitter {
    source: ChunkSource,
    limit: usize,
    policy: RetryPolicy,
    in_flight: Vec<Flight>,
    confirmed_chunks: u64,
    confirmed_bytes: u64,
    phase: Phase,
}

impl View for Transmitter {
    type V = Model;

    closed spec fn view(&self) -> Model {
        Model {
            total: self.source@.total,
            size: self.source@.size,
            next: self.source@.next,
            limit: self.limit as nat,
            policy: self.policy,
            in_flight: self.in_flight@,
            confirmed_chunks: self.confirmed_chunks as nat,
            confirmed_bytes: self.confirmed_bytes as nat,
            phase: self.phase,
        }
    }
}

impl Transmitter {
    /// The invariant of a transmitter.
    pub open spec fn wf(&self) -> bool {
        self@.wf()
    }

    /// A transmitter for the file that `source` describes, sending at most
    /// `limit` chunks at once. A limit of zero would send nothing and wait
    /// for ever, so it counts as one. The transmitter starts before the first
    /// chunk, wherever `source` stands.
    pub fn new(source: &ChunkSource, limit: usize, policy: RetryPolicy) -> (transmitter:
        Transmitter)
        requires
            source.wf(),
        ensures
            transmitter.wf(),
            transmitter@ == Model::initial(
                source@.total,
                source@.size,
                effective_limit(limit as nat),
                policy,
            ),
            transmitter@.limit >= 1,
            transmitter@.busy(),
    {
        let transmitter = Transmitter {
            source: source.rewound(),
            limit: if limit == 0 {
                1
            } else {
                limit
            },
            policy,
            in_flight: Vec::new(),
            confirmed_chunks: 0,
            confirmed_bytes: 0,
            phase: Phase::Pending,
        };
        proof {
            chunk_count_is_ceiling(source@.total, source@.size);
            assert(transmitter@.in_flight =~= Seq::empty());
        }
        transmitter
    }

    /// Where the upload stands.
    pub fn phase(&self) -> (phase: Phase)
        ensures
            phase == self@.phase,
    {
        self.phase
    }

    /// Whether the upload has ended.
    pub fn is_finished(&self) -> (done: bool)
        ensures
            done == self@.finished(),
    {
        match self.phase {
            Phase::Completed => true,
            Phase::Failed(_) => true,
            _ => false,
        }
    }

    /// The result of the upload once it has ended.
    pub fn outcome(&self) -> (result: Option<Result<(), UploadError>>)
        ensures
            result == match self@.phase {
                Phase::Completed => Some(Ok::<(), UploadError>(())),
                Phase::Failed(error) => Some(Err::<(), UploadError>(error)),
                _ => None::<Result<(), UploadError>>,
            },
    {
        match self.phase {
            Phase::Completed => Some(Ok(())),
            Phase::Failed(error) => Some(Err(error)),
            _ => None,
        }
    }

    /// Length of the file in bytes.
    pub fn total_size(&self) -> (total: u64)
        ensures
            total == self@.total,
    {
        self.source.total_size()
    }

    /// Bytes the endpoint has confirmed so far.
    pub fn confirmed_bytes(&self) -> (bytes: u64)
        ensures
            bytes == self@.confirmed_bytes,
    {
        self.confirmed_bytes
    }

    /// How far the upload has come. The confirmed bytes never pass the length
    /// of the file, and they are the length of the file once the upload is
    /// being finalized or has completed.
    pub fn progress(&self) -> (state: ProgressState)
        requires
            self.wf(),
        ensures
            state.bytes_confirmed == self@.confirmed_bytes,
            state.total_size == self@.total,
            state.bytes_confirmed <= state.total_size,
            self@.phase is Finalizing || self@.phase is Completed ==> state.bytes_confirmed
                == state.total_size,
    {
        ProgressState {
            bytes_confirmed: self.confirmed_bytes,
            total_size: self.source.total_size(),
        }
    }

    /// Number of chunks the endpoint has confirmed so far.
    pub fn confirmed_chunks(&self) -> (chunks: u64)
        ensures
            chunks == self@.confirmed_chunks,
    {
        self.confirmed_chunks
    }

    /// Number of chunks being sent right now.
    pub fn in_flight(&self) -> (flights: usize)
        ensures
            flights == self@.in_flight.len(),
    {
        self.in_flight.len()
    }

    /// Most chunks that may be in flight at once.
    pub fn limit(&self) -> (limit: usize)
        ensures
            limit == self@.limit,
    {
        self.limit
    }

    /// Position among the flights of the chunk at `index`.
    fn find(&self, index: u64) -> (slot: Option<usize>)
        requires
            self.wf(),
        ensures
            slot is Some <==> flying(self@.in_flight, index as nat),
            slot matches Some(s) ==> s == slot_of(self@.in_flight, index as nat) && s
                < self@.in_flight.len() && self@.in_flight[s as int].index == index,
    {
        let mut slot: usize = 0;
        while slot < self.in_flight.len()
            invariant
                self.wf(),
                slot <= self.in_flight.len(),
                forall|i: int| 0 <= i < slot ==> (#[trigger] self.in_flight@[i]).index != index,
            decreases self.in_flight.len() - slot,
        {
            if self.in_flight[slot].index == index {
                proof {
                    let chosen = slot_of(self@.in_flight, index as nat);
                    assert(self@.in_flight[slot as int].index == index);
                    assert(distinct(self@.in_flight));
                    if chosen < slot {
                        assert(self@.in_flight[chosen].index != self@.in_flight[slot as int].index);
                    } else if chosen > slot {
                        assert(self@.in_flight[slot as int].index != self@.in_flight[chosen].index);
                    }
                }
                return Some(slot);
            }
            slot = slot + 1;
        }
        None
    }

    /// Appends the order to send `chunk` and the report of the attempt.
    fn order(&self, flight: Flight, chunk: Chunk, actions: &mut Vec<Action>)
        requires
            self.wf(),
            flight.index < self@.count(),
            chunk == chunk_of(self@.total, self@.size, flight.index as nat),
        ensures
            final(actions)@ == old(actions)@ + seq![
                self@.send(flight),
                self@.attempt_report(flight.index as nat),
            ],
    {
        proof {
            chunk_bounds(self@.total, self@.size, flight.index as nat);
        }
        let backoff_secs: u64 = self.policy.backoff_secs(flight.retries);
        actions.push(Action::Send { chunk, retry: flight.retries, backoff_secs });
        actions.push(
            Action::ReportAttempt { bytes: chunk.length as u64, total: self.source.total_size() },
        );
        assert(actions@ =~= old(actions)@ + seq![
            self@.send(flight),
            self@.attempt_report(flight.index as nat),
        ]);
    }

    /// Hands out chunks until the limit is reached or none is left.
    fn refill(&mut self, actions: &mut Vec<Action>)
        requires
            old(self).wf(),
            old(self)@.phase is Transmitting,
        ensures
            final(self).wf(),
            final(self)@ == old(self)@.refill().0,
            final(actions)@ == old(actions)@ + old(self)@.refill().1,
    {
        let count: u64 = self.source.chunk_count();
        while self.in_flight.len() < self.limit && self.source.position() < count
            invariant
                self.wf(),
                self@.phase is Transmitting,
                count == self@.count(),
                self@.refill().0 == old(self)@.refill().0,
                actions@ + self@.refill().1 == old(actions)@ + old(self)@.refill().1,
            decreases self@.count() - self@.next,
        {
            let ghost before = self@;
            let ghost sent = actions@;
            proof {
                schedule_preserves_wf(before);
            }
            let chunk = self.source.next_chunk().unwrap();
            let flight = Flight { index: chunk.index, retries: 0 };
            self.in_flight.push(flight);
            assert(self@ == before.schedule());
            self.order(flight, chunk, actions);
            assert(actions@ + self@.refill().1 =~= sent + before.refill().1);
        }
        assert(actions@ =~= actions@ + self@.refill().1);
    }

    /// Ends the upload with `error`.
    fn fail(&mut self, error: UploadError, actions: &mut Vec<Action>)
        requires
            old(self).wf(),
        ensures
            final(self)@ == old(self)@.fail(error).0,
            final(actions)@ == old(actions)@ + old(self)@.fail(error).1,
    {
        self.in_flight.clear();
        self.phase = Phase::Failed(error);
        actions.push(Action::Fail(error));
        assert(actions@ =~= old(actions)@ + old(self)@.fail(error).1);
    }

    /// Starts sending.
    fn begin(&mut self, actions: &mut Vec<Action>)
        requires
            old(self).wf(),
            old(self)@.phase is Pending,
        ensures
            final(self)@ == old(self)@.begin().0,
            final(actions)@ == old(actions)@ + old(self)@.begin().1,
    {
        if self.source.chunk_count() == 0 {
            self.phase = Phase::Finalizing;
            actions.push(Action::Finalize);
            assert(actions@ =~= old(actions)@ + old(self)@.begin().1);
        } else {
            self.phase = Phase::Transmitting;
            proof {
                pending_is_idle(old(self)@);
            }
            self.refill(actions);
        }
    }

    /// Books the confirmed chunk in `slot`.
    fn confirm(&mut self, slot: usize, actions: &mut Vec<Action>)
        requires
            old(self).wf(),
            old(self)@.phase is Transmitting,
            slot < old(self)@.in_flight.len(),
            slot == slot_of(old(self)@.in_flight, old(self)@.in_flight[slot as int].index as nat),
        ensures
            final(self)@ == old(self)@.confirm(old(self)@.in_flight[slot as int].index as nat).0,
            final(actions)@ == old(actions)@ + old(self)@.confirm(
                old(self)@.in_flight[slot as int].index as nat,
            ).1,
    {
        let ghost before = self@;
        let ghost index = self@.in_flight[slot as int].index as nat;
        proof {
            assert(flying(before.in_flight, index));
            settle_preserves_wf(before, index);
            chunk_bounds(before.total, before.size, index);
            chunk_count_is_ceiling(before.total, before.size);
        }
        let flight = self.in_flight.remove(slot);
        let chunk = self.source.chunk_at(flight.index).unwrap();
        self.confirmed_chunks = self.confirmed_chunks + 1;
        self.confirmed_bytes = self.confirmed_bytes + chunk.length as u64;
        assert(self@ == before.settle(index));
        actions.push(
            Action::ReportConfirmed {
                chunk_bytes: chunk.length as u64,
                confirmed: self.confirmed_bytes,
                total: self.source.total_size(),
            },
        );
        if self.confirmed_chunks == self.source.chunk_count() {
            self.phase = Phase::Finalizing;
            actions.push(Action::Finalize);
            assert(actions@ =~= old(actions)@ + before.confirm(index).1);
        } else {
            self.refill(actions);
            assert(actions@ =~= old(actions)@ + before.confirm(index).1);
        }
    }

    /// Sends the failed chunk in `slot` again, or gives the upload up.
    fn retry(&mut self, slot: usize, actions: &mut Vec<Action>)
        requires
            old(self).wf(),
            old(self)@.phase is Transmitting,
            slot < old(self)@.in_flight.len(),
            slot == slot_of(old(self)@.in_flight, old(self)@.in_flight[slot as int].index as nat),
        ensures
            final(self)@ == old(self)@.retry(old(self)@.in_flight[slot as int].index as nat).0,
            final(actions)@ == old(actions)@ + old(self)@.retry(
                old(self)@.in_flight[slot as int].index as nat,
            ).1,
    {
        let ghost before = self@;
        let ghost index = self@.in_flight[slot as int].index as nat;
        proof {
            assert(flying(before.in_flight, index));
            retry_preserves_wf(before, index);
            chunk_bounds(before.total, before.size, index);
        }
        let flight = self.in_flight[slot];
        let chunk = self.source.chunk_at(flight.index).unwrap();
        if self.policy.may_retry(flight.retries) {
            let again = Flight { index: flight.index, retries: flight.retries + 1 };
            self.in_flight.set(slot, again);
            assert(self@ == before.retry(index).0);
            self.order(again, chunk, actions);
        } else {
            self.fail(UploadError::ChunkUploadFailed { offset: chunk.offset }, actions);
        }
    }

    /// Takes one event and returns what has to be done about it, in order.
    /// An event that does not fit the state, such as the confirmation of a
    /// chunk that is not in flight or anything after the upload has ended,
    /// changes nothing and asks for nothing.
    pub fn step(&mut self, event: Event) -> (actions: Vec<Action>)
        requires
            old(self).wf(),
        ensures
            final(self).wf(),
            final(self)@ == old(self)@.step(event).0,
            actions@ == old(self)@.step(event).1,
    {
        let mut actions: Vec<Action> = Vec::new();
        proof {
            step_preserves_wf(self@, event);
        }
        match self.phase {
            Phase::Pending => match event {
                Event::Begin => self.begin(&mut actions),
                Event::Cancel => self.fail(UploadError::UploadCancelled, &mut actions),
                _ => {},
            },
            Phase::Transmitting => match event {
                Event::ChunkSucceeded { index } => {
                    match self.find(index) {
                        Some(slot) => self.confirm(slot, &mut actions),
                        None => {},
                    }
                },
                Event::ChunkFailed { index } => {
                    match self.find(index) {
                        Some(slot) => self.retry(slot, &mut actions),
                        None => {},
                    }
                },
                Event::Cancel => self.fail(UploadError::UploadCancelled, &mut actions),
                _ => {},
            },
            Phase::Finalizing => match event {
                Event::FinalizeSucceeded => {
                    self.phase = Phase::Completed;
                    actions.push(Action::Complete);
                },
                Event::FinalizeFailed => self.fail(UploadError::FinalizeFailed, &mut actions),
                Event::Cancel => self.fail(UploadError::UploadCancelled, &mut actions),
                _ => {},
            },
            _ => {},
        }
        assert(actions@ =~= old(self)@.step(event).1);
        actions
    }

    /// One scheduling step of the driver: the cancellation token is looked at
    /// first, and once it has fired the event is dropped and the upload is
    /// cancelled instead.
    pub fn advance(&mut self, token: &CancellationToken, event: Event) -> (actions: Vec<Action>)
        requires
            old(self).wf(),
        ensures
            final(self).wf(),
            final(self)@ == old(self)@.step(token.gate(event)).0,
            actions@ == old(self)@.step(token.gate(event)).1,
    {
        if token.is_fired() {
            self.step(Event::Cancel)
        } else {
            self.step(event)
        }
    }
}

} // verus!
