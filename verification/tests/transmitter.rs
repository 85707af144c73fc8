use chunked_upload::cancel::CancellationToken;
use chunked_upload::chunk::{Chunk, ChunkSource};
use chunked_upload::error::UploadError;
use chunked_upload::model::{Action, Event, Phase};
use chunked_upload::retry::RetryPolicy;
use chunked_upload::transmit::{ProgressState, Transmitter};

const MIB: u64 = 1024 * 1024;

fn transmitter(total: u64, size: u32, limit: usize, max_retries: u32) -> Transmitter {
    let source = ChunkSource::new(total, size).unwrap();
    Transmitter::new(&source, limit, RetryPolicy { max_retries, max_backoff_secs: 64 })
}

fn confirmed(actions: &[Action]) -> Vec<u64> {
    actions
        .iter()
        .filter_map(|a| match a {
            Action::ReportConfirmed { confirmed, .. } => Some(*confirmed),
            _ => None,
        })
        .collect()
}

fn attempts(actions: &[Action]) -> Vec<u64> {
    actions
        .iter()
        .filter_map(|a| match a {
            Action::ReportAttempt { bytes, .. } => Some(*bytes),
            _ => None,
        })
        .collect()
}

fn sent(actions: &[Action]) -> Vec<(u64, u32)> {
    actions
        .iter()
        .filter_map(|a| match a {
            Action::Send { chunk, retry, .. } => Some((chunk.index, *retry)),
            _ => None,
        })
        .collect()
}

fn run(t: &mut Transmitter, events: &[Event]) -> Vec<Action> {
    let mut all: Vec<Action> = Vec::new();
    for event in events {
        all.extend(t.step(*event));
    }
    all
}

#[test]
fn three_chunks_without_failures_complete() {
    let total: u64 = 25 * MIB;
    let mut t = transmitter(total, (10 * MIB) as u32, 2, 3);
    let actions = run(
        &mut t,
        &[
            Event::Begin,
            Event::ChunkSucceeded { index: 0 },
            Event::ChunkSucceeded { index: 1 },
            Event::ChunkSucceeded { index: 2 },
            Event::FinalizeSucceeded,
        ],
    );
    assert_eq!(sent(&actions), vec![(0, 0), (1, 0), (2, 0)]);
    assert_eq!(confirmed(&actions), vec![10 * MIB, 20 * MIB, 25 * MIB]);
    assert_eq!(*confirmed(&actions).last().unwrap(), total);
    assert_eq!(actions.iter().filter(|a| **a == Action::Finalize).count(), 1);
    assert_eq!(actions.last(), Some(&Action::Complete));
    assert_eq!(t.phase(), Phase::Completed);
    assert_eq!(t.outcome(), Some(Ok(())));
    assert_eq!(t.confirmed_bytes(), total);
    assert_eq!(t.confirmed_chunks(), 3);
}

#[test]
fn begin_fills_the_window_and_no_more() {
    let mut t = transmitter(25 * MIB, (10 * MIB) as u32, 2, 3);
    assert_eq!(t.phase(), Phase::Pending);
    let actions = t.step(Event::Begin);
    assert_eq!(
        actions,
        vec![
            Action::Send {
                chunk: Chunk { index: 0, offset: 0, length: 10_485_760 },
                retry: 0,
                backoff_secs: 0
            },
            Action::ReportAttempt { bytes: 10_485_760, total: 26_214_400 },
            Action::Send {
                chunk: Chunk { index: 1, offset: 10_485_760, length: 10_485_760 },
                retry: 0,
                backoff_secs: 0
            },
            Action::ReportAttempt { bytes: 10_485_760, total: 26_214_400 },
        ]
    );
    assert_eq!(t.in_flight(), 2);
    assert_eq!(t.phase(), Phase::Transmitting);
}

#[test]
fn a_confirmed_chunk_frees_a_slot_for_the_next() {
    let mut t = transmitter(25 * MIB, (10 * MIB) as u32, 2, 3);
    t.step(Event::Begin);
    let actions = t.step(Event::ChunkSucceeded { index: 1 });
    assert_eq!(
        actions,
        vec![
            Action::ReportConfirmed { chunk_bytes: 10_485_760, confirmed: 10_485_760, total: 26_214_400 },
            Action::Send {
                chunk: Chunk { index: 2, offset: 20_971_520, length: 5_242_880 },
                retry: 0,
                backoff_secs: 0
            },
            Action::ReportAttempt { bytes: 5_242_880, total: 26_214_400 },
        ]
    );
    assert_eq!(t.in_flight(), 2);
}

#[test]
fn a_retried_chunk_is_counted_once_in_the_total_and_twice_in_the_attempts() {
    let total: u64 = 25 * MIB;
    let mut t = transmitter(total, (10 * MIB) as u32, 2, 3);
    let actions = run(
        &mut t,
        &[
            Event::Begin,
            Event::ChunkFailed { index: 1 },
            Event::ChunkSucceeded { index: 0 },
            Event::ChunkSucceeded { index: 1 },
            Event::ChunkSucceeded { index: 2 },
            Event::FinalizeSucceeded,
        ],
    );
    assert_eq!(confirmed(&actions), vec![10 * MIB, 20 * MIB, 25 * MIB]);
    assert_eq!(attempts(&actions), vec![10 * MIB, 10 * MIB, 10 * MIB, 5 * MIB]);
    assert_eq!(sent(&actions), vec![(0, 0), (1, 0), (1, 1), (2, 0)]);
    assert_eq!(t.outcome(), Some(Ok(())));
}

#[test]
fn a_retry_sends_the_whole_chunk_again_after_a_wait() {
    let mut t = transmitter(25, 10, 2, 3);
    t.step(Event::Begin);
    let first = t.step(Event::ChunkFailed { index: 1 });
    assert_eq!(
        first,
        vec![
            Action::Send {
                chunk: Chunk { index: 1, offset: 10, length: 10 },
                retry: 1,
                backoff_secs: 2
            },
            Action::ReportAttempt { bytes: 10, total: 25 },
        ]
    );
    let second = t.step(Event::ChunkFailed { index: 1 });
    assert_eq!(
        second[0],
        Action::Send { chunk: Chunk { index: 1, offset: 10, length: 10 }, retry: 2, backoff_secs: 4 }
    );
    let third = t.step(Event::ChunkFailed { index: 1 });
    assert_eq!(
        third[0],
        Action::Send { chunk: Chunk { index: 1, offset: 10, length: 10 }, retry: 3, backoff_secs: 8 }
    );
    assert_eq!(t.in_flight(), 2);
    assert_eq!(t.confirmed_bytes(), 0);
}

#[test]
fn a_confirmation_carries_the_bytes_of_its_chunk() {
    let mut t = transmitter(25, 10, 3, 3);
    t.step(Event::Begin);
    assert_eq!(
        t.step(Event::ChunkSucceeded { index: 2 }),
        vec![Action::ReportConfirmed { chunk_bytes: 5, confirmed: 5, total: 25 }]
    );
    t.step(Event::ChunkFailed { index: 0 });
    assert_eq!(
        t.step(Event::ChunkSucceeded { index: 0 }),
        vec![Action::ReportConfirmed { chunk_bytes: 10, confirmed: 15, total: 25 }]
    );
    assert_eq!(
        t.step(Event::ChunkSucceeded { index: 1 }),
        vec![
            Action::ReportConfirmed { chunk_bytes: 10, confirmed: 25, total: 25 },
            Action::Finalize
        ]
    );
}

#[test]
fn progress_is_the_confirmed_part_of_the_file() {
    let mut t = transmitter(25, 10, 2, 3);
    assert_eq!(t.progress(), ProgressState { bytes_confirmed: 0, total_size: 25 });
    run(&mut t, &[Event::Begin, Event::ChunkFailed { index: 0 }, Event::ChunkSucceeded { index: 1 }]);
    assert_eq!(t.progress(), ProgressState { bytes_confirmed: 10, total_size: 25 });
    run(&mut t, &[Event::ChunkSucceeded { index: 0 }, Event::ChunkSucceeded { index: 2 }]);
    assert_eq!(t.progress(), ProgressState { bytes_confirmed: 25, total_size: 25 });
}

#[test]
fn chunks_may_complete_out_of_order() {
    let mut t = transmitter(25, 10, 3, 0);
    let actions = run(
        &mut t,
        &[
            Event::Begin,
            Event::ChunkSucceeded { index: 2 },
            Event::ChunkSucceeded { index: 0 },
            Event::ChunkSucceeded { index: 1 },
        ],
    );
    assert_eq!(confirmed(&actions), vec![5, 15, 25]);
    assert_eq!(t.phase(), Phase::Finalizing);
    assert_eq!(actions.last(), Some(&Action::Finalize));
}

#[test]
fn exhausted_retries_fail_the_upload_without_finalizing() {
    let mut t = transmitter(25, 10, 2, 2);
    let actions = run(
        &mut t,
        &[
            Event::Begin,
            Event::ChunkSucceeded { index: 0 },
            Event::ChunkFailed { index: 1 },
            Event::ChunkFailed { index: 1 },
            Event::ChunkFailed { index: 1 },
            Event::ChunkSucceeded { index: 2 },
            Event::FinalizeSucceeded,
        ],
    );
    assert_eq!(t.outcome(), Some(Err(UploadError::ChunkUploadFailed { offset: 10 })));
    assert_eq!(t.phase(), Phase::Failed(UploadError::ChunkUploadFailed { offset: 10 }));
    assert!(!actions.contains(&Action::Finalize));
    assert!(!actions.contains(&Action::Complete));
    assert_eq!(
        actions.last(),
        Some(&Action::Fail(UploadError::ChunkUploadFailed { offset: 10 }))
    );
    assert_eq!(sent(&actions), vec![(0, 0), (1, 0), (2, 0), (1, 1), (1, 2)]);
    assert_eq!(confirmed(&actions), vec![10]);
    assert_eq!(t.in_flight(), 0);
}

#[test]
fn without_retries_the_first_failure_is_final() {
    let mut t = transmitter(25, 10, 1, 0);
    t.step(Event::Begin);
    let actions = t.step(Event::ChunkFailed { index: 0 });
    assert_eq!(actions, vec![Action::Fail(UploadError::ChunkUploadFailed { offset: 0 })]);
    assert!(t.is_finished());
}

#[test]
fn cancelling_midway_ends_the_upload_and_silences_it() {
    let mut t = transmitter(50, 10, 2, 3);
    let before = run(
        &mut t,
        &[Event::Begin, Event::ChunkSucceeded { index: 0 }, Event::ChunkSucceeded { index: 1 }],
    );
    assert_eq!(confirmed(&before), vec![10, 20]);
    assert_eq!(t.step(Event::Cancel), vec![Action::Fail(UploadError::UploadCancelled)]);
    assert_eq!(t.outcome(), Some(Err(UploadError::UploadCancelled)));
    assert_eq!(t.in_flight(), 0);
    let after = run(
        &mut t,
        &[
            Event::ChunkSucceeded { index: 2 },
            Event::ChunkSucceeded { index: 3 },
            Event::ChunkFailed { index: 3 },
            Event::FinalizeSucceeded,
            Event::Begin,
            Event::Cancel,
        ],
    );
    assert!(after.is_empty());
    assert_eq!(t.confirmed_bytes(), 20);
    assert_eq!(t.outcome(), Some(Err(UploadError::UploadCancelled)));
}

#[test]
fn cancelling_wins_before_the_start_and_while_finalizing() {
    let mut pending = transmitter(25, 10, 2, 3);
    assert_eq!(pending.step(Event::Cancel), vec![Action::Fail(UploadError::UploadCancelled)]);
    assert!(pending.step(Event::Begin).is_empty());

    let mut finalizing = transmitter(10, 10, 2, 3);
    run(&mut finalizing, &[Event::Begin, Event::ChunkSucceeded { index: 0 }]);
    assert_eq!(finalizing.phase(), Phase::Finalizing);
    assert_eq!(finalizing.step(Event::Cancel), vec![Action::Fail(UploadError::UploadCancelled)]);
    assert!(finalizing.step(Event::FinalizeSucceeded).is_empty());
    assert_eq!(finalizing.outcome(), Some(Err(UploadError::UploadCancelled)));
}

#[test]
fn cancelling_after_the_end_changes_nothing() {
    let mut t = transmitter(10, 10, 2, 3);
    run(&mut t, &[Event::Begin, Event::ChunkSucceeded { index: 0 }, Event::FinalizeSucceeded]);
    assert!(t.step(Event::Cancel).is_empty());
    assert_eq!(t.outcome(), Some(Ok(())));
}

#[test]
fn a_fired_token_turns_any_event_into_the_cancellation() {
    let mut token = CancellationToken::new();
    let mut t = transmitter(30, 10, 2, 3);
    assert_eq!(sent(&t.advance(&token, Event::Begin)), vec![(0, 0), (1, 0)]);
    assert_eq!(confirmed(&t.advance(&token, Event::ChunkSucceeded { index: 0 })), vec![10]);
    assert!(!token.is_fired());
    assert!(token.fire());
    assert!(!token.fire());
    assert!(token.is_fired());
    assert_eq!(
        t.advance(&token, Event::ChunkSucceeded { index: 1 }),
        vec![Action::Fail(UploadError::UploadCancelled)]
    );
    assert!(t.advance(&token, Event::ChunkSucceeded { index: 2 }).is_empty());
    assert_eq!(t.confirmed_bytes(), 10);
}

#[test]
fn never_more_in_flight_than_the_limit() {
    for limit in 0..6usize {
        let mut t = transmitter(95, 10, limit, 1);
        let mut outstanding: Vec<u64> = Vec::new();
        let mut pending: Vec<Action> = t.step(Event::Begin);
        let mut round: u64 = 0;
        loop {
            for (index, _) in sent(&pending) {
                if !outstanding.contains(&index) {
                    outstanding.push(index);
                }
            }
            assert!(outstanding.len() <= limit.max(1));
            assert_eq!(t.in_flight(), outstanding.len());
            assert!(t.in_flight() <= t.limit());
            if outstanding.is_empty() {
                break;
            }
            let index = outstanding[(round as usize) % outstanding.len()];
            round += 1;
            if round % 3 == 0 && index % 2 == 1 {
                pending = t.step(Event::ChunkFailed { index });
                if t.is_finished() {
                    outstanding.clear();
                }
            } else {
                pending = t.step(Event::ChunkSucceeded { index });
                outstanding.retain(|i| *i != index);
            }
        }
        assert_eq!(t.limit(), limit.max(1));
        assert!(t.phase() == Phase::Finalizing || t.is_finished());
    }
}

#[test]
fn cumulative_figures_never_decrease_and_end_at_the_total() {
    let mut t = transmitter(1003, 100, 4, 5);
    let mut all: Vec<Action> = t.step(Event::Begin);
    let order: Vec<u64> = vec![3, 0, 2, 1, 5, 4, 7, 6, 10, 8, 9];
    for index in order {
        all.extend(t.step(Event::ChunkFailed { index }));
        all.extend(t.step(Event::ChunkSucceeded { index }));
        all.extend(t.step(Event::ChunkSucceeded { index }));
    }
    let figures = confirmed(&all);
    assert_eq!(figures.len(), 11);
    for pair in figures.windows(2) {
        assert!(pair[0] < pair[1]);
    }
    assert_eq!(figures.iter().filter(|f| **f == 1003).count(), 1);
    assert_eq!(*figures.last().unwrap(), 1003);
    assert_eq!(attempts(&all).len(), 22);
    assert_eq!(t.phase(), Phase::Finalizing);
}

#[test]
fn events_that_do_not_fit_are_ignored() {
    let mut t = transmitter(25, 10, 1, 3);
    assert!(t.step(Event::ChunkSucceeded { index: 0 }).is_empty());
    assert!(t.step(Event::FinalizeSucceeded).is_empty());
    assert_eq!(t.phase(), Phase::Pending);
    t.step(Event::Begin);
    assert!(t.step(Event::Begin).is_empty());
    assert!(t.step(Event::ChunkSucceeded { index: 1 }).is_empty());
    assert!(t.step(Event::ChunkFailed { index: 2 }).is_empty());
    assert!(t.step(Event::ChunkSucceeded { index: 99 }).is_empty());
    assert!(t.step(Event::FinalizeSucceeded).is_empty());
    assert!(t.step(Event::FinalizeFailed).is_empty());
    assert_eq!(t.in_flight(), 1);
    assert_eq!(t.confirmed_bytes(), 0);
    assert_eq!(t.outcome(), None);
}

#[test]
fn an_empty_file_goes_straight_to_finalizing() {
    let mut t = transmitter(0, 10, 3, 3);
    assert_eq!(t.step(Event::Begin), vec![Action::Finalize]);
    assert_eq!(t.phase(), Phase::Finalizing);
    assert_eq!(t.step(Event::FinalizeSucceeded), vec![Action::Complete]);
    assert_eq!(t.outcome(), Some(Ok(())));
    assert_eq!(t.confirmed_bytes(), 0);
}

#[test]
fn a_failed_finalize_fails_the_upload() {
    let mut t = transmitter(10, 10, 3, 3);
    run(&mut t, &[Event::Begin, Event::ChunkSucceeded { index: 0 }]);
    assert_eq!(t.step(Event::FinalizeFailed), vec![Action::Fail(UploadError::FinalizeFailed)]);
    assert_eq!(t.outcome(), Some(Err(UploadError::FinalizeFailed)));
    assert!(t.step(Event::FinalizeSucceeded).is_empty());
}

#[test]
fn a_limit_of_zero_counts_as_one() {
    let mut t = transmitter(25, 10, 0, 3);
    assert_eq!(t.limit(), 1);
    assert_eq!(sent(&t.step(Event::Begin)), vec![(0, 0)]);
    assert_eq!(t.phase(), Phase::Transmitting);
    assert_eq!(t.in_flight(), 1);
    assert_eq!(sent(&t.step(Event::ChunkSucceeded { index: 0 })), vec![(1, 0)]);
    assert_eq!(t.in_flight(), 1);
}

#[test]
fn while_sending_something_is_always_in_flight() {
    for limit in 0..5usize {
        let mut t = transmitter(47, 10, limit, 2);
        t.step(Event::Begin);
        let mut index: u64 = 0;
        while t.phase() == Phase::Transmitting {
            assert!(t.in_flight() > 0);
            t.step(Event::ChunkFailed { index });
            assert!(t.in_flight() > 0);
            t.step(Event::ChunkSucceeded { index });
            index += 1;
        }
        assert_eq!(t.phase(), Phase::Finalizing);
        assert_eq!(index, 5);
    }
}

#[test]
fn there_are_as_many_figures_as_chunks_and_each_fits_its_chunks() {
    let mut t = transmitter(47, 10, 3, 2);
    let mut all: Vec<Action> = t.step(Event::Begin);
    for index in [2u64, 0, 1, 4, 3] {
        all.extend(t.step(Event::ChunkFailed { index }));
        all.extend(t.step(Event::ChunkSucceeded { index }));
    }
    let figures = confirmed(&all);
    assert_eq!(figures, vec![10, 20, 30, 37, 47]);
    assert_eq!(figures.len() as u64, t.confirmed_chunks());
    for (n, figure) in figures.iter().enumerate() {
        assert!(*figure <= 10 * (n as u64 + 1));
    }
}

#[test]
fn a_failed_upload_never_showed_the_whole_file() {
    let mut t = transmitter(30, 10, 3, 0);
    let actions = run(
        &mut t,
        &[
            Event::Begin,
            Event::ChunkSucceeded { index: 0 },
            Event::ChunkSucceeded { index: 2 },
            Event::ChunkFailed { index: 1 },
            Event::ChunkSucceeded { index: 1 },
        ],
    );
    assert_eq!(t.outcome(), Some(Err(UploadError::ChunkUploadFailed { offset: 10 })));
    assert_eq!(confirmed(&actions), vec![10, 20]);
    assert!(!confirmed(&actions).contains(&30));
}

#[test]
fn a_transmitter_starts_at_the_first_chunk_wherever_its_source_stands() {
    let mut source = ChunkSource::new(25, 10).unwrap();
    source.next_chunk();
    let mut t = Transmitter::new(&source, 1, RetryPolicy::standard());
    assert_eq!(t.total_size(), 25);
    assert_eq!(sent(&t.step(Event::Begin)), vec![(0, 0)]);
}

#[test]
fn backoff_doubles_up_to_the_cap() {
    let policy = RetryPolicy::standard();
    assert_eq!(policy.max_retries, 3);
    assert_eq!(policy.max_backoff_secs, 64);
    let waits: Vec<u64> = (0..9u32).map(|retry| policy.backoff_secs(retry)).collect();
    assert_eq!(waits, vec![0, 2, 4, 8, 16, 32, 64, 64, 64]);
    assert_eq!(policy.backoff_secs(u32::MAX), 64);
    let short = RetryPolicy { max_retries: 10, max_backoff_secs: 5 };
    assert_eq!(short.backoff_secs(1), 2);
    assert_eq!(short.backoff_secs(2), 4);
    assert_eq!(short.backoff_secs(3), 5);
    let none = RetryPolicy { max_retries: 1, max_backoff_secs: 0 };
    assert_eq!(none.backoff_secs(1), 0);
    let one = RetryPolicy { max_retries: 1, max_backoff_secs: 1 };
    assert_eq!(one.backoff_secs(4), 1);
    let wide = RetryPolicy { max_retries: 1, max_backoff_secs: u64::MAX };
    assert_eq!(wide.backoff_secs(63), 1u64 << 63);
    assert_eq!(wide.backoff_secs(64), u64::MAX);
}

#[test]
fn the_budget_counts_retries_not_attempts() {
    let policy = RetryPolicy { max_retries: 2, max_backoff_secs: 64 };
    assert!(policy.may_retry(0));
    assert!(policy.may_retry(1));
    assert!(!policy.may_retry(2));
    assert!(!RetryPolicy { max_retries: 0, max_backoff_secs: 64 }.may_retry(0));
}
