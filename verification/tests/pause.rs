//! The coordination of a pause, against a scripted world.

use p11scope::cli::PausePolicy;
use p11scope::discovery::pause::adapter::{
    batch_records, put_back, read_task_states, settle_batch, settle_revalidation, take_dequeued, BatchSeen, RevalidationSeen,
    TaskSeen,
};
use p11scope::discovery::pause::diagnostic::{
    classify_apply_diagnostic, diagnostic_for_message, render_pause_diagnostic, PauseDiagnostic,
    MSG_ARM_FAILED, MSG_COALESCED_RECORD_DEADLINE, MSG_DEADLINE_AFTER_DEQUEUE,
    MSG_DEADLINE_BEFORE_DEQUEUE, MSG_NESTED_DEADLINE_AFTER, MSG_NESTED_DEADLINE_BEFORE,
    MSG_PAUSE_CAUSAL_DEADLINE, MSG_PAUSE_CONFIRMATION_DEADLINE, MSG_PAUSE_HELPER_REJECTED,
    MSG_PAUSE_RESUME_DEADLINE, MSG_POST_RELEASE_REVALIDATION_INCOMPLETE,
};
use p11scope::discovery::pause::io::{
    History, PauseBatchError, PauseBatchOutcome, PauseIo, PauseRevalidationOutcome, TimedItem,
};
use p11scope::discovery::pause::retirement::{
    collect_timed_retirement_with, Collected, DrainHistory, DrainIo, IncompleteTerminalDrain, RetirementError,
};
use p11scope::discovery::pause::rules::{
    cycle_deadline, validate_received, CYCLE_NS, MAX_FAILURE_ITEMS, SAMPLE_NS,
};
use p11scope::discovery::pause::service::owned_generation_retained;
use p11scope::discovery::pause::state::{
    ArmResult, PauseCoordinator, PauseCounters, PauseEpoch, PauseStatus,
};
use p11scope::discovery::pause::tasks::parse_task_state;
use p11scope::record::{
    DiscoveryItem, DiscoveryRecord, COALESCED_NO_HELPER_RC, DISCOVERY_KIND_EXEC,
    DISCOVERY_STATUS_COALESCED_NO_HELPER, PAUSE_ARMED, PAUSE_REQUESTED,
};
use std::collections::{BTreeMap, VecDeque};

/// A terminal batch: the loader context that owns it, and its records.
#[derive(Clone, Debug, PartialEq)]
struct TerminalBatch {
    owner: u8,
    records: Vec<DiscoveryRecord>,
}

fn coordinator_for(
    policy: PausePolicy,
    pid: u32,
    generation: u64,
    expected_tasks: BTreeMap<u32, u8>,
) -> PauseCoordinator<TerminalBatch> {
    PauseCoordinator::new(policy, pid, generation, expected_tasks)
}

fn record(ts: u64, rc: i64, coalesced: bool) -> DiscoveryRecord {
    DiscoveryRecord {
        hook_ts_ns: ts,
        pid_tgid: 41u64 << 32,
        kind: DISCOVERY_KIND_EXEC,
        case_id: 0,
        send_signal_rc: rc,
        status_flags: if coalesced {
            DISCOVERY_STATUS_COALESCED_NO_HELPER
        } else {
            0
        },
    }
}

struct FakeIo {
    now: VecDeque<Result<u64, String>>,
    fallback_now: u64,
    states: VecDeque<Result<BTreeMap<u32, u8>, String>>,
    queue: VecDeque<Result<Option<DiscoveryItem>, String>>,
    authorization: Option<u64>,
    authorization_results: VecDeque<Result<Option<u64>, String>>,
    marker: bool,
    events: Vec<&'static str>,
    applied: Vec<DiscoveryRecord>,
    apply_deadlines: Vec<Option<u64>>,
    fail_detach: bool,
    fail_remove: bool,
    fail_read: bool,
    fail_resume: bool,
    fail_apply: bool,
    apply_outcome_diagnostic: Option<PauseDiagnostic>,
    apply_error_diagnostic: Option<PauseDiagnostic>,
    fail_terminal_apply: bool,
    unvalidated_records: u64,
    required_complete: bool,
    fail_wait: bool,
    cancelled: bool,
    same_generation: bool,
    same_generation_results: VecDeque<Result<bool, String>>,
    original_exited: bool,
    resume_authorization: Option<Option<u64>>,
    resumed: bool,
    post_resume_all_stopped: bool,
    post_resume_now: VecDeque<Result<u64, String>>,
    ring_losses: VecDeque<Result<u64, String>>,
    fallback_ring_loss: u64,
    revalidation_required_complete: bool,
    revalidation_consumes_winner: bool,
    revalidation_item: Option<DiscoveryItem>,
    revalidation_deferred: Option<TimedItem<TerminalBatch>>,
    revalidation_error: Option<String>,
    retirement_stop_candidate_seen: bool,
    revalidation_pause_owned: Vec<bool>,
    apply_pause_owned: Vec<bool>,
    terminal_batches: Vec<TerminalBatch>,
    reconcile_results: VecDeque<Result<(), String>>,
    terminal_cleanup_results: VecDeque<Result<(), String>>,
    terminal_authority_pending: bool,
}

impl Default for FakeIo {
    fn default() -> Self {
        Self {
            now: VecDeque::new(),
            fallback_now: 0,
            states: VecDeque::new(),
            queue: VecDeque::new(),
            authorization: None,
            authorization_results: VecDeque::new(),
            marker: false,
            events: Vec::new(),
            applied: Vec::new(),
            apply_deadlines: Vec::new(),
            fail_detach: false,
            fail_remove: false,
            fail_read: false,
            fail_resume: false,
            fail_apply: false,
            apply_outcome_diagnostic: None,
            apply_error_diagnostic: None,
            fail_terminal_apply: false,
            unvalidated_records: 0,
            required_complete: true,
            fail_wait: false,
            cancelled: false,
            same_generation: true,
            same_generation_results: VecDeque::new(),
            original_exited: false,
            resume_authorization: None,
            resumed: false,
            post_resume_all_stopped: false,
            post_resume_now: VecDeque::new(),
            ring_losses: VecDeque::new(),
            fallback_ring_loss: 0,
            revalidation_required_complete: true,
            revalidation_consumes_winner: false,
            revalidation_item: None,
            revalidation_deferred: None,
            revalidation_error: None,
            retirement_stop_candidate_seen: false,
            revalidation_pause_owned: Vec::new(),
            apply_pause_owned: Vec::new(),
            terminal_batches: Vec::new(),
            reconcile_results: VecDeque::new(),
            terminal_cleanup_results: VecDeque::new(),
            terminal_authority_pending: false,
        }
    }
}

impl PauseIo<TerminalBatch> for FakeIo {
    fn log(&self) -> History<TerminalBatch> {
        unreachable!()
    }

    fn now_ns(&mut self) -> Result<u64, String> {
        if self.resumed {
            if let Some(now) = self.post_resume_now.pop_front() {
                if let Ok(now) = now {
                    self.fallback_now = now;
                }
                return now;
            }
        }
        match self.now.pop_front() {
            Some(Ok(now)) => {
                self.fallback_now = now;
                Ok(now)
            }
            Some(Err(error)) => Err(error),
            None => {
                self.fallback_now = self.fallback_now.saturating_add(1);
                Ok(self.fallback_now)
            }
        }
    }

    fn wait_one_ms(&mut self) -> Result<(), String> {
        self.events.push("wait");
        if self.fail_wait {
            return Err("wait".into());
        }
        self.fallback_now = self.fallback_now.saturating_add(SAMPLE_NS);
        Ok(())
    }

    fn task_states(&mut self, _: u32) -> Result<BTreeMap<u32, u8>, String> {
        self.states.pop_front().unwrap_or_else(|| {
            if self.resumed && !self.post_resume_all_stopped {
                Ok([(41, b'R'), (42, b'T')].into_iter().collect())
            } else {
                Ok(stopped())
            }
        })
    }

    fn dequeue(&mut self) -> Result<Option<DiscoveryItem>, String> {
        self.events.push("dequeue");
        let item = self.queue.pop_front().unwrap_or(Ok(None));
        if matches!(item, Ok(Some(DiscoveryItem::Record(_)))) {
            self.resumed = false;
        }
        item
    }

    fn arm(&mut self) -> Result<(), String> {
        self.events.push("arm");
        self.authorization = Some(PAUSE_ARMED);
        Ok(())
    }

    fn authorization(&mut self) -> Result<Option<u64>, String> {
        self.events.push("read");
        if let Some(result) = self.authorization_results.pop_front() {
            result
        } else if self.fail_read {
            Err("read".into())
        } else {
            Ok(self.authorization)
        }
    }

    fn remove_authorization(&mut self) -> Result<Option<u64>, String> {
        self.events.push("remove");
        if self.fail_remove {
            return Err("remove".into());
        }
        Ok(self.authorization.take())
    }

    fn apply_batch(
        &mut self,
        records: Vec<DiscoveryRecord>,
        deadline: Option<u64>,
        additions_allowed: bool,
        pause_owned: bool,
        terminal_batch: &mut Option<TerminalBatch>,
    ) -> Result<PauseBatchOutcome, PauseBatchError> {
        self.events.push(if additions_allowed {
            "apply"
        } else {
            "account"
        });
        if self.fail_apply && additions_allowed {
            return Err(PauseBatchError::new("apply".to_owned(), self.apply_error_diagnostic));
        }
        if self.fail_terminal_apply && !additions_allowed {
            return Err(PauseBatchError::new(
                "terminal apply".to_owned(),
                self.apply_error_diagnostic,
            ));
        }
        self.apply_deadlines.push(deadline);
        self.apply_pause_owned.push(pause_owned);
        if let Some(batch) = terminal_batch.take() {
            self.terminal_batches.push(batch);
        }
        self.applied.extend(records);
        Ok(PauseBatchOutcome {
            required_complete: self.required_complete,
            diagnostic: self.apply_outcome_diagnostic,
        })
    }

    fn account_unvalidated_records(&mut self, count: u64) {
        self.events.push("unvalidated");
        self.unvalidated_records = self.unvalidated_records.saturating_add(count);
    }

    fn reconcile_terminal_authority(
        &mut self,
        _: &mut Option<TerminalBatch>,
    ) -> Result<(), String> {
        self.reconcile_results.pop_front().unwrap_or(Ok(()))
    }

    fn cleanup_terminal_batch_without_replay(
        &mut self,
        terminal_batch: &mut Option<TerminalBatch>,
    ) -> Result<(), String> {
        self.events.push("discard");
        let result = self.terminal_cleanup_results.pop_front().unwrap_or(Ok(()));
        if result.is_ok() {
            self.terminal_authority_pending = false;
        }
        terminal_batch.take();
        result
    }

    fn terminal_authority_pending(&mut self) -> bool {
        self.terminal_authority_pending
    }

    fn revalidate_after_release(
        &mut self,
        pause_owned: bool,
    ) -> Result<PauseRevalidationOutcome<TerminalBatch>, String> {
        self.events.push("revalidate");
        self.revalidation_pause_owned.push(pause_owned);
        if let Some(error) = self.revalidation_error.take() {
            return Err(error);
        }
        if let Some(deferred) = self.revalidation_deferred.take() {
            return Ok(PauseRevalidationOutcome::Deferred(deferred));
        }
        if let Some(item) = self.revalidation_item.take() {
            if pause_owned {
                self.authorization = Some(PAUSE_REQUESTED);
                self.revalidation_consumes_winner = matches!(
                    &item,
                    DiscoveryItem::Record(record) if record.send_signal_rc == 0
                );
                return Ok(PauseRevalidationOutcome::Deferred(TimedItem {
                    before_ns: 1,
                    after_ns: 2,
                    item,
                    terminal_batch: None,
                }));
            } else if let DiscoveryItem::Record(record) = item {
                self.applied.push(record);
            }
        }
        Ok(PauseRevalidationOutcome::Complete(PauseBatchOutcome {
            required_complete: self.revalidation_required_complete,
            diagnostic: None,
        }))
    }

    fn marker_seen(&mut self) -> Result<bool, String> {
        Ok(self.marker)
    }

    fn resume(&mut self) -> Result<(), String> {
        self.events.push("resume");
        if self.fail_resume {
            Err("resume".into())
        } else {
            self.resumed = true;
            if let Some(authorization) = self.resume_authorization {
                self.authorization = authorization;
            }
            Ok(())
        }
    }

    fn detach_pause_links(&mut self) -> Result<(), String> {
        self.events.push("detach");
        if self.fail_detach {
            Err("detach".into())
        } else {
            Ok(())
        }
    }

    fn same_generation(&mut self, _: u32, _: u64) -> Result<bool, String> {
        self.same_generation_results
            .pop_front()
            .unwrap_or(Ok(self.same_generation))
    }

    fn original_exited(&mut self) -> Result<bool, String> {
        Ok(self.original_exited)
    }

    fn ring_loss(&mut self) -> Result<u64, String> {
        match self.ring_losses.pop_front() {
            Some(Ok(loss)) => {
                self.fallback_ring_loss = loss;
                Ok(loss)
            }
            Some(Err(error)) => Err(error),
            None => Ok(self.fallback_ring_loss),
        }
    }

    fn cancelled(&mut self) -> Result<bool, String> {
        Ok(self.cancelled)
    }

    fn take_stop_candidate_seen(&mut self) -> bool {
        let seen = self.revalidation_consumes_winner || self.retirement_stop_candidate_seen;
        self.revalidation_consumes_winner = false;
        self.retirement_stop_candidate_seen = false;
        seen
    }
}

fn stopped() -> BTreeMap<u32, u8> {
    [(41, b'T'), (42, b'T')].into_iter().collect()
}

fn successful_io(records: Vec<DiscoveryRecord>) -> FakeIo {
    let mut queue: VecDeque<_> = records
        .into_iter()
        .map(|record| Ok(Some(DiscoveryItem::Record(record))))
        .collect();
    queue.push_back(Ok(None));
    queue.push_back(Ok(None));
    FakeIo {
        now: [10, 11].into_iter().map(Ok).collect(),
        states: VecDeque::from([Ok(stopped()), Ok(stopped()), Ok(stopped())]),
        queue,
        authorization: Some(PAUSE_REQUESTED),
        ..FakeIo::default()
    }
}

#[test]
fn fixed_cycle_deadline_is_500ms_and_bounds_are_inclusive() {
    assert_eq!(cycle_deadline(10), Ok(500_000_010));
    assert_eq!(
        cycle_deadline(u64::MAX),
        Err("pause deadline overflow".into())
    );

    let deadline = 500_000_010;
    let received: TimedItem<TerminalBatch> = TimedItem {
        before_ns: deadline,
        after_ns: deadline,
        item: DiscoveryItem::Record(record(10, 0, false)),
        terminal_batch: None,
    };
    assert!(validate_received(&received, 10, deadline).is_ok());
    let late: TimedItem<TerminalBatch> = TimedItem {
        before_ns: deadline + 1,
        after_ns: deadline + 1,
        item: DiscoveryItem::Record(record(10, 0, false)),
        terminal_batch: None,
    };
    assert_eq!(
        validate_received(&late, 10, deadline),
        Err(MSG_PAUSE_CAUSAL_DEADLINE.into())
    );
}

#[test]
fn never_has_no_owner_map_signal_or_counter_side_effect() {
    let mut io = FakeIo::default();
    let mut coordinator = coordinator_for(PausePolicy::Never, 41, 9, stopped());
    assert_eq!(coordinator.arm(&mut io).unwrap(), ArmResult::Disabled);
    assert!(io.events.is_empty());
    assert_eq!(coordinator.counters(), PauseCounters::zero());
    assert_eq!(coordinator.status(), PauseStatus::Absent);
}

#[test]
fn accepted_zero_requires_requested_epoch_and_is_marked_before_post_dequeue_clock() {
    let mut io = successful_io(vec![record(10, 0, false)]);
    let mut coordinator = coordinator_for(PausePolicy::Auto, 41, 9, stopped());
    coordinator.armed = true;
    coordinator.service(&mut io).unwrap();

    assert_eq!(coordinator.counters().attempts, 1);
    assert_eq!(coordinator.counters().confirmed, 1);
    assert_eq!(coordinator.status(), PauseStatus::Sigstop);
    assert_eq!(
        io.events.iter().filter(|event| **event == "resume").count(),
        1
    );
    assert_eq!(io.applied.len(), 1);

    let mut ordinary = successful_io(vec![record(10, 0, false)]);
    ordinary.authorization = None;
    let mut no_epoch = coordinator_for(PausePolicy::Auto, 41, 9, stopped());
    no_epoch.service(&mut ordinary).unwrap();
    assert_eq!(no_epoch.counters(), PauseCounters::zero());
    assert!(!ordinary.events.contains(&"resume"));
}

#[test]
fn final_resume_all_stopped_to_deadline_is_lifecycle_fatal_not_partial() {
    let mut io = successful_io(vec![record(10, 0, false)]);
    io.post_resume_all_stopped = true;
    io.resume_authorization = Some(None);
    let mut coordinator = coordinator_for(PausePolicy::Auto, 41, 9, stopped());
    coordinator.cycles = 1;
    coordinator.armed = true;

    let error = coordinator.service(&mut io).unwrap_err();

    assert!(error.lifecycle());
    assert_eq!(
        coordinator.counters(),
        PauseCounters {
            attempts: 1,
            confirmed: 0,
            partial: 0,
        }
    );
    assert_eq!(
        io.events.iter().filter(|event| **event == "resume").count(),
        1
    );
}

#[test]
fn successor_requested_after_resume_confirms_even_while_tasks_remain_stopped() {
    let mut io = successful_io(vec![record(10, 0, false)]);
    io.resume_authorization = Some(Some(PAUSE_REQUESTED));
    let mut coordinator = coordinator_for(PausePolicy::Auto, 41, 9, stopped());
    coordinator.armed = true;

    coordinator.service(&mut io).unwrap();

    assert_eq!(coordinator.counters(), PauseCounters::confirmed(1));
    assert_eq!(
        io.events.iter().filter(|event| **event == "resume").count(),
        1
    );
}

#[test]
fn successor_requested_after_resume_deadline_is_protectively_resumed() {
    let mut io = successful_io(vec![record(10, 0, false)]);
    io.resume_authorization = Some(Some(PAUSE_REQUESTED));
    io.post_resume_now = VecDeque::from([Ok(CYCLE_NS + 11)]);
    let mut coordinator = coordinator_for(PausePolicy::Auto, 41, 9, stopped());
    coordinator.armed = true;

    let error = coordinator.service(&mut io).unwrap_err();

    assert!(error.lifecycle());
    assert_eq!(coordinator.counters().confirmed, 0);
    assert_eq!(
        io.events.iter().filter(|event| **event == "resume").count(),
        2
    );
}

#[test]
fn final_resume_with_a_running_task_and_no_authorization_confirms() {
    let mut io = successful_io(vec![record(10, 0, false)]);
    io.resume_authorization = Some(None);
    let mut coordinator = coordinator_for(PausePolicy::Auto, 41, 9, stopped());
    coordinator.cycles = 1;
    coordinator.armed = true;

    coordinator.service(&mut io).unwrap();

    assert_eq!(coordinator.counters(), PauseCounters::confirmed(1));
}

#[test]
fn final_resume_authorization_mismatch_is_lifecycle_fatal() {
    for authorization in [Some(PAUSE_REQUESTED), Some(999)] {
        let mut io = successful_io(vec![record(10, 0, false)]);
        io.resume_authorization = Some(authorization);
        let mut coordinator = coordinator_for(PausePolicy::Auto, 41, 9, stopped());
        coordinator.cycles = 1;
        coordinator.armed = true;

        let error = coordinator.service(&mut io).unwrap_err();

        assert!(error.lifecycle(), "authorization {authorization:?}");
        assert_eq!(
            coordinator.counters(),
            PauseCounters {
                attempts: 1,
                confirmed: 0,
                partial: 0,
            }
        );
        assert_eq!(
            io.events.iter().filter(|event| **event == "resume").count(),
            1,
            "authorization {authorization:?}"
        );
    }
}

#[test]
fn original_generation_exit_confirms_after_resume() {
    let mut io = successful_io(vec![record(10, 0, false)]);
    io.post_resume_all_stopped = true;
    io.resume_authorization = Some(None);
    io.original_exited = true;
    let mut coordinator = coordinator_for(PausePolicy::Auto, 41, 9, stopped());
    coordinator.cycles = 1;
    coordinator.armed = true;

    coordinator.service(&mut io).unwrap();

    assert_eq!(coordinator.counters(), PauseCounters::confirmed(1));
}

#[test]
fn generation_mismatch_after_resume_is_lifecycle_fatal() {
    let mut io = successful_io(vec![record(10, 0, false)]);
    io.resume_authorization = Some(None);
    io.same_generation_results = VecDeque::from([Ok(true), Ok(false)]);
    let mut coordinator = coordinator_for(PausePolicy::Auto, 41, 9, stopped());
    coordinator.cycles = 1;
    coordinator.armed = true;

    let error = coordinator.service(&mut io).unwrap_err();

    assert!(error.lifecycle());
    assert_eq!(
        coordinator.counters(),
        PauseCounters {
            attempts: 1,
            confirmed: 0,
            partial: 0,
        }
    );
}

#[test]
fn resume_observation_witnesses_are_bounded_by_the_existing_deadline() {
    for (name, cycles, authorization, exited, now, all_stopped, confirms) in [
        (
            "requested-after-deadline",
            0,
            Some(Some(PAUSE_REQUESTED)),
            false,
            CYCLE_NS + 11,
            false,
            false,
        ),
        (
            "exit-after-deadline",
            1,
            Some(None),
            true,
            CYCLE_NS + 11,
            true,
            false,
        ),
        (
            "running-at-deadline",
            1,
            Some(None),
            false,
            CYCLE_NS + 10,
            false,
            true,
        ),
    ] {
        let mut io = successful_io(vec![record(10, 0, false)]);
        io.resume_authorization = authorization;
        io.original_exited = exited;
        io.post_resume_all_stopped = all_stopped;
        io.post_resume_now = VecDeque::from([Ok(now)]);
        let mut coordinator = coordinator_for(PausePolicy::Auto, 41, 9, stopped());
        coordinator.cycles = cycles;
        coordinator.armed = true;

        let result = coordinator.service(&mut io);

        assert_eq!(result.is_ok(), confirms, "{name}: {result:?}");
        assert_eq!(
            coordinator.counters().confirmed,
            u64::from(confirms),
            "{name}"
        );
        assert_eq!(coordinator.counters().partial, 0, "{name}");
    }
}

#[test]
fn changed_task_set_after_resume_is_a_valid_execution_witness() {
    for tasks in [
        [(41, b'R'), (42, b'T'), (43, b'R')].into_iter().collect(),
        [(41, b'R')].into_iter().collect(),
    ] {
        let mut io = successful_io(vec![record(10, 0, false)]);
        io.resume_authorization = Some(None);
        io.states = VecDeque::from([Ok(stopped()), Ok(stopped()), Ok(stopped()), Ok(tasks)]);
        io.post_resume_now = VecDeque::from([Ok(CYCLE_NS + 9)]);
        let mut coordinator = coordinator_for(PausePolicy::Auto, 41, 9, stopped());
        coordinator.cycles = 1;
        coordinator.armed = true;

        coordinator.service(&mut io).unwrap();

        assert_eq!(coordinator.counters(), PauseCounters::confirmed(1));
    }
}

#[test]
fn all_stopped_at_the_resume_deadline_fails_without_waiting_past_it() {
    let mut io = successful_io(vec![record(10, 0, false)]);
    io.post_resume_all_stopped = true;
    io.resume_authorization = Some(None);
    io.post_resume_now = VecDeque::from([Ok(CYCLE_NS + 10)]);
    let mut coordinator = coordinator_for(PausePolicy::Auto, 41, 9, stopped());
    coordinator.cycles = 1;
    coordinator.armed = true;

    let error = coordinator.service(&mut io).unwrap_err();

    assert!(error.lifecycle());
    assert_eq!(
        io.events.iter().filter(|event| **event == "wait").count(),
        2
    );
    assert_eq!(
        io.events.iter().filter(|event| **event == "resume").count(),
        1
    );
}

/// A leader-exit record is produced *after* the arm and still carries the
/// zero helper result an accepted stop has — its producer is not pause
/// eligible, so it never enters the exchange at all. The arm clock cannot
/// tell it from a winner; the map can. An exact ARMED readback proves the
/// kernel never consumed this arm, so the child was never stopped.
#[test]
fn an_unauthorized_zero_record_does_not_cost_an_intact_arm_its_authority() {
    for policy in [PausePolicy::Auto, PausePolicy::Always] {
        let mut io = successful_io(vec![record(6, 0, false)]);
        io.authorization = None;
        io.now = VecDeque::from([Ok(5)]);
        let mut coordinator = coordinator_for(policy, 41, 9, stopped());
        assert_eq!(coordinator.arm(&mut io).unwrap(), ArmResult::Armed);

        coordinator
            .service(&mut io)
            .expect("an intact arm is not a lost stop authorization");

        assert_eq!(
            coordinator.counters(),
            PauseCounters::zero(),
            "{policy:?}: an unauthorized zero record is not a stop attempt"
        );
        assert!(coordinator.is_armed(), "{policy:?}: the arm survives");
        assert!(coordinator.rearming_enabled(), "{policy:?}");
        assert_eq!(
            io.applied.len(),
            1,
            "{policy:?}: the record is still applied"
        );
        assert!(!io.events.contains(&"resume"), "{policy:?}");
        assert_eq!(io.authorization, Some(PAUSE_ARMED), "{policy:?}");
    }
}

/// The ring still holds records from before the arm — every hook that
/// fired between epochs produced one, with the same zero helper result an
/// accepted stop has. None of them won this arm: the producer reads its
/// causal timestamp *after* the exchange that would have stopped the child.
/// Consuming the oldest as the epoch's winner must not discard the real
/// winner still queued behind it.
#[test]
fn a_record_older_than_the_arm_is_never_its_epoch_winner() {
    let mut io = successful_io(vec![record(1, 0, false), record(6, 0, false)]);
    io.authorization = None;
    io.now = VecDeque::from([Ok(5)]);
    let mut coordinator = coordinator_for(PausePolicy::Auto, 41, 9, stopped());
    assert_eq!(coordinator.arm(&mut io).unwrap(), ArmResult::Armed);
    coordinator.cycles = 1;
    // The record behind it is the one that won, so the map already reads
    // REQUESTED when the leftover is dequeued.
    io.authorization = Some(PAUSE_REQUESTED);

    coordinator.service(&mut io).unwrap();

    assert_eq!(coordinator.counters(), PauseCounters::confirmed(1));
    assert!(!coordinator.is_armed());
    assert!(coordinator.rearming_enabled());
    assert_eq!(
        io.applied.len(),
        2,
        "the stale and winner records are each applied once"
    );
    assert_eq!(
        io.events.iter().filter(|event| **event == "resume").count(),
        1
    );
    assert_eq!(io.authorization, None);
    coordinator.cleanup(&mut io).unwrap();

    assert_eq!(
        io.events.iter().filter(|event| **event == "resume").count(),
        1,
        "the requested map entry is still stop debt, so cleanup resumes the stopped child"
    );
}

/// The other half of the same rule: a record this arm *could* have produced
/// is still confirmed exactly as before.
#[test]
fn a_record_the_arm_could_have_produced_still_confirms_the_stop() {
    let mut io = successful_io(vec![record(6, 0, false)]);
    io.authorization = None;
    io.now = VecDeque::from([Ok(5)]);
    let mut coordinator = coordinator_for(PausePolicy::Auto, 41, 9, stopped());
    assert_eq!(coordinator.arm(&mut io).unwrap(), ArmResult::Armed);
    io.authorization = Some(PAUSE_REQUESTED);

    coordinator.service(&mut io).unwrap();

    assert_eq!(coordinator.counters(), PauseCounters::confirmed(1));
    assert_eq!(
        io.events.iter().filter(|event| **event == "resume").count(),
        1
    );
}

/// Servicing a record this coordinator never owned opens no attempt, so it
/// must not leave a fixed-cycle failure bound behind either: a cleanup drain one
/// capture later is bounded from its own clock, not from that record.
#[test]
fn an_unowned_record_does_not_bound_a_later_cleanup_drain() {
    let mut io = successful_io(vec![record(6, 0, false)]);
    io.authorization = None;
    io.now = VecDeque::from([Ok(5)]);
    let mut coordinator = coordinator_for(PausePolicy::Auto, 41, 9, stopped());
    assert_eq!(coordinator.arm(&mut io).unwrap(), ArmResult::Armed);
    coordinator.service(&mut io).unwrap();

    io.fallback_now = 2 * CYCLE_NS;
    coordinator
        .cleanup(&mut io)
        .expect("cleanup is bounded from its own clock");
}

/// The loud half: without an intact arm to explain it, a zero candidate is
/// still an unresolved stop — one attempt, one protective resume, retired.
#[test]
fn a_zero_candidate_no_arm_explains_is_still_a_lost_stop_authorization() {
    let mut io = successful_io(vec![record(6, 0, false)]);
    io.authorization = None;
    io.now = VecDeque::from([Ok(5)]);
    let mut coordinator = coordinator_for(PausePolicy::Auto, 41, 9, stopped());
    assert_eq!(coordinator.arm(&mut io).unwrap(), ArmResult::Armed);
    // The authorization this arm installed is gone, and nothing consumed
    // it: unexplained, so the candidate stands.
    io.authorization = None;

    let error = coordinator.service(&mut io).unwrap_err();

    assert!(error.lifecycle());
    assert_eq!(
        coordinator.counters(),
        PauseCounters {
            attempts: 1,
            confirmed: 0,
            partial: 0,
        }
    );
    assert!(!coordinator.rearming_enabled());
    assert_eq!(
        io.events.iter().filter(|event| **event == "resume").count(),
        1
    );
}

#[test]
fn confirmation_freezes_task_ids_not_their_pre_stop_states() {
    let mut io = successful_io(vec![record(10, 0, false)]);
    let pre_stop = [(41, b'S'), (42, b'R')].into_iter().collect();
    let mut coordinator = coordinator_for(PausePolicy::Auto, 41, 9, pre_stop);
    coordinator.armed = true;

    coordinator.service(&mut io).unwrap();

    assert_eq!(coordinator.counters(), PauseCounters::confirmed(1));
}

#[test]
fn coalesced_outcome_a_uses_one_deadline_one_owner_and_one_resume() {
    let winner = record(10, 0, false);
    let sibling = record(5, COALESCED_NO_HELPER_RC, true);
    let mut io = successful_io(vec![winner, sibling]);
    let mut coordinator = coordinator_for(PausePolicy::Auto, 41, 9, stopped());
    coordinator.armed = true;
    coordinator.service(&mut io).unwrap();
    assert_eq!(io.applied.len(), 2);
    assert_eq!(coordinator.counters(), PauseCounters::confirmed(1));
    assert_eq!(
        io.events.iter().filter(|event| **event == "resume").count(),
        1
    );
    assert!(!coordinator.is_armed(), "outcome A must not invent owner 2");
}

#[test]
fn coalesced_before_winner_keeps_the_winner_deadline() {
    let winner = record(10, 0, false);
    let sibling = record(5, COALESCED_NO_HELPER_RC, true);
    let mut io = successful_io(vec![sibling, winner]);
    let mut coordinator = coordinator_for(PausePolicy::Auto, 41, 9, stopped());
    coordinator.armed = true;

    coordinator.service(&mut io).unwrap();

    assert_eq!(io.applied.len(), 2);
    assert_eq!(coordinator.counters(), PauseCounters::confirmed(1));
    assert_eq!(
        io.events.iter().filter(|event| **event == "resume").count(),
        1
    );
}

#[test]
fn successor_is_exactly_one_second_owner_and_never_a_third() {
    let mut io = successful_io(vec![record(10, 0, false)]);
    let mut coordinator = coordinator_for(PausePolicy::Auto, 41, 9, stopped());
    coordinator.armed = true;
    coordinator.service(&mut io).unwrap();
    assert!(coordinator.is_armed());
    assert_eq!(io.authorization, Some(PAUSE_ARMED));

    io.authorization = Some(PAUSE_REQUESTED);
    // The successor's own window: a record this second arm could have
    // produced, not one left over from before it.
    let second = record(io.fallback_now, 0, false);
    io.queue
        .extend([Ok(Some(DiscoveryItem::Record(second))), Ok(None), Ok(None)]);
    coordinator.service(&mut io).unwrap();

    assert_eq!(coordinator.counters(), PauseCounters::confirmed(2));
    assert_eq!(
        io.events.iter().filter(|event| **event == "resume").count(),
        2
    );
    assert!(!coordinator.is_armed());
    assert_eq!(io.authorization, None);
}

#[test]
fn unconsumed_armed_successor_cleanup_preserves_successor_debt() {
    let mut io = successful_io(vec![record(10, 0, false)]);
    let mut coordinator = coordinator_for(PausePolicy::Auto, 41, 9, stopped());
    coordinator.armed = true;
    coordinator.service(&mut io).unwrap();
    assert_eq!(io.authorization, Some(PAUSE_ARMED));

    coordinator.cleanup(&mut io).unwrap();

    assert_eq!(
        io.events.iter().filter(|event| **event == "resume").count(),
        1,
        "a bare successor-only debt is cleared when its ARMED state is removed"
    );
    assert_eq!(io.authorization, None);
}

#[test]
fn successor_consumption_before_resume_is_lifecycle_failure_with_one_resume() {
    let mut io = successful_io(vec![record(10, 0, false)]);
    io.queue
        .push_back(Ok(Some(DiscoveryItem::Record(record(20, 0, false)))));
    let mut coordinator = coordinator_for(PausePolicy::Always, 41, 9, stopped());
    coordinator.armed = true;

    let error = coordinator.service(&mut io).unwrap_err();

    assert!(error.lifecycle());
    assert_eq!(
        io.events.iter().filter(|event| **event == "resume").count(),
        1
    );
    assert_eq!(io.authorization, None);
    assert_eq!(io.applied.len(), 2, "both dequeued records apply once");
}

#[test]
fn cancellation_and_generation_loss_after_decode_protectively_resume() {
    for generation_lost in [false, true] {
        let mut io = successful_io(vec![record(10, 0, false)]);
        io.cancelled = !generation_lost;
        io.same_generation = !generation_lost;
        let mut coordinator = coordinator_for(PausePolicy::Always, 41, 9, stopped());
        coordinator.armed = true;

        let error = coordinator.service(&mut io).unwrap_err();

        assert!(error.lifecycle());
        assert_eq!(
            io.events.iter().filter(|event| **event == "resume").count(),
            1
        );
        assert_eq!(io.authorization, None);
    }
}

#[test]
fn ordinary_auto_failures_are_sticky_and_disable_rearming_after_safe_resume() {
    for failure in ["tasks", "attach"] {
        let mut io = successful_io(vec![record(10, 0, false)]);
        if failure == "tasks" {
            io.states = VecDeque::from([Ok([(41, b'R'), (42, b'T')].into_iter().collect())]);
        } else {
            io.fail_apply = true;
        }
        let mut coordinator = coordinator_for(PausePolicy::Auto, 41, 9, stopped());
        coordinator.armed = true;

        coordinator.service(&mut io).unwrap();

        assert_eq!(coordinator.counters(), PauseCounters::partial(1));
        assert!(!coordinator.rearming_enabled());
        assert_eq!(
            io.events.iter().filter(|event| **event == "resume").count(),
            1
        );
        assert_eq!(coordinator.arm(&mut io).unwrap(), ArmResult::Disabled);
    }
}

#[test]
fn malformed_status_duplicate_and_unaccounted_records_all_fail_finitely() {
    let mut wrong_pid = record(20, COALESCED_NO_HELPER_RC, true);
    wrong_pid.pid_tgid = 43u64 << 32;
    for records in [
        vec![record(10, 0, false), record(20, 0, false)],
        vec![record(10, 0, false), wrong_pid],
        vec![
            record(10, 0, false),
            record(20, COALESCED_NO_HELPER_RC, false),
        ],
        vec![
            record(5, COALESCED_NO_HELPER_RC, true),
            record(20, COALESCED_NO_HELPER_RC, true),
        ],
    ] {
        let mut io = successful_io(records);
        let mut coordinator = coordinator_for(PausePolicy::Auto, 41, 9, stopped());
        coordinator.armed = true;

        coordinator.service(&mut io).unwrap();

        assert_eq!(coordinator.counters(), PauseCounters::partial(1));
        assert_eq!(io.applied.len(), 2, "each dequeued record applies once");
        assert_eq!(
            io.events.iter().filter(|event| **event == "resume").count(),
            1
        );
    }

    let mut marker = successful_io(vec![record(10, 0, false)]);
    marker.marker = true;
    let mut coordinator = coordinator_for(PausePolicy::Auto, 41, 9, stopped());
    coordinator.armed = true;
    coordinator.service(&mut marker).unwrap();
    assert_eq!(coordinator.counters(), PauseCounters::partial(1));
    assert_eq!(
        marker
            .events
            .iter()
            .filter(|event| **event == "resume")
            .count(),
        1
    );
}

#[test]
fn first_pre_resume_check_applies_its_unexpected_record_once() {
    let first = record(10, 0, false);
    let unexpected = record(20, 0, false);
    let mut io = successful_io(Vec::new());
    io.queue = VecDeque::from([
        Ok(Some(DiscoveryItem::Record(first))),
        Ok(None),
        Ok(Some(DiscoveryItem::Record(unexpected))),
    ]);
    let mut coordinator = coordinator_for(PausePolicy::Auto, 41, 9, stopped());
    coordinator.armed = true;

    coordinator.service(&mut io).unwrap();

    assert_eq!(io.applied.len(), 2);
    assert_eq!(io.applied[0].hook_ts_ns, 10);
    assert_eq!(io.applied[1].hook_ts_ns, 20);
}

#[test]
fn resume_failure_is_lifecycle_error_and_is_never_retried() {
    let mut io = successful_io(vec![
        record(10, 0, false),
        record(20, COALESCED_NO_HELPER_RC, true),
    ]);
    io.fail_resume = true;
    let mut coordinator = coordinator_for(PausePolicy::Always, 41, 9, stopped());
    coordinator.armed = true;

    let error = coordinator.service(&mut io).unwrap_err();
    assert!(error.lifecycle());
    assert_eq!(
        io.events.iter().filter(|event| **event == "resume").count(),
        1
    );
    let _ = coordinator.cleanup(&mut io);
    assert_eq!(
        io.events.iter().filter(|event| **event == "resume").count(),
        1
    );

    let mut protective = successful_io(vec![record(10, COALESCED_NO_HELPER_RC, false)]);
    protective.fail_resume = true;
    let mut coordinator = coordinator_for(PausePolicy::Auto, 41, 9, stopped());
    coordinator.armed = true;

    let error = coordinator.service(&mut protective).unwrap_err();
    assert!(error.lifecycle());
    assert_eq!(coordinator.counters().partial, 0);
    assert_eq!(
        protective
            .events
            .iter()
            .filter(|event| **event == "resume")
            .count(),
        1
    );
    let _ = coordinator.cleanup(&mut protective);
    assert_eq!(
        protective
            .events
            .iter()
            .filter(|event| **event == "resume")
            .count(),
        1
    );
}

#[test]
fn reservation_loss_is_one_finite_unstopped_auto_attempt() {
    let mut io = FakeIo {
        authorization: Some(PAUSE_ARMED),
        fallback_ring_loss: 1,
        ..FakeIo::default()
    };
    let mut coordinator = coordinator_for(PausePolicy::Auto, 41, 9, stopped());
    coordinator.armed = true;

    coordinator.service(&mut io).unwrap();

    assert_eq!(coordinator.counters(), PauseCounters::partial(1));
    assert!(!io.events.contains(&"resume"));
    assert!(!coordinator.rearming_enabled());
}

#[test]
fn empty_outer_tick_then_bounded_winner_confirms() {
    let mut io = FakeIo {
        authorization: Some(PAUSE_REQUESTED),
        queue: VecDeque::from([
            Ok(None),
            Ok(Some(DiscoveryItem::Record(record(4, 0, false)))),
            Ok(None),
            Ok(None),
        ]),
        ..FakeIo::default()
    };
    let mut coordinator = coordinator_for(PausePolicy::Auto, 41, 9, stopped());
    coordinator.armed = true;

    coordinator.service(&mut io).unwrap();

    assert_eq!(coordinator.counters(), PauseCounters::confirmed(1));
}

#[test]
fn requested_empty_tick_is_bounded_auto_partial_with_one_protective_resume() {
    let mut io = FakeIo {
        authorization: Some(PAUSE_REQUESTED),
        ..FakeIo::default()
    };
    let mut coordinator = coordinator_for(PausePolicy::Auto, 41, 9, stopped());
    coordinator.armed = true;

    coordinator.service(&mut io).unwrap();

    assert_eq!(coordinator.counters(), PauseCounters::partial(1));
    assert!(!coordinator.rearming_enabled());
    assert_eq!(
        io.events.iter().filter(|event| **event == "resume").count(),
        1
    );
}

#[test]
fn requested_empty_tick_is_required_always_cleanup() {
    let mut io = FakeIo {
        authorization: Some(PAUSE_REQUESTED),
        ..FakeIo::default()
    };
    let mut coordinator = coordinator_for(PausePolicy::Always, 41, 9, stopped());
    coordinator.armed = true;

    let error = coordinator.service(&mut io).unwrap_err();

    assert!(error.required());
    assert_eq!(coordinator.counters().partial, 0);
    assert_eq!(
        io.events.iter().filter(|event| **event == "resume").count(),
        1
    );
}

#[test]
fn armed_empty_tick_has_no_attempt_or_resume() {
    let mut io = FakeIo {
        authorization: Some(PAUSE_ARMED),
        ..FakeIo::default()
    };
    let mut coordinator = coordinator_for(PausePolicy::Auto, 41, 9, stopped());
    coordinator.armed = true;

    coordinator.service(&mut io).unwrap();

    assert_eq!(coordinator.counters(), PauseCounters::zero());
    assert!(!io.events.contains(&"resume"));
}

#[test]
fn armed_empty_tick_then_requested_tick_never_leaves_request_unresolved() {
    let mut io = FakeIo {
        authorization: Some(PAUSE_ARMED),
        ..FakeIo::default()
    };
    let mut coordinator = coordinator_for(PausePolicy::Auto, 41, 9, stopped());
    coordinator.armed = true;

    coordinator.service(&mut io).unwrap();
    io.authorization = Some(PAUSE_REQUESTED);
    coordinator.service(&mut io).unwrap();

    assert_eq!(coordinator.counters(), PauseCounters::partial(1));
    assert_eq!(
        io.events.iter().filter(|event| **event == "resume").count(),
        1
    );
}

#[test]
fn requested_empty_tick_authorization_error_is_lifecycle_fatal() {
    let mut io = FakeIo {
        authorization: Some(PAUSE_REQUESTED),
        fail_read: true,
        ..FakeIo::default()
    };
    let mut coordinator = coordinator_for(PausePolicy::Auto, 41, 9, stopped());
    coordinator.armed = true;

    let error = coordinator.service(&mut io).unwrap_err();

    assert!(error.lifecycle());
    assert_eq!(coordinator.counters().partial, 0);
    assert_eq!(
        io.events.iter().filter(|event| **event == "resume").count(),
        1
    );
}

#[test]
fn armed_absent_or_unknown_authorization_is_lifecycle_without_resume() {
    for authorization in [None, Some(999)] {
        let mut io = FakeIo {
            authorization,
            ..FakeIo::default()
        };
        let mut coordinator = coordinator_for(PausePolicy::Auto, 41, 9, stopped());
        coordinator.armed = true;

        let error = coordinator.service(&mut io).unwrap_err();

        assert!(error.lifecycle(), "authorization {authorization:?}");
        assert_eq!(
            coordinator.counters().partial,
            0,
            "authorization {authorization:?}"
        );
        assert_eq!(
            io.events.iter().filter(|event| **event == "resume").count(),
            0,
            "authorization {authorization:?}"
        );
    }
}

#[test]
fn requested_empty_tick_cancellation_is_lifecycle_fatal_and_resumes_once() {
    let mut io = FakeIo {
        authorization: Some(PAUSE_REQUESTED),
        cancelled: true,
        ..FakeIo::default()
    };
    let mut coordinator = coordinator_for(PausePolicy::Auto, 41, 9, stopped());
    coordinator.armed = true;

    let error = coordinator.service(&mut io).unwrap_err();

    assert!(error.lifecycle());
    assert_eq!(coordinator.counters().partial, 0);
    assert_eq!(
        io.events.iter().filter(|event| **event == "resume").count(),
        1
    );
}

#[test]
fn requested_empty_tick_ring_loss_is_a_bounded_partial_with_one_resume() {
    let mut io = FakeIo {
        authorization: Some(PAUSE_REQUESTED),
        ring_losses: VecDeque::from([Ok(0), Ok(1)]),
        ..FakeIo::default()
    };
    let mut coordinator = coordinator_for(PausePolicy::Auto, 41, 9, stopped());
    coordinator.armed = true;

    coordinator.service(&mut io).unwrap();

    assert_eq!(coordinator.counters(), PauseCounters::partial(1));
    assert_eq!(
        io.events.iter().filter(|event| **event == "resume").count(),
        1
    );
}

#[test]
fn first_authorization_read_error_removes_without_resume() {
    let mut io = FakeIo {
        authorization_results: VecDeque::from([Err("first read".into()), Ok(None)]),
        ..FakeIo::default()
    };
    let mut coordinator = coordinator_for(PausePolicy::Auto, 41, 9, stopped());
    coordinator.armed = true;

    let error = coordinator.service(&mut io).unwrap_err();

    assert!(error.lifecycle());
    assert!(io.events.contains(&"remove"));
    assert!(!io.events.contains(&"resume"));
}

#[test]
fn requested_debt_survives_later_auth_error_with_one_resume() {
    let mut io = FakeIo {
        authorization_results: VecDeque::from([
            Ok(Some(PAUSE_REQUESTED)),
            Err("later read".into()),
            Ok(None),
        ]),
        ring_losses: VecDeque::from([Ok(0), Ok(1)]),
        ..FakeIo::default()
    };
    let mut coordinator = coordinator_for(PausePolicy::Auto, 41, 9, stopped());
    coordinator.armed = true;

    let error = coordinator.service(&mut io).unwrap_err();

    assert!(error.lifecycle());
    assert_eq!(
        io.events.iter().filter(|event| **event == "resume").count(),
        1
    );
}

#[test]
fn unknown_or_absent_auth_without_debt_never_resumes_even_after_ring_loss() {
    for authorization in [Ok(Some(999)), Err("read".into())] {
        let mut io = FakeIo {
            authorization_results: VecDeque::from([
                authorization.clone(),
                authorization.clone(),
            ]),
            ring_losses: VecDeque::from([Ok(1)]),
            ..FakeIo::default()
        };
        let mut coordinator = coordinator_for(PausePolicy::Auto, 41, 9, stopped());
        coordinator.armed = true;

        let error = coordinator.service(&mut io).unwrap_err();

        assert!(error.lifecycle(), "authorization {authorization:?}");
        assert!(
            !io.events.contains(&"resume"),
            "authorization {authorization:?}"
        );
    }
}

#[test]
fn unknown_or_absent_auth_after_requested_debt_resumes_once() {
    for authorization in [Ok(Some(999)), Ok(None), Err("read".into())] {
        let mut io = FakeIo {
            authorization_results: VecDeque::from([
                Ok(Some(PAUSE_REQUESTED)),
                authorization.clone(),
                Ok(None),
            ]),
            ring_losses: VecDeque::from([Ok(0), Ok(1)]),
            ..FakeIo::default()
        };
        let mut coordinator = coordinator_for(PausePolicy::Auto, 41, 9, stopped());
        coordinator.armed = true;

        let error = coordinator.service(&mut io).unwrap_err();
        assert!(error.lifecycle(), "authorization {authorization:?}");
        assert_eq!(
            io.events.iter().filter(|event| **event == "resume").count(),
            1,
            "authorization {authorization:?}"
        );
    }
}

#[test]
fn stale_record_is_applied_then_winner_uses_the_same_request_deadline() {
    let stale = record(4, 0, false);
    let winner = record(6, 0, false);
    let mut io = FakeIo {
        authorization: Some(PAUSE_REQUESTED),
        queue: VecDeque::from([
            Ok(None),
            Ok(Some(DiscoveryItem::Record(stale))),
            Ok(Some(DiscoveryItem::Record(winner))),
            Ok(None),
            Ok(None),
        ]),
        ..FakeIo::default()
    };
    let mut coordinator = coordinator_for(PausePolicy::Auto, 41, 9, stopped());
    coordinator.armed = true;
    coordinator.armed_at_ns = Some(5);

    coordinator.service(&mut io).unwrap();

    assert_eq!(coordinator.counters(), PauseCounters::confirmed(1));
    assert_eq!(io.applied.len(), 2);
    assert_eq!(io.applied[0].hook_ts_ns, 4);
    assert_eq!(io.applied[1].hook_ts_ns, 6);
    assert_eq!(io.apply_pause_owned, [false, true]);
    assert_eq!(io.apply_deadlines, [Some(CYCLE_NS + 3), Some(CYCLE_NS + 3)]);
}

#[test]
fn armed_stale_record_rereads_requested_after_bounded_apply() {
    let stale = record(1, 0, false);
    let winner = record(4, 0, false);
    let mut io = FakeIo {
        authorization: Some(PAUSE_REQUESTED),
        authorization_results: VecDeque::from([
            Ok(Some(PAUSE_ARMED)),
            Ok(Some(PAUSE_REQUESTED)),
            Ok(Some(PAUSE_REQUESTED)),
        ]),
        queue: VecDeque::from([
            Ok(Some(DiscoveryItem::Record(stale))),
            Ok(Some(DiscoveryItem::Record(winner))),
            Ok(None),
            Ok(None),
        ]),
        ..FakeIo::default()
    };
    let mut coordinator = coordinator_for(PausePolicy::Auto, 41, 9, stopped());
    coordinator.armed = true;
    coordinator.armed_at_ns = Some(3);

    coordinator.service(&mut io).unwrap();

    assert_eq!(coordinator.counters(), PauseCounters::confirmed(1));
    assert_eq!(io.apply_pause_owned, [false, true]);
    assert_eq!(io.apply_deadlines, [Some(CYCLE_NS + 2), Some(CYCLE_NS + 2)]);
}

#[test]
fn stale_records_until_exact_deadline_resume_once_without_extension() {
    let mut io = FakeIo {
        authorization: Some(PAUSE_REQUESTED),
        queue: VecDeque::from([
            Ok(None),
            Ok(Some(DiscoveryItem::Record(record(9, 0, false)))),
            Ok(None),
        ]),
        now: VecDeque::from([
            Ok(0),
            Ok(0),
            Ok(0),
            Ok(CYCLE_NS - 1),
            Ok(CYCLE_NS - 1),
            Ok(CYCLE_NS),
            Ok(CYCLE_NS),
        ]),
        ..FakeIo::default()
    };
    let mut coordinator = coordinator_for(PausePolicy::Auto, 41, 9, stopped());
    coordinator.armed = true;
    coordinator.armed_at_ns = Some(10);

    coordinator.service(&mut io).unwrap();

    assert_eq!(coordinator.counters(), PauseCounters::partial(1));
    assert_eq!(
        io.events.iter().filter(|event| **event == "resume").count(),
        1
    );
}

#[test]
fn stale_record_application_failure_resumes_once() {
    let mut io = FakeIo {
        authorization: Some(PAUSE_REQUESTED),
        queue: VecDeque::from([
            Ok(None),
            Ok(Some(DiscoveryItem::Record(record(9, 0, false)))),
        ]),
        fail_apply: true,
        ..FakeIo::default()
    };
    let mut coordinator = coordinator_for(PausePolicy::Auto, 41, 9, stopped());
    coordinator.armed = true;
    coordinator.armed_at_ns = Some(10);

    coordinator.service(&mut io).unwrap();
    assert_eq!(coordinator.counters(), PauseCounters::partial(1));
    assert_eq!(
        io.events.iter().filter(|event| **event == "resume").count(),
        1
    );
}

#[test]
fn post_insert_map_read_failure_removes_without_resume_without_request() {
    let mut io = FakeIo {
        authorization_results: VecDeque::from([
            Err("post-insert read".into()),
            Ok(Some(PAUSE_ARMED)),
        ]),
        ..FakeIo::default()
    };
    let mut coordinator = coordinator_for(PausePolicy::Always, 41, 9, stopped());

    let error = coordinator.arm(&mut io).unwrap_err();

    assert!(error.lifecycle());
    assert_eq!(io.authorization, None);
    assert_eq!(
        io.events.iter().filter(|event| **event == "resume").count(),
        0
    );
}

#[test]
fn deadline_checks_wrap_future_and_after_dequeue_fail_without_reset() {
    let mut late = successful_io(vec![record(10, 0, false)]);
    late.now = VecDeque::from([Ok(10), Ok(CYCLE_NS + 11)]);
    let mut coordinator = coordinator_for(PausePolicy::Auto, 41, 9, stopped());
    coordinator.armed = true;
    coordinator.service(&mut late).unwrap();
    assert_eq!(coordinator.counters(), PauseCounters::partial(1));
    assert_eq!(coordinator.status(), PauseStatus::Partial);
    assert_eq!(
        late.events
            .iter()
            .filter(|event| **event == "resume")
            .count(),
        1
    );

    let mut overflow = successful_io(vec![record(u64::MAX, 0, false)]);
    let mut required = coordinator_for(PausePolicy::Always, 41, 9, stopped());
    required.armed = true;
    let error = required.service(&mut overflow).unwrap_err();
    assert!(error.required());
}

#[test]
fn timed_dequeue_distinguishes_deadline_from_clock_queue_and_generation_failures() {
    let mut coordinator = coordinator_for(PausePolicy::Auto, 41, 9, stopped());

    let mut deadline = FakeIo {
        now: VecDeque::from([Ok(CYCLE_NS + 1)]),
        ..FakeIo::default()
    };
    assert!(matches!(
        coordinator.timed_dequeue(&mut deadline, Some(CYCLE_NS)),
        Err(fault) if !fault.lifecycle
    ));

    let mut clock = FakeIo {
        now: VecDeque::from([Err("clock".into())]),
        ..FakeIo::default()
    };
    assert!(matches!(
        coordinator.timed_dequeue(&mut clock, Some(CYCLE_NS)),
        Err(fault) if fault.lifecycle
    ));

    let mut queue = FakeIo {
        now: VecDeque::from([Ok(0)]),
        queue: VecDeque::from([Err("queue".into())]),
        ..FakeIo::default()
    };
    assert!(matches!(
        coordinator.timed_dequeue(&mut queue, Some(CYCLE_NS)),
        Err(fault) if fault.lifecycle
    ));

    let mut generation = FakeIo {
        now: VecDeque::from([Ok(0), Ok(0)]),
        queue: VecDeque::from([Ok(Some(DiscoveryItem::Record(record(0, 0, false))))]),
        same_generation_results: VecDeque::from([Ok(false)]),
        ..FakeIo::default()
    };
    assert!(matches!(
        coordinator.timed_dequeue(&mut generation, Some(CYCLE_NS)),
        Err(fault) if fault.lifecycle
    ));
}

#[test]
fn timed_dequeue_sinks_validated_records_and_counts_changed_generation_once() {
    let mut coordinator = coordinator_for(PausePolicy::Auto, 41, 9, stopped());
    let mut clock = FakeIo {
        now: VecDeque::from([Ok(1), Err("post-clock".into())]),
        queue: VecDeque::from([Ok(Some(DiscoveryItem::Record(record(1, 0, false))))]),
        ..FakeIo::default()
    };
    let error = match coordinator.timed_dequeue(&mut clock, Some(CYCLE_NS)) {
        Err(error) => error,
        Ok(_) => panic!("post-clock failure must retain the removed record"),
    };
    assert!(error.lifecycle);
    assert!(error.lifecycle);
    assert_eq!(coordinator.pending_records.len(), 1);
    assert_eq!(coordinator.unvalidated_records, 0);

    let mut changed = FakeIo {
        now: VecDeque::from([Ok(1), Ok(2)]),
        queue: VecDeque::from([Ok(Some(DiscoveryItem::Record(record(2, 0, false))))]),
        same_generation_results: VecDeque::from([Ok(false)]),
        ..FakeIo::default()
    };
    let error = match coordinator.timed_dequeue(&mut changed, Some(CYCLE_NS)) {
        Err(error) => error,
        Ok(_) => panic!("generation change must reject the removed record"),
    };
    assert!(error.lifecycle);
    assert_eq!(coordinator.pending_records.len(), 1);
    assert_eq!(coordinator.unvalidated_records, 1);
}

#[test]
fn direct_generation_loss_precedes_a_coincident_deadline() {
    let mut coordinator = coordinator_for(PausePolicy::Auto, 41, 9, stopped());
    let mut io = FakeIo {
        now: VecDeque::from([Ok(1), Ok(CYCLE_NS + 1)]),
        queue: VecDeque::from([Ok(Some(DiscoveryItem::Record(record(1, 0, false))))]),
        same_generation_results: VecDeque::from([Ok(false)]),
        ..FakeIo::default()
    };

    let error = match coordinator.timed_dequeue(&mut io, Some(CYCLE_NS)) {
        Err(error) => error,
        Ok(_) => panic!("generation loss must fail the direct dequeue"),
    };

    assert!(error.lifecycle);
    assert!(error.message.contains("generation changed"));
    assert!(coordinator.pending_records.is_empty());
    assert_eq!(coordinator.unvalidated_records, 1);
}

#[test]
fn unvalidated_record_is_counted_only_by_terminal_cleanup() {
    let mut coordinator = coordinator_for(PausePolicy::Auto, 41, 9, stopped());
    let mut io = FakeIo {
        now: VecDeque::from([Ok(1), Ok(2)]),
        queue: VecDeque::from([Ok(Some(DiscoveryItem::Record(record(2, 0, false))))]),
        same_generation_results: VecDeque::from([Err("generation".into())]),
        ..FakeIo::default()
    };
    let error = match coordinator.timed_dequeue(&mut io, Some(CYCLE_NS)) {
        Err(error) => error,
        Ok(_) => panic!("generation read failure must reject the removed record"),
    };
    assert!(error.lifecycle);

    coordinator.cleanup(&mut io).unwrap();

    assert!(io.applied.is_empty());
    assert_eq!(io.apply_pause_owned, [false]);
    assert_eq!(io.unvalidated_records, 1);
    assert_eq!(coordinator.counters().confirmed, 0);
}

#[test]
fn terminal_cleanup_applies_validated_and_accounts_unvalidated() {
    let mut coordinator = coordinator_for(PausePolicy::Auto, 41, 9, stopped());
    coordinator.pending_records.push(record(1, 0, false));
    coordinator.unvalidated_records = 3;
    let mut io = FakeIo::default();

    coordinator.cleanup(&mut io).unwrap();

    assert_eq!(
        io.events,
        [
            "detach",
            "dequeue",
            "account",
            "unvalidated",
            "read",
            "remove"
        ]
    );
    assert_eq!(io.applied.len(), 1);
    assert_eq!(io.unvalidated_records, 3);
}

#[test]
fn terminal_cleanup_reclaims_validated_record_retained_by_drain_failure() {
    let mut coordinator = coordinator_for(PausePolicy::Auto, 41, 9, stopped());
    coordinator.failure_deadline = Some(CYCLE_NS);
    let mut io = FakeIo {
        now: VecDeque::from([Ok(1), Err("post-clock".into())]),
        queue: VecDeque::from([Ok(Some(DiscoveryItem::Record(record(1, 1, false))))]),
        ..FakeIo::default()
    };

    let error = coordinator.cleanup(&mut io).unwrap_err();

    assert!(error.render().contains("post-clock"));
    assert_eq!(io.applied.len(), 1);
    assert_eq!(io.applied[0].hook_ts_ns, 1);
    assert_eq!(io.unvalidated_records, 0);
}

#[test]
fn round7_cleanup_only_failures_do_not_skip_child_safe_cleanup_or_resume_twice() {
    let mut coordinator = coordinator_for(PausePolicy::Auto, 41, 9, stopped());
    coordinator.armed = true;
    coordinator.epoch.authorization_consumed = true;
    coordinator.may_be_stopped = true;
    coordinator.pending_records.push(record(1, 0, false));
    coordinator.unvalidated_records = 2;
    let mut io = FakeIo {
        queue: VecDeque::from([Ok(Some(DiscoveryItem::Malformed)), Ok(None), Ok(None)]),
        terminal_cleanup_results: VecDeque::from([
            Err("registry remove one".into()),
            Err("registry remove two".into()),
            Ok(()),
        ]),
        terminal_authority_pending: true,
        ..FakeIo::default()
    };

    let first = coordinator.cleanup(&mut io).unwrap_err();

    assert!(first.lifecycle());
    assert_eq!(io.applied.len(), 1);
    assert_eq!(io.unvalidated_records, 2);
    assert_eq!(
        io.events.iter().filter(|event| **event == "detach").count(),
        1
    );
    assert_eq!(
        io.events.iter().filter(|event| **event == "resume").count(),
        1
    );
    assert_eq!(
        io.events
            .iter()
            .filter(|event| **event == "discard")
            .count(),
        2
    );
    assert!(io.terminal_authority_pending);
    assert!(!coordinator.cleaned);

    coordinator.cleanup(&mut io).unwrap();
    assert_eq!(
        io.events.iter().filter(|event| **event == "detach").count(),
        2
    );
    assert_eq!(
        io.events.iter().filter(|event| **event == "resume").count(),
        1
    );
    assert_eq!(
        io.events
            .iter()
            .filter(|event| **event == "discard")
            .count(),
        3
    );
    assert!(!io.terminal_authority_pending);
    assert!(coordinator.cleaned);
}

#[test]
fn round7_reconciliation_error_still_removes_authorization_and_resumes() {
    let mut coordinator = coordinator_for(PausePolicy::Auto, 41, 9, stopped());
    coordinator.armed = true;
    coordinator.epoch.authorization_consumed = true;
    coordinator.may_be_stopped = true;
    let mut io = FakeIo {
        reconcile_results: VecDeque::from([Err("authority invariant".into())]),
        ..FakeIo::default()
    };

    let error = coordinator.cleanup(&mut io).unwrap_err();

    assert!(error.lifecycle());
    assert!(error.render().contains("authority invariant"));
    assert!(io.events.contains(&"detach"));
    assert!(io.events.contains(&"account"));
    assert!(io.events.contains(&"remove"));
    assert_eq!(
        io.events.iter().filter(|event| **event == "resume").count(),
        1
    );
    assert!(!coordinator.cleaned);
}

#[test]
fn post_dequeue_generation_failure_latches_one_protective_resume() {
    let mut coordinator = coordinator_for(PausePolicy::Auto, 41, 9, stopped());
    coordinator.armed = true;
    let mut io = FakeIo {
        now: VecDeque::from([Ok(1), Ok(2)]),
        queue: VecDeque::from([Ok(Some(DiscoveryItem::Record(record(1, 0, false))))]),
        same_generation_results: VecDeque::from([Err("generation".into())]),
        authorization: None,
        ..FakeIo::default()
    };

    let error = match coordinator.timed_dequeue(&mut io, Some(CYCLE_NS)) {
        Err(error) => error,
        Ok(_) => panic!("generation failure must fail after dequeue"),
    };
    assert!(coordinator.epoch.zero_candidate);
    assert!(coordinator.may_be_stopped);
    coordinator
        .fail_cycle(&mut io, error.message, true)
        .unwrap_err();

    assert_eq!(
        io.events.iter().filter(|event| **event == "resume").count(),
        1
    );
}

#[test]
fn rejected_helper_is_one_partial_attempt_without_sigcont_or_rearm() {
    let mut io = successful_io(vec![record(10, -i64::from(libc::EPERM), false)]);
    let mut coordinator = coordinator_for(PausePolicy::Auto, 41, 9, stopped());
    coordinator.armed = true;
    coordinator.service(&mut io).unwrap();
    assert_eq!(coordinator.counters(), PauseCounters::partial(1));
    assert!(!io.events.contains(&"resume"));
    assert!(!coordinator.is_armed());
    assert!(!coordinator.rearming_enabled());
    assert!(!coordinator.may_be_stopped);
    assert!(!coordinator.epoch.authorization_consumed);
}

#[test]
fn rejected_lifecycle_failure_applies_every_validated_record_once_without_resume() {
    let rejected = record(10, -i64::from(libc::EPERM), false);
    let invalid = record(20, 0, false);
    let mut io = successful_io(Vec::new());
    io.queue = VecDeque::from([
        Ok(Some(DiscoveryItem::Record(rejected))),
        Ok(Some(DiscoveryItem::Record(invalid))),
        Ok(None),
    ]);
    io.same_generation_results = VecDeque::from([Ok(true), Ok(true), Ok(false)]);
    let mut coordinator = coordinator_for(PausePolicy::Auto, 41, 9, stopped());
    coordinator.armed = true;

    let error = coordinator.service(&mut io).unwrap_err();

    assert!(error.lifecycle());
    assert_eq!(io.applied.len(), 2);
    assert_eq!(io.applied[0].hook_ts_ns, 10);
    assert_eq!(io.applied[1].hook_ts_ns, 20);
    assert!(!io.events.contains(&"resume"));
}

#[test]
fn rejected_helper_is_classified_before_all_timestamp_failures() {
    let cases = [
        (u64::MAX, VecDeque::new()),
        (10, VecDeque::from([Ok(CYCLE_NS + 11), Ok(CYCLE_NS + 12)])),
        (100, VecDeque::from([Ok(50), Ok(60)])),
        (10, VecDeque::from([Ok(20), Ok(19)])),
    ];
    for (timestamp, now) in cases {
        let mut io = successful_io(vec![record(timestamp, -i64::from(libc::EPERM), false)]);
        if !now.is_empty() {
            io.now = now;
        }
        let mut coordinator = coordinator_for(PausePolicy::Auto, 41, 9, stopped());
        coordinator.armed = true;

        coordinator.service(&mut io).unwrap();

        assert_eq!(coordinator.counters(), PauseCounters::partial(1));
        assert!(!io.events.contains(&"resume"));
        assert_eq!(io.authorization, None);
    }
}

#[test]
fn required_failure_uses_terminal_detach_before_accounting_and_resume() {
    let mut io = successful_io(vec![record(10, 0, false)]);
    io.fail_apply = true;
    let mut coordinator = coordinator_for(PausePolicy::Always, 41, 9, stopped());
    coordinator.armed = true;

    let error = coordinator.service(&mut io).unwrap_err();

    assert!(error.required());
    let detach = io
        .events
        .iter()
        .position(|event| *event == "detach")
        .unwrap();
    let resume = io
        .events
        .iter()
        .position(|event| *event == "resume")
        .unwrap();
    assert!(detach < resume);
    assert_eq!(
        io.events.iter().filter(|event| **event == "detach").count(),
        1
    );
}

#[test]
fn real_incomplete_batch_outcome_cannot_confirm_the_pause() {
    let mut io = successful_io(vec![record(10, 0, false)]);
    io.required_complete = false;
    let mut coordinator = coordinator_for(PausePolicy::Auto, 41, 9, stopped());
    coordinator.armed = true;

    coordinator.service(&mut io).unwrap();

    assert_eq!(coordinator.counters(), PauseCounters::partial(1));
    assert_eq!(coordinator.counters().confirmed, 0);
    assert_eq!(
        io.events.iter().filter(|event| **event == "resume").count(),
        1
    );
}

#[test]
fn post_release_revalidation_remains_owned_by_the_pause_ledger() {
    let mut io = FakeIo {
        authorization: None,
        revalidation_required_complete: false,
        revalidation_consumes_winner: true,
        ..FakeIo::default()
    };
    let mut coordinator = coordinator_for(PausePolicy::Auto, 41, 9, stopped());
    coordinator.armed = true;

    let error = coordinator.revalidate_after_release(&mut io).unwrap_err();

    assert_eq!(io.events.first(), Some(&"revalidate"));
    assert!(error.lifecycle());
    assert_eq!(
        coordinator.counters(),
        PauseCounters {
            attempts: 1,
            confirmed: 0,
            partial: 0,
        }
    );
    assert_eq!(io.authorization, None);
    assert_eq!(
        io.events.iter().filter(|event| **event == "resume").count(),
        1,
        "the coordinator ledger owns the consumed winner's protective resume"
    );
}

#[test]
fn completed_owner_debt_preserves_an_unconsumed_successor_debt() {
    let mut io = FakeIo {
        authorization: Some(PAUSE_ARMED),
        revalidation_required_complete: false,
        revalidation_item: Some(DiscoveryItem::Record(record(1, 0, false))),
        ..FakeIo::default()
    };
    let mut coordinator = coordinator_for(PausePolicy::Auto, 41, 9, stopped());
    coordinator.armed = true;

    coordinator.revalidate_after_release(&mut io).unwrap();

    assert_eq!(io.revalidation_pause_owned, [true, true]);
    assert_eq!(
        io.events.iter().filter(|event| **event == "resume").count(),
        1,
        "a bare successor-only debt is cleared when its ARMED state is removed"
    );
    assert_eq!(
        coordinator.counters(),
        PauseCounters {
            attempts: 2,
            confirmed: 1,
            partial: 1,
        }
    );
    assert_eq!(io.authorization, None);
    assert!(!coordinator.is_armed());
    assert!(!coordinator.rearming_enabled());
}

#[test]
fn post_release_negative_helper_is_classified_before_failure_cleanup() {
    let rejected = record(10, i64::from(-libc::EPERM), false);
    let mut io = FakeIo {
        authorization: Some(PAUSE_ARMED),
        revalidation_required_complete: false,
        revalidation_item: Some(DiscoveryItem::Record(rejected)),
        ..FakeIo::default()
    };
    let mut coordinator = coordinator_for(PausePolicy::Auto, 41, 9, stopped());
    coordinator.armed = true;

    coordinator.revalidate_after_release(&mut io).unwrap();

    assert_eq!(io.revalidation_pause_owned, [true, false]);
    assert_eq!(io.applied.len(), 1);
    assert_eq!(io.applied[0].send_signal_rc, rejected.send_signal_rc);
    assert_eq!(io.authorization, None);
    assert_eq!(
        io.events.iter().filter(|event| **event == "resume").count(),
        0,
        "a real negative helper cannot create a protective resume obligation"
    );
    assert_eq!(coordinator.counters(), PauseCounters::partial(1));
    assert!(coordinator.counters().valid());
}

#[test]
fn never_revalidation_uses_only_the_ordinary_retirement_route() {
    let ordinary = record(10, 0, false);
    let mut io = FakeIo {
        revalidation_required_complete: false,
        revalidation_item: Some(DiscoveryItem::Record(ordinary)),
        ..FakeIo::default()
    };
    let mut coordinator = coordinator_for(PausePolicy::Never, 41, 9, stopped());

    coordinator.revalidate_after_release(&mut io).unwrap();

    assert_eq!(io.revalidation_pause_owned, [false]);
    assert_eq!(io.applied.len(), 1);
    assert_eq!(io.applied[0].send_signal_rc, ordinary.send_signal_rc);
    assert_eq!(io.events, ["revalidate"]);
    assert_eq!(io.authorization, None);
    assert_eq!(coordinator.counters(), PauseCounters::zero());
    assert!(coordinator.counters().valid());
}

#[test]
fn round6_never_cleanup_does_not_turn_an_ordinary_zero_into_pause_debt() {
    let mut coordinator = coordinator_for(PausePolicy::Never, 41, 9, stopped());
    let mut io = FakeIo {
        now: VecDeque::from([Ok(0), Ok(1), Ok(2), Ok(3)]),
        queue: VecDeque::from([
            Ok(Some(DiscoveryItem::Record(record(1, 0, false)))),
            Ok(None),
        ]),
        ..FakeIo::default()
    };

    coordinator.cleanup(&mut io).unwrap();

    assert_eq!(io.apply_pause_owned, [false]);
    assert!(!coordinator.may_be_stopped);
    assert!(!coordinator.epoch.zero_candidate);
    assert!(!io.events.contains(&"resume"));
}

#[test]
fn round6_active_arm_with_absent_authorization_is_lifecycle_loss_without_resume() {
    let mut coordinator = coordinator_for(PausePolicy::Auto, 41, 9, stopped());
    coordinator.armed = true;
    let mut io = FakeIo {
        now: VecDeque::from([Ok(0), Ok(1)]),
        queue: VecDeque::from([Ok(None)]),
        authorization: None,
        ..FakeIo::default()
    };

    let error = coordinator.cleanup(&mut io).unwrap_err();

    assert!(error.lifecycle());
    assert!(!io.events.contains(&"resume"));
}

#[test]
fn ordinary_revalidation_rejects_a_pause_owned_deferral() {
    let mut io = FakeIo {
        revalidation_deferred: Some(TimedItem {
            before_ns: 1,
            after_ns: 2,
            item: DiscoveryItem::Record(record(10, 0, false)),
            terminal_batch: None,
        }),
        ..FakeIo::default()
    };
    let mut coordinator = coordinator_for(PausePolicy::Never, 41, 9, stopped());

    let error = coordinator.revalidate_after_release(&mut io).unwrap_err();

    assert!(error.lifecycle());
    assert!(error.render().contains("ordinary revalidation"));
    assert_eq!(io.revalidation_pause_owned, [false]);
    assert_eq!(io.events, ["revalidate"]);
}

#[test]
fn disabled_auto_revalidation_keeps_the_single_arm_failure_attempt() {
    let mut io = FakeIo {
        same_generation: false,
        ..FakeIo::default()
    };
    let mut coordinator = coordinator_for(PausePolicy::Auto, 41, 9, stopped());
    assert_eq!(coordinator.arm(&mut io).unwrap(), ArmResult::Disabled);
    io.same_generation = true;
    io.revalidation_item = Some(DiscoveryItem::Record(record(10, 0, false)));

    coordinator.revalidate_after_release(&mut io).unwrap();

    assert_eq!(io.revalidation_pause_owned, [false]);
    assert_eq!(coordinator.counters(), PauseCounters::partial(1));
    assert!(coordinator.counters().valid());
    assert!(!io.events.contains(&"resume"));
}

#[test]
fn disabled_auto_revalidation_error_is_lifecycle_without_pause_side_effects() {
    let mut io = FakeIo {
        same_generation: false,
        ..FakeIo::default()
    };
    let mut coordinator = coordinator_for(PausePolicy::Auto, 41, 9, stopped());
    assert_eq!(coordinator.arm(&mut io).unwrap(), ArmResult::Disabled);
    let counters = coordinator.counters();
    io.same_generation = true;
    io.revalidation_error = Some("dynamic loader attachment invariant failed".into());

    let error = coordinator.revalidate_after_release(&mut io).unwrap_err();

    assert!(error.lifecycle());
    assert!(!error.required());
    assert_eq!(coordinator.counters(), counters);
    assert!(coordinator.counters().valid());
    assert_eq!(io.revalidation_pause_owned, [false]);
    assert_eq!(io.events, ["revalidate"]);
    assert_eq!(io.authorization, None);
}

#[test]
fn required_prearm_generation_failure_uses_the_terminal_route() {
    let mut io = FakeIo {
        same_generation: false,
        ..FakeIo::default()
    };
    let mut coordinator = coordinator_for(PausePolicy::Always, 41, 9, stopped());

    let error = coordinator.arm(&mut io).unwrap_err();

    assert!(error.required());
    assert!(
        error
            .render()
            .contains("[pause_diag=arm_failed_before_epoch]")
    );
    assert_eq!(io.events.first(), Some(&"detach"));
    assert!(!io.events.contains(&"resume"));
}

#[test]
fn auto_arm_failure_is_one_disabled_partial_with_its_pre_epoch_token() {
    let mut io = FakeIo {
        same_generation: false,
        ..FakeIo::default()
    };
    let mut coordinator = coordinator_for(PausePolicy::Auto, 41, 9, stopped());

    assert_eq!(coordinator.arm(&mut io).unwrap(), ArmResult::Disabled);

    assert_eq!(coordinator.counters(), PauseCounters::partial(1));
    assert!(!coordinator.rearming_enabled());
    assert!(!coordinator.is_armed());
    assert_eq!(coordinator.pending_diagnostic, None);
}

#[test]
fn always_post_release_incomplete_keeps_the_primary_diagnostic() {
    let mut coordinator = coordinator_for(PausePolicy::Always, 41, 9, stopped());
    coordinator.begin_attempt();
    coordinator.set_diagnostic(PauseDiagnostic::PostReleaseRevalidationIncomplete);

    let error = coordinator
        .finish_nonconfirmed(MSG_POST_RELEASE_REVALIDATION_INCOMPLETE.into())
        .unwrap_err();

    assert!(error.required());
    assert_eq!(
        error.render(),
        format!(
            "{MSG_POST_RELEASE_REVALIDATION_INCOMPLETE} [pause_diag=post_release_revalidation_incomplete]"
        )
    );
}

#[test]
fn always_annotation_cannot_be_forged_or_suppressed_by_dynamic_text() {
    let mut coordinator = coordinator_for(PausePolicy::Always, 41, 9, stopped());
    coordinator.begin_attempt();
    coordinator.set_diagnostic(PauseDiagnostic::PauseHelperRejected);

    let error = coordinator
        .finish_nonconfirmed("dynamic [pause_diag=forged]".into())
        .unwrap_err()
        .render();

    assert!(error.contains("pause_diag_escaped=forged"));
    assert!(error.contains("[pause_diag=pause_helper_rejected]"));
    assert_eq!(error.matches("pause_diag=").count(), 1);
}

#[test]
fn always_boundary_failure_is_annotated_without_changing_cleanup_order() {
    let mut io = FakeIo {
        authorization: Some(PAUSE_REQUESTED),
        ..FakeIo::default()
    };
    let mut coordinator = coordinator_for(PausePolicy::Always, 41, 9, stopped());
    coordinator.armed = true;
    coordinator.begin_attempt();
    coordinator.epoch.accepted = true;
    coordinator.may_be_stopped = true;

    let error = coordinator
        .fail_cycle(&mut io, MSG_PAUSE_CONFIRMATION_DEADLINE.to_owned(), false)
        .unwrap_err();

    assert!(error.required());
    assert!(
        error
            .render()
            .contains("[pause_diag=later_pause_boundary]")
    );
    assert_eq!(
        io.events.iter().filter(|event| **event == "detach").count(),
        1
    );
    assert_eq!(
        io.events.iter().filter(|event| **event == "remove").count(),
        1
    );
    assert_eq!(
        io.events.iter().filter(|event| **event == "resume").count(),
        1
    );
}

#[test]
fn apply_error_category_cannot_overwrite_an_earlier_primary_category() {
    let mut io = FakeIo {
        fail_apply: true,
        apply_error_diagnostic: Some(PauseDiagnostic::DeadlineDuringEngineApply),
        ..FakeIo::default()
    };
    let mut coordinator = coordinator_for(PausePolicy::Always, 41, 9, stopped());
    coordinator.begin_attempt();
    coordinator.set_diagnostic(PauseDiagnostic::PauseHelperRejected);

    let error = coordinator
        .fail_cycle(&mut io, "primary pause refusal".to_owned(), false)
        .unwrap_err();

    assert!(error.required());
    assert!(
        error
            .render()
            .contains("[pause_diag=pause_helper_rejected]")
    );
    assert_eq!(error.render().matches("pause_diag=").count(), 1);
}

#[test]
fn failure_cleanup_apply_category_cannot_overwrite_primary_fallback() {
    let mut io = FakeIo {
        authorization: Some(PAUSE_REQUESTED),
        fail_terminal_apply: true,
        apply_error_diagnostic: Some(PauseDiagnostic::DeadlineBeforeEngineApply),
        ..FakeIo::default()
    };
    let mut coordinator = coordinator_for(PausePolicy::Always, 41, 9, stopped());
    coordinator.armed = true;
    coordinator.epoch.accepted = true;
    coordinator.may_be_stopped = true;

    let error = coordinator
        .fail_cycle(&mut io, "primary pause refusal".to_owned(), false)
        .unwrap_err();

    assert!(error.required());
    assert!(
        error
            .render()
            .contains("[pause_diag=other_auto_nonconfirmed]")
    );
    assert_eq!(error.render().matches("pause_diag=").count(), 1);
    let detach = io.events.iter().position(|event| *event == "detach");
    let apply = io.events.iter().position(|event| *event == "account");
    let remove = io.events.iter().position(|event| *event == "remove");
    let resume = io.events.iter().position(|event| *event == "resume");
    assert!(
        detach.unwrap() < apply.unwrap()
            && apply.unwrap() < remove.unwrap()
            && remove.unwrap() < resume.unwrap()
    );
}

#[test]
fn successful_failure_cleanup_apply_adopts_its_typed_category() {
    let mut io = FakeIo {
        apply_outcome_diagnostic: Some(PauseDiagnostic::DeadlineDuringEngineApply),
        ..FakeIo::default()
    };
    let mut coordinator = coordinator_for(PausePolicy::Always, 41, 9, stopped());

    let error = coordinator
        .terminal_cleanup_with_cause(&mut io, vec!["lifecycle".into()], false, true)
        .unwrap_err();

    assert!(error.lifecycle());
    assert_eq!(
        coordinator.pending_diagnostic,
        Some(PauseDiagnostic::DeadlineDuringEngineApply)
    );
    assert!(io.events.contains(&"account"));
}

#[test]
fn terminal_preserves_required_failure_and_cleanup_errors() {
    let mut io = successful_io(vec![record(10, 0, false)]);
    io.fail_apply = true;
    io.apply_error_diagnostic = Some(PauseDiagnostic::DeadlineDuringEngineApply);
    io.fail_detach = true;
    let mut coordinator = coordinator_for(PausePolicy::Always, 41, 9, stopped());
    coordinator.armed = true;

    let error = coordinator.service(&mut io).unwrap_err();

    assert!(error.required());
    assert!(error.lifecycle());
    assert!(
        error
            .render()
            .contains("[pause_diag=deadline_during_engine_apply]")
    );
    assert!(error.render().contains("apply"));
    assert!(error.render().contains("detach"));
    assert!(io.events.contains(&"account"));
    assert!(io.events.contains(&"remove"));
    assert!(io.events.contains(&"resume"));
}

#[test]
fn terminal_preserves_rejected_helper_and_cleanup_errors() {
    let mut io = successful_io(vec![record(10, -i64::from(libc::EPERM), false)]);
    io.fail_detach = true;
    let mut coordinator = coordinator_for(PausePolicy::Always, 41, 9, stopped());
    coordinator.armed = true;

    let error = coordinator.service(&mut io).unwrap_err();

    assert!(error.required());
    assert!(error.lifecycle());
    assert!(error.render().contains("rejected SIGSTOP"));
    assert!(
        error
            .render()
            .contains("[pause_diag=pause_helper_rejected]")
    );
    assert!(error.render().contains("detach"));
    assert!(io.events.contains(&"account"));
    assert!(io.events.contains(&"remove"));
}

#[test]
fn terminal_preserves_required_prearm_and_cleanup_errors() {
    let mut io = FakeIo {
        same_generation: false,
        fail_detach: true,
        ..FakeIo::default()
    };
    let mut coordinator = coordinator_for(PausePolicy::Always, 41, 9, stopped());

    let error = coordinator.arm(&mut io).unwrap_err();

    assert!(error.required());
    assert!(error.lifecycle());
    assert!(error.render().contains("generation changed"));
    assert!(error.render().contains("detach"));
    assert!(io.events.contains(&"account"));
    assert!(io.events.contains(&"remove"));
}

#[test]
fn ring_loss_is_rechecked_after_drain_and_immediately_before_resume() {
    for losses in [
        VecDeque::from([Ok(0), Ok(0), Ok(1)]),
        VecDeque::from([Ok(0), Ok(0), Ok(0), Ok(1)]),
    ] {
        let mut io = successful_io(vec![record(10, 0, false)]);
        io.ring_losses = losses;
        let mut coordinator = coordinator_for(PausePolicy::Auto, 41, 9, stopped());
        coordinator.ring_loss_baseline = io.ring_loss().unwrap();
        coordinator.armed = true;

        coordinator.service(&mut io).unwrap();

        assert_eq!(coordinator.counters(), PauseCounters::partial(1));
        assert_eq!(
            io.events.iter().filter(|event| **event == "resume").count(),
            1
        );
    }
}

#[test]
fn no_winner_failure_cleanup_has_one_fixed_item_budget() {
    let sibling = record(10, COALESCED_NO_HELPER_RC, true);
    let mut io = successful_io(Vec::new());
    io.queue = std::iter::repeat_n(Ok(Some(DiscoveryItem::Record(sibling))), 500)
        .chain(std::iter::once(Ok(None)))
        .collect();
    let mut coordinator = coordinator_for(PausePolicy::Auto, 41, 9, stopped());
    coordinator.armed = true;

    coordinator.service(&mut io).unwrap();

    assert!(
        io.events
            .iter()
            .filter(|event| **event == "dequeue")
            .count()
            <= 128
    );
    assert_eq!(io.authorization, None);
    assert_eq!(coordinator.counters(), PauseCounters::partial(1));
}

#[test]
fn initial_armed_or_absent_clears_only_unconsumed_resume_debt() {
    for authorization in [Some(PAUSE_ARMED), None] {
        let mut io = FakeIo {
            authorization,
            ..FakeIo::default()
        };
        let mut coordinator = coordinator_for(PausePolicy::Auto, 41, 9, stopped());
        coordinator.begin_attempt();
        coordinator.may_be_stopped = true;

        coordinator.cleanup(&mut io).unwrap();

        assert!(!io.events.contains(&"resume"));
    }

    // A zero candidate over an *intact* arm is refuted, not debt: ARMED is
    // proof the kernel never consumed it. Only a candidate no arm explains
    // keeps the protective resume.
    for (authorization, resumes) in [(Some(PAUSE_ARMED), 0), (None, 1)] {
        let mut io = successful_io(vec![record(10, 0, false)]);
        io.authorization = authorization;
        let mut coordinator = coordinator_for(PausePolicy::Auto, 41, 9, stopped());
        coordinator.armed = true;
        let result = coordinator.service(&mut io);
        if authorization.is_none() {
            assert!(result.unwrap_err().lifecycle());
        } else {
            result.unwrap();
        }
        coordinator.cleanup(&mut io).unwrap();
        assert_eq!(
            io.events.iter().filter(|event| **event == "resume").count(),
            resumes,
            "{authorization:?}"
        );
    }
}

#[test]
fn malformed_auto_epoch_is_partial_not_lifecycle() {
    let mut io = FakeIo {
        queue: VecDeque::from([Ok(Some(DiscoveryItem::Malformed)), Ok(None)]),
        authorization: Some(PAUSE_REQUESTED),
        ..FakeIo::default()
    };
    let mut coordinator = coordinator_for(PausePolicy::Auto, 41, 9, stopped());
    coordinator.armed = true;

    coordinator.service(&mut io).unwrap();

    assert_eq!(coordinator.counters(), PauseCounters::partial(1));
    assert_eq!(
        io.events.iter().filter(|event| **event == "resume").count(),
        1
    );
}

#[test]
fn rejected_helper_map_removal_failure_is_lifecycle_not_partial() {
    let mut io = successful_io(vec![record(10, -i64::from(libc::EPERM), false)]);
    io.fail_remove = true;
    let mut coordinator = coordinator_for(PausePolicy::Auto, 41, 9, stopped());
    coordinator.armed = true;

    let error = coordinator.service(&mut io).unwrap_err();

    assert!(error.lifecycle());
    assert_eq!(coordinator.counters().partial, 0);
    assert!(!io.events.contains(&"resume"));
}

#[test]
fn malformed_requested_cleanup_detaches_drains_removes_and_protectively_resumes() {
    let mut io = FakeIo {
        queue: VecDeque::from([Ok(Some(DiscoveryItem::Malformed)), Ok(None)]),
        authorization: Some(PAUSE_REQUESTED),
        fail_detach: true,
        fail_remove: true,
        ..FakeIo::default()
    };
    let mut coordinator = coordinator_for(PausePolicy::Always, 41, 9, stopped());
    coordinator.armed = true;
    let error = coordinator.cleanup(&mut io).unwrap_err();
    assert!(error.lifecycle());
    assert_eq!(
        io.events,
        [
            "detach", "dequeue", "dequeue", "account", "read", "remove", "resume"
        ],
        "cleanup must retain failures without short-circuiting before resume"
    );
    assert!(!coordinator.cleaned);
    io.fail_detach = false;
    io.fail_remove = false;
    coordinator.cleanup(&mut io).unwrap();
    assert_eq!(
        io.events.iter().filter(|event| **event == "resume").count(),
        1,
        "the full retry must not resume twice"
    );
    assert!(coordinator.cleaned);
}

#[test]
fn counters_obey_the_exact_lattice_and_partial_is_sticky() {
    for counters in [
        PauseCounters::zero(),
        PauseCounters::confirmed(1),
        PauseCounters::partial(1),
        PauseCounters {
            attempts: 2,
            confirmed: 1,
            partial: 1,
        },
    ] {
        assert_eq!(counters.confirmed + counters.partial, counters.attempts);
        assert_eq!(
            counters.status(),
            match (counters.attempts, counters.partial) {
                (0, _) => PauseStatus::Absent,
                (_, 0) => PauseStatus::Sigstop,
                _ => PauseStatus::Partial,
            }
        );
    }
}

#[test]
fn pause_diagnostics_render_one_bounded_line_each() {
    let cases = [
        (
            PauseDiagnostic::ArmFailedBeforeEpoch,
            "arm_failed_before_epoch",
        ),
        (
            PauseDiagnostic::PostReleaseRevalidationIncomplete,
            "post_release_revalidation_incomplete",
        ),
        (
            PauseDiagnostic::PauseHelperRejected,
            "pause_helper_rejected",
        ),
        (
            PauseDiagnostic::DeadlineBeforeEngineApply,
            "deadline_before_engine_apply",
        ),
        (
            PauseDiagnostic::DeadlineDuringEngineApply,
            "deadline_during_engine_apply",
        ),
        (
            PauseDiagnostic::EngineIncompleteWithinDeadline,
            "engine_incomplete_within_deadline",
        ),
        (
            PauseDiagnostic::NestedCollectorDeadline,
            "nested_collector_deadline",
        ),
        (PauseDiagnostic::LaterPauseBoundary, "later_pause_boundary"),
        (
            PauseDiagnostic::OtherAutoNonconfirmed,
            "other_auto_nonconfirmed",
        ),
    ];
    for (diagnostic, token) in cases {
        let line = render_pause_diagnostic(diagnostic);
        assert_eq!(
            line,
            format!("p11scope: pause: partial [pause_diag={token}]"),
            "every diagnostic has one exact bounded rendering"
        );
        assert_eq!(line.matches("pause_diag=").count(), 1);
    }
}

#[test]
fn pause_diagnostic_message_mapping_is_exact_and_unknown_is_fallback() {
    assert_eq!(
        diagnostic_for_message(MSG_ARM_FAILED),
        Some(PauseDiagnostic::ArmFailedBeforeEpoch)
    );
    assert_eq!(
        diagnostic_for_message(MSG_POST_RELEASE_REVALIDATION_INCOMPLETE),
        Some(PauseDiagnostic::PostReleaseRevalidationIncomplete)
    );
    assert_eq!(
        diagnostic_for_message(MSG_PAUSE_HELPER_REJECTED),
        Some(PauseDiagnostic::PauseHelperRejected)
    );
    assert_eq!(
        diagnostic_for_message(MSG_NESTED_DEADLINE_BEFORE),
        Some(PauseDiagnostic::NestedCollectorDeadline)
    );
    assert_eq!(
        diagnostic_for_message(MSG_NESTED_DEADLINE_AFTER),
        Some(PauseDiagnostic::NestedCollectorDeadline)
    );
    assert_eq!(
        diagnostic_for_message("not a recognized pause message"),
        None
    );
    for message in [
        MSG_DEADLINE_BEFORE_DEQUEUE,
        MSG_DEADLINE_AFTER_DEQUEUE,
        MSG_PAUSE_CONFIRMATION_DEADLINE,
        MSG_PAUSE_RESUME_DEADLINE,
        MSG_PAUSE_CAUSAL_DEADLINE,
        MSG_COALESCED_RECORD_DEADLINE,
    ] {
        assert_eq!(
            diagnostic_for_message(message),
            Some(PauseDiagnostic::LaterPauseBoundary)
        );
    }
}

#[test]
fn apply_diagnostic_precedence_requires_strict_deadline_crossing() {
    assert_eq!(
        classify_apply_diagnostic(Some(101), Some(102), Some(100), true, false),
        Some(PauseDiagnostic::DeadlineBeforeEngineApply)
    );
    assert_eq!(
        classify_apply_diagnostic(Some(100), Some(101), Some(100), true, false),
        Some(PauseDiagnostic::DeadlineDuringEngineApply)
    );
    assert_eq!(
        classify_apply_diagnostic(Some(100), Some(100), Some(100), false, false),
        Some(PauseDiagnostic::EngineIncompleteWithinDeadline)
    );
    assert_eq!(
        classify_apply_diagnostic(Some(100), Some(101), Some(100), true, true,),
        Some(PauseDiagnostic::NestedCollectorDeadline)
    );
    assert_eq!(
        classify_apply_diagnostic(None, None, Some(100), false, false),
        None
    );
    assert_eq!(
        classify_apply_diagnostic(Some(100), Some(101), None, false, false),
        None
    );
    assert_eq!(
        classify_apply_diagnostic(Some(100), Some(100), Some(100), true, false),
        None
    );
}

#[test]
fn coordinator_diagnostic_is_first_cause_and_clears_on_emission() {
    let mut coordinator = coordinator_for(PausePolicy::Auto, 41, 9, stopped());
    coordinator.begin_attempt();
    coordinator.set_diagnostic(PauseDiagnostic::LaterPauseBoundary);
    coordinator.set_diagnostic(PauseDiagnostic::PauseHelperRejected);
    assert_eq!(
        coordinator.pending_diagnostic,
        Some(PauseDiagnostic::LaterPauseBoundary)
    );
    coordinator.emit_partial_diagnostic();
    assert_eq!(
        coordinator.take_notices(),
        ["p11scope: pause: partial [pause_diag=later_pause_boundary]"]
    );
    assert_eq!(coordinator.pending_diagnostic, None);
    coordinator.attempt_open = false;
    coordinator.begin_attempt();
    assert_eq!(coordinator.pending_diagnostic, None);
}

/// A scripted queue with its clocks.
struct FakeDrain {
    clocks: VecDeque<Result<u64, String>>,
    items: VecDeque<Result<Option<DiscoveryItem>, String>>,
    same_generation: bool,
}

impl DrainIo for FakeDrain {
    fn log(&self) -> DrainHistory {
        unreachable!()
    }

    fn now_ns(&mut self) -> Result<u64, String> {
        self.clocks.pop_front().expect("a clock for every dequeue")
    }

    fn dequeue(&mut self) -> Result<Option<DiscoveryItem>, String> {
        self.items.pop_front().unwrap_or(Ok(None))
    }

    fn same_generation(&mut self) -> Result<bool, String> {
        Ok(self.same_generation)
    }
}

fn collect(
    deadline: Option<u64>,
    pause_owned: bool,
    clocks: Vec<Result<u64, String>>,
    items: Vec<DiscoveryItem>,
    same_generation: bool,
) -> Collected {
    let mut io = FakeDrain {
        clocks: clocks.into_iter().collect(),
        items: items.into_iter().map(|item| Ok(Some(item))).collect(),
        same_generation,
    };
    collect_timed_retirement_with(41, deadline, pause_owned, &mut io)
}

fn incomplete(collected: Collected) -> IncompleteTerminalDrain {
    match collected.result {
        Err(RetirementError::Incomplete(incomplete)) => incomplete,
        _ => panic!("the terminal route reports an incomplete drain"),
    }
}

#[test]
fn task_state_parser_uses_the_final_comm_field_delimiter() {
    assert_eq!(
        parse_task_state(b"41 (name with ) inside) T 1 2 3\n"),
        Some(b'T')
    );
    assert_eq!(parse_task_state(b"missing delimiter"), None);
    let states = read_task_states(
        41,
        Ok(vec![TaskSeen::Listed(
            "41".to_owned(),
            Ok(b"41 (sleep) S 1 2 3\n".to_vec()),
        )]),
    )
    .unwrap();
    assert!(!states.is_empty());
    assert_eq!(states.get(&41), Some(&b'S'));
}

#[test]
fn preflight_binds_the_real_owned_child_pidfd_generation_and_task_set() {
    let expected: BTreeMap<u32, u8> = [(77, b'S')].into_iter().collect();
    let coordinator = PauseCoordinator::<TerminalBatch>::preflight(
        PausePolicy::Always,
        77,
        5,
        Ok(()),
        Ok(expected),
        true,
    )
    .unwrap_or_else(|_| panic!("the retained pin must authorize preflight"));

    assert_eq!(coordinator.pid, 77);
    assert_eq!(coordinator.generation(), 5);
    assert_eq!(
        coordinator.expected_tasks,
        [(77, b'S')].into_iter().collect()
    );
}

#[test]
fn the_owned_generation_survives_its_child_ordinary_exit_until_it_is_reaped() {
    let ended = false;
    assert!(
        owned_generation_retained(ended, false, Ok(true)).unwrap(),
        "an unreaped exit still holds the pid: the ring's records are still this generation's"
    );
    assert!(
        !owned_generation_retained(ended, true, Ok(true)).unwrap(),
        "a reaped pid can be reused, so nothing may still be attributed to it"
    );
    assert!(owned_generation_retained(true, false, Ok(false)).unwrap());
    assert_eq!(
        owned_generation_retained(ended, false, Err("pin".to_owned())),
        Err("pin".to_owned())
    );
}

#[test]
fn post_release_zero_before_post_clock_failure_protectively_resumes() {
    let collected = collect(
        None,
        true,
        vec![Ok(1), Err("post-clock".to_owned())],
        vec![DiscoveryItem::Record(record(10, 0, false))],
        true,
    );
    let stop_candidate_seen = collected.stop_candidate_seen;
    let error = incomplete(collected).cause;
    assert!(stop_candidate_seen);
    let mut io = FakeIo {
        authorization: None,
        revalidation_error: Some(error),
        retirement_stop_candidate_seen: stop_candidate_seen,
        ..FakeIo::default()
    };
    let mut coordinator = coordinator_for(PausePolicy::Auto, 41, 9, stopped());
    coordinator.armed = true;

    let error = coordinator.revalidate_after_release(&mut io).unwrap_err();

    assert!(error.lifecycle());
    assert_eq!(
        coordinator.counters(),
        PauseCounters {
            attempts: 1,
            confirmed: 0,
            partial: 0,
        }
    );
    assert_eq!(io.authorization, None);
    assert_eq!(
        io.events.iter().filter(|event| **event == "resume").count(),
        1
    );
}

#[test]
fn post_release_zero_before_generation_failure_protectively_resumes() {
    let collected = collect(
        None,
        true,
        vec![Ok(1), Ok(2)],
        vec![DiscoveryItem::Record(record(10, 0, false))],
        false,
    );
    let stop_candidate_seen = collected.stop_candidate_seen;
    let error = incomplete(collected).cause;
    assert!(stop_candidate_seen);
    let mut io = FakeIo {
        revalidation_error: Some(error),
        retirement_stop_candidate_seen: stop_candidate_seen,
        ..FakeIo::default()
    };
    let mut coordinator = coordinator_for(PausePolicy::Auto, 41, 9, stopped());
    coordinator.armed = true;

    let error = coordinator.revalidate_after_release(&mut io).unwrap_err();

    assert!(error.lifecycle());
    assert_eq!(
        coordinator.counters(),
        PauseCounters {
            attempts: 1,
            confirmed: 0,
            partial: 0,
        }
    );
    assert_eq!(io.authorization, None);
    assert_eq!(
        io.events.iter().filter(|event| **event == "resume").count(),
        1
    );
}

#[test]
fn post_release_zero_before_classification_cancellation_protectively_resumes() {
    let collected = collect(
        None,
        true,
        vec![Ok(1), Ok(2)],
        vec![DiscoveryItem::Record(record(10, 0, false))],
        true,
    );
    let deferred = match collected.result {
        Err(RetirementError::Deferred(deferred)) => deferred,
        _ => panic!("owned revalidation must transfer the already-clocked item"),
    };
    let stop_candidate_seen = collected.stop_candidate_seen;
    assert!(stop_candidate_seen);
    let mut io = FakeIo {
        cancelled: true,
        revalidation_deferred: Some(TimedItem {
            before_ns: deferred.before_ns,
            after_ns: deferred.after_ns,
            item: deferred.item,
            terminal_batch: None,
        }),
        retirement_stop_candidate_seen: stop_candidate_seen,
        ..FakeIo::default()
    };
    let mut coordinator = coordinator_for(PausePolicy::Auto, 41, 9, stopped());
    coordinator.armed = true;

    let error = coordinator.revalidate_after_release(&mut io).unwrap_err();

    assert!(error.lifecycle());
    assert_eq!(coordinator.counters(), PauseCounters::zero());
    assert!(coordinator.counters().valid());
    assert_eq!(io.authorization, None);
    assert_eq!(
        io.events.iter().filter(|event| **event == "resume").count(),
        1
    );
}

#[test]
fn classification_transfers_a_terminal_batch_to_its_cleanup_application() {
    let rejected = record(10, -i64::from(libc::EPERM), false);
    let batch = TerminalBatch {
        owner: 1,
        records: vec![rejected],
    };
    let mut io = FakeIo::default();
    let mut coordinator = coordinator_for(PausePolicy::Never, 41, 9, stopped());

    coordinator
        .service_deferred(
            &mut io,
            TimedItem {
                before_ns: 1,
                after_ns: 2,
                item: DiscoveryItem::Record(rejected),
                terminal_batch: Some(batch),
            },
        )
        .unwrap();

    assert_eq!(io.apply_pause_owned, [false]);
    assert_eq!(io.terminal_batches.len(), 1);
    assert_eq!(io.terminal_batches[0].owner, 1);
    assert_eq!(io.terminal_batches[0].records.len(), 1);
}

#[test]
fn failed_classification_application_keeps_the_terminal_batch_for_retry() {
    let rejected = record(10, -i64::from(libc::EPERM), false);
    let batch = TerminalBatch {
        owner: 1,
        records: vec![rejected],
    };
    let mut io = FakeIo {
        fail_apply: true,
        ..FakeIo::default()
    };
    let mut coordinator = coordinator_for(PausePolicy::Never, 41, 9, stopped());

    let error = coordinator
        .service_deferred(
            &mut io,
            TimedItem {
                before_ns: 1,
                after_ns: 2,
                item: DiscoveryItem::Record(rejected),
                terminal_batch: Some(batch),
            },
        )
        .unwrap_err();

    assert_eq!(error.render(), "apply");
    assert!(io.terminal_batches.is_empty());
    assert_eq!(
        coordinator.terminal_batch.as_ref().map(|batch| batch.owner),
        Some(1)
    );
}

#[test]
fn ordinary_retirement_zero_never_creates_pause_debt() {
    let collected = collect(
        None,
        false,
        vec![Ok(1), Ok(2), Ok(3), Ok(4)],
        vec![DiscoveryItem::Record(record(10, 0, false))],
        true,
    );
    let (records, malformed) = match collected.result {
        Ok(found) => found,
        Err(_) => panic!("an ordinary drain reaches the end of the queue"),
    };

    assert_eq!(records.len(), 1);
    assert_eq!(malformed, 0);
    assert!(!collected.stop_candidate_seen);
}

#[test]
fn terminal_collection_reports_the_dequeued_prefix_on_post_dequeue_failure() {
    let collected = collect(
        Some(100),
        true,
        vec![Ok(1), Err("post-clock".to_owned())],
        vec![DiscoveryItem::Record(record(10, 0, false))],
        true,
    );
    let retained = incomplete(collected);

    assert_eq!(retained.cause, "post-clock");
    assert_eq!(retained.records.len(), 1);
    assert_eq!(retained.records[0].hook_ts_ns, 10);
    assert_eq!(retained.malformed, 0);
}

#[test]
fn nested_deadline_is_marked_at_its_source_not_from_rendered_text() {
    for clocks in [vec![Ok(101)], vec![Ok(1), Ok(101)]] {
        let collected = collect(
            Some(100),
            true,
            clocks,
            vec![DiscoveryItem::Record(record(1, 0, false))],
            true,
        );
        assert!(collected.result.is_err());
        assert!(collected.nested_deadline);
    }
}

#[test]
fn every_post_dequeue_terminal_failure_retains_the_current_item() {
    let retained_by = |deadline: Option<u64>, item: DiscoveryItem, same_generation: bool| {
        incomplete(collect(
            deadline,
            true,
            vec![Ok(1), Ok(2)],
            vec![item],
            same_generation,
        ))
    };

    let generation = retained_by(None, DiscoveryItem::Record(record(1, 0, false)), false);
    assert!(generation.records.is_empty());
    assert_eq!(generation.malformed, 0);
    assert_eq!(generation.unvalidated_records, 1);

    let malformed_generation = retained_by(None, DiscoveryItem::Malformed, false);
    assert!(malformed_generation.records.is_empty());
    assert_eq!(malformed_generation.malformed, 1);
    assert_eq!(malformed_generation.unvalidated_records, 0);

    let timing = retained_by(
        Some(100),
        DiscoveryItem::Record(record(50, COALESCED_NO_HELPER_RC, true)),
        true,
    );
    assert_eq!(timing.records.len(), 1);
    assert_eq!(timing.records[0].hook_ts_ns, 50);
    assert_eq!(timing.unvalidated_records, 0);

    let unaccounted = retained_by(Some(100), DiscoveryItem::Record(record(1, 0, false)), true);
    assert_eq!(unaccounted.records.len(), 1);
    assert_eq!(unaccounted.records[0].hook_ts_ns, 1);
    assert_eq!(unaccounted.unvalidated_records, 0);
    assert!(unaccounted.cause.contains("duplicate or unaccounted"));
}

#[test]
fn nested_generation_loss_precedes_a_coincident_deadline() {
    let error = incomplete(collect(
        Some(100),
        true,
        vec![Ok(1), Ok(101)],
        vec![DiscoveryItem::Record(record(1, 0, false))],
        false,
    ));

    assert!(error.cause.contains("generation changed"));
    assert!(error.records.is_empty());
    assert_eq!(error.unvalidated_records, 1);
}

#[test]
fn a_drain_accounts_for_everything_it_took() {
    let coalesced = record(1, COALESCED_NO_HELPER_RC, true);
    let collected = collect(
        Some(100),
        true,
        vec![Ok(1), Ok(2), Ok(3), Ok(4), Ok(5), Ok(6)],
        vec![
            DiscoveryItem::Record(coalesced),
            DiscoveryItem::Record(coalesced),
            DiscoveryItem::Malformed,
        ],
        true,
    );
    let (records, malformed) = match collected.result {
        Ok(found) => found,
        Err(_) => panic!("a malformed item ends a drain well"),
    };
    assert_eq!(records, [coalesced, coalesced]);
    assert_eq!(malformed, 1);
}

#[test]
fn task_states_name_every_fault() {
    let listed = |name: &str, stat: &[u8]| TaskSeen::Listed(name.to_owned(), Ok(stat.to_vec()));
    let states = read_task_states(
        9,
        Ok(vec![
            listed("9", b"9 (a) T 1"),
            listed("10", b"10 (b (c)) R 1"),
        ]),
    )
    .unwrap();
    assert_eq!(states, [(9, b'T'), (10, b'R')].into_iter().collect());
    assert_eq!(
        read_task_states(9, Err("denied".to_owned())),
        Err("cannot enumerate task set for pid 9: denied".to_owned())
    );
    assert_eq!(
        read_task_states(9, Ok(vec![TaskSeen::Unlisted("gone".to_owned())])),
        Err("cannot enumerate task for pid 9: gone".to_owned())
    );
    assert_eq!(
        read_task_states(9, Ok(vec![listed("self", b"")])),
        Err("invalid task directory for pid 9".to_owned())
    );
    assert_eq!(
        read_task_states(
            9,
            Ok(vec![TaskSeen::Listed(
                "12".to_owned(),
                Err("gone".to_owned())
            )])
        ),
        Err("cannot read task 12 state: gone".to_owned())
    );
    assert_eq!(
        read_task_states(9, Ok(vec![listed("12", b"12 (x)")])),
        Err("cannot parse task 12 state".to_owned())
    );
    assert_eq!(
        read_task_states(9, Ok(Vec::new())),
        Err("pid 9 has an empty task set".to_owned())
    );
}

#[test]
fn a_settled_batch_keeps_its_reason_and_its_change() {
    let mut changed = false;
    let outcome = settle_batch(
        &mut changed,
        BatchSeen::Applied {
            before_ns: Some(1),
            after_ns: Some(2),
            applied: Ok((true, false)),
            nested_deadline: false,
            reconciled: Ok(()),
        },
        Some(10),
    )
    .unwrap();
    assert!(changed);
    assert_eq!(
        outcome,
        PauseBatchOutcome {
            required_complete: false,
            diagnostic: Some(PauseDiagnostic::EngineIncompleteWithinDeadline),
        }
    );

    let mut unchanged = false;
    let error = settle_batch(
        &mut unchanged,
        BatchSeen::Applied {
            before_ns: Some(11),
            after_ns: Some(12),
            applied: Err("engine".to_owned()),
            nested_deadline: false,
            reconciled: Err("owner".to_owned()),
        },
        Some(10),
    )
    .unwrap_err();
    assert!(!unchanged);
    assert_eq!(
        error.message,
        "discovery batch application failed: engine; terminal discovery authority reconciliation failed: terminal discovery authority reconciliation failed: owner"
    );
    assert_eq!(
        error.diagnostic,
        Some(PauseDiagnostic::DeadlineBeforeEngineApply)
    );

    let error = settle_batch(
        &mut unchanged,
        BatchSeen::Applied {
            before_ns: None,
            after_ns: None,
            applied: Ok((true, true)),
            nested_deadline: false,
            reconciled: Err("owner".to_owned()),
        },
        None,
    )
    .unwrap_err();
    assert!(unchanged);
    assert_eq!(
        error.message,
        "terminal discovery authority reconciliation failed: terminal discovery authority reconciliation failed: owner"
    );
    assert_eq!(error.diagnostic, None);

    let error = settle_batch(&mut unchanged, BatchSeen::Unreconciled("owner".to_owned()), None)
        .unwrap_err();
    assert_eq!(
        error.message,
        "terminal discovery authority reconciliation failed: owner"
    );
    let error = settle_batch(&mut unchanged, BatchSeen::NotRestored("full".to_owned()), None)
        .unwrap_err();
    assert_eq!(error.message, "terminal discovery batch restore failed: full");
}

#[test]
fn a_settled_revalidation_keeps_its_deferral_and_its_change() {
    let mut changed = false;
    let complete =
        settle_revalidation::<TerminalBatch>(&mut changed, RevalidationSeen::Complete(true, true));
    assert!(changed);
    assert!(matches!(
        complete,
        Ok(PauseRevalidationOutcome::Complete(PauseBatchOutcome {
            required_complete: true,
            diagnostic: None,
        }))
    ));
    let failed = settle_revalidation::<TerminalBatch>(
        &mut changed,
        RevalidationSeen::Failed("scan".to_owned()),
    );
    assert!(matches!(
        failed,
        Err(message) if message == "owned-child revalidation failed: scan"
    ));
    let deferred = settle_revalidation::<TerminalBatch>(
        &mut changed,
        RevalidationSeen::Deferred(TimedItem {
            before_ns: 1,
            after_ns: 2,
            item: DiscoveryItem::Malformed,
            terminal_batch: None,
        }),
    );
    assert!(matches!(
        deferred,
        Ok(PauseRevalidationOutcome::Deferred(TimedItem {
            before_ns: 1,
            after_ns: 2,
            ..
        }))
    ));
}

#[test]
fn a_malformed_dequeue_is_counted() {
    let mut malformed = 0;
    assert_eq!(
        take_dequeued(&mut malformed, Ok(Some(DiscoveryItem::Malformed))),
        Ok(Some(DiscoveryItem::Malformed))
    );
    assert_eq!(take_dequeued(&mut malformed, Ok(None)), Ok(None));
    assert_eq!(
        take_dequeued(&mut malformed, Err("ring".to_owned())),
        Err("discovery dequeue failed: ring".to_owned())
    );
    assert_eq!(malformed, 1);
}

#[test]
fn a_confirmed_pause_shows_its_evidence_in_order() {
    let mut io = successful_io(vec![record(10, 0, false)]);
    let mut coordinator = coordinator_for(PausePolicy::Auto, 41, 9, stopped());
    coordinator.armed = true;
    coordinator.cycles = 1;
    coordinator.service(&mut io).unwrap();
    assert_eq!(coordinator.counters(), PauseCounters::confirmed(1));
    let at = |name: &str| io.events.iter().position(|event| *event == name).unwrap();
    assert!(at("wait") < at("apply"));
    assert!(at("apply") < at("remove"));
    assert!(at("remove") < at("resume"));
}

#[test]
fn a_cleanup_is_done_once_and_in_order() {
    let mut io = FakeIo {
        authorization: Some(PAUSE_REQUESTED),
        ..FakeIo::default()
    };
    let mut coordinator = coordinator_for(PausePolicy::Auto, 41, 9, stopped());
    coordinator.armed = true;
    coordinator.cleanup(&mut io).unwrap();
    let turning: Vec<&str> = io
        .events
        .iter()
        .copied()
        .filter(|event| ["detach", "remove", "resume"].contains(event))
        .collect();
    assert_eq!(turning, ["detach", "remove", "resume"]);
    let calls = io.events.len();
    coordinator.cleanup(&mut io).unwrap();
    assert_eq!(io.events.len(), calls);
}

#[test]
fn a_failed_cycle_never_arms_again() {
    let mut io = FakeIo {
        authorization: Some(PAUSE_ARMED),
        ..FakeIo::default()
    };
    let mut coordinator = coordinator_for(PausePolicy::Auto, 41, 9, stopped());
    coordinator.armed = true;
    coordinator.begin_attempt();
    coordinator.fail_cycle(&mut io, "missed".to_owned(), false).unwrap();
    assert_eq!(coordinator.counters(), PauseCounters::partial(1));
    let calls = io.events.len();
    assert_eq!(coordinator.arm(&mut io).unwrap(), ArmResult::Disabled);
    assert_eq!(io.events.len(), calls);
}

#[test]
fn a_failing_pause_takes_a_bounded_number_of_items() {
    let mut io = FakeIo {
        queue: (0..MAX_FAILURE_ITEMS + 10)
            .map(|_| Ok(Some(DiscoveryItem::Malformed)))
            .collect(),
        ..FakeIo::default()
    };
    let mut coordinator = coordinator_for(PausePolicy::Auto, 41, 9, stopped());
    assert!(coordinator.cleanup(&mut io).is_err());
    assert_eq!(coordinator.failure_items, MAX_FAILURE_ITEMS);
    assert_eq!(io.queue.len(), 10);
}

#[test]
fn a_blank_epoch_owes_nothing() {
    let epoch = PauseEpoch::default();
    assert!(!epoch.authorization_consumed && !epoch.accepted && !epoch.zero_candidate);
    assert!(!epoch.successor_installed && !epoch.successor_unresolved);
}

#[test]
fn a_terminal_batch_carries_the_records_itself() {
    let records = vec![record(10, 0, false)];
    assert_eq!(batch_records(false, records.clone()).len(), 1);
    assert!(batch_records(true, records).is_empty());
}

#[test]
fn a_batch_that_was_not_installed_is_put_back() {
    let batch = TerminalBatch {
        owner: 7,
        records: Vec::new(),
    };
    let mut held = None;
    assert_eq!(put_back(&mut held, batch.clone(), Ok(())), Ok(()));
    assert_eq!(held, None);
    assert_eq!(
        put_back(&mut held, batch.clone(), Err("full".to_owned())),
        Err("full".to_owned())
    );
    assert_eq!(held, Some(batch));
}

#[test]
fn a_refused_stop_is_never_resumed() {
    for policy in [PausePolicy::Auto, PausePolicy::Always] {
        let mut io = successful_io(Vec::new());
        let mut coordinator = coordinator_for(policy, 41, 9, stopped());
        coordinator.armed = true;
        let received = TimedItem {
            before_ns: 10,
            after_ns: 11,
            item: DiscoveryItem::Record(record(10, -i64::from(libc::EPERM), false)),
            terminal_batch: None,
        };
        assert_eq!(
            coordinator.service_received(&mut io, received).is_ok(),
            policy == PausePolicy::Auto
        );
        assert!(!io.events.contains(&"resume"));
        assert!(io.events.contains(&"remove"));
        assert!(!coordinator.is_armed());
        assert_eq!(coordinator.counters().confirmed, 0);
    }
}

#[test]
fn a_confirmed_pause_resumes_once() {
    let mut io = successful_io(vec![record(10, 0, false)]);
    let mut coordinator = coordinator_for(PausePolicy::Auto, 41, 9, stopped());
    coordinator.armed = true;
    coordinator.service(&mut io).unwrap();
    assert_eq!(coordinator.counters().confirmed, 1);
    let count = |name: &str| io.events.iter().filter(|event| **event == name).count();
    assert_eq!(count("resume"), 1);
    assert_eq!(count("apply"), 1);
    assert!(io.states.is_empty(), "the child was seen stopped three times");
    assert!(io.queue.is_empty(), "the queue was found empty");
}

#[test]
fn a_cleanup_accounts_between_the_detach_and_the_removal() {
    let mut io = FakeIo {
        authorization: Some(PAUSE_REQUESTED),
        queue: VecDeque::from([
            Ok(Some(DiscoveryItem::Record(record(10, 0, false)))),
            Ok(None),
        ]),
        ..FakeIo::default()
    };
    let mut coordinator = coordinator_for(PausePolicy::Auto, 41, 9, stopped());
    coordinator.armed = true;
    coordinator
        .terminal_cleanup_with_cause(&mut io, vec!["ended".to_owned()], false, true)
        .unwrap_err();
    let at = |name: &str| {
        io.events
            .iter()
            .position(|event| *event == name)
            .unwrap_or_else(|| panic!("{name}: {:?}", io.events))
    };
    assert!(at("detach") < at("account"));
    assert!(at("account") < at("remove"));
    assert!(at("remove") < at("resume"));
    assert!(!io.events.contains(&"apply"));
    assert_eq!(io.applied.len(), 1);
    assert!(io.queue.is_empty());
}
