//! What a session attaches, publishes and checks.

use p11scope::attach::catalog::{
    async_catalog, mechanism_registry, registry_loaded, standard_async_catalog,
    standard_function_names,
};
use p11scope::attach::counters::{counter_snapshot_with, CounterSnapshot};
use p11scope::attach::dynamic::{
    DynamicLoaderAttachFailure, EntryStep, PartialDetach, ProbeSeen, ProgramSeen,
};
use p11scope::attach::format::{
    pack_task_newtask_offsets, parse_task_newtask_field, parse_task_newtask_format, read_task_newtask_format_step,
    task_newtask_format, FormatStep, ReadFailure,
};
use p11scope::attach::inventory::{
    base_policy_maps, expected_programs, feature_policy_maps, is_frozen_early,
    is_tracepoint_program, map_element_attribute, map_freeze_attribute,
    program_array_lookup_result, runtime_map_inventory, validate_map_metadata,
    validate_policy_maps, validate_program_inventory, validate_runtime_maps, validate_tail_calls,
    MapSeen, MapType, ObjectSizes,
};
use p11scope::attach::lifecycle::{
    attach_lifecycle_step, expected_tracefs_id_path, lifecycle_program, tracefs_lifecycle_failure,
    AttachFault, FaultCause, LifecycleSeen, LifecycleStep,
};
use p11scope::attach::links::{
    detach_order, dynamic_export_snapshot_with, producer_order, DynamicExportIdentity,
    ProducerProgram, RegisteredLink,
};
use p11scope::attach::policy::{
    arm_read_back, may_arm, pause_key_for, process_creation_capture_enabled, ArmStep,
    CapturePolicy, OwnedPauseGeneration, PauseKey, Scope,
};
use p11scope::attach::probes::{
    attach_cookie, attach_outcome, entry_order, entry_program, export_programs, static_endpoint,
    AttachOutcome, ProbeSide, Slot, SlotSemantics, ARG_NONE, TEMPLATE0_TYPES_ONLY,
};
use p11scope::attach::readback::{
    attribute_masks, attribute_step, check_attributes, check_descriptors, check_functions,
    check_offsets, make_function_key, AttributeStep,
};
use p11scope::attach::session::{replacement_losses, Selection, Session};
use p11scope::attach::startup::{
    refuse_changed, unsupported_environment_context, uprobe_process, ChangeCheck, StartStep,
    Startup, StepFault, UNSUPPORTED_ENV_HINT,
};
use p11scope::discovery::hooks::HookAbi;
use p11scope::discovery::loader::{LoaderContextId, PinnedObjectId};
use std::collections::BTreeSet;

#[test]
fn capture_policies_have_distinct_bits_and_visible_behavior() {
    let policies = [
        (CapturePolicy::Allowlisted, "allowlisted", true, false),
        (
            CapturePolicy::UnsafeUnvalidatedMetadata,
            "unsafe-unvalidated-metadata",
            true,
            true,
        ),
        (CapturePolicy::AggregateOnly, "aggregate-only", false, false),
    ];

    for (policy, privacy_mode, uses_events, uses_unsafe_decoders) in policies {
        assert_eq!(policy.privacy_mode(), privacy_mode);
        assert_eq!(policy.uses_events(), uses_events);
        assert_eq!(policy.uses_unsafe_decoders(), uses_unsafe_decoders);
    }
    assert_ne!(
        CapturePolicy::Allowlisted.config_bit(),
        CapturePolicy::UnsafeUnvalidatedMetadata.config_bit()
    );
    assert_ne!(
        CapturePolicy::Allowlisted.config_bit(),
        CapturePolicy::AggregateOnly.config_bit()
    );
    assert_ne!(
        CapturePolicy::UnsafeUnvalidatedMetadata.config_bit(),
        CapturePolicy::AggregateOnly.config_bit()
    );
}

const VALID: &str = "field:pid_t pid; offset:32; size:4; signed:1;\nfield:unsigned long clone_flags; offset:56; size:8; signed:0;\n";

#[test]
fn tracepoint_format_parses_shifted_task_newtask_offsets() {
    assert_eq!(parse_task_newtask_format(VALID).unwrap(), (32, 56));
}

#[test]
fn tracepoint_format_rejects_malformed_and_unrepresentable_fields() {
    let cases = [
        (
            "missing pid",
            VALID.replace("field:pid_t pid; offset:32; size:4; signed:1;\n", ""),
        ),
        (
            "missing clone_flags",
            VALID.replace(
                "field:unsigned long clone_flags; offset:56; size:8; signed:0;\n",
                "",
            ),
        ),
        (
            "duplicate pid",
            format!("{VALID}field:pid_t pid; offset:64; size:4; signed:1;\n"),
        ),
        (
            "pid size other than four",
            VALID.replace("size:4", "size:8"),
        ),
        ("pid unsigned field", VALID.replace("signed:1", "signed:0")),
        (
            "clone flags size other than eight",
            VALID.replace("size:8", "size:4"),
        ),
        (
            "clone flags signed field",
            VALID.replace("signed:0", "signed:1"),
        ),
        ("negative offset", VALID.replace("offset:32", "offset:-1")),
        (
            "offset outside CONFIG packed form",
            VALID.replace("offset:32", "offset:65536"),
        ),
        ("missing offset", VALID.replace("offset:32; ", "")),
        ("missing size", VALID.replace("size:4; ", "")),
        ("missing signedness", VALID.replace("signed:1;", "")),
        (
            "duplicate offset",
            VALID.replace("offset:32;", "offset:32; offset:33;"),
        ),
        (
            "duplicate size",
            VALID.replace("size:4;", "size:4; size:4;"),
        ),
        (
            "duplicate signedness",
            VALID.replace("signed:1;", "signed:1; signed:1;"),
        ),
        (
            "malformed offset",
            VALID.replace("offset:32", "offset:32junk"),
        ),
    ];

    for (reason, format) in cases {
        assert!(
            parse_task_newtask_format(&format).is_err(),
            "accepted {reason}"
        );
    }
}

/// Reads the event format as often as it is asked for.
fn read_format(mut read: impl FnMut(&str) -> Result<String, ReadFailure>) -> Result<String, String> {
    let mut seen = Vec::new();
    loop {
        match read_task_newtask_format_step(&seen) {
            FormatStep::Read(i) => seen.push(read(task_newtask_format(i))),
            FormatStep::Found(format) => return Ok(format),
            FormatStep::Failed(message, _) => return Err(message),
        }
    }
}

#[test]
fn tracepoint_format_reader_falls_back_to_debugfs() {
    let mut visited = Vec::new();
    let format = read_format(|path| {
        visited.push(path.to_owned());
        if path == task_newtask_format(1) {
            Ok(VALID.to_string())
        } else {
            Err(ReadFailure {
                message: "entity not found".to_owned(),
                unavailable: true,
            })
        }
    })
    .unwrap();
    assert_eq!(format, VALID);
    assert_eq!(visited.len(), 2);
}

#[test]
fn tracepoint_format_reader_reports_both_failed_paths() {
    let error = read_format(|path| {
        if path == task_newtask_format(0) {
            Err(ReadFailure {
                message: "primary tracefs denied".to_owned(),
                unavailable: true,
            })
        } else {
            Err(ReadFailure {
                message: "debugfs tracepoint missing".to_owned(),
                unavailable: true,
            })
        }
    })
    .unwrap_err();
    for expected in [
        task_newtask_format(0),
        task_newtask_format(1),
        "primary tracefs denied",
        "debugfs tracepoint missing",
    ] {
        assert!(error.contains(expected), "{error}");
    }
}

#[test]
fn cli_policy_matrix_is_safe_by_default_and_double_gates_unsafe() {
    assert_eq!(
        CapturePolicy::from_cli("profile", false, false).unwrap(),
        CapturePolicy::Allowlisted
    );
    assert_eq!(
        CapturePolicy::from_cli("profile", false, true).unwrap(),
        CapturePolicy::Allowlisted
    );
    assert_eq!(
        CapturePolicy::from_cli("trace", false, true).unwrap(),
        CapturePolicy::Allowlisted
    );
    assert_eq!(
        CapturePolicy::from_cli("metrics", false, false).unwrap(),
        CapturePolicy::AggregateOnly
    );
    assert_eq!(
        CapturePolicy::from_cli("metrics", false, true).unwrap(),
        CapturePolicy::AggregateOnly
    );
    assert_eq!(
        CapturePolicy::from_cli("profile", true, true).unwrap(),
        CapturePolicy::UnsafeUnvalidatedMetadata
    );
    assert!(CapturePolicy::from_cli("profile", true, false).is_err());
    assert!(CapturePolicy::from_cli("metrics", true, true).is_err());
    assert!(CapturePolicy::from_cli("discover", true, true).is_err());
}

fn session(policy: CapturePolicy) -> Session {
    Session::new(policy, None, None, None, Vec::new())
}

#[test]
fn task_8d_dynamic_attach_evidence_retains_partial_and_detached_success() {
    let mut failed = session(CapturePolicy::Allowlisted);
    failed.record_dynamic_attach(false);
    assert!(
        !failed.dynamic_per_offset_attached(),
        "a failed attach is not lifetime evidence"
    );

    let mut evidence = session(CapturePolicy::Allowlisted);
    evidence.record_dynamic_attach(true);
    evidence.record_dynamic_attach(false);
    assert!(evidence.dynamic_per_offset_attached());
    evidence.record_dynamic_attach(true);
    assert!(evidence.detach_producers(&Vec::new()).is_ok());
    assert!(
        evidence.dynamic_per_offset_attached(),
        "terminal detach cannot erase lifetime evidence"
    );
}

fn test_slot(index: u32) -> Slot {
    Slot {
        index,
        descriptor_index: 0,
        object_path: "/proc/self/fd/42".into(),
        file_offset: 0x10 + u64::from(index) * 8,
        semantics: SlotSemantics::count_only(),
    }
}

#[test]
fn failed_dynamic_detach_is_sticky_and_blocks_replacement() {
    let programs = vec![
        ProducerProgram::UProbe("dynamic"),
        ProducerProgram::UProbe("dynamic"),
    ];
    assert_eq!(detach_order(&programs), [0, 1], "every detach is one-shot");

    let mut session = session(CapturePolicy::Allowlisted);
    session.register_probe("p11_entry", 0, 1);
    session
        .record_detached(&vec![
            Err("injected dynamic detach failure".to_owned()),
            Ok(()),
        ])
        .unwrap_err();
    assert_eq!(session.detach_failures().len(), 1);
    assert!(session.check_replacements(&vec![test_slot(0)]).is_err());
}

#[test]
fn only_static_slot_programs_have_endpoint_identities() {
    assert_eq!(
        static_endpoint("p11_return", 7),
        Some((7, ProbeSide::Return))
    );
    for program in [
        "p11_entry",
        "p11_entry_template",
        "p11_entry_template_types",
        "p11_entry_template_pair",
    ] {
        assert_eq!(static_endpoint(program, 7), Some((7, ProbeSide::Entry)));
    }
    for program in [
        "dl_debug_state",
        "function_list_entry",
        "function_list_return",
        "interface_list_entry",
        "interface_list_return",
        "interface_entry",
        "interface_return",
        "task_newtask",
        "sched_process_exec",
        "sched_process_exit",
    ] {
        assert_eq!(static_endpoint(program, 7), None, "{program}");
    }
}

fn tracefs_missing() -> AttachFault {
    AttachFault {
        message: "tracefs not found".to_owned(),
        cause: FaultCause::TracefsMissing,
    }
}

/// Attaches the lifecycle programs step by step.
fn attach_lifecycle(
    owned_run: bool,
    mut attach: impl FnMut(&str) -> Result<(), AttachFault>,
    mut detach: impl FnMut(&str) -> Result<(), String>,
) -> LifecycleStep {
    let mut seen = LifecycleSeen {
        attached: Vec::new(),
        rollback: None,
    };
    loop {
        match attach_lifecycle_step(owned_run, &seen) {
            LifecycleStep::Attach(i) => seen.attached.push(attach(lifecycle_program(i))),
            LifecycleStep::Detach(i) => seen.rollback = Some(detach(lifecycle_program(i))),
            end => return end,
        }
    }
}

#[test]
fn optional_lifecycle_tier_degrades_for_typed_tracefs_discovery_loss() {
    let outcome = attach_lifecycle(
        false,
        |program| {
            assert_eq!(program, "sched_process_exec");
            Err(tracefs_missing())
        },
        |_| Ok(()),
    );

    assert!(matches!(
        outcome,
        LifecycleStep::Degraded(message)
            if message == "live lifecycle tracking unavailable: tracefs not found"
    ));
}

#[test]
fn process_creation_capture_is_cgroup_only() {
    let cgroup = Scope::Cgroup(1, "/".to_owned());
    for (scope, policy, expected) in [
        (Scope::Pid(7), CapturePolicy::Allowlisted, false),
        (
            Scope::Pid(7),
            CapturePolicy::UnsafeUnvalidatedMetadata,
            false,
        ),
        (Scope::Pid(7), CapturePolicy::AggregateOnly, false),
        (cgroup, CapturePolicy::Allowlisted, true),
    ] {
        assert_eq!(process_creation_capture_enabled(&scope, policy), expected);
    }
}

#[test]
fn optional_lifecycle_tier_rolls_back_the_first_link_when_second_is_unavailable() {
    let mut detached = Vec::new();
    let outcome = attach_lifecycle(
        false,
        |program| match program {
            "sched_process_exec" => Ok(()),
            "sched_process_exit" => Err(tracefs_missing()),
            _ => unreachable!(),
        },
        |program| {
            detached.push(program.to_owned());
            Ok(())
        },
    );

    assert!(matches!(outcome, LifecycleStep::Degraded(_)));
    assert_eq!(detached, ["sched_process_exec"]);
}

#[test]
fn lifecycle_tier_rollback_failure_stays_fatal_and_retains_both_causes() {
    let outcome = attach_lifecycle(
        false,
        |program| match program {
            "sched_process_exec" => Ok(()),
            "sched_process_exit" => Err(tracefs_missing()),
            _ => unreachable!(),
        },
        |_| Err("injected rollback failure".to_owned()),
    );
    let LifecycleStep::Failed(rendered) = outcome else {
        panic!("a failed rollback is fatal")
    };

    assert!(rendered.contains("tracefs not found"));
    assert!(rendered.contains("injected rollback failure"));
}

fn event_file(path: &str) -> AttachFault {
    AttachFault {
        message: "failed to open".to_owned(),
        cause: FaultCause::EventFile(path.to_owned(), "permission denied".to_owned(), true),
    }
}

#[test]
fn lifecycle_tier_classifies_only_expected_tracefs_id_file_access() {
    let expected = event_file("/sys/kernel/tracing/events/sched/sched_process_exec/id");
    assert!(tracefs_lifecycle_failure(&expected, "sched_process_exec").is_some());

    let unexpected = event_file("/tmp/not-tracefs/id");
    assert!(tracefs_lifecycle_failure(&unexpected, "sched_process_exec").is_none());

    let malformed_id = event_file("/sys/kernel/tracing/events/sched/sched_process_exec/id.bak");
    assert!(tracefs_lifecycle_failure(&malformed_id, "sched_process_exec").is_none());

    assert!(expected_tracefs_id_path(
        "task_newtask",
        "/sys/kernel/debug/tracing/events/task/task_newtask/id"
    ));
    assert!(!expected_tracefs_id_path(
        "task_newtask",
        "/sys/kernel/tracing/events/sched/task_newtask/id"
    ));
}

#[test]
fn unsupported_environment_context_preserves_program_error() {
    let error = unsupported_environment_context("tracefs not found");

    assert!(error.contains(UNSUPPORTED_ENV_HINT));
    assert!(error.contains("tracefs not found"));
}

#[test]
fn owned_run_refuses_tracefs_lifecycle_loss_with_actionable_remediation() {
    let outcome = attach_lifecycle(true, |_| Err(tracefs_missing()), |_| Ok(()));
    let LifecycleStep::Failed(rendered) = outcome else {
        panic!("an owned run does not degrade")
    };

    assert!(rendered.contains("owned run"));
    assert!(rendered.contains("tracefs"));
    assert!(rendered.contains("root"));
    assert!(rendered.contains("gid="));
    assert!(rendered.contains("0750"));
    assert!(rendered.contains("tracefs not found"));
}

#[test]
fn non_tracefs_lifecycle_error_stays_fail_closed() {
    let outcome = attach_lifecycle(
        false,
        |_| {
            Err(AttachFault {
                message: "Operation not permitted".to_owned(),
                cause: FaultCause::Other,
            })
        },
        |_| Ok(()),
    );
    let LifecycleStep::Failed(rendered) = outcome else {
        panic!("another error is fatal")
    };

    assert!(rendered.contains("Operation not permitted"));
}

#[test]
fn dynamic_export_snapshot_is_exact_and_deduplicates_the_link_pair() {
    let context = LoaderContextId::from_case_id(0);
    let other = LoaderContextId::from_case_id(1);
    let exact = DynamicExportIdentity {
        object: PinnedObjectId(7),
        file_offset: 0x10,
        cookie: 3,
        abi: HookAbi::FunctionList,
    };
    let different = DynamicExportIdentity {
        file_offset: 0x20,
        ..exact
    };
    let links = vec![
        (context, Some(exact)),
        (context, Some(exact)),
        (context, Some(different)),
        (other, Some(exact)),
        (context, None),
    ];

    let snapshot = dynamic_export_snapshot_with(&links, context);

    assert_eq!(snapshot, [exact, different]);
}

#[test]
fn discovery_counter_snapshots_are_absolute_and_regressions_fail_closed() {
    let cells = |cells: [[u64; 2]; 5]| -> Vec<Result<Vec<u64>, String>> {
        cells.iter().map(|cell| Ok(cell.to_vec())).collect()
    };
    let first = counter_snapshot_with(&cells([[1, 2], [3, 4], [5, 6], [7, 8], [9, 10]])).unwrap();
    assert_eq!(first.ring_loss, 3);
    assert_eq!(first.export_state_failures, 7);
    assert_eq!(first.export_bounded_read_failures, 11);
    assert_eq!(first.loader_hits, 15);
    assert_eq!(first.loader_state_read_failures, 19);

    let mut retained = CounterSnapshot::default();
    assert!(retained.replace_with(first));
    assert_eq!(retained, first);
    let next = counter_snapshot_with(&cells([[2, 2], [4, 4], [6, 6], [8, 8], [10, 10]])).unwrap();
    assert!(retained.replace_with(next));
    assert_eq!(
        retained.loader_hits, 16,
        "absolute values are replaced, not added"
    );

    let decreased = CounterSnapshot {
        ring_loss: next.ring_loss - 1,
        ..next
    };
    assert!(!retained.replace_with(decreased));
    assert_eq!(
        retained, next,
        "a regressing cell retains the prior authority"
    );
}

/// Attaches to slots: return probes first, then entry probes in the order that is worked out.
fn attach_targets(
    slots: &Vec<Slot>,
    policy: CapturePolicy,
    mut attach: impl FnMut(&'static str, &Slot) -> Result<(), String>,
    mut now: impl FnMut(&Slot) -> Option<u64>,
) -> AttachOutcome {
    let exits: Vec<Result<(), String>> = slots
        .iter()
        .map(|slot| attach("p11_return", slot))
        .collect();
    let mut entries = Vec::new();
    for at in entry_order(slots, policy, &exits) {
        let slot = &slots[at];
        entries.push(
            attach(entry_program(&slot.semantics, policy), slot).map(|()| now(slot)),
        );
    }
    attach_outcome(slots, policy, &exits, &entries)
}

fn slots_of(list: &[u32]) -> BTreeSet<u32> {
    list.iter().copied().collect()
}

#[test]
fn return_failure_suppresses_its_entry_without_blocking_another_slot() {
    let slots = vec![test_slot(0), test_slot(1)];
    let mut attempted = Vec::new();
    let outcome = attach_targets(
        &slots,
        CapturePolicy::Allowlisted,
        |program, slot| {
            attempted.push((program, slot.index));
            if program == "p11_return" && slot.index == 0 {
                return Err("injected return failure".to_owned());
            }
            Ok(())
        },
        |_| Some(10),
    );

    assert_eq!(outcome.exits, slots_of(&[1]));
    assert_eq!(
        outcome.entries,
        slots_of(&[1]),
        "slot 1 gets its entry/return pair"
    );
    assert_eq!(outcome.failures.len(), 1);
    assert_eq!(outcome.failures[0].0, 0);
    assert_eq!(outcome.completed, [(1, Some(10))]);
    assert_eq!(
        attempted,
        [("p11_return", 0), ("p11_return", 1), ("p11_entry", 1),]
    );
}

#[test]
fn entry_failure_records_only_the_successful_return_endpoint() {
    let outcome = attach_targets(
        &vec![test_slot(0)],
        CapturePolicy::Allowlisted,
        |program, _| {
            if program == "p11_entry" {
                return Err("injected entry failure".to_owned());
            }
            Ok(())
        },
        |_| Some(10),
    );

    assert_eq!(outcome.exits, slots_of(&[0]));
    assert!(outcome.entries.is_empty());
    assert_eq!(outcome.failures.len(), 1);
    assert!(outcome.completed.is_empty());
}

#[test]
fn static_slot_completion_is_timestamped_before_later_slot_work() {
    let slots = vec![test_slot(0), test_slot(1)];
    let events = std::cell::RefCell::new(Vec::new());
    let mut timestamp = 20u64;
    let outcome = attach_targets(
        &slots,
        CapturePolicy::Allowlisted,
        |program, slot| {
            events.borrow_mut().push((program, slot.index));
            Ok(())
        },
        |slot| {
            let now = timestamp;
            timestamp += 10;
            events.borrow_mut().push(("completed", slot.index));
            Some(now)
        },
    );

    assert_eq!(outcome.completed, [(0, Some(20)), (1, Some(30))]);
    assert_eq!(
        *events.borrow(),
        [
            ("p11_return", 0),
            ("p11_return", 1),
            ("p11_entry", 0),
            ("completed", 0),
            ("p11_entry", 1),
            ("completed", 1),
        ],
        "each completion clock is read immediately after its successful slot pair"
    );
}

#[test]
fn replacing_a_slot_does_not_double_count_successful_endpoint_history() {
    let mut history = session(CapturePolicy::Allowlisted);
    let attach = |slot: u32, at: u64| {
        attach_targets(
            &vec![test_slot(slot)],
            CapturePolicy::Allowlisted,
            |_, _| Ok(()),
            |_| Some(at),
        )
    };
    history.record_outcome(attach(0, 10));
    assert_eq!(history.attached_probes(), 2);

    history.record_outcome(attach(0, 20));
    assert_eq!(
        history.attached_probes(),
        2,
        "the same slot's return/entry endpoint identities are lifetime-deduplicated"
    );

    history.record_outcome(attach(1, 30));
    assert_eq!(history.attached_probes(), 4);
}

#[test]
fn terminal_detach_orders_every_static_and_dynamic_link_and_keeps_going_after_error() {
    let safe = producer_order(CapturePolicy::Allowlisted.uses_unsafe_decoders(), false);
    assert_eq!(
        safe,
        [
            ProducerProgram::UProbe("p11_entry"),
            ProducerProgram::UProbe("p11_return"),
        ]
    );

    let aggregate = producer_order(CapturePolicy::AggregateOnly.uses_unsafe_decoders(), false);
    assert_eq!(aggregate, safe);

    let unsafe_cgroup = producer_order(
        CapturePolicy::UnsafeUnvalidatedMetadata.uses_unsafe_decoders(),
        true,
    );
    assert_eq!(
        unsafe_cgroup,
        [
            ProducerProgram::UProbe("p11_entry"),
            ProducerProgram::UProbe("p11_entry_template"),
            ProducerProgram::UProbe("p11_entry_template_types"),
            ProducerProgram::UProbe("p11_entry_template_pair"),
            ProducerProgram::TracePoint("task_newtask"),
            ProducerProgram::UProbe("p11_return"),
        ]
    );
    assert_eq!(
        producer_order(true, false),
        [
            ProducerProgram::UProbe("p11_entry"),
            ProducerProgram::UProbe("p11_entry_template"),
            ProducerProgram::UProbe("p11_entry_template_types"),
            ProducerProgram::UProbe("p11_entry_template_pair"),
            ProducerProgram::UProbe("p11_return"),
        ]
    );

    let links = vec![
        ProducerProgram::UProbe("p11_return"),
        ProducerProgram::UProbe("p11_entry"),
        ProducerProgram::UProbe("p11_entry"),
        ProducerProgram::UProbe("p11_return"),
    ];
    assert_eq!(
        detach_order(&links),
        [1, 2, 0, 3],
        "both dynamic links are attempted after one fails"
    );
    let mut owner = session(CapturePolicy::Allowlisted);
    let error = owner
        .record_detached(&vec![
            Err("injected detach failure".to_owned()),
            Ok(()),
            Ok(()),
            Ok(()),
        ])
        .unwrap_err();
    assert_eq!(error, "injected detach failure");
    assert_eq!(owner.detach_failures().len(), 1);
}

const SIZES: ObjectSizes = ObjectSizes {
    max_descriptors: 4096,
    max_mech_shapes: 512,
    discovery_bytes: 65536,
    discovery_counter_cells: 8,
};

#[test]
fn immutable_map_inventory_covers_every_authorization_input() {
    let base: Vec<&str> = base_policy_maps(&SIZES).iter().map(|(name, _)| *name).collect();
    assert_eq!(
        base,
        [
            "CONFIG",
            "PID_FILTER",
            "CGROUP_FILTER",
            "DESCRIPTORS",
            "ASYNC_FUNCTIONS",
            "MECH_SHAPE",
            "TAIL_CALLS",
        ]
    );
    let feature: Vec<&str> = feature_policy_maps().iter().map(|(name, _)| *name).collect();
    assert_eq!(feature, ["ATTR_BOOL_BITS"]);
    assert!(!is_frozen_early("TAIL_CALLS"));
}

#[test]
fn map_freeze_syscall_attribute_is_only_the_u32_fd() {
    let attribute = map_freeze_attribute(7);
    assert_eq!(std::mem::size_of_val(&attribute), 4);
    assert_eq!(std::mem::align_of_val(&attribute), 4);
    assert_eq!(attribute[0], 7);
}

#[test]
fn program_array_readback_distinguishes_empty_from_failure() {
    assert_eq!(
        program_array_lookup_result("TAIL_CALLS", 0, 37, Ok(())).unwrap(),
        Some(37)
    );
    assert_eq!(
        program_array_lookup_result("TAIL_CALLS", 0, 0, Err((true, "absent".to_owned()))).unwrap(),
        None
    );

    let rendered = program_array_lookup_result(
        "TAIL_CALLS",
        0,
        0,
        Err((false, "Operation not permitted".to_owned())),
    )
    .unwrap_err();
    assert!(rendered.contains("reading back TAIL_CALLS[0]"));
    assert!(rendered.contains("Operation not permitted"));
}

#[test]
fn map_element_lookup_attribute_matches_the_kernel_abi() {
    let attribute = map_element_attribute(3, 5, 7, 9);
    assert_eq!(std::mem::size_of_val(&attribute), 32);
    assert_eq!(std::mem::align_of_val(&attribute), 8);
    assert_eq!(attribute[0] as u32, 3);
    assert_eq!(attribute[1], 5);
    assert_eq!(attribute[2], 7);
    assert_eq!(attribute[3], 9);
}

#[test]
fn safe_capture_entry_program_selection_never_uses_unsafe_templates() {
    assert_eq!(
        entry_program(&SlotSemantics::count_only(), CapturePolicy::Allowlisted),
        "p11_entry"
    );

    let mut template = SlotSemantics::count_only();
    template.template0_arg = 1;
    assert_eq!(
        entry_program(&template, CapturePolicy::UnsafeUnvalidatedMetadata),
        "p11_entry_template"
    );
    assert_eq!(
        entry_program(&template, CapturePolicy::Allowlisted),
        "p11_entry"
    );
    assert_eq!(
        entry_program(&template, CapturePolicy::AggregateOnly),
        "p11_entry"
    );

    let mut second_template = SlotSemantics::count_only();
    second_template.template0_arg = 2;
    second_template.template1_arg = 4;
    assert_eq!(
        entry_program(&second_template, CapturePolicy::UnsafeUnvalidatedMetadata),
        "p11_entry_template_pair"
    );

    let mut types_only = SlotSemantics::count_only();
    types_only.template0_arg = 2;
    types_only.semantic_flags = TEMPLATE0_TYPES_ONLY;
    assert_eq!(
        entry_program(&types_only, CapturePolicy::UnsafeUnvalidatedMetadata),
        "p11_entry_template_types"
    );

    let mut async_call = SlotSemantics::count_only();
    async_call.async_name_arg = 1;
    assert_ne!(async_call.async_name_arg, ARG_NONE);
    assert_eq!(
        entry_program(&async_call, CapturePolicy::UnsafeUnvalidatedMetadata),
        "p11_entry"
    );
}

#[test]
fn safe_capture_exact_async_catalog_preserves_ids_and_rejects_unknown_names() {
    let catalog = standard_async_catalog().unwrap();

    assert_eq!(catalog.len(), 104);
    assert_eq!(catalog.get("C_Encrypt"), Some(30));
    assert_eq!(catalog.get("C_EncryptX"), None);
}

#[test]
fn pause_capability_is_validated_into_one_private_full_key() {
    let capability = OwnedPauseGeneration {
        tgid: 42,
        generation: 99,
    };
    assert!(pause_key_for(&Scope::Pid(41), Some(capability)).is_err());
    let cgroup = Scope::Cgroup(5, "/sys/fs/cgroup/x".to_owned());
    assert!(pause_key_for(&cgroup, Some(capability)).is_err());

    let key = pause_key_for(&Scope::Pid(42), Some(capability))
        .unwrap()
        .unwrap();
    assert_eq!(key.tgid, 42);
    assert_eq!(key.pad, 0);
    assert_eq!(key.generation_token, 99);
    assert!(pause_key_for(&Scope::Pid(42), None).unwrap().is_none());
}

#[test]
fn a_policy_that_is_refused_says_why() {
    for (mode, compiled) in [("profile", false), ("metrics", true), ("discover", true)] {
        let message = CapturePolicy::from_cli(mode, true, compiled).unwrap_err();
        assert!(!message.is_empty(), "{mode}");
    }
}

#[test]
fn offsets_are_packed_without_overlap() {
    assert_eq!(pack_task_newtask_offsets(32, 56), (56 << 16) | 32);
    assert_eq!(pack_task_newtask_offsets(u16::MAX, 0), 0xffff);
    assert_eq!(pack_task_newtask_offsets(0, u16::MAX), 0xffff_0000);
}

#[test]
fn cookies_and_programs_of_probes() {
    assert_eq!(attach_cookie(7, 3), (3 << 32) | 7);
    assert_eq!(
        export_programs(HookAbi::FunctionList),
        ("function_list_entry", "function_list_return")
    );
    assert_eq!(
        export_programs(HookAbi::InterfaceList),
        ("interface_list_entry", "interface_list_return")
    );
    assert_eq!(
        export_programs(HookAbi::Interface),
        ("interface_entry", "interface_return")
    );
}

#[test]
fn a_catalog_refuses_what_cannot_be_a_key() {
    assert_eq!(standard_function_names().len(), 104);
    assert_eq!(standard_function_names()[0], "C_Initialize");
    assert_eq!(
        async_catalog(vec!["C_Sign", "C_Verify", "C_Sign"]).unwrap_err(),
        "duplicate standard function name C_Sign at ids 0 and 2"
    );
    assert_eq!(
        async_catalog(vec![""]).unwrap_err(),
        "invalid standard function name "
    );
    assert_eq!(
        async_catalog(vec!["C_0123456789012345678901234567890123456789"]).unwrap_err(),
        "standard function name is too long: C_0123456789012345678901234567890123456789"
    );
}

#[test]
fn the_embedded_mechanisms_load() {
    let registry = mechanism_registry().unwrap();
    assert_eq!(registry.param_shape(0x1087), Some("gcm"));
    assert_eq!(registry.param_shape(0x1081), None);
    assert!(registry.is_parameterless(0x1081));
    assert!(registry.registered_mechanisms().contains(&0x1081));
    let again = mechanism_registry().unwrap();
    assert_eq!(
        again.registered_mechanisms(),
        registry.registered_mechanisms()
    );
    assert_eq!(again.param_shapes_view(), registry.param_shapes_view());
    assert!(matches!(
        registry_loaded(Err("bad".to_owned())),
        Err(message) if message == "loading mechanism registry: bad"
    ));
}

#[test]
fn a_counter_that_cannot_be_read_leaves_no_snapshot() {
    let mut cells: Vec<Result<Vec<u64>, String>> = vec![Ok(vec![u64::MAX, 1]); 5];
    assert_eq!(
        counter_snapshot_with(&cells).unwrap().ring_loss,
        u64::MAX,
        "cells saturate"
    );
    cells[2] = Err("denied".to_owned());
    assert!(counter_snapshot_with(&cells).unwrap_err().contains("denied"));
}

#[test]
fn maps_must_be_exact() {
    let (name, expected) = base_policy_maps(&SIZES)[0];
    assert!(validate_map_metadata(name, "policy", &MapSeen::Seen(expected), &expected).is_ok());
    assert_eq!(
        validate_map_metadata(name, "policy", &MapSeen::Missing, &expected).unwrap_err(),
        "CONFIG map"
    );
    assert_eq!(
        validate_map_metadata(
            name,
            "policy",
            &MapSeen::Unexpected("Queue".to_owned()),
            &expected
        )
        .unwrap_err(),
        "refusing unexpected CONFIG policy map variant Queue"
    );
    assert_eq!(
        validate_map_metadata(
            name,
            "policy",
            &MapSeen::Unreadable("EPERM".to_owned()),
            &expected
        )
        .unwrap_err(),
        "reading CONFIG map info: EPERM"
    );
    let mut other = expected;
    other.max_entries = 3;
    assert_eq!(
        validate_map_metadata(name, "policy", &MapSeen::Seen(other), &expected).unwrap_err(),
        "CONFIG metadata ExactMapMetadata { map_type: Array, key_size: 4, value_size: 8, max_entries: 3, flags: 128 } differs from exact expected ExactMapMetadata { map_type: Array, key_size: 4, value_size: 8, max_entries: 2, flags: 128 }"
    );
    let runtime: Vec<MapSeen> = runtime_map_inventory(&SIZES)
        .iter()
        .map(|(_, metadata)| MapSeen::Seen(*metadata))
        .collect();
    assert!(validate_runtime_maps(&SIZES, &runtime).is_ok());
    let policy: Vec<MapSeen> = base_policy_maps(&SIZES)
        .iter()
        .map(|(_, metadata)| MapSeen::Seen(*metadata))
        .collect();
    let feature = MapSeen::Seen(feature_policy_maps()[0].1);
    assert!(validate_policy_maps(&SIZES, &policy, &MapSeen::Missing, false).is_ok());
    assert!(validate_policy_maps(&SIZES, &policy, &feature, true).is_ok());
    assert_eq!(
        validate_policy_maps(&SIZES, &policy, &feature, false).unwrap_err(),
        "ATTR_BOOL_BITS must be absent from the default eBPF object"
    );
}

#[test]
fn programs_must_be_exactly_the_expected_ones() {
    let names: Vec<String> = expected_programs(false)
        .iter()
        .map(|name| name.to_string())
        .collect();
    assert!(validate_program_inventory(&names, false).is_ok());
    let error = validate_program_inventory(&names, true).unwrap_err();
    assert!(error.starts_with("eBPF program inventory {\"dl_debug_state\", "), "{error}");
    assert!(is_tracepoint_program("sched_process_exec"));
    assert!(!is_tracepoint_program("p11_entry"));
}

#[test]
fn tail_calls_must_read_back() {
    assert!(validate_tail_calls(Some(4), 4, None, None).is_ok());
    assert_eq!(
        validate_tail_calls(None, 4, None, None).unwrap_err(),
        "TAIL_CALLS worker exact readback id None differs from loaded program 4"
    );
    assert_eq!(
        validate_tail_calls(Some(4), 4, Some(9), None).unwrap_err(),
        "TAIL_CALLS template-second exact readback id Some(9) differs from expected None"
    );
}

#[test]
fn a_start_freezes_before_it_attaches() {
    let scope = Scope::Cgroup(1, "/x".to_owned());
    let mut start = Startup::new(&scope, CapturePolicy::Allowlisted, false).unwrap();
    let mut steps = Vec::new();
    while start.step != StartStep::Started {
        steps.push(start.step);
        start.settle(Ok(())).unwrap();
    }
    let at = |step: StartStep| steps.iter().position(|other| *other == step).unwrap();
    assert!(at(StartStep::ValidatePrograms) < at(StartStep::PublishScope));
    assert!(at(StartStep::FreezePublished) < at(StartStep::AttachProcessCreation));
    assert!(at(StartStep::PublishTailCalls) < at(StartStep::AttachProcessCreation));
    assert!(at(StartStep::AttachProcessCreation) < at(StartStep::AttachLifecycle));
}

#[test]
fn a_start_goes_on_without_the_creation_of_processes() {
    let scope = Scope::Cgroup(1, "/x".to_owned());
    let mut start = Startup::new(&scope, CapturePolicy::Allowlisted, false).unwrap();
    let mut attached = false;
    while start.step != StartStep::Started {
        attached = attached || start.step == StartStep::AttachProcessCreation;
        let result = if start.step == StartStep::PublishTaskOffsets {
            Err(StepFault {
                fault: tracefs_missing(),
                unavailable_file: Some("no tracefs".to_owned()),
                missing: false,
            })
        } else {
            Ok(())
        };
        start.settle(result).unwrap();
    }
    assert!(!attached);
    assert_eq!(
        start.creation_unavailable.as_deref(),
        Some("live process-creation tracking unavailable: no tracefs")
    );

    let mut start = Startup::new(&Scope::Pid(1), CapturePolicy::Allowlisted, false).unwrap();
    assert_eq!(
        start
            .settle(Err(StepFault {
                fault: AttachFault {
                    message: "no BTF".to_owned(),
                    cause: FaultCause::Other,
                },
                unavailable_file: None,
                missing: false,
            }))
            .unwrap_err(),
        "loading BPF object: no BTF"
    );
    assert!(
        Startup::new(
            &Scope::Pid(1),
            CapturePolicy::UnsafeUnvalidatedMetadata,
            false
        )
        .is_err()
    );
}

#[test]
fn what_the_object_lacks_is_named_without_the_step() {
    for (step, missing, expected) in [
        (StartStep::FreezeDescriptors, true, "DESCRIPTORS map"),
        (StartStep::FreezeDescriptors, false, "freezing DESCRIPTORS: DESCRIPTORS map"),
        (StartStep::AttachProcessCreation, true, "DESCRIPTORS map"),
        (
            StartStep::AttachProcessCreation,
            false,
            "attaching task_newtask: DESCRIPTORS map",
        ),
    ] {
        let scope = Scope::Cgroup(1, "/x".to_owned());
        let mut start = Startup::new(&scope, CapturePolicy::Allowlisted, false).unwrap();
        while start.step != step {
            start.settle(Ok(())).unwrap();
        }
        assert_eq!(
            start
                .settle(Err(StepFault {
                    fault: AttachFault {
                        message: "DESCRIPTORS map".to_owned(),
                        cause: FaultCause::Other,
                    },
                    unavailable_file: None,
                    missing,
                }))
                .unwrap_err(),
            expected
        );
    }
}

#[test]
fn a_bad_offset_names_its_cause() {
    let line = |offset: &str| format!("field:pid_t pid; offset:{offset}; size:4; signed:1;");
    let why = |offset: &str| offset.parse::<usize>().unwrap_err().to_string();
    for offset in ["x", "-1", "99999999999999999999999"] {
        assert_eq!(
            parse_task_newtask_field(&line(offset), "pid", 4, "1"),
            Err(format!("invalid offset for pid: {}", why(offset)))
        );
    }
    assert_eq!(
        parse_task_newtask_field(&line("70000"), "pid", 4, "1"),
        Err(format!(
            "offset outside packed form for pid: {}",
            u16::try_from(70_000usize).unwrap_err()
        ))
    );
    assert_eq!(
        parse_task_newtask_field(&line("65535"), "pid", 4, "1"),
        Ok(Some(65_535))
    );
}

#[test]
fn a_map_of_another_kind_is_named() {
    let (name, expected) = base_policy_maps(&SIZES)[0];
    let mut other = expected;
    other.map_type = MapType::LruPerCpuHash;
    let message =
        validate_map_metadata(name, "policy", &MapSeen::Seen(other), &expected).unwrap_err();
    assert!(
        message.starts_with("CONFIG metadata ExactMapMetadata { map_type: LruPerCpuHash, "),
        "{message}"
    );
    for kind in [MapType::Array, MapType::Unspecified, MapType::CgrpStorage, MapType::Arena] {
        other.map_type = kind;
        other.flags = 1;
        let message =
            validate_map_metadata(name, "policy", &MapSeen::Seen(other), &expected).unwrap_err();
        assert!(message.contains(&format!("{other:?}")), "{message}");
    }
    assert_eq!(
        validate_map_metadata(
            name,
            "policy",
            &MapSeen::Unnamed("invalid map type 99".to_owned()),
            &expected
        )
        .unwrap_err(),
        "invalid map type 99"
    );
}

#[test]
fn a_field_of_any_size_is_read() {
    let line = |size: &str| format!("field:pid_t pid; offset:8; size:{size}; signed:1;");
    assert_eq!(parse_task_newtask_field(&line("4"), "pid", 4, "1"), Ok(Some(8)));
    assert_eq!(parse_task_newtask_field(&line("16"), "pid", 16, "1"), Ok(Some(8)));
    let most = u64::MAX.to_string();
    assert_eq!(
        parse_task_newtask_field(&line(&most), "pid", u64::MAX, "1"),
        Err("field offset overflows tracepoint record".to_owned())
    );
}

#[test]
fn probes_are_limited_to_a_process_that_exists() {
    assert_eq!(uprobe_process(&Scope::Pid(7)), Ok(Some(7)));
    assert_eq!(
        uprobe_process(&Scope::Pid(0)),
        Err("pid must be non-zero".to_owned())
    );
    assert_eq!(
        uprobe_process(&Scope::Cgroup(1, "/x".to_owned())),
        Ok(None)
    );
}

#[test]
fn a_changed_object_is_refused() {
    assert!(refuse_changed(ChangeCheck::BeforeAttach, Ok(true)).is_ok());
    assert_eq!(
        refuse_changed(ChangeCheck::BeforeAttach, Ok(false)).unwrap_err(),
        "a pinned provider object changed before attach; refusing to observe changed bytes"
    );
    assert!(refuse_changed(ChangeCheck::BeforeLoader, Err("stat".to_owned())).is_err());
}

#[test]
fn arming_needs_the_same_generation() {
    let key = PauseKey {
        tgid: 42,
        pad: 0,
        generation_token: 99,
    };
    assert_eq!(may_arm(key, 99), Ok(ArmStep::Write));
    assert!(may_arm(key, 98).is_err());
    assert!(may_arm(
        PauseKey {
            generation_token: 0,
            ..key
        },
        0
    )
    .is_err());
    assert_eq!(arm_read_back(1), ArmStep::Armed);
    assert_eq!(arm_read_back(2), ArmStep::Withdraw);
}

#[test]
fn a_session_knows_its_links() {
    let context = LoaderContextId::from_case_id(3);
    let mut session = session(CapturePolicy::Allowlisted);
    session.register_probe("p11_return", 0, 10);
    session.register_probe("p11_entry", 0, 11);
    assert_eq!(
        session.check_targets(&vec![test_slot(0)]).unwrap_err(),
        "slot 0 already has an owned probe link"
    );
    assert_eq!(
        session
            .check_targets(&vec![test_slot(1), test_slot(1)])
            .unwrap_err(),
        "slot 1 was requested for attachment twice"
    );
    assert!(session.check_targets(&vec![test_slot(1)]).is_ok());
    assert!(session.dynamic_exports(context).is_empty());
    let taken = session.take_links(&Selection::Slots(vec![0]));
    assert_eq!(
        taken,
        [
            RegisteredLink::UProbe {
                program: "p11_entry",
                slot: 0,
                id: 11
            },
            RegisteredLink::UProbe {
                program: "p11_return",
                slot: 0,
                id: 10
            },
        ]
    );
    assert!(session.check_targets(&vec![test_slot(0)]).is_ok());
    session.record_replacement_failure(&vec![test_slot(0)], "gone");
    assert_eq!(
        session.attach_failures(),
        &vec![(0, "replacement attach: gone".to_owned())]
    );
    assert_eq!(
        replacement_losses(&vec![test_slot(0), test_slot(1)], &vec![1, 5]),
        [1]
    );
}

const CONTEXT: LoaderContextId = LoaderContextId(3);
const TARGET: (PinnedObjectId, u64) = (PinnedObjectId(9), 0x1f0);

fn path() -> Result<String, String> {
    Ok("/proc/self/fd/7".to_owned())
}

#[test]
fn a_loader_is_probed_once() {
    let mut session = session(CapturePolicy::Allowlisted);
    let plan = |session: &Session, pid, unchanged, path, program| {
        session.plan_loader(CONTEXT, pid, TARGET, 5, unchanged, path, program)
    };
    assert_eq!(
        plan(&session, 42, Ok(true), path(), ProgramSeen::Probe).unwrap(),
        Some("/proc/self/fd/7".to_owned())
    );
    assert!(session.settle_loader(CONTEXT, TARGET, 5, Ok(1)).unwrap());
    assert!(session.dynamic_per_offset_attached());
    assert_eq!(
        plan(&session, 42, Ok(true), path(), ProgramSeen::Probe).unwrap(),
        None
    );
    assert!(session.has_dynamic_link(CONTEXT, "dl_debug_state", TARGET.0, TARGET.1, 5));
}

#[test]
fn a_loader_that_is_not_probed_says_why() {
    let mut session = session(CapturePolicy::Allowlisted);
    let no = |text: &str| text.to_owned();
    let refusals = [
        (42, Err(no("gone")), path(), ProgramSeen::Probe, "gone"),
        (
            42,
            Ok(false),
            path(),
            ProgramSeen::Probe,
            "a pinned loader object changed before dynamic attach",
        ),
        (
            42,
            Ok(true),
            Err(no("not pinned")),
            ProgramSeen::Probe,
            "not pinned",
        ),
        (
            42,
            Ok(true),
            path(),
            ProgramSeen::Missing,
            "program dl_debug_state missing from object",
        ),
        (
            42,
            Ok(true),
            path(),
            ProgramSeen::OtherType(no("other")),
            "other",
        ),
        (
            0,
            Ok(true),
            path(),
            ProgramSeen::Probe,
            "dynamic loader PID must be non-zero",
        ),
    ];
    for (pid, unchanged, path, program, text) in refusals {
        let failure = session
            .plan_loader(CONTEXT, pid, TARGET, 5, unchanged, path, program)
            .unwrap_err();
        assert_eq!(failure.render(), text);
    }
    let failure = session
        .settle_loader(CONTEXT, TARGET, 5, Err(no("refused")))
        .unwrap_err();
    assert!(matches!(
        &failure,
        DynamicLoaderAttachFailure::KernelUnavailable(message)
            if message == "dl_debug_state at object PinnedObjectId(9)+0x1f0: refused"
    ));
    assert!(!session.dynamic_per_offset_attached());
    assert!(session.links.is_empty());
}

#[test]
fn a_symbol_is_probed_on_both_sides_or_not_at_all() {
    let mut session = session(CapturePolicy::Allowlisted);
    let abi = HookAbi::FunctionList;
    let plan = |session: &Session, pid| {
        session.plan_export(CONTEXT, pid, TARGET, 5, abi, Ok(true), path())
    };
    assert!(plan(&session, 42).unwrap().is_some());
    assert_eq!(
        plan(&session, 0).unwrap_err(),
        "dynamic export PID must be non-zero"
    );
    assert_eq!(
        session
            .settle_return(TARGET, abi, ProbeSeen::Failed("no".to_owned()))
            .unwrap_err(),
        "function_list_return at object PinnedObjectId(9)+0x1f0: no"
    );
    assert_eq!(
        session
            .settle_return(TARGET, abi, ProbeSeen::Attached(4))
            .unwrap(),
        4
    );
    let step = session.settle_entry(
        CONTEXT,
        TARGET,
        5,
        abi,
        4,
        ProbeSeen::Failed("full".to_owned()),
    );
    let EntryStep::DetachReturn(message) = step else {
        panic!("the return probe is to be detached")
    };
    assert_eq!(
        message,
        "function_list_entry at object PinnedObjectId(9)+0x1f0: full"
    );
    assert_eq!(
        session.settle_partial(
            abi,
            message.clone(),
            PartialDetach::Failed("busy".to_owned())
        ),
        message
    );
    assert_eq!(
        session.detach_failures,
        ["detaching partial function_list_return: busy"]
    );
    assert_eq!(
        session.settle_partial(
            abi,
            message,
            PartialDetach::NoProgram("missing".to_owned())
        ),
        "missing"
    );
    assert!(session.links.is_empty());
    assert!(session.dynamic_per_offset_attached(), "one probe was attached");

    assert!(matches!(
        session.settle_entry(CONTEXT, TARGET, 5, abi, 4, ProbeSeen::Attached(6)),
        EntryStep::Done
    ));
    assert_eq!(session.links.len(), 2);
    assert_eq!(plan(&session, 42).unwrap(), None);
    assert_eq!(session.dynamic_exports(CONTEXT).len(), 1);
}

#[test]
fn only_active_slots_without_a_link_are_pending() {
    let mut session = session(CapturePolicy::Allowlisted);
    session.register_probe("p11_return", 1, 8);
    let slots = vec![test_slot(0), test_slot(1), test_slot(2), test_slot(3)];
    assert!(session.has_slot_link(1));
    assert!(!session.has_slot_link(0));
    assert_eq!(
        session.pending_targets(&slots, &vec![true, true, false, true]),
        [0, 3]
    );
}

#[test]
fn a_session_on_trial_says_what_it_can_track() {
    let session = Session::new(
        CapturePolicy::Allowlisted,
        None,
        None,
        Some("no tracefs".to_owned()),
        Vec::new(),
    );
    assert_eq!(session.lifecycle_tracking_unavailable(), None);
    assert_eq!(
        session.process_creation_tracking_unavailable(),
        Some(&"no tracefs".to_owned())
    );
    let preflight = session.preflight();
    assert!(preflight.lifecycle);
    assert!(!preflight.scope);
}

#[test]
fn what_is_published_must_read_back() {
    assert_eq!(attribute_step(true, false), Ok(AttributeStep::Publish));
    assert_eq!(attribute_step(false, false), Ok(AttributeStep::Nothing));
    assert_eq!(
        attribute_step(false, true).unwrap_err(),
        "ATTR_BOOL_BITS is missing from the diagnostic eBPF object"
    );
    let masks = attribute_masks(&vec![(0x102, 0), (0x103, 31)], true);
    assert_eq!(masks, [(0x102, 1), (0x103, 1 << 31)]);
    assert!(attribute_masks(&vec![(0x102, 0)], false).is_empty());
    assert!(check_attributes(&vec![(0x103, 1 << 31), (0x102, 1)], &masks).is_ok());
    assert_eq!(
        check_attributes(&vec![(0x102, 1)], &masks).unwrap_err(),
        "ATTR_BOOL_BITS exact readback differs from the selected policy"
    );
    let descriptor = SlotSemantics::count_only();
    assert!(check_descriptors(&vec![descriptor], &vec![descriptor]).is_ok());
    let other = SlotSemantics {
        template0_arg: 2,
        ..descriptor
    };
    for actual in [vec![other], Vec::new(), vec![descriptor, descriptor]] {
        assert_eq!(
            check_descriptors(&actual, &vec![descriptor]).unwrap_err(),
            "DESCRIPTORS exact readback differs from the fixed inventory"
        );
    }
    assert!(check_offsets(7, 7).is_ok());
    assert_eq!(
        check_offsets(7, 8).unwrap_err(),
        "CONFIG task_newtask offsets exact readback differs from parsed tracefs format"
    );
}

#[test]
fn functions_are_published_under_their_keys() {
    let catalog = standard_async_catalog().unwrap();
    let pairs = catalog.pairs();
    assert_eq!(pairs.len(), catalog.len());
    let mut key = b"C_Initialize".to_vec();
    key.resize(32, 0);
    assert_eq!(make_function_key("C_Initialize"), key);
    assert_eq!(pairs[0], (key, 0));
    let mut reversed = pairs.clone();
    reversed.reverse();
    assert!(check_functions(&reversed, &pairs).is_ok());
    reversed[0].1 += 1;
    assert_eq!(
        check_functions(&reversed, &pairs).unwrap_err(),
        "ASYNC_FUNCTIONS exact readback differs from the standard catalog"
    );
}
