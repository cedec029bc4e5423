//! Discovery by a helper: what is trusted of it, and when it may run.

use p11scope::discover::closure::{
    check_provenance_identity, check_provenance_module, check_provenance_path, closure_keys, same_identity,
    validate_hardened_executable_maps, ClosureLeases, ProvenanceObject, ReportedStep,
};
use p11scope::discover::command::{
    check_alias, check_sent, helper_command, helper_inheritance, read_control, settle_end,
    GroupKill, HelperDescriptors, LeaderKill, Received,
};
use p11scope::discover::helper::{
    append_bounded, check_bounded, check_end, check_schema, expected_owner, find_helper,
    forwarded_exit_code, helper_credentials, is_privileged, oracle_step, poll_timeout,
    split_arguments, target_id, validate_helper_metadata, ArgFault, Candidate, HelperMetadata,
    OracleStep,
};
use p11scope::discover::inheritance::{
    ordered_descriptors, pin_inheritance, still_leads, still_refers, FdIdentity, FdSeen,
    InheritedFd,
};
use p11scope::discover::protocol::{
    expected_descriptors, release_packet, Authority, Barrier, BreakAt, ControlPacket, DeadlineAt,
    Happened, HardenedPass, HardenedProtocolState, PassStep, Sighting,
};
use p11scope::discover::stabilize::{finish_hardened, StabilizeStep, Stabilizer};
use p11scope::discovery::identity::pinned::{IdentityKind, ObjectIdentity};
use p11scope::maps::{Device, ObjectKey};

fn key(inode: u64) -> ObjectKey {
    ObjectKey {
        device: Device { major: 8, minor: 1 },
        inode,
    }
}

#[test]
fn oracle_helper_metadata_enforces_owner_mode_and_file_type() {
    let metadata = HelperMetadata {
        is_file: true,
        uid: 1000,
        mode: 0o100755,
    };

    validate_helper_metadata(&metadata, 1000).unwrap();
    assert!(validate_helper_metadata(&metadata, 1001)
        .unwrap_err()
        .contains("owner"));

    let writable = HelperMetadata {
        mode: 0o100775,
        ..metadata
    };
    assert!(validate_helper_metadata(&writable, 1000)
        .unwrap_err()
        .contains("writable"));
    let directory = HelperMetadata {
        is_file: false,
        ..metadata
    };
    assert!(validate_helper_metadata(&directory, 1000)
        .unwrap_err()
        .contains("regular file"));
}

#[test]
fn oracle_output_is_bounded_before_json_parsing() {
    let mut output = vec![b'x'; 16];
    let error = append_bounded(&mut output, b"x", 16).unwrap_err();
    assert!(error.contains("16-byte limit"), "{error:#}");
    let mut exact = Vec::new();
    append_bounded(&mut exact, &[b'x'; 16], 16).unwrap();
    assert_eq!(exact.len(), 16);
}

#[test]
fn hardened_executable_maps_require_the_exact_pre_authorized_set() {
    let helper = key(11);
    let loader = key(12);
    let provider = key(13);
    let expected = vec![helper, loader];
    let exact = b"1000-2000 r-xp 00000000 08:01 11 /helper\n2000-3000 r-xp 00000000 08:01 12 /loader\n3000-4000 rw-p 00000000 00:00 0 [heap]\n";
    validate_hardened_executable_maps(exact, &expected, provider).unwrap();
    let repeated_authorized_inode = b"1000-2000 r-xp 00000000 08:01 11 /helper\n2000-3000 r-xp 00001000 08:01 11 /helper\n3000-4000 r-xp 00000000 08:01 12 /loader\n";
    validate_hardened_executable_maps(repeated_authorized_inode, &expected, provider).unwrap();

    for refused in [
        b"1000-2000 r-xp 00000000 08:01 11 /helper\n".as_slice(),
        b"1000-2000 r-xp 00000000 08:01 11 /helper\n2000-3000 r-xp 00000000 08:01 12 /loader\n3000-4000 r-xp 00000000 08:01 14 /extra\n",
        b"1000-2000 r-xp 00000000 08:01 11 /helper\n2000-3000 r-xp 00000000 08:01 12 /loader\n3000-4000 r-xp 00000000 08:01 13 /provider\n",
        b"not a maps line\n",
    ] {
        assert!(
            validate_hardened_executable_maps(refused, &expected, provider).is_err(),
            "accepted {refused:?}"
        );
    }
}

fn fd(inode: u64) -> FdIdentity {
    FdIdentity {
        device: 1,
        inode,
        kind: 0o100000,
    }
}

const MEMORY: FdIdentity = FdIdentity {
    device: 2,
    inode: 99,
    kind: 0o100000,
};

fn authority() -> Authority {
    Authority {
        loader: key(12),
        fds: expected_descriptors(&vec![
            (0, fd(1)),
            (1, fd(2)),
            (2, fd(1)),
            (7, fd(3)),
            (5, fd(4)),
        ]),
        executable: vec![key(11), key(12)],
        provider: key(13),
    }
}

const MAPS: &[u8] = b"1000-2000 r-xp 00000000 08:01 11 /helper\n2000-3000 r-xp 00000000 08:01 12 /loader\n";

fn sighting(fds: Vec<(i32, FdIdentity)>) -> Sighting {
    Sighting {
        exe: key(12),
        fds,
        memory: MEMORY,
        maps: MAPS.to_vec(),
    }
}

/// Brings a pass to its first turn at the helper.
fn started() -> HardenedPass {
    let mut pass = HardenedPass::new(1024);
    assert_eq!(pass.step, PassStep::CheckBreak(BreakAt::Start));
    pass.break_checked(Ok(false)).unwrap();
    assert_eq!(pass.step, PassStep::Spawn);
    pass.spawned(Ok(())).unwrap();
    assert_eq!(pass.step, PassStep::CheckDeadline(DeadlineAt::Spawned));
    pass.deadline_checked(false).unwrap();
    assert_eq!(pass.step, PassStep::Authorize);
    pass.authorized(9).unwrap();
    pass
}

/// Waits for the helper, which sent something.
fn control(pass: &mut HardenedPass, packet: ControlPacket) -> Result<(), String> {
    pass.break_checked(Ok(false))?;
    pass.drained(false);
    pass.polled(Happened {
        any: true,
        child: false,
        lease: false,
        control: true,
    })?;
    assert_eq!(pass.step, PassStep::Receive);
    pass.received(packet)
}

/// Takes the helper past a barrier, where what was seen of it is accepted.
fn barrier(pass: &mut HardenedPass, packet: &[u8], seen: &Sighting) -> Result<(), String> {
    control(pass, ControlPacket::Packet(packet.to_vec()))?;
    pass.break_checked(Ok(false))?;
    pass.inspected(&authority(), seen)?;
    pass.revalidated(Ok(()))?;
    pass.deadline_checked(false)?;
    pass.break_checked(Ok(false))?;
    pass.deadline_checked(false)?;
    pass.sent(Ok(()))
}

fn with_memory() -> Vec<(i32, FdIdentity)> {
    let mut fds = authority().fds;
    fds.push((11, MEMORY));
    fds
}

fn running() -> HardenedPass {
    let mut pass = started();
    barrier(&mut pass, b"PREPARED", &sighting(authority().fds)).unwrap();
    assert_eq!(pass.state, HardenedProtocolState::Ready);
    barrier(&mut pass, b"READY", &sighting(with_memory())).unwrap();
    assert_eq!(pass.state, HardenedProtocolState::Running);
    pass
}

#[test]
fn a_pass_completes_only_after_both_barriers() {
    let mut pass = running();
    pass.break_checked(Ok(false)).unwrap();
    pass.take_output(b"{}").unwrap();
    pass.drained(true);
    assert_eq!(pass.step, PassStep::Poll, "the helper has not ended");
    assert_eq!(pass.waits_for(), (true, false, true));
    pass.polled(Happened {
        any: true,
        child: true,
        lease: false,
        control: false,
    })
    .unwrap();
    pass.break_checked(Ok(false)).unwrap();
    pass.drained(true);
    assert_eq!(pass.step, PassStep::Reap(false));
    pass.reaped(check_end("hardened discovery oracle", Some(0), None))
        .unwrap();
    pass.deadline_checked(false).unwrap();
    assert_eq!(pass.step, PassStep::Parse);
    pass.parsed(check_schema("hardened discovery", "s", "s"))
        .unwrap();
    pass.break_checked(Ok(false)).unwrap();
    pass.revalidated(Ok(())).unwrap();
    pass.break_checked(Ok(false)).unwrap();
    pass.deadline_checked(false).unwrap();
    assert_eq!(pass.step, PassStep::Complete);
    assert_eq!(pass.output, b"{}");
    assert_eq!(release_packet(Barrier::Prepared), b"DROP");
    assert_eq!(release_packet(Barrier::Ready), b"GO");
}

#[test]
fn a_helper_may_hold_its_own_memory_when_it_is_ready() {
    assert_eq!(running().self_memory, Some(MEMORY));
}

#[test]
fn a_helper_with_another_descriptor_is_not_let_go() {
    let changed = "hardened discovery child authority changed before GO";
    let mut other = authority().fds;
    other.push((11, fd(77)));
    let mut two = with_memory();
    two.push((12, fd(77)));
    let mut exchanged = with_memory();
    exchanged[3].1 = fd(78);
    for fds in [authority().fds, other, two, exchanged] {
        let mut pass = started();
        barrier(&mut pass, b"PREPARED", &sighting(authority().fds)).unwrap();
        assert_eq!(
            barrier(&mut pass, b"READY", &sighting(fds)),
            Err(changed.to_owned())
        );
        assert_eq!(pass.state, HardenedProtocolState::Ready);
    }
}

#[test]
fn only_the_packet_that_is_due_is_taken() {
    let mut pass = started();
    assert_eq!(
        barrier(&mut pass, b"READY", &sighting(Vec::new())),
        Err("unexpected hardened discovery control packet [82, 69, 65, 68, 89]".to_owned())
    );
    let mut pass = started();
    barrier(&mut pass, b"PREPARED", &sighting(authority().fds)).unwrap();
    assert_eq!(
        barrier(&mut pass, b"PREPARED", &sighting(authority().fds)),
        Err(
            "unexpected hardened discovery control packet [80, 82, 69, 80, 65, 82, 69, 68]"
                .to_owned()
        )
    );
    let mut pass = started();
    assert_eq!(
        control(&mut pass, ControlPacket::Eof),
        Err("hardened discovery control closed before GO".to_owned())
    );
    let mut pass = running();
    control(&mut pass, ControlPacket::Eof).unwrap();
    assert_eq!(pass.waits_for(), (false, true, true));
    let mut pass = running();
    assert_eq!(
        barrier(&mut pass, b"", &sighting(Vec::new())),
        Err("unexpected hardened discovery control packet []".to_owned())
    );
}

#[test]
fn a_helper_that_changed_is_refused() {
    let mut pass = started();
    let mut seen = sighting(authority().fds);
    seen.exe = key(11);
    assert_eq!(
        barrier(&mut pass, b"PREPARED", &seen),
        Err("hardened discovery child did not execute the pinned loader".to_owned())
    );
    let mut pass = started();
    assert_eq!(
        barrier(&mut pass, b"PREPARED", &sighting(with_memory())),
        Err("hardened discovery child inherited an unexpected fd target".to_owned())
    );
    let mut pass = started();
    barrier(&mut pass, b"PREPARED", &sighting(authority().fds)).unwrap();
    let mut loaded = sighting(with_memory());
    loaded
        .maps
        .extend_from_slice(b"3000-4000 r-xp 00000000 08:01 13 /provider\n");
    assert_eq!(
        barrier(&mut pass, b"READY", &loaded),
        Err("provider was executable before hardened discovery GO".to_owned())
    );
    let mut pass = running();
    pass.break_checked(Ok(false)).unwrap();
    assert!(pass
        .take_output(&[0; 1025])
        .unwrap_err()
        .contains("1024-byte limit"));
    assert_eq!(
        check_end("hardened discovery oracle", Some(3), None).unwrap_err(),
        "hardened discovery oracle exited with 3"
    );
    assert_eq!(
        check_end("hardened discovery oracle", None, Some(9)).unwrap_err(),
        "hardened discovery oracle exited with signal 9"
    );
}

#[test]
fn a_pass_has_one_deadline() {
    let deadline = "hardened discovery oracle reached its absolute deadline";
    let mut pass = running();
    pass.break_checked(Ok(false)).unwrap();
    pass.drained(false);
    assert_eq!(
        pass.polled(Happened {
            any: false,
            child: false,
            lease: false,
            control: false,
        }),
        Err(deadline.to_owned())
    );
    let mut pass = started();
    control(&mut pass, ControlPacket::Packet(b"PREPARED".to_vec())).unwrap();
    pass.break_checked(Ok(false)).unwrap();
    pass.inspected(&authority(), &sighting(authority().fds))
        .unwrap();
    pass.revalidated(Ok(())).unwrap();
    assert_eq!(pass.deadline_checked(true), Err(deadline.to_owned()));
    let mut pass = started();
    pass.break_checked(Ok(false)).unwrap();
    pass.drained(false);
    assert_eq!(
        pass.polled(Happened {
            any: true,
            child: true,
            lease: false,
            control: false,
        }),
        Err("hardened discovery child exited before GO".to_owned())
    );
}

#[test]
fn a_helper_that_ended_is_waited_for_until_its_output_ended() {
    let deadline = "hardened discovery oracle reached its absolute deadline";
    let mut pass = running();
    pass.break_checked(Ok(false)).unwrap();
    pass.drained(false);
    pass.polled(Happened {
        any: true,
        child: true,
        lease: false,
        control: false,
    })
    .unwrap();
    pass.break_checked(Ok(false)).unwrap();
    pass.drained(false);
    assert_eq!(pass.step, PassStep::Poll);
    assert_eq!(pass.waits_for(), (true, true, false), "its end is known");
    assert_eq!(
        pass.polled(Happened {
            any: false,
            child: false,
            lease: false,
            control: false,
        }),
        Err(deadline.to_owned())
    );
    let mut late = running();
    late.child_exited = true;
    late.break_checked(Ok(false)).unwrap();
    late.drained(true);
    late.reaped(Ok(())).unwrap();
    assert_eq!(late.deadline_checked(true), Err(deadline.to_owned()));
}

#[test]
fn a_break_is_reported_only_after_the_helper_is_gone() {
    let mut pass = HardenedPass::new(16);
    pass.break_checked(Ok(true)).unwrap();
    assert_eq!(pass.step, PassStep::Broken, "nothing was started");

    let mut pass = started();
    pass.break_checked(Ok(true)).unwrap();
    assert_eq!(pass.step, PassStep::Reap(true));
    pass.reaped(Ok(())).unwrap();
    assert_eq!(pass.step, PassStep::Broken);

    let mut pass = started();
    control(&mut pass, ControlPacket::Packet(b"PREPARED".to_vec())).unwrap();
    pass.break_checked(Ok(true)).unwrap();
    assert_eq!(pass.step, PassStep::Reap(true));
    assert_eq!(pass.reaped(Err("kill".to_owned())), Err("kill".to_owned()));

    let mut pass = running();
    assert_eq!(
        pass.break_checked(Err("poll".to_owned())),
        Err("poll".to_owned())
    );
}

#[test]
fn the_control_descriptor_lies_above_stdio() {
    let mut pass = HardenedPass::new(16);
    pass.break_checked(Ok(false)).unwrap();
    pass.spawned(Ok(())).unwrap();
    pass.deadline_checked(false).unwrap();
    assert_eq!(
        pass.authorized(2),
        Err("hardened child control fd overlaps stdio".to_owned())
    );
}

#[test]
fn the_last_given_identity_of_a_descriptor_counts() {
    assert_eq!(
        expected_descriptors(&vec![(7, fd(1)), (3, fd(2)), (7, fd(3))]),
        [(3, fd(2)), (7, fd(3))]
    );
}

fn digest(sha: &str) -> ObjectIdentity {
    ObjectIdentity {
        kind: IdentityKind::FileDigest,
        value: Some(sha.to_owned()),
        sha256: Some(sha.to_owned()),
        reusable: true,
        note: None,
    }
}

const HEX: &str = "0123456789abcdef0123456789abcdef0123456789abcdef0123456789abcdef";

fn reported(inode: u64) -> ProvenanceObject {
    ProvenanceObject {
        path: format!("/lib/{inode}.so"),
        key: key(inode),
        identity: digest(HEX),
    }
}

/// Runs passes until the discovery stands still. Each pass reports the inodes of a list; whatever
/// was reported is held from then on.
fn stabilize(hardened: bool, passes: &[&[u64]]) -> Result<usize, String> {
    let mut discovery = Stabilizer::new(hardened, key(1), 64);
    let mut held = vec![key(1)];
    let mut runs = 0;
    loop {
        match discovery.step {
            StabilizeStep::Before | StabilizeStep::After | StabilizeStep::Last => {
                discovery.checked(Ok(false))?;
            }
            StabilizeStep::RunPass => {
                let list = passes[runs % passes.len()];
                runs += 1;
                discovery.passed(
                    held.clone(),
                    Some(list.iter().map(|inode| reported(*inode)).collect()),
                )?;
            }
            StabilizeStep::Retain(i) => {
                held.push(discovery.reported[i].key);
                discovery.retained(Ok(false))?;
            }
            StabilizeStep::Stable => return Ok(runs),
            StabilizeStep::Broken => return Err("broken".to_owned()),
        }
    }
}

#[test]
fn a_new_file_counts_only_once_it_was_held_before() {
    assert_eq!(stabilize(false, &[&[1, 2]]), Ok(2));
    assert_eq!(stabilize(true, &[&[1, 2]]), Ok(2));
    assert_eq!(stabilize(false, &[&[1], &[1, 2], &[1, 2]]), Ok(3));
}

#[test]
fn another_inode_takes_another_pass() {
    assert_eq!(stabilize(false, &[&[1, 2], &[1, 3], &[1, 3]]), Ok(3));
}

#[test]
fn files_that_alternate_exhaust_the_passes() {
    assert_eq!(
        stabilize(false, &[&[1, 2], &[1, 3]]),
        Err("provenance closure did not stabilize within 8 discovery passes".to_owned())
    );
}

#[test]
fn a_pass_must_report_the_module() {
    assert_eq!(
        stabilize(true, &[&[2]]),
        Err("discovery pass omitted the selected provenance module mapping".to_owned())
    );
    let mut discovery = Stabilizer::new(false, key(1), 64);
    discovery.checked(Ok(true)).unwrap();
    assert_eq!(discovery.step, StabilizeStep::Broken);
    let mut discovery = Stabilizer::new(true, key(1), 64);
    discovery.checked(Ok(false)).unwrap();
    discovery.passed(Vec::new(), None).unwrap();
    assert_eq!(discovery.step, StabilizeStep::Broken);
    assert_eq!(
        discovery.passes, 0,
        "a break is the end, whatever the pass was"
    );
}

#[test]
fn the_first_failed_check_after_the_cleanup_decides() {
    let err = |message: &str| Err(message.to_owned());
    assert!(finish_hardened(Ok(()), Ok(()), Ok(()), Ok(())).is_ok());
    assert_eq!(
        finish_hardened(err("a"), err("b"), err("c"), err("d")),
        err("rechecking hardened glibc leases after cleanup: a")
    );
    assert_eq!(
        finish_hardened(Ok(()), err("b"), err("c"), err("d")),
        err("revalidating the provenance seed after cleanup: b")
    );
    assert_eq!(
        finish_hardened(Ok(()), Ok(()), err("c"), err("d")),
        err("revalidating hardened glibc preparation: c")
    );
    assert_eq!(finish_hardened(Ok(()), Ok(()), Ok(()), err("d")), err("d"));
}

#[test]
fn a_closure_is_bounded_and_has_no_file_twice() {
    assert_eq!(
        closure_keys(&vec![reported(2), reported(1)], 64),
        Ok(vec![key(2), key(1)])
    );
    assert!(closure_keys(&vec![reported(1), reported(2)], 1).is_err());
    assert!(closure_keys(&vec![reported(1), reported(1)], 64).is_err());
    let mut relative = reported(1);
    relative.path = "lib.so".to_owned();
    assert!(closure_keys(&vec![relative], 64).is_err());
    assert!(check_provenance_path("lib.so").is_err());
    assert!(check_provenance_path("/lib.so").is_ok());
    assert!(check_provenance_identity("/lib.so", &digest(HEX)).is_ok());
    assert!(same_identity(&digest(HEX), &digest(HEX)));
    assert!(!same_identity(&digest(HEX), &digest("other")));
}

#[test]
fn held_files_are_bounded_and_compared() {
    let mut leases = ClosureLeases::new(key(1), 2, 100);
    assert!(leases.check_retain(101).is_err());
    leases.check_retain(60).unwrap();
    leases.retain(reported(1), 60);
    assert!(leases.check_retain(41).is_err());
    assert!(matches!(leases.reported(&reported(1)), ReportedStep::Held));
    let mut other = reported(1);
    other.identity = digest("other");
    assert!(matches!(
        leases.reported(&other),
        ReportedStep::Refused(message) if message == "provenance mapping MappingFileKey { device_major: 8, device_minor: 1, inode: 1 } changed whole-file identity between passes"
    ));
    assert!(matches!(leases.reported(&reported(2)), ReportedStep::Open));
    leases.check_influence(10).unwrap();
    leases.retain_influence(key(5), 10);
    assert!(matches!(
        leases.reported(&reported(5)),
        ReportedStep::CompareInfluence(0)
    ));
    assert_eq!(leases.keys(), [key(1)]);
    assert!(leases.stabilization_keys().contains(&key(5)));
    assert!(ClosureLeases::compare_influence(&reported(5), &digest(HEX)).is_ok());
    assert!(ClosureLeases::compare_influence(&reported(5), &digest("x")).is_err());
    assert!(ClosureLeases::compare_opened(&reported(5), &reported(5)).is_ok());
    assert!(ClosureLeases::compare_opened(&reported(5), &reported(6)).is_err());
    assert!(leases.revalidate_seed("/lib/1.so", &reported(1)).is_ok());
    assert!(leases.revalidate_seed("/lib/1.so", &reported(2)).is_err());
}

#[test]
fn inherited_descriptors_are_exact() {
    assert_eq!(ordered_descriptors(&vec![9, 3, 9, 5]), [3, 5, 9]);
    let seen = || vec![FdSeen::Seen(fd(1)), FdSeen::Seen(fd(2))];
    assert_eq!(
        pin_inheritance(&vec![3, 5], &seen(), &vec![5]).unwrap(),
        [
            InheritedFd {
                fd: 3,
                identity: fd(1)
            },
            InheritedFd {
                fd: 5,
                identity: fd(2)
            }
        ]
    );
    assert_eq!(
        pin_inheritance(&vec![2, 5], &seen(), &Vec::new()).unwrap_err(),
        "hardened discovery inherited fd 2 is invalid or overlaps stdio"
    );
    assert_eq!(
        pin_inheritance(
            &vec![3],
            &vec![FdSeen::Unreadable("stat".to_owned())],
            &Vec::new()
        )
        .unwrap_err(),
        "pinning hardened discovery inherited fd identity: stat"
    );
    assert_eq!(
        pin_inheritance(&vec![3], &vec![FdSeen::Closed], &Vec::new()).unwrap_err(),
        "hardened discovery inherited fd 3 is invalid or overlaps stdio"
    );
    assert_eq!(
        pin_inheritance(&vec![3, 5], &seen(), &vec![7]).unwrap_err(),
        "private glibc alias directory fd 7 is not inherited"
    );
    let pinned = InheritedFd {
        fd: 3,
        identity: fd(1),
    };
    assert!(still_refers(&pinned, &fd(1)));
    assert!(!still_refers(&pinned, &fd(2)));
    assert!(still_leads(b"/a", b"/a"));
    assert!(!still_leads(b"/a", b"/b"));
}

#[test]
fn a_helper_of_root_runs_as_whoever_asked_for_it() {
    let id = |value: &str| Some(value.to_owned());
    assert_eq!(
        helper_credentials(0, 0, 0, 0, &id("1000"), &id("1001")),
        Ok(Some((1000, 1001)))
    );
    assert_eq!(
        helper_credentials(0, 0, 0, 0, &id("0"), &None),
        Ok(Some((65534, 65534)))
    );
    assert_eq!(helper_credentials(5, 5, 6, 6, &None, &None), Ok(None));
    assert_eq!(
        helper_credentials(5, 7, 6, 6, &None, &None),
        Err("refusing discovery with set-id credentials".to_owned())
    );
    assert_eq!(target_id(&id("12x")), None);
    assert!(is_privileged(0, &Vec::new()));
    assert!(is_privileged(5, &vec![0, 4]));
    assert!(!is_privileged(5, &vec![0, 0]));
    assert_eq!(expected_owner(true, 1000, 1000), 0);
    assert_eq!(expected_owner(false, 0, 1000), 0);
    assert_eq!(expected_owner(false, 1000, 1000), 1000);
}

#[test]
fn the_helper_is_searched_for_in_order() {
    let candidate = |path: &str, exists: bool| {
        Some(Candidate {
            path: path.to_owned(),
            exists,
        })
    };
    let found = find_helper(candidate("/h", true), candidate("/s", true), None).unwrap();
    assert_eq!(found.path, "/h");
    assert_eq!(found.searched, ["/h"]);
    let found = find_helper(None, candidate("/s", true), Some("/p".to_owned())).unwrap();
    assert_eq!(found.path, "/s");
    let found = find_helper(None, candidate("/s", false), Some("/p".to_owned())).unwrap();
    assert_eq!(found.path, "/p");
    assert_eq!(
        find_helper(None, candidate("/s", false), None).unwrap_err(),
        "cannot execute discovery helper; searched: /s, p11scope-discover on PATH (searched)"
    );
    assert!(find_helper(candidate("/h", false), None, Some("/p".to_owned())).is_err());
}

#[test]
fn arguments_of_discover_are_split() {
    let args = |list: &[&str]| list.iter().map(|arg| arg.to_string()).collect::<Vec<_>>();
    let given = split_arguments(&args(&["--helper", "/h", "--module", "m.so"])).unwrap();
    assert_eq!(given.helper.as_deref(), Some("/h"));
    assert_eq!(given.forwarded, ["--module", "m.so"]);
    assert_eq!(
        split_arguments(&args(&["--helper"])).unwrap_err(),
        ArgFault::HelperValue
    );
    assert_eq!(
        split_arguments(&args(&["-o", "x"])).unwrap_err(),
        ArgFault::ModuleMissing
    );
}

#[test]
fn ends_and_bounds_of_the_helper() {
    assert_eq!(forwarded_exit_code(Some(3), None), 3);
    assert_eq!(forwarded_exit_code(None, Some(9)), 137);
    assert_eq!(
        check_bounded(17, 16, "hardened child maps").unwrap_err(),
        "hardened child maps exceeds the 16-byte limit"
    );
    assert!(check_bounded(16, 16, "hardened child maps").is_ok());
    assert_eq!(
        check_schema("discovery oracle", "a\"b", "c").unwrap_err(),
        "discovery oracle schema mismatch: got \"a\\\"b\", expected \"c\""
    );
    assert_eq!(oracle_step(true, true, true), OracleStep::Done);
    assert_eq!(oracle_step(true, false, true), OracleStep::TimedOut);
    assert_eq!(oracle_step(false, true, false), OracleStep::Wait);
    assert_eq!(poll_timeout(Some(4)), Ok(5));
    assert_eq!(poll_timeout(Some(1 << 40)), Ok(i32::MAX));
    assert!(poll_timeout(None).is_err());
}

const FDS: HelperDescriptors = HelperDescriptors {
    loader: 5,
    helper: 6,
    directory: 7,
    control: 8,
};

#[test]
fn a_helper_is_started_through_descriptors_alone() {
    assert_eq!(
        helper_command(FDS, "/opt/module.so").unwrap(),
        [
            "/proc/self/fd/5",
            "--inhibit-cache",
            "--library-path",
            "/proc/self/fd/7",
            "/proc/self/fd/6",
            "--module",
            "/opt/module.so",
            "--control-fd",
            "8",
        ]
    );
    assert_eq!(
        helper_command(FDS, "module.so").unwrap_err(),
        "hardened discovery provider path must be absolute"
    );
    assert_eq!(helper_inheritance(vec![9], FDS), [9, 5, 6, 7, 8]);
    assert_eq!(
        check_alias(b"lib\0c").unwrap_err(),
        "private glibc alias contains NUL"
    );
    assert!(check_alias(b"libc.so.6").is_ok());
    assert!(check_provenance_module("/opt/module.so").is_ok());
    assert_eq!(
        check_provenance_module("").unwrap_err(),
        "--provenance-module must be an absolute path"
    );
}

#[test]
fn control_packets_are_never_cut_short() {
    let mut room = b"READY".to_vec();
    room.resize(32, 0);
    assert!(matches!(
        read_control(Received::Later, &room),
        Ok(ControlPacket::Nothing)
    ));
    assert!(matches!(
        read_control(Received::Length(0), &room),
        Ok(ControlPacket::Eof)
    ));
    assert!(matches!(
        read_control(Received::Length(5), &room),
        Ok(ControlPacket::Packet(packet)) if packet == b"READY"
    ));
    assert_eq!(
        read_control(Received::Length(33), &room).unwrap_err(),
        "hardened discovery control packet exceeds 32 bytes"
    );
    assert_eq!(
        read_control(Received::Failed("reset".to_owned()), &room).unwrap_err(),
        "receiving hardened discovery control packet: reset"
    );
    assert!(check_sent(Ok(4), 4).is_ok());
    assert_eq!(
        check_sent(Ok(3), 4).unwrap_err(),
        "hardened discovery control packet was partially sent"
    );
    assert_eq!(check_sent(Err("pipe".to_owned()), 4).unwrap_err(), "pipe");
}

#[test]
fn a_helper_that_is_gone_already_is_no_failure() {
    let err = |message: &str| Err(message.to_owned());
    let gone = LeaderKill {
        signalled: err("kill: No such process (os error 3)"),
        waited: Ok(()),
    };
    assert!(settle_end(GroupKill::Done, Some(gone), Ok(())).is_ok());
    assert!(settle_end(GroupKill::Done, None, Ok(())).is_ok());
    let refused = LeaderKill {
        signalled: err("refused"),
        waited: err("later"),
    };
    assert_eq!(
        settle_end(GroupKill::Done, Some(refused), Ok(())),
        err("refused")
    );
    let unseen = LeaderKill {
        signalled: Ok(()),
        waited: err("later"),
    };
    assert_eq!(
        settle_end(GroupKill::Done, Some(unseen), Ok(())),
        err("later")
    );
    assert_eq!(
        settle_end(GroupKill::Failed("no".to_owned()), None, Ok(())),
        err("killing hardened discovery process group failed: no")
    );
    assert_eq!(
        settle_end(GroupKill::Failed("no".to_owned()), None, err("zombie")),
        err("reaping hardened discovery child: zombie")
    );
}
