//! What a pinned file is, and which mappings are the same file.

use p11scope::discovery::attribution::Skipped;
use p11scope::discovery::identity::manifest::{
    by_number, count_manifest_objects, is_to_be_opened, match_manifest_objects,
    pin_manifest_objects, Candidate, ManifestFunction, ManifestObject, ManifestSurface, Opening,
    Resolution,
};
use p11scope::discovery::identity::overlay::collapse_overlay_mappings;
use p11scope::discovery::identity::pinned::{
    identity_of, Entry, FoundIdentity, IdentityKind, IdentitySource, Located, ObjectIdentity, Pin,
    PinnedObjects,
};
use p11scope::discovery::identity::scanned::{
    confirm_object, settle_object, wanted_objects, Inspected, Inspecting, ScanLimits, ScanPins,
    ScannedEntry, ScannedModule, ScannedTable, Segment,
};
use p11scope::maps::{Device, ObjectKey};
use std::collections::BTreeSet;

const SHA: &str = "b4e608e4";
/// The inode and the two overlay device numbers a two-container docker run
/// really produced (`102:56317450` and `104:56317450`).
const INODE: u64 = 56_317_450;
const PATH: &str = "/usr/lib/softhsm/libsofthsm2.so";

fn overlay(minor: u64) -> ObjectKey {
    ObjectKey {
        device: Device { major: 0, minor },
        inode: INODE,
    }
}

fn module(key: ObjectKey) -> ScannedModule {
    ScannedModule {
        key,
        path: PATH.into(),
        exports: vec!["C_GetFunctionList".into()],
        tables: vec![ScannedTable {
            version: (2, 40),
            walk: "full".into(),
            entries: vec![ScannedEntry {
                name: "C_Initialize".into(),
                object: key,
                object_path: PATH.into(),
                file_offset: 0x1000,
            }],
            null_entries: vec![],
            unpinned: vec![],
            address: 0x7000,
        }],
        interfaces: vec![],
    }
}

/// Objects as they are pinned. Each is `(key, sha256, ctime)`; the inode of a pin is that of its key.
fn pin_set(entries: &[(ObjectKey, &str, i64)], overlay: bool) -> PinnedObjects {
    let mut pinned = PinnedObjects::empty();
    for (key, sha, ctime) in entries {
        let mut one = PinnedObjects::empty();
        one.by_key.push((
            *key,
            Entry {
                fd: 9,
                pin: Pin {
                    ino: key.inode,
                    size: 4096,
                    ctime: *ctime,
                    ctime_nsec: 7,
                },
                path: PATH.into(),
                sha256: (*sha).into(),
                build_id: None,
                identity_source: IdentitySource::Stat,
                note: None,
                overlay,
            },
        ));
        pinned.absorb(one);
    }
    pinned
}

/// Every place in a file that the tables name, each once.
fn targets(modules: &[ScannedModule]) -> BTreeSet<(ObjectKey, u64)> {
    modules
        .iter()
        .flat_map(|module| &module.tables)
        .flat_map(|table| &table.entries)
        .map(|entry| (entry.object, entry.file_offset))
        .collect()
}

/// Objects opened through a container's overlay mount — the shape this is about.
fn pins(entries: &[(ObjectKey, &str, i64)]) -> PinnedObjects {
    pin_set(entries, true)
}

/// The same objects, opened on a real filesystem rather than through an overlay.
fn image_pins(entries: &[(ObjectKey, &str, i64)]) -> PinnedObjects {
    pin_set(entries, false)
}

#[test]
fn fstatfs_failure_is_an_error_not_non_overlay() {
    let error = entry(Err("fstatfs failed: bad descriptor".into()))
        .expect_err("an invalid fd must not mean non-overlay");
    assert!(error.contains("fstatfs failed"), "{error}");
}

#[test]
fn common_shared_overlay_layer_is_one_module_and_one_slot_with_uncertainty() {
    let mut modules = vec![module(overlay(104)), module(overlay(102))];
    let pinned = pins(&[(overlay(104), SHA, 1), (overlay(102), SHA, 1)]);

    let (collapsed, uncertainty) = collapse_overlay_mappings(&mut modules, &pinned);
    assert_eq!(collapsed, 1);
    assert_eq!(uncertainty.len(), 1, "{uncertainty:?}");
    assert!(
        uncertainty[0].subject.starts_with(PATH)
            && uncertainty[0].subject.contains("minor: 104"),
        "{uncertainty:?}"
    );
    assert!(
        uncertainty[0]
            .reason
            .contains("cannot prove physical identity"),
        "{uncertainty:?}"
    );
    assert_eq!(targets(&modules).len(), 1);
    assert_eq!(modules.len(), 1);
    // Every key that is left is still one that was pinned.
    for (object, _) in targets(&modules) {
        assert!(pinned.attach_path_for(object).is_ok());
    }
    assert!(pinned.attach_path_for(modules[0].key).is_ok());
}

#[test]
fn two_mounts_of_one_filesystem_image_are_not_merged() {
    let image = |minor| ObjectKey {
        device: Device { major: 7, minor },
        inode: INODE,
    };
    let mut modules = vec![module(image(0)), module(image(1))];
    let pinned = image_pins(&[(image(0), SHA, 1), (image(1), SHA, 1)]);

    assert_eq!(
        collapse_overlay_mappings(&mut modules, &pinned),
        (0, vec![])
    );
    assert_eq!(targets(&modules).len(), 2);
    assert_eq!(modules.len(), 2);
}

#[test]
fn two_different_files_sharing_an_inode_number_are_never_merged() {
    let real = |minor| ObjectKey {
        device: Device { major: 8, minor },
        inode: INODE,
    };
    for pins in [
        // Same inode number, different bytes: two providers, two modules.
        pins(&[(real(1), SHA, 1), (real(17), "0badc0de", 1)]),
        // Same inode number and the same bytes, but not the same inode: two
        // copies of one build, each its own file and its own attach target.
        pins(&[(real(1), SHA, 1), (real(17), SHA, 2)]),
        // Nothing hashed either one, so nothing identifies them.
        pins(&[(real(1), "", 1), (real(17), "", 1)]),
    ] {
        let mut modules = vec![module(real(1)), module(real(17))];
        assert_eq!(collapse_overlay_mappings(&mut modules, &pins), (0, vec![]));
        assert_eq!(modules.len(), 2);
        assert_eq!(targets(&modules).len(), 2);
    }
}

#[test]
fn one_dependency_reached_through_two_mounts_is_one_ambiguous_slot() {
    const DEP: u64 = 56_317_999;
    let dep = |minor| ObjectKey {
        device: Device { major: 0, minor },
        inode: DEP,
    };
    let forwarding = |device_minor, dependency| {
        let mut module = module(overlay(device_minor));
        module.tables[0].entries[0].object = dependency;
        module
    };
    let mut modules = vec![forwarding(102, dep(102)), forwarding(104, dep(104))];
    let pinned = pins(&[
        // The two providers happen to share an inode number too: only their
        // digests separate them, and that is enough.
        (overlay(102), "aaaaaaaa", 1),
        (overlay(104), "bbbbbbbb", 1),
        (dep(102), "dddddddd", 1),
        (dep(104), "dddddddd", 1),
    ]);

    let (collapsed, uncertainty) = collapse_overlay_mappings(&mut modules, &pinned);
    assert_eq!(collapsed, 1);
    assert_eq!(uncertainty.len(), 1, "{uncertainty:?}");
    assert_eq!(modules.len(), 2);
    assert_eq!(targets(&modules).len(), 1, "one place that two modules claim");
}

#[test]
fn the_mapping_that_decoded_the_tables_is_the_one_kept() {
    let mut empty = module(overlay(104));
    empty.tables.clear();
    let mut modules = vec![empty, module(overlay(102))];
    let pinned = pins(&[(overlay(104), SHA, 1), (overlay(102), SHA, 1)]);

    let (collapsed, uncertainty) = collapse_overlay_mappings(&mut modules, &pinned);
    assert_eq!(collapsed, 1);
    assert_eq!(uncertainty.len(), 1, "{uncertainty:?}");
    assert_eq!(modules.len(), 1);
    assert_eq!(targets(&modules).len(), 1);
}

#[test]
fn targets_only_the_discarded_mapping_decoded_are_reported_not_dropped() {
    let mut patched = module(overlay(104));
    let mut extra = patched.tables[0].entries[0].clone();
    extra.name = "C_Sign".into();
    extra.file_offset = 0x9000;
    patched.tables[0].entries.push(extra);
    let mut modules = vec![module(overlay(102)), patched];
    let pinned = pins(&[(overlay(102), SHA, 1), (overlay(104), SHA, 1)]);

    let (collapsed, lost) = collapse_overlay_mappings(&mut modules, &pinned);
    assert_eq!(collapsed, 1);
    // The richer mapping wins, so the only record is the unavoidable physical-
    // identity uncertainty, not target loss.
    assert_eq!(lost.len(), 1, "{lost:?}");
    assert!(lost[0].reason.contains("cannot prove physical identity"));
    assert_eq!(targets(&modules).len(), 2);

    // Reversed: the mapping that wins on count is missing a target the other had.
    let mut a = module(overlay(102));
    a.path = "/discarded/libsofthsm2.so".into();
    a.tables[0].entries[0].file_offset = 0x1000;
    let mut b = module(overlay(104));
    b.path = "/attached/libsofthsm2.so".into();
    b.tables[0].entries[0].file_offset = 0x2000;
    b.tables[0].entries.push(ScannedEntry {
        name: "C_Sign".into(),
        object: overlay(104),
        object_path: PATH.into(),
        file_offset: 0x3000,
    });
    let mut modules = vec![a, b];
    let (_, lost) = collapse_overlay_mappings(&mut modules, &pinned);
    let target_loss: Vec<_> = lost
        .iter()
        .filter(|skip| skip.reason.contains("1 target(s)"))
        .collect();
    assert_eq!(target_loss.len(), 1, "{lost:?}");
    assert!(
        target_loss[0]
            .subject
            .starts_with("/discarded/libsofthsm2.so")
            && target_loss[0].subject.contains("minor: 102"),
        "{target_loss:?}"
    );
    assert!(
        target_loss[0].reason.contains("not probed"),
        "{target_loss:?}"
    );
}

#[test]
fn target_loss_names_discarded_incoming_mapping_when_existing_wins() {
    let mut existing = module(overlay(102));
    existing.path = "/attached/libsofthsm2.so".into();
    let mut extra = existing.tables[0].entries[0].clone();
    extra.name = "C_Sign".into();
    extra.file_offset = 0x3000;
    existing.tables[0].entries.push(extra);

    let mut incoming = module(overlay(104));
    incoming.path = "/discarded/libsofthsm2.so".into();
    incoming.tables[0].entries[0].file_offset = 0x2000;
    let mut modules = vec![existing, incoming];
    let pinned = pins(&[(overlay(102), SHA, 1), (overlay(104), SHA, 1)]);

    let (_, lost) = collapse_overlay_mappings(&mut modules, &pinned);
    let target_loss: Vec<_> = lost
        .iter()
        .filter(|skip| skip.reason.contains("1 target(s)"))
        .collect();
    assert_eq!(target_loss.len(), 1, "{lost:?}");
    assert!(
        target_loss[0]
            .subject
            .starts_with("/discarded/libsofthsm2.so")
            && target_loss[0].subject.contains("minor: 104"),
        "{target_loss:?}"
    );
}

fn pin(size: u64) -> Pin {
    Pin {
        ino: 5,
        size,
        ctime: 1,
        ctime_nsec: 2,
    }
}

fn key(minor: u64, inode: u64) -> ObjectKey {
    ObjectKey {
        device: Device { major: 8, minor },
        inode,
    }
}

fn digest(sha: &str) -> ObjectIdentity {
    ObjectIdentity {
        kind: IdentityKind::FileDigest,
        value: Some(sha.into()),
        sha256: Some(sha.into()),
        reusable: true,
        note: None,
    }
}

fn found(key: ObjectKey, source: IdentitySource) -> FoundIdentity {
    FoundIdentity {
        key,
        source,
        note: None,
    }
}

fn entry(overlay: Result<bool, String>) -> Result<Entry, String> {
    Entry::new(
        9,
        pin(4096),
        PATH,
        &digest(SHA),
        found(key(1, 5), IdentitySource::Mountinfo),
        &overlay,
    )
}

#[test]
fn a_device_number_is_taken_apart() {
    let identity = identity_of(&Located::Unmounted(
        "no mount".into(),
        Ok((0x0000_0123_4567_89ab, 77)),
    ))
    .unwrap();
    assert_eq!(identity.source, IdentitySource::Stat);
    assert_eq!(
        identity.key,
        ObjectKey {
            device: Device {
                major: 0x789,
                minor: 0x0012_3456_ab
            },
            inode: 77
        }
    );
    assert!(identity.note.unwrap().contains("no mount"));

    let mounted = identity_of(&Located::Mounted(key(3, 4))).unwrap();
    assert_eq!(mounted.key, key(3, 4));
    assert_eq!(mounted.source.label(), "mountinfo");
    assert!(mounted.note.is_none());
    assert!(identity_of(&Located::Unmounted("no mount".into(), Err("gone".into()))).is_err());
}

#[test]
fn only_the_mount_table_tells_devices_apart() {
    assert!(IdentitySource::Mountinfo.confirms(key(1, 5), key(1, 5)));
    assert!(!IdentitySource::Mountinfo.confirms(key(2, 5), key(1, 5)));
    assert!(IdentitySource::Stat.confirms(key(2, 5), key(1, 5)));
    assert!(!IdentitySource::Stat.confirms(key(1, 6), key(1, 5)));
    assert!(confirm_object(key(1, 5), PATH, &found(key(1, 5), IdentitySource::Mountinfo)).is_ok());
    let error = confirm_object(key(1, 5), PATH, &found(key(2, 5), IdentitySource::Mountinfo))
        .unwrap_err();
    assert!(error.starts_with("identity_mismatch: the mapping is "), "{error}");
}

#[test]
fn a_change_is_noticed_and_stays_noticed() {
    let mut pinned = pins(&[(overlay(102), SHA, 1)]);
    let same = pinned.by_key[0].1.pin;
    assert_eq!(pinned.check_unchanged(&vec![Ok(same)]), Ok(true));
    assert!(!pinned.provider_changed());
    assert!(pinned.check_unchanged(&vec![Err("stat".into())]).is_err());
    let other = Pin {
        size: same.size + 1,
        ..same
    };
    assert_eq!(pinned.check_unchanged(&vec![Ok(other)]), Ok(false));
    assert!(pinned.provider_changed());
    assert_eq!(pinned.check_unchanged(&vec![Ok(same)]), Ok(false));
}

#[test]
fn absorbed_objects_keep_what_was_pinned_first() {
    let mut pinned = pins(&[(overlay(102), SHA, 1)]);
    pinned.absorb(pins(&[(overlay(102), "other", 2), (overlay(90), SHA, 1)]));
    let keys: Vec<ObjectKey> = pinned.pinned().iter().map(|object| object.key).collect();
    assert_eq!(keys, [overlay(90), overlay(102)]);
    assert_eq!(pinned.pinned()[1].sha256, SHA);
    assert_eq!(
        pinned.attach_path_for(overlay(102)),
        Ok("/proc/self/fd/9".into())
    );
    assert!(pinned.attach_path_for(overlay(1)).is_err());
}

#[test]
fn scanned_objects_are_pinned_within_the_limits() {
    let modules = vec![module(overlay(102))];
    let wanted = wanted_objects(&modules);
    assert_eq!(wanted, [(overlay(102), PATH.to_owned())]);
    let mut pins = ScanPins::new(
        7,
        ScanLimits {
            per_object_bytes: 100,
            total_bytes: 150,
        },
    );
    assert_eq!(
        pins.path_in_target("/lib/a.so"),
        "/proc/7/root/lib/a.so".to_owned()
    );
    assert!(pins.reserve(pin(101)).is_err());
    assert!(pins.reserve(pin(100)).is_ok());
    assert!(pins.reserve(pin(100)).is_err());
    assert!(pins.reserve(pin(50)).is_ok());
    pins.settle(overlay(102), PATH, entry(Ok(true)));
    pins.settle(overlay(104), "/lib/b.so", Err("gone".into()));
    let (pinned, skipped) = pins.finish(true).unwrap();
    assert_eq!(pinned.pinned().len(), 1);
    assert_eq!(
        skipped,
        [Skipped {
            subject: "/lib/b.so".into(),
            reason: "gone".into()
        }]
    );
    let gone = ScanPins::new(
        7,
        ScanLimits {
            per_object_bytes: 1,
            total_bytes: 1,
        },
    );
    assert_eq!(
        gone.finish(false).unwrap_err(),
        "pid 7 exited during discovery"
    );
}

#[test]
fn a_write_while_the_bytes_are_read_is_not_relied_on() {
    let inspected = || Inspected {
        identity: digest(SHA),
        executable: vec![Segment {
            file_offset: 0x1000,
            size: 0x100,
        }],
    };
    assert!(inspected().contains_executable_offset(0x10ff));
    assert!(!inspected().contains_executable_offset(0x1100));
    let seen = || found(key(1, 5), IdentitySource::Mountinfo);
    let kept = settle_object(
        9,
        PATH,
        pin(1),
        seen(),
        Inspecting::Seen(inspected(), Ok(pin(1))),
        &Ok(false),
    )
    .unwrap();
    assert_eq!(kept.sha256, SHA);
    let changed = settle_object(
        9,
        PATH,
        pin(1),
        seen(),
        Inspecting::Seen(inspected(), Ok(pin(2))),
        &Ok(false),
    );
    assert_eq!(
        changed.unwrap_err(),
        "file changed while it was being identified — retry"
    );
    assert_eq!(
        settle_object(9, PATH, pin(1), seen(), Inspecting::Failed("elf".into()), &Ok(false))
            .unwrap_err(),
        "elf"
    );
}

fn object(id: u32, path: &str) -> ManifestObject {
    ManifestObject {
        id,
        path: path.into(),
        identity: digest(SHA),
    }
}

#[test]
fn manifest_objects_are_counted_before_they_are_read() {
    let objects = vec![object(1, "/a"), object(2, "/b")];
    assert!(is_to_be_opened(&objects[0]));
    let openings = vec![Opening::Opened(Ok(pin(10))), Opening::Opened(Ok(pin(20)))];
    assert_eq!(
        count_manifest_objects(Vec::new(), &objects, &openings, 30),
        Ok(30)
    );
    assert!(count_manifest_objects(Vec::new(), &objects, &openings, 29).is_err());
    assert_eq!(
        count_manifest_objects(vec!["no schema".into()], &objects, &openings, 30),
        Err(vec!["no schema".into()])
    );
    let refused = vec![
        Opening::Refused("open".into()),
        Opening::Opened(Err("stat".into())),
    ];
    assert_eq!(
        count_manifest_objects(Vec::new(), &objects, &refused, 30)
            .unwrap_err()
            .len(),
        2
    );
}

#[test]
fn manifest_objects_must_still_be_what_was_attested() {
    let objects = vec![object(1, "/a")];
    let surfaces = vec![ManifestSurface {
        functions: vec![ManifestFunction {
            name: "C_Sign".into(),
            resolution: Resolution::Resolved {
                object: 1,
                file_offset: 0x1010,
            },
        }],
    }];
    let seen = |sha: &str| {
        vec![Inspecting::Seen(
            Inspected {
                identity: digest(sha),
                executable: vec![Segment {
                    file_offset: 0x1000,
                    size: 0x100,
                }],
            },
            Ok(pin(1)),
        )]
    };
    assert!(match_manifest_objects(&objects, &vec![pin(1)], &seen(SHA), &surfaces).is_ok());
    assert!(match_manifest_objects(&objects, &vec![pin(1)], &seen("other"), &surfaces).is_err());
    assert!(match_manifest_objects(&objects, &vec![pin(2)], &seen(SHA), &surfaces).is_err());
    assert_eq!(
        by_number(&vec![object(7, "/x"), object(3, "/y"), object(7, "/z")]),
        [1, 2]
    );
}

#[test]
fn two_manifest_objects_with_one_identity_are_refused() {
    let candidate = |path: &str, minor: u64| Candidate {
        path: path.into(),
        pin: pin(1),
        identity: digest(SHA),
        fd: 4,
        located: Located::Mounted(key(minor, 5)),
        overlay: Ok(false),
    };
    let pinned =
        pin_manifest_objects(vec![candidate("/a", 1), candidate("/b", 2)]).unwrap();
    assert_eq!(pinned.pinned().len(), 2);
    let problems = pin_manifest_objects(vec![candidate("/a", 1), candidate("/b", 1)]).unwrap_err();
    assert_eq!(problems.len(), 1);
    assert!(
        problems[0].starts_with("/b and /a are the same object (ObjectKey {"),
        "{problems:?}"
    );
    assert!(problems[0].ends_with("refusing an ambiguous pin"), "{problems:?}");
}
