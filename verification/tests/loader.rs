//! The contexts in which a loader is watched.

use p11scope::discovery::loader::{
    decode_loader_cookie, encode_loader_cookie, valid_loader_cookie, LoaderContextId,
    LoaderContextSpec, LoaderRegistry, PinnedObjectId, ProcessViewId, MAX_LOADER_CONTEXTS,
    MAX_STATE_DELTA, MIN_STATE_DELTA,
};
use p11scope::maps::{Device, MapEntry, SymbolFact};

fn mapping() -> MapEntry {
    MapEntry {
        start: 0x4000_0000,
        end: 0x4000_1000,
        file_offset: 0x2000,
        permissions: *b"r-xp",
        device: Device { major: 8, minor: 1 },
        inode: 7,
        raw_path: Some(b"/lib64/ld-linux-x86-64.so.2".to_vec()),
    }
}

fn spec(state_vaddr: Option<u64>) -> LoaderContextSpec {
    LoaderContextSpec {
        view: ProcessViewId(7),
        loader: PinnedObjectId(9),
        mapping: mapping(),
        hook: SymbolFact {
            virtual_address: 0x2100,
            file_offset: 0x2100,
        },
        state: state_vaddr.map(|virtual_address| SymbolFact {
            virtual_address,
            file_offset: 0x2800,
        }),
    }
}

fn prepare(registry: &mut LoaderRegistry, spec: LoaderContextSpec) -> LoaderContextId {
    let prepared = registry.preflight(spec).unwrap();
    registry.prepare(prepared).unwrap()
}

#[test]
fn loader_registry_enforces_monotonic_contexts_and_retirement() {
    assert_eq!(encode_loader_cookie(1, None).unwrap(), 512);
    assert_eq!(encode_loader_cookie(1, Some(0)).unwrap(), 256);
    assert!(decode_loader_cookie(0).is_err());

    let mut registry = LoaderRegistry::default();
    let first = prepare(&mut registry, spec(None));
    assert_eq!(first.get(), 1);
    let context = registry.context(first).unwrap();
    assert_eq!(context.cookie, 512);
    assert!(!context.was_attached);
    assert_eq!(context.spec.loader, PinnedObjectId(9));

    assert!(registry.tombstone(first).is_err());
    assert!(registry.remove(first).is_err());

    registry.mark_attached(first).unwrap();
    assert!(registry.context(first).unwrap().was_attached);
    assert!(registry.mark_attached(first).is_err());
    assert!(registry.remove(first).is_err());
    registry
        .validate_hit(
            first.case_id(),
            ProcessViewId(7),
            PinnedObjectId(9),
            &mapping(),
            0x4000_0100,
            20,
        )
        .unwrap();
    registry
        .validate_hit(
            first.case_id(),
            ProcessViewId(7),
            PinnedObjectId(9),
            &mapping(),
            0x4000_0100,
            30,
        )
        .unwrap();
    assert_eq!(registry.context(first).unwrap().earliest_hit_ns, Some(20));

    registry.tombstone(first).unwrap();
    assert!(registry.mark_attached(first).is_err());
    assert!(registry.tombstone(first).is_err());
    assert!(
        registry
            .validate_hit(
                first.case_id(),
                ProcessViewId(7),
                PinnedObjectId(9),
                &mapping(),
                0x4000_0100,
                10,
            )
            .is_err(),
        "a queued record must not resolve after tombstoning"
    );
    registry.remove(first).unwrap();
    assert!(registry.context(first).is_none());
    assert!(registry.mark_attached(first).is_err());
    assert!(registry.tombstone(first).is_err());
    assert!(registry.remove(first).is_err());

    let cancelled = prepare(&mut registry, spec(None));
    assert_eq!(cancelled.get(), 2);
    registry.cancel_prepared(cancelled).unwrap();
    assert!(!registry.context(cancelled).unwrap().was_attached);
    registry.remove(cancelled).unwrap();
    assert!(registry.context(cancelled).is_none());

    for expected in 3..=MAX_LOADER_CONTEXTS as u16 {
        let id = prepare(&mut registry, spec(None));
        assert_eq!(id.get(), expected);
        registry.mark_attached(id).unwrap();
        registry.tombstone(id).unwrap();
        registry.remove(id).unwrap();
    }
    let allocated = registry.allocated();
    let truncated = registry.discovery_truncated();
    let error = registry.preflight(spec(None)).unwrap_err();
    assert_eq!(registry.allocated(), allocated);
    assert_eq!(registry.discovery_truncated(), truncated);
    assert!(registry.ids_for_view(ProcessViewId(7)).is_empty());
    registry.record_preflight_failure();
    assert!(error.contains("capacity 256"), "{error}");
    assert_eq!(registry.discovery_truncated(), 1);
    assert_eq!(registry.context_failures(), 1);
}

#[test]
fn loader_cookies_round_trip_signed_bounds_and_refuse_overflow() {
    for context in [1, 256] {
        for delta in [MIN_STATE_DELTA, -17, -1, 0, 1, 29, MAX_STATE_DELTA] {
            let cookie = encode_loader_cookie(context, Some(delta)).unwrap();
            let (decoded_context, decoded_delta) = decode_loader_cookie(cookie).unwrap();
            assert_eq!(decoded_context.get(), context);
            assert_eq!(decoded_delta, Some(delta));
        }
        let cookie = encode_loader_cookie(context, None).unwrap();
        let (decoded_context, decoded_delta) = decode_loader_cookie(cookie).unwrap();
        assert_eq!(decoded_context.get(), context);
        assert_eq!(decoded_delta, None);
    }
    assert!(encode_loader_cookie(0, None).is_err());
    assert!(encode_loader_cookie(257, None).is_err());
    assert!(encode_loader_cookie(1, Some(MIN_STATE_DELTA - 1)).is_err());
    assert!(encode_loader_cookie(1, Some(MAX_STATE_DELTA + 1)).is_err());
    assert!(decode_loader_cookie(0).is_err());
}

#[test]
fn loader_hit_requires_generation_mapping_identity_and_hook_ip() {
    let mut registry = LoaderRegistry::default();
    let id = prepare(&mut registry, spec(Some(0x2100)));
    assert_eq!(registry.context(id).unwrap().cookie, 256);
    registry.mark_attached(id).unwrap();

    let mut wrong_mapping = mapping();
    wrong_mapping.inode += 1;
    for (view, loader, map, hook_ip) in [
        (ProcessViewId(8), PinnedObjectId(9), mapping(), 0x4000_0100),
        (ProcessViewId(7), PinnedObjectId(10), mapping(), 0x4000_0100),
        (
            ProcessViewId(7),
            PinnedObjectId(9),
            wrong_mapping,
            0x4000_0100,
        ),
        (ProcessViewId(7), PinnedObjectId(9), mapping(), 0x4000_0101),
    ] {
        assert!(
            registry
                .validate_hit(id.case_id(), view, loader, &map, hook_ip, 5)
                .is_err()
        );
    }
    assert_eq!(registry.context_failures(), 4);
    assert_eq!(registry.context(id).unwrap().earliest_hit_ns, None);

    registry
        .validate_hit(
            id.case_id(),
            ProcessViewId(7),
            PinnedObjectId(9),
            &mapping(),
            0x4000_0100,
            50,
        )
        .unwrap();
    registry
        .validate_hit(
            id.case_id(),
            ProcessViewId(7),
            PinnedObjectId(9),
            &mapping(),
            0x4000_0100,
            40,
        )
        .unwrap();
    assert_eq!(registry.context(id).unwrap().earliest_hit_ns, Some(40));
}

#[test]
fn a_cookie_that_nothing_encodes_is_refused() {
    for cookie in [0, 1, 255, 1024, 1024 + 5] {
        assert!(!valid_loader_cookie(cookie), "{cookie}");
        assert!(decode_loader_cookie(cookie).is_err(), "{cookie}");
    }
    assert!(valid_loader_cookie(512));
    assert!(valid_loader_cookie(256));
}

#[test]
fn contexts_that_a_view_no_longer_maps_are_found() {
    let mut registry = LoaderRegistry::default();
    let first = prepare(&mut registry, spec(None));
    let second = prepare(&mut registry, spec(Some(0x2100)));
    assert_eq!(registry.ids_for_view(ProcessViewId(7)), [first, second]);
    assert!(registry.ids_for_view(ProcessViewId(8)).is_empty());
    registry.mark_attached(first).unwrap();
    registry.tombstone(first).unwrap();
    assert!(registry.is_tombstoned(first));
    assert!(!registry.is_tombstoned(second));
    assert!(registry
        .contexts_missing_from(&vec![PinnedObjectId(9)])
        .is_empty());
    assert_eq!(
        registry.contexts_missing_from(&vec![PinnedObjectId(8)]),
        [first, second]
    );
}

#[test]
fn a_retired_context_takes_only_terminal_hits() {
    let mut registry = LoaderRegistry::default();
    let id = prepare(&mut registry, spec(Some(0x2100)));
    registry.mark_attached(id).unwrap();
    let (view, loader, ip) = (ProcessViewId(7), PinnedObjectId(9), 0x4000_0100);
    assert!(registry
        .validate_terminal_hit(id, view, loader, &mapping(), ip, 5)
        .is_err());
    assert_eq!(registry.context_failures(), 1);
    registry.tombstone(id).unwrap();
    assert!(registry
        .validate_hit(id.case_id(), view, loader, &mapping(), ip, 5)
        .is_err());
    let context = registry
        .validate_terminal_hit(id, view, loader, &mapping(), ip, 5)
        .unwrap();
    assert_eq!(context.earliest_hit_ns, Some(5));
    registry.reject_hit();
    assert_eq!(registry.context_failures(), 3);
}
