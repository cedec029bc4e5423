//! Where what was left out was raised.

use p11scope::discovery::attribution::{
    lines, note, note_all, Ledger, PublishedSkip, Skipped,
};

fn skip(subject: &str, reason: &str) -> Skipped {
    Skipped {
        subject: subject.into(),
        reason: reason.into(),
    }
}

fn published(skip: &Skipped, public_reason: &str) -> PublishedSkip {
    PublishedSkip {
        skip: skip.clone(),
        public_reason: public_reason.into(),
    }
}

#[test]
fn attribution_leaves_the_public_records_byte_identical() {
    let internal = vec![
        skip(
            "owned initial-set discovery",
            "the child had not mapped it yet",
        ),
        skip(
            "live loader discovery",
            "a loader hit named a retired context",
        ),
    ];
    let render_public = |skips: &[Skipped]| format!("{skips:?}");

    let before = render_public(&internal);
    for enabled in [false, true] {
        let mut ledger = Ledger::new(enabled);
        note_all(&mut ledger, "attribution.rs:1", &internal);
        note(&mut ledger, "attribution.rs:2", &internal[0]);
        note(
            &mut ledger,
            "attribution.rs:3",
            &skip("process view", "never published"),
        );
        let report = lines(
            &ledger,
            &internal
                .iter()
                .map(|skip| published(skip, "discovery unavailable"))
                .collect(),
        );
        assert_eq!(report.is_empty(), !enabled);
    }
    let after = render_public(&internal);

    assert_eq!(
        before, after,
        "recording attribution must not change the published records"
    );
}

#[test]
fn attribution_names_the_site_its_count_and_the_unpublished_pairs() {
    let mut ledger = Ledger::new(true);
    let internal = vec![skip(
        "live loader discovery",
        "attribution self-test: context never bound",
    )];
    for _ in 0..2 {
        note(&mut ledger, "attribution.rs:209", &internal[0]);
    }
    note(
        &mut ledger,
        "attribution.rs:211",
        &skip("process view", "attribution self-test: deduplicated away"),
    );

    let lines = lines(&ledger, &vec![published(&internal[0], "discovery unavailable")]);
    assert_eq!(lines[0], "1 published record(s)", "{lines:#?}");
    assert!(
        lines[1].contains("attribution.rs:")
            && lines[1].contains(" x2")
            && lines[1].contains("\"discovery unavailable\""),
        "the published record names its site, pre-dedup count and public reason: {lines:#?}"
    );
    assert!(
        lines.iter().any(|line| line.starts_with("[not published]")
            && line.contains("attribution self-test: deduplicated away")
            && line.contains("attribution.rs:")),
        "internal pairs that never reached the document are listed: {lines:#?}"
    );
}
