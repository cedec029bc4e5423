//! Command lines, and what they are parsed to.

use p11scope::cli::{
    parse, parse_capture, parse_doctor, parse_duration, parse_inspect, parse_run, CliError, Command, Kind, PausePolicy, ScopeArg, USAGE,
};
use p11scope::discovery::hooks::{HookAbi, HookRegistry};
use std::time::Duration;

fn args(v: &[&str]) -> Vec<String> {
    v.iter().map(|s| s.to_string()).collect()
}

#[test]
fn capture_needs_no_manifest_and_accepts_repeated_discovery_flags() {
    let Command::Profile(a) = parse(args(&[
        "profile",
        "--pid",
        "42",
        "--module",
        "/opt/a.so",
        "--module",
        "/opt/b.so",
        "--manifest",
        "/tmp/m1.json",
        "--manifest",
        "/tmp/m2.json",
        "--hook-symbol",
        "V_GetTable:interface",
    ]))
    .unwrap() else {
        panic!("expected profile")
    };
    assert_eq!(a.modules.len(), 2);
    assert_eq!(a.manifests.len(), 2);
    assert_eq!(a.hooks.abi("V_GetTable"), Some(HookAbi::Interface));
    assert_eq!(a.scope, ScopeArg::Pid(42));
}

#[test]
fn inspect_and_doctor_parse_with_their_own_rules() {
    let Command::Inspect(i) = parse(args(&["inspect", "--pid", "7", "--json"])).unwrap() else {
        panic!("expected inspect")
    };
    assert_eq!((i.pid, i.json), (7, true));
    assert!(
        matches!(parse(args(&["inspect"])), Err(CliError::Usage(m)) if m.contains("--pid"))
    );

    let Command::Doctor(d) = parse(args(&["doctor"])).unwrap() else {
        panic!("expected doctor")
    };
    assert_eq!((d.pid, d.cgroup), (None, None));
}

#[test]
fn doctor_rejects_unsupported_module_option() {
    assert!(matches!(
        parse(args(&["doctor", "--module", "/opt/provider.so"])),
        Err(CliError::Usage(m)) if m.contains("doctor --module is not supported")
    ));
}

#[test]
fn scope_is_still_exactly_one_of_pid_or_cgroup_and_removed_flags_still_hint() {
    assert!(
        matches!(parse(args(&["profile"])), Err(CliError::Usage(m)) if m.contains("exactly one"))
    );
    assert!(matches!(
        parse(args(&["profile", "--pid", "1", "--cgroup", "/sys/fs/cgroup/x"])),
        Err(CliError::Usage(m)) if m.contains("mutually exclusive")
    ));
    assert!(matches!(
        parse(args(&["profile", "--pid", "1", "--provenance-module", "/opt/x.so"])),
        Err(CliError::Usage(m)) if m.contains("removed in productization slice 1a")
    ));
}

#[test]
fn a_malformed_hook_symbol_is_a_usage_error_naming_the_spec() {
    assert!(matches!(
        parse(args(&["profile", "--pid", "1", "--hook-symbol", "X:bogus"])),
        Err(CliError::Usage(m)) if m.contains("functionlist")
    ));
}

#[test]
fn duration_accepts_bare_seconds_and_suffixes() {
    assert_eq!(parse_duration("30").unwrap(), Duration::from_secs(30));
    assert_eq!(parse_duration("30s").unwrap(), Duration::from_secs(30));
    assert_eq!(parse_duration("5m").unwrap(), Duration::from_secs(300));
    assert_eq!(parse_duration("1h").unwrap(), Duration::from_secs(3600));
    for bad in ["", "5x", "-1", "s", "1.5m"] {
        assert!(parse_duration(bad).is_err(), "{bad}");
    }
}

#[test]
fn profile_requires_exactly_one_scope_and_no_manifest() {
    let a = parse_capture(
        Kind::Profile,
        args(&[
            "--manifest",
            "m.json",
            "--pid",
            "12",
            "--duration",
            "2m",
            "-o",
            "out.json",
        ]),
    )
    .unwrap();
    assert_eq!(a.scope, ScopeArg::Pid(12));
    assert_eq!(a.duration, Some(Duration::from_secs(120)));
    // A manifest is now optional: the scan is the default discovery source.
    let scan_only = parse_capture(Kind::Profile, args(&["--pid", "1"])).unwrap();
    assert!(scan_only.manifests.is_empty() && scan_only.modules.is_empty());
    assert_eq!(
        scan_only.hooks,
        HookRegistry::builtin()
    );
    assert!(
        matches!(parse_capture(Kind::Profile, args(&["--manifest", "m", "--pid", "1", "--cgroup", "/sys/fs/cgroup/x"])), Err(CliError::Usage(m)) if m.contains("mutually exclusive"))
    );
    assert!(
        matches!(parse_capture(Kind::Profile, args(&["--manifest", "m"])), Err(CliError::Usage(m)) if m.contains("exactly one of --pid or --cgroup"))
    );
}

#[test]
fn removed_flags_get_a_named_hint() {
    for flag in ["--provenance-module", "--trusted-workload"] {
        let err = parse_capture(
            Kind::Profile,
            args(&["--manifest", "m", "--pid", "1", flag, "x"]),
        )
        .unwrap_err();
        assert!(
            matches!(err, CliError::Usage(m) if m.contains("removed in productization slice 1a")),
            "{flag}"
        );
    }
    assert!(
        matches!(parse_capture(Kind::Profile, args(&["--manifest", "m", "--pid", "1", "--mode", "trace"])), Err(CliError::Usage(m)) if m.contains("trace is a subcommand"))
    );
}

#[test]
fn trace_rejects_mode_and_accepts_the_rest() {
    assert!(matches!(
        parse_capture(
            Kind::Trace,
            args(&["--manifest", "m", "--pid", "1", "--mode", "metrics"])
        ),
        Err(CliError::Usage(_))
    ));
    let a = parse_capture(
        Kind::Trace,
        args(&[
            "--manifest",
            "m",
            "--cgroup",
            "/sys/fs/cgroup/x",
            "--unsafe-unvalidated-metadata",
        ]),
    )
    .unwrap();
    assert!(a.unsafe_requested);
    assert_eq!(a.scope, ScopeArg::Cgroup(String::from("/sys/fs/cgroup/x")));
}

#[test]
fn trace_takes_a_max_events_bound_and_profile_refuses_it() {
    let a = parse_capture(Kind::Trace, args(&["--pid", "1", "--max-events", "1"])).unwrap();
    assert_eq!(a.max_events, Some(1));
    assert!(matches!(
        parse_capture(
            Kind::Profile,
            args(&["--pid", "1", "--max-events", "1"])
        ),
        Err(CliError::Usage(m)) if m.contains("--max-events is a trace option")
    ));
    assert!(matches!(
        parse_capture(Kind::Trace, args(&["--pid", "1", "--max-events", "x"])),
        Err(CliError::Usage(m)) if m.contains("invalid number")
    ));
    assert!(matches!(
        parse_capture(Kind::Trace, args(&["--pid", "1", "--max-events", "0"])),
        Err(CliError::Usage(m)) if m.contains("must be greater than zero")
    ));
}

#[test]
fn run_takes_capture_options_a_pause_policy_and_the_trailing_command() {
    let Command::Run(a) = parse(args(&[
        "run",
        "--module",
        "/opt/a.so",
        "--manifest",
        "/tmp/m.json",
        "--hook-symbol",
        "V_GetTable:interface",
        "--mode",
        "metrics",
        "--duration",
        "5m",
        "-o",
        "out.json",
        "--unsafe-unvalidated-metadata",
        "--pause",
        "always",
        "--kill-on-timeout",
        "--",
        "/usr/bin/app",
        "--pid",
        "7",
    ]))
    .unwrap() else {
        panic!("expected run")
    };
    assert_eq!(a.kind, Kind::Profile);
    assert_eq!(a.modules, vec![String::from("/opt/a.so")]);
    assert_eq!(a.manifests, vec![String::from("/tmp/m.json")]);
    assert_eq!(a.hooks.abi("V_GetTable"), Some(HookAbi::Interface));
    assert!(a.metrics);
    assert_eq!(a.duration, Some(Duration::from_secs(300)));
    assert_eq!(a.out, Some(String::from("out.json")));
    assert!(a.unsafe_requested);
    assert_eq!(a.pause, PausePolicy::Always);
    assert!(a.kill_on_timeout);
    // Everything after `--` is the command verbatim, flags included: the
    // observer must never consume an argument meant for the child.
    assert_eq!(a.command, ["/usr/bin/app", "--pid", "7"]);
}

#[test]
fn run_trace_selects_the_trace_kind_and_omitted_pause_is_never() {
    let Command::Run(a) = parse(args(&["run", "--trace", "--", "/bin/true"])).unwrap() else {
        panic!("expected run")
    };
    assert_eq!(a.kind, Kind::Trace);
    assert_eq!(a.pause, PausePolicy::Never);
    assert!(!a.kill_on_timeout);
    assert!(!a.metrics);
    assert_eq!(a.command, ["/bin/true"]);
    // `--trace` streams raw events, so it has no `--mode`, whichever order
    // the two are typed in.
    for both in [
        vec!["run", "--trace", "--mode", "metrics", "--", "/bin/true"],
        vec!["run", "--mode", "metrics", "--trace", "--", "/bin/true"],
    ] {
        assert!(
            matches!(parse(args(&both)), Err(CliError::Usage(m)) if m.contains("has no --mode")),
            "{both:?}"
        );
    }
}

#[test]
fn run_rejects_scope_flags_an_empty_command_and_unknown_pause_values() {
    for scoped in [
        vec!["run", "--pid", "1", "--", "/bin/true"],
        vec!["run", "--cgroup", "/sys/fs/cgroup/x", "--", "/bin/true"],
    ] {
        assert!(
            matches!(parse(args(&scoped)), Err(CliError::Usage(m)) if m.contains("run has no --pid or --cgroup")),
            "{scoped:?}"
        );
    }
    for empty in [
        vec!["run"],
        vec!["run", "--pause", "auto"],
        vec!["run", "--"],
        vec!["run", "--", ""],
    ] {
        assert!(
            matches!(parse(args(&empty)), Err(CliError::Usage(m)) if m.contains("-- CMD [ARGS...]")),
            "{empty:?}"
        );
    }
    assert!(matches!(
        parse(args(&["run", "--pause", "sometimes", "--", "/bin/true"])),
        Err(CliError::Usage(m)) if m.contains("never|auto|always")
    ));
    assert!(matches!(
        parse(args(&["run", "--pause"])),
        Err(CliError::Usage(m)) if m.contains("--pause requires a value")
    ));
    assert_eq!(parse(args(&["run", "--help"])).unwrap_err(), CliError::Help);
}

#[test]
fn pause_is_a_run_only_option() {
    for elsewhere in [
        vec!["profile", "--pid", "1", "--pause", "auto"],
        vec!["trace", "--pid", "1", "--pause", "never"],
        vec!["inspect", "--pid", "1", "--pause", "always"],
        vec!["doctor", "--pause", "auto"],
    ] {
        assert!(
            matches!(parse(args(&elsewhere)), Err(CliError::Usage(m)) if m.contains("`p11scope run`")),
            "{elsewhere:?}"
        );
    }
}

#[test]
fn each_pause_policy_spelling_parses_exactly() {
    for (spelling, expected) in [
        ("never", PausePolicy::Never),
        ("auto", PausePolicy::Auto),
        ("always", PausePolicy::Always),
    ] {
        let Command::Run(a) =
            parse(args(&["run", "--pause", spelling, "--", "/bin/true"])).unwrap()
        else {
            panic!("expected run")
        };
        assert_eq!(a.pause, expected, "{spelling}");
    }
}

#[test]
fn help_is_not_an_error() {
    assert_eq!(
        parse_capture(Kind::Profile, args(&["--help"])).unwrap_err(),
        CliError::Help
    );
}

#[test]
fn help_states_manifest_attestation_and_scan_only_limits() {
    for statement in [
        "--manifest is explicit operator attestation of exact accepted function-name/offset claims",
        "scan-only discovery is semantics-unverified and count-only",
        "aggregate counts/RVs/latency remain available",
    ] {
        assert!(
            USAGE.contains(statement),
            "missing help statement: {statement}"
        );
    }
}

#[test]
fn a_subcommand_is_required_and_removed_ones_are_named() {
    assert!(matches!(
        parse(args(&[])),
        Err(CliError::Usage(m)) if m.starts_with("missing subcommand\nusage:")
    ));
    assert!(matches!(
        parse(args(&["discover", "--module", "x.so"])),
        Err(CliError::Usage(m)) if m.starts_with("`p11scope discover` was removed")
    ));
    assert!(matches!(
        parse(args(&["record"])),
        Err(CliError::Usage(m)) if m.starts_with("unknown subcommand: record")
    ));
    assert_eq!(parse(args(&["-h"])).unwrap_err(), CliError::Help);
}

#[test]
fn a_value_that_does_not_parse_is_quoted() {
    assert!(matches!(
        parse(args(&["profile", "--pid", "a\"b"])),
        Err(CliError::Usage(m)) if m.starts_with("--pid: invalid number \"a\\\"b\"\n")
    ));
    assert_eq!(
        parse_duration("5\tx").unwrap_err(),
        "invalid duration \"5\\tx\""
    );
    assert_eq!(parse_duration("").unwrap_err(), "empty duration");
    assert_eq!(
        parse_duration("5124095576030432h").unwrap_err(),
        "duration \"5124095576030432h\" overflows"
    );
    assert_eq!(
        parse_duration("5124095576030431h").unwrap(),
        Duration::from_secs(5124095576030431 * 3600)
    );
}

#[test]
fn another_command_changes_only_the_command() {
    let Command::Run(a) = parse(args(&["run", "--pause", "auto", "--", "/bin/true"])).unwrap()
    else {
        panic!("expected run")
    };
    let Command::Run(b) = parse(args(&[
        "run", "--pause", "auto", "--", "/bin/sh", "--trace", "--", "--pause", "never",
    ]))
    .unwrap() else {
        panic!("expected run")
    };
    assert_eq!(b.command, ["/bin/sh", "--trace", "--", "--pause", "never"]);
    assert_eq!((a.kind, a.pause), (b.kind, b.pause));
    assert_eq!(a.command, ["/bin/true"]);
}

#[test]
fn a_flag_without_its_value_is_named() {
    for flag in ["--module", "--manifest", "--mode", "--duration", "-o", "--pid", "--cgroup"] {
        assert!(
            matches!(parse(args(&["profile", flag])), Err(CliError::Usage(m)) if m.starts_with(&format!("{flag} requires a value"))),
            "{flag}"
        );
    }
    assert!(matches!(
        parse(args(&["profile", "--pid", "1", "--frobnicate"])),
        Err(CliError::Usage(m)) if m.starts_with("unknown argument: --frobnicate")
    ));
}

#[test]
fn a_subcommand_reads_the_arguments_behind_its_name() {
    let rest = ["--cgroup", "/sys/fs/cgroup/x", "--duration", "5m", "-o", "out"];
    let line = |name: &str| -> Vec<String> {
        let mut line = vec![name.to_owned()];
        line.extend(args(&rest));
        line
    };
    assert_eq!(
        parse(line("profile")),
        parse_capture(Kind::Profile, args(&rest)).map(Command::Profile)
    );
    assert_eq!(
        parse(line("trace")),
        parse_capture(Kind::Trace, args(&rest)).map(Command::Trace)
    );
    assert_eq!(parse(args(&["-h", "profile"])), Err(CliError::Help));
    assert!(matches!(parse(args(&["frobnicate"])), Err(CliError::Usage(_))));
    assert!(matches!(parse(Vec::new()), Err(CliError::Usage(_))));
}

#[test]
fn whatever_follows_the_dashes_is_the_command() {
    let options = ["--pause", "auto", "--kill-on-timeout", "-o", "out"];
    let line = |command: &[&str]| {
        let mut line = args(&options);
        line.push("--".to_owned());
        line.extend(args(command));
        line
    };
    let one = parse_run(line(&["x"])).unwrap();
    assert_eq!(one.command, ["x"]);
    let tail = ["y", "--pid", "1", "--help", "--", "--pause", "never", ""];
    let other = parse_run(line(&tail)).unwrap();
    assert_eq!(other.command, tail);
    let mut same = other.clone();
    same.command = one.command.clone();
    assert_eq!(same, one);
    let mut whole = vec!["run".to_owned()];
    whole.extend(line(&tail));
    assert_eq!(parse(whole), Ok(Command::Run(other)));
}

#[test]
fn inspect_and_doctor_read_the_arguments_behind_their_names() {
    let rest = ["--pid", "7"];
    assert_eq!(
        parse(args(&["inspect", "--pid", "7"])),
        parse_inspect(args(&rest)).map(Command::Inspect)
    );
    assert_eq!(
        parse(args(&["doctor", "--pid", "7"])),
        parse_doctor(args(&rest)).map(Command::Doctor)
    );
    assert!(matches!(parse_inspect(Vec::new()), Err(CliError::Usage(_))));
    assert!(parse_doctor(Vec::new()).is_ok());
}

#[test]
fn the_removed_subcommand_names_the_helper() {
    let CliError::Usage(message) = parse(args(&["discover"])).unwrap_err() else {
        panic!("expected usage")
    };
    assert!(message.starts_with(
        "`p11scope discover` was removed: run `p11scope-discover --module <provider.so> -o "
    ));
    assert!(message.contains("(offline helper; executes provider code)\n"));
    assert!(message.ends_with(USAGE));
}
