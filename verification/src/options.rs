//! What each argument of a command line does: it sets what it names, and nothing else.

use crate::cli::{
    command_line, doctor_from, duration_of_secs, duration_value, end_run, inspect_from,
    lemma_option_moves_on, no_options, no_run_options, pid_at, read_hook, read_option, read_pause,
    scan_capture, scan_run, value_at, CaptureText, CliRefusal, CommandText, CommonText, DoctorText,
    InspectText, Kind, PausePolicy, RunOptions, RunText, ScopeText,
};
use crate::discovery::hooks::{builtin_hooks, hook_added, hook_spec, Hooks};
use crate::text::{digits_value, is_digit, unsigned_value, Text};
use vstd::prelude::*;
use vstd::string::*;

verus! {

/// The words of the command line differ.
proof fn lemma_words()
    ensures
        "-o"@.len() == 2 && "-o"@[1] == 'o',
        "-h"@.len() == 2 && "-h"@[1] == 'h',
        "--"@.len() == 2 && "--"@[1] == '-',
        "--module"@.len() == 8 && "--module"@[2] == 'm',
        "--cgroup"@.len() == 8 && "--cgroup"@[2] == 'c',
        "--manifest"@.len() == 10 && "--manifest"@[2] == 'm',
        "--duration"@.len() == 10 && "--duration"@[2] == 'd',
        "--hook-symbol"@.len() == 13,
        "--mode"@.len() == 6 && "--mode"@[2] == 'm',
        "--help"@.len() == 6 && "--help"@[2] == 'h',
        "--json"@.len() == 6 && "--json"@[2] == 'j',
        "--max-events"@.len() == 12,
        "--unsafe-unvalidated-metadata"@.len() == 29,
        "--pid"@.len() == 5,
        "--trace"@.len() == 7 && "--trace"@[2] == 't',
        "--pause"@.len() == 7 && "--pause"@[2] == 'p',
        "--kill-on-timeout"@.len() == 17,
        "metrics"@.len() == 7 && "metrics"@[0] == 'm',
        "profile"@.len() == 7 && "profile"@[0] == 'p',
        "inspect"@.len() == 7 && "inspect"@[0] == 'i',
        "trace"@.len() == 5,
        "run"@.len() == 3,
        "doctor"@.len() == 6,
        "never"@.len() == 5,
        "auto"@.len() == 4,
        "always"@.len() == 6,
{
    reveal_strlit("-o");
    reveal_strlit("-h");
    reveal_strlit("--");
    reveal_strlit("--module");
    reveal_strlit("--cgroup");
    reveal_strlit("--manifest");
    reveal_strlit("--duration");
    reveal_strlit("--hook-symbol");
    reveal_strlit("--mode");
    reveal_strlit("--help");
    reveal_strlit("--json");
    reveal_strlit("--max-events");
    reveal_strlit("--unsafe-unvalidated-metadata");
    reveal_strlit("--pid");
    reveal_strlit("--trace");
    reveal_strlit("--pause");
    reveal_strlit("--kill-on-timeout");
    reveal_strlit("metrics");
    reveal_strlit("profile");
    reveal_strlit("inspect");
    reveal_strlit("trace");
    reveal_strlit("run");
    reveal_strlit("doctor");
    reveal_strlit("never");
    reveal_strlit("auto");
    reveal_strlit("always");
}

/// An option that was read reads the same whatever stands behind it.
proof fn lemma_option_extends(c: CommonText, args: Seq<Text>, tail: Seq<Text>, at: int)
    requires
        0 <= at < args.len(),
        read_option(c, args, at) is Ok,
    ensures
        read_option(c, args + tail, at) == read_option(c, args, at),
{
    reveal(read_option);
    let more = args + tail;
    assert(more[at] == args[at]);
    if at + 1 < args.len() {
        assert(more[at + 1] == args[at + 1]);
    }
}

/// What a capture read so far stays, whatever stands behind it.
proof fn lemma_capture_extends(
    c: CommonText,
    pid: Option<u32>,
    cgroup: Option<Text>,
    args: Seq<Text>,
    tail: Seq<Text>,
    at: int,
)
    requires
        0 <= at <= args.len(),
        scan_capture(c, pid, cgroup, args, at) is Ok,
    ensures
        ({
            let (d, p, g) = scan_capture(c, pid, cgroup, args, at)->Ok_0;
            scan_capture(c, pid, cgroup, args + tail, at) == scan_capture(
                d,
                p,
                g,
                args + tail,
                args.len() as int,
            )
        }),
    decreases args.len() - at,
{
    if at < args.len() {
        let more = args + tail;
        lemma_option_extends(c, args, tail, at);
        lemma_option_moves_on(c, args, at);
        assert(more[at] == args[at]);
        if at + 1 < args.len() {
            assert(more[at + 1] == args[at + 1]);
        }
        match read_option(c, args, at) {
            Ok(Some((d, next))) => {
                lemma_capture_extends(d, pid, cgroup, args, tail, next);
            },
            _ => {
                if args[at] == "--pid"@ {
                    let p = pid_at(args, at + 1)->Ok_0;
                    lemma_capture_extends(c, Some(p), cgroup, args, tail, at + 2);
                } else {
                    let g = value_at(args, at + 1, "--cgroup"@)->Ok_0;
                    lemma_capture_extends(c, pid, Some(g), args, tail, at + 2);
                }
            },
        }
    }
}

/// What a command line of a capture means, if it is one.
pub open spec fn capture_of(args: Seq<Text>) -> Option<CaptureText> {
    match command_line(args) {
        Ok(CommandText::Profile(capture)) => Some(capture),
        Ok(CommandText::Trace(capture)) => Some(capture),
        _ => None,
    }
}

/// A capture line with more behind it: what the rest is read with.
proof fn lemma_capture_goes_on(args: Seq<Text>, tail: Seq<Text>) -> (r: (
    CommonText,
    Option<u32>,
    Option<Text>,
))
    requires
        capture_of(args) is Some,
    ensures
        args.len() > 0,
        (args + tail)[0] == args[0],
        args[0] == "profile"@ || args[0] == "trace"@,
        scan_capture(no_options(), None, None, args, 1) == Ok::<_, CliRefusal>(r),
        scan_capture(no_options(), None, None, args + tail, 1) == scan_capture(
            r.0,
            r.1,
            r.2,
            args + tail,
            args.len() as int,
        ),
{
    lemma_words();
    lemma_capture_extends(no_options(), None, None, args, tail, 1);
    scan_capture(no_options(), None, None, args, 1)->Ok_0
}

/// `-o v` behind a capture sets the output to `v`, whatever it was, and nothing else.
pub proof fn lemma_output_is_set(args: Seq<Text>, v: Text)
    requires
        capture_of(args) is Some,
    ensures
        capture_of(args + seq!["-o"@, v]) == Some(
            (CaptureText { out: Some(v), ..capture_of(args)->Some_0 }),
        ),
        command_line(args + seq!["-o"@]) is Err,
{
    let tail = seq!["-o"@, v];
    let (c, p, g) = lemma_capture_goes_on(args, tail);
    let n = args.len() as int;
    let more = args + tail;
    lemma_words();
    reveal(read_option);
    assert(more[n] == "-o"@ && more[n + 1] == v);
    reveal_with_fuel(scan_capture, 2);
    let short = args + seq!["-o"@];
    let s = lemma_capture_goes_on(args, seq!["-o"@]);
    assert(short[n] == "-o"@);
}

/// `--module v` behind a capture adds the module `v` behind those that were named, and nothing
/// else.
pub proof fn lemma_module_is_added(args: Seq<Text>, v: Text)
    requires
        capture_of(args) is Some,
    ensures
        capture_of(args + seq!["--module"@, v]) == Some(
            (CaptureText {
                modules: capture_of(args)->Some_0.modules.push(v),
                ..capture_of(args)->Some_0
            }),
        ),
{
    let tail = seq!["--module"@, v];
    let s = lemma_capture_goes_on(args, tail);
    let n = args.len() as int;
    let more = args + tail;
    lemma_words();
    reveal(read_option);
    assert(more[n] == "--module"@ && more[n + 1] == v);
    reveal_with_fuel(scan_capture, 2);
}

/// `--manifest v` behind a capture adds the manifest `v` behind those that were named, and nothing
/// else.
pub proof fn lemma_manifest_is_added(args: Seq<Text>, v: Text)
    requires
        capture_of(args) is Some,
    ensures
        capture_of(args + seq!["--manifest"@, v]) == Some(
            (CaptureText {
                manifests: capture_of(args)->Some_0.manifests.push(v),
                ..capture_of(args)->Some_0
            }),
        ),
{
    let tail = seq!["--manifest"@, v];
    let s = lemma_capture_goes_on(args, tail);
    let n = args.len() as int;
    let more = args + tail;
    lemma_words();
    reveal(read_option);
    assert(more[n] == "--manifest"@ && more[n + 1] == v);
    reveal_with_fuel(scan_capture, 2);
}

/// `--unsafe-unvalidated-metadata` behind a capture asks for such metadata, and for nothing else.
pub proof fn lemma_metadata_is_asked_for(args: Seq<Text>)
    requires
        capture_of(args) is Some,
    ensures
        capture_of(args + seq!["--unsafe-unvalidated-metadata"@]) == Some(
            (CaptureText { unsafe_requested: true, ..capture_of(args)->Some_0 }),
        ),
{
    let tail = seq!["--unsafe-unvalidated-metadata"@];
    let s = lemma_capture_goes_on(args, tail);
    let n = args.len() as int;
    let more = args + tail;
    lemma_words();
    reveal(read_option);
    assert(more[n] == "--unsafe-unvalidated-metadata"@);
    reveal_with_fuel(scan_capture, 2);
}

/// `--duration v` behind a capture sets its duration to what `v` says, and nothing else; a `v` that
/// says none is refused.
pub proof fn lemma_duration_is_set(args: Seq<Text>, v: Text)
    requires
        capture_of(args) is Some,
    ensures
        match duration_value(v) {
            Ok(duration) => capture_of(args + seq!["--duration"@, v]) == Some(
                (CaptureText { duration: Some(duration), ..capture_of(args)->Some_0 }),
            ),
            Err(_) => command_line(args + seq!["--duration"@, v]) is Err,
        },
{
    let tail = seq!["--duration"@, v];
    let s = lemma_capture_goes_on(args, tail);
    let n = args.len() as int;
    let more = args + tail;
    lemma_words();
    reveal(read_option);
    assert(more[n] == "--duration"@ && more[n + 1] == v);
    reveal_with_fuel(scan_capture, 2);
}

/// `--hook-symbol v` behind a capture adds the symbol that `v` names, and nothing else; a `v` that
/// names none is refused.
pub proof fn lemma_hook_is_added(args: Seq<Text>, v: Text)
    requires
        capture_of(args) is Some,
    ensures
        match hook_spec(v) {
            Ok((name, abi)) => capture_of(args + seq!["--hook-symbol"@, v]) == Some(
                (CaptureText {
                    hooks: hook_added(capture_of(args)->Some_0.hooks, name, abi),
                    ..capture_of(args)->Some_0
                }),
            ),
            Err(_) => command_line(args + seq!["--hook-symbol"@, v]) is Err,
        },
{
    let tail = seq!["--hook-symbol"@, v];
    let s = lemma_capture_goes_on(args, tail);
    let n = args.len() as int;
    let more = args + tail;
    lemma_words();
    reveal(read_option);
    assert(more[n] == "--hook-symbol"@ && more[n + 1] == v);
    reveal_with_fuel(scan_capture, 2);
}

/// `--mode` behind a profile chooses the lighter level or the full one, and nothing else; a trace
/// has no mode.
pub proof fn lemma_mode_is_set(args: Seq<Text>)
    requires
        capture_of(args) is Some,
    ensures
        capture_of(args)->Some_0.kind == Kind::Profile ==> capture_of(
            args + seq!["--mode"@, "metrics"@],
        ) == Some((CaptureText { metrics: true, ..capture_of(args)->Some_0 })) && capture_of(
            args + seq!["--mode"@, "profile"@],
        ) == Some((CaptureText { metrics: false, ..capture_of(args)->Some_0 })),
        capture_of(args)->Some_0.kind == Kind::Trace ==> command_line(
            args + seq!["--mode"@, "metrics"@],
        ) is Err && command_line(args + seq!["--mode"@, "profile"@]) is Err,
{
    let n = args.len() as int;
    lemma_words();
    reveal(read_option);
    let light = seq!["--mode"@, "metrics"@];
    let s = lemma_capture_goes_on(args, light);
    assert((args + light)[n] == "--mode"@ && (args + light)[n + 1] == "metrics"@);
    let full = seq!["--mode"@, "profile"@];
    let f = lemma_capture_goes_on(args, full);
    assert((args + full)[n] == "--mode"@ && (args + full)[n + 1] == "profile"@);
    reveal_with_fuel(scan_capture, 2);
}

/// `--max-events v` behind a trace bounds its events by the number that `v` is, which is not zero,
/// and changes nothing else; a profile has no such bound.
pub proof fn lemma_bound_is_set(args: Seq<Text>, v: Text)
    requires
        capture_of(args) is Some,
    ensures
        match unsigned_value(v, u64::MAX as nat) {
            Some(number) => if capture_of(args)->Some_0.kind == Kind::Trace && number > 0 {
                capture_of(args + seq!["--max-events"@, v]) == Some(
                    (CaptureText {
                        max_events: Some(number as u64),
                        ..capture_of(args)->Some_0
                    }),
                )
            } else {
                command_line(args + seq!["--max-events"@, v]) is Err
            },
            None => command_line(args + seq!["--max-events"@, v]) is Err,
        },
{
    let tail = seq!["--max-events"@, v];
    let s = lemma_capture_goes_on(args, tail);
    let n = args.len() as int;
    let more = args + tail;
    lemma_words();
    reveal(read_option);
    assert(more[n] == "--max-events"@ && more[n + 1] == v);
    reveal_with_fuel(scan_capture, 2);
}

/// `--pid v` behind a capture of a process makes it one of the process `v` and changes nothing
/// else; a capture of a control group has no process.
pub proof fn lemma_process_is_set(args: Seq<Text>, v: Text)
    requires
        capture_of(args) is Some,
    ensures
        match (capture_of(args)->Some_0.scope, unsigned_value(v, 0xffff_ffff)) {
            (ScopeText::Pid(_), Some(pid)) => capture_of(args + seq!["--pid"@, v]) == Some(
                (CaptureText { scope: ScopeText::Pid(pid as u32), ..capture_of(args)->Some_0 }),
            ),
            _ => command_line(args + seq!["--pid"@, v]) is Err,
        },
{
    let n = args.len() as int;
    lemma_words();
    let process = seq!["--pid"@, v];
    let s = lemma_capture_goes_on(args, process);
    assert((args + process)[n] == "--pid"@ && (args + process)[n + 1] == v);
    assert(read_option(s.0, args + process, n) == Ok::<Option<(CommonText, int)>, CliRefusal>(None))
        by {
        reveal(read_option);
    }
    reveal_with_fuel(scan_capture, 2);
}

/// `--cgroup v` behind a capture of a control group makes it one of the control group `v` and
/// changes nothing else; a capture of a process has no control group.
pub proof fn lemma_group_is_set(args: Seq<Text>, v: Text)
    requires
        capture_of(args) is Some,
    ensures
        match capture_of(args)->Some_0.scope {
            ScopeText::Pid(_) => command_line(args + seq!["--cgroup"@, v]) is Err,
            ScopeText::Cgroup(_) => capture_of(args + seq!["--cgroup"@, v]) == Some(
                (CaptureText { scope: ScopeText::Cgroup(v), ..capture_of(args)->Some_0 }),
            ),
        },
{
    let n = args.len() as int;
    lemma_words();
    let group = seq!["--cgroup"@, v];
    let s = lemma_capture_goes_on(args, group);
    assert((args + group)[n] == "--cgroup"@ && (args + group)[n + 1] == v);
    assert(read_option(s.0, args + group, n) == Ok::<Option<(CommonText, int)>, CliRefusal>(None))
        by {
        reveal(read_option);
    }
    reveal_with_fuel(scan_capture, 2);
}

/// Whether a word is an argument of `profile` and `trace`.
pub open spec fn is_capture_word(word: Text) -> bool {
    word == "-o"@ || word == "--module"@ || word == "--manifest"@ || word == "--hook-symbol"@ || word
        == "--mode"@ || word == "--duration"@ || word == "--max-events"@ || word
        == "--unsafe-unvalidated-metadata"@ || word == "--pid"@ || word == "--cgroup"@
}

/// Any other word behind a capture is refused, and a question for help is answered with the help.
pub proof fn lemma_other_words_are_refused(args: Seq<Text>, word: Text, tail: Seq<Text>)
    requires
        capture_of(args) is Some,
        !is_capture_word(word),
    ensures
        command_line(args + (seq![word] + tail)) is Err,
        word == "--help"@ || word == "-h"@ ==> command_line(args + (seq![word] + tail)) == Err::<
            CommandText,
            CliRefusal,
        >(CliRefusal::Help),
{
    let s = lemma_capture_goes_on(args, seq![word] + tail);
    let n = args.len() as int;
    let more = args + (seq![word] + tail);
    lemma_words();
    reveal(read_option);
    assert(more[n] == word);
}

/// A capture with nothing but its scope.
pub open spec fn bare_capture(kind: Kind, scope: ScopeText) -> CaptureText {
    CaptureText {
        kind,
        modules: Seq::empty(),
        manifests: Seq::empty(),
        hooks: builtin_hooks(),
        scope,
        metrics: false,
        duration: None,
        out: None,
        max_events: None,
        unsafe_requested: false,
    }
}

/// A capture of a process, or of a control group, with nothing else asked for.
pub proof fn lemma_bare_captures(v: Text)
    ensures
        match unsigned_value(v, 0xffff_ffff) {
            Some(pid) => {
                &&& command_line(seq!["profile"@, "--pid"@, v]) == Ok::<CommandText, CliRefusal>(
                    CommandText::Profile(bare_capture(Kind::Profile, ScopeText::Pid(pid as u32))),
                )
                &&& command_line(seq!["trace"@, "--pid"@, v]) == Ok::<CommandText, CliRefusal>(
                    CommandText::Trace(bare_capture(Kind::Trace, ScopeText::Pid(pid as u32))),
                )
            },
            None => command_line(seq!["profile"@, "--pid"@, v]) is Err && command_line(
                seq!["trace"@, "--pid"@, v],
            ) is Err,
        },
        command_line(seq!["profile"@, "--cgroup"@, v]) == Ok::<CommandText, CliRefusal>(
            CommandText::Profile(bare_capture(Kind::Profile, ScopeText::Cgroup(v))),
        ),
        command_line(seq!["trace"@, "--cgroup"@, v]) == Ok::<CommandText, CliRefusal>(
            CommandText::Trace(bare_capture(Kind::Trace, ScopeText::Cgroup(v))),
        ),
{
    lemma_words();
    reveal(read_option);
    reveal_with_fuel(scan_capture, 3);
}

/// A capture of a process whose output is named goes to that output.
pub proof fn lemma_output_of_a_process(pid: Text, v: Text)
    requires
        unsigned_value(pid, 0xffff_ffff) is Some,
    ensures
        command_line(seq!["profile"@, "--pid"@, pid, "-o"@, v]) matches Ok(CommandText::Profile(
            capture,
        )) && capture.out == Some(v) && capture.scope == ScopeText::Pid(
            unsigned_value(pid, 0xffff_ffff)->Some_0 as u32,
        ),
        command_line(seq!["trace"@, "--pid"@, pid, "-o"@, v]) matches Ok(CommandText::Trace(
            capture,
        )) && capture.out == Some(v) && capture.scope == ScopeText::Pid(
            unsigned_value(pid, 0xffff_ffff)->Some_0 as u32,
        ),
{
    lemma_bare_captures(pid);
    lemma_words();
    let profile = seq!["profile"@, "--pid"@, pid];
    lemma_output_is_set(profile, v);
    assert(profile + seq!["-o"@, v] =~= seq!["profile"@, "--pid"@, pid, "-o"@, v]);
    let trace = seq!["trace"@, "--pid"@, pid];
    lemma_output_is_set(trace, v);
    assert(trace + seq!["-o"@, v] =~= seq!["trace"@, "--pid"@, pid, "-o"@, v]);
}

/// What a command line of `run` means, if it is one.
pub open spec fn run_of(args: Seq<Text>) -> Option<RunText> {
    match command_line(args) {
        Ok(CommandText::Run(run)) => Some(run),
        _ => None,
    }
}

/// A command line with a command behind its options.
pub open spec fn with_command(options: Seq<Text>, command: Seq<Text>) -> Seq<Text> {
    options + (seq!["--"@] + command)
}

/// What `run` read up to its command it reads of any line that begins so.
proof fn lemma_run_extends(
    c: CommonText,
    o: RunOptions,
    a: Seq<Text>,
    b: Seq<Text>,
    at: int,
    k: int,
)
    requires
        0 <= at <= k < a.len(),
        k <= b.len(),
        a.take(k) == b.take(k),
        scan_run(c, o, a, at) matches Ok((_, _, start)) && start == k + 1,
        a[k] == "--"@,
        k + 1 < a.len(),
    ensures
        ({
            let (d, p, start) = scan_run(c, o, a, at)->Ok_0;
            scan_run(c, o, b, at) == scan_run(d, p, b, k)
        }),
    decreases a.len() - at,
{
    lemma_words();
    lemma_option_moves_on(c, a, at);
    if at < k {
        assert(a[at] == a.take(k)[at]);
        assert(b[at] == b.take(k)[at]);
        lemma_run_reaches(c, o, a, at, k);
        if at + 1 < k {
            assert(a[at + 1] == a.take(k)[at + 1]);
            assert(b[at + 1] == b.take(k)[at + 1]);
        }
        match read_option(c, a, at) {
            Ok(Some((d, next))) => {
                assert(read_option(c, b, at) == read_option(c, a, at)) by {
                    reveal(read_option);
                }
                lemma_option_moves_on(c, b, at);
                lemma_run_extends(d, o, a, b, next, k);
            },
            _ => {
                assert(read_option(c, b, at) == read_option(c, a, at)) by {
                    reveal(read_option);
                }
                if a[at] == "--trace"@ {
                    lemma_run_extends(c, RunOptions { trace: true, ..o }, a, b, at + 1, k);
                } else if a[at] == "--pause"@ {
                    let pause = read_pause(a, at + 1)->Ok_0;
                    lemma_run_extends(c, RunOptions { pause, ..o }, a, b, at + 2, k);
                } else if a[at] == "--kill-on-timeout"@ {
                    lemma_run_extends(
                        c,
                        RunOptions { kill_on_timeout: true, ..o },
                        a,
                        b,
                        at + 1,
                        k,
                    );
                }
            },
        }
    } else {
        assert(read_option(c, a, at) == Ok::<Option<(CommonText, int)>, CliRefusal>(None)) by {
            reveal(read_option);
        }
    }
}

/// An argument of `run` that stands before its command ends before it.
proof fn lemma_run_reaches(c: CommonText, o: RunOptions, a: Seq<Text>, at: int, k: int)
    requires
        0 <= at < k,
        k + 1 < a.len(),
        scan_run(c, o, a, at) matches Ok((_, _, start)) && start == k + 1,
    ensures
        read_option(c, a, at) matches Ok(Some((_, next))) ==> next <= k,
        read_option(c, a, at) == Ok::<Option<(CommonText, int)>, CliRefusal>(None) ==> a[at]
            != "--"@ && (a[at] == "--pause"@ ==> at + 2 <= k),
{
    lemma_option_moves_on(c, a, at);
    lemma_words();
    match read_option(c, a, at) {
        Ok(Some((d, next))) => {
            lemma_run_start(d, o, a, next);
        },
        _ => {
            if a[at] == "--pause"@ {
                let pause = read_pause(a, at + 1)->Ok_0;
                lemma_run_start(c, RunOptions { pause, ..o }, a, at + 2);
            }
        },
    }
}

/// The command of `run` begins behind where the reading began.
proof fn lemma_run_start(c: CommonText, o: RunOptions, a: Seq<Text>, at: int)
    requires
        0 <= at,
    ensures
        scan_run(c, o, a, at) matches Ok((_, _, start)) ==> start <= a.len() && (start > at || start
            == a.len()) && (at <= a.len() ==> start >= at),
    decreases a.len() - at,
{
    if at < a.len() {
        lemma_option_moves_on(c, a, at);
        match read_option(c, a, at) {
            Ok(Some((d, next))) => {
                lemma_run_start(d, o, a, next);
            },
            _ => {
                lemma_run_start(c, RunOptions { trace: true, ..o }, a, at + 1);
                lemma_run_start(c, RunOptions { kill_on_timeout: true, ..o }, a, at + 1);
                if let Ok(pause) = read_pause(a, at + 1) {
                    lemma_run_start(c, RunOptions { pause, ..o }, a, at + 2);
                }
            },
        }
    }
}

/// A line of `run` with more options before its command: what those are read with.
proof fn lemma_run_goes_on(options: Seq<Text>, extra: Seq<Text>, command: Seq<Text>) -> (r: (
    CommonText,
    RunOptions,
))
    requires
        options.len() > 0,
        run_of(with_command(options, command)) matches Some(run) && run.command == command,
    ensures
        options[0] == "run"@,
        with_command(options + extra, command)[0] == "run"@,
        command.len() > 0 && command[0].len() > 0,
        scan_run(no_options(), no_run_options(), with_command(options, command), 1) == Ok::<
            _,
            CliRefusal,
        >((r.0, r.1, (options.len() + 1) as int)),
        scan_run(no_options(), no_run_options(), with_command(options + extra, command), 1)
            == scan_run(r.0, r.1, with_command(options + extra, command), options.len() as int),
        with_command(options + extra, command).skip((options.len() + extra.len() + 1) as int)
            == command,
        with_command(options + extra, command)[(options.len() + extra.len()) as int] == "--"@,
        with_command(options + extra, command).len() == options.len() + extra.len() + 1
            + command.len(),
        forall|i: int|
            0 <= i < extra.len() ==> with_command(options + extra, command)[options.len() + i]
                == #[trigger] extra[i],
{
    lemma_words();
    let a = with_command(options, command);
    let b = with_command(options + extra, command);
    let k = options.len() as int;
    assert(a[0] == options[0]);
    assert(b[0] == options[0]);
    let (c, o, start) = scan_run(no_options(), no_run_options(), a, 1)->Ok_0;
    lemma_run_start(no_options(), no_run_options(), a, 1);
    assert(a.skip(start) == command);
    assert(a.skip(start).len() == a.len() - start);
    assert(start == k + 1);
    assert(a.take(k) =~= b.take(k));
    assert(a[k] == "--"@);
    assert(k >= 1);
    lemma_run_extends(no_options(), no_run_options(), a, b, 1, k);
    assert(b.skip(k + extra.len() + 1) =~= command);
    (c, o)
}

/// What `run` had read before its command.
spec fn read_before(options: Seq<Text>, command: Seq<Text>) -> (CommonText, RunOptions) {
    let (c, o, _) = scan_run(
        no_options(),
        no_run_options(),
        with_command(options, command),
        1,
    )->Ok_0;
    (c, o)
}

/// What a run comes to.
spec fn run_end(c: CommonText, o: RunOptions, command: Seq<Text>) -> Result<
    CommandText,
    CliRefusal,
> {
    match end_run(c, o, command) {
        Ok(run) => Ok(CommandText::Run(run)),
        Err(refusal) => Err(refusal),
    }
}

/// One more option before the command of `run` is read with what was read before it.
proof fn lemma_run_takes(options: Seq<Text>, extra: Seq<Text>, command: Seq<Text>)
    requires
        options.len() > 0,
        extra.len() > 0,
        run_of(with_command(options, command)) matches Some(run) && run.command == command,
    ensures
        ({
            let (c, o) = read_before(options, command);
            let line = with_command(options + extra, command);
            let n = options.len() as int;
            &&& command_line(with_command(options, command)) == run_end(c, o, command)
            &&& read_option(c, line, n) is Err ==> command_line(line) is Err
            &&& read_option(c, line, n) matches Ok(Some((d, next))) ==> (next == n + extra.len()
                ==> command_line(line) == run_end(d, o, command))
        }),
{
    let r = lemma_run_goes_on(options, extra, command);
    lemma_words();
    let (c, o) = read_before(options, command);
    let line = with_command(options + extra, command);
    let n = options.len() as int;
    let base = with_command(options, command);
    assert(base.skip(n + 1) =~= command);
    assert(base[0] == options[0]);
    if let Ok(Some((d, next))) = read_option(c, line, n) {
        if next == n + extra.len() {
            assert(line[next] == "--"@);
            assert(read_option(d, line, next) == Ok::<Option<(CommonText, int)>, CliRefusal>(None))
                by {
                reveal(read_option);
            }
            assert(scan_run(d, o, line, next) == Ok::<_, CliRefusal>((d, o, next + 1)));
            assert(scan_run(c, o, line, n) == scan_run(d, o, line, next));
        }
    }
}

/// `-o v` among the options of `run` sets the output to `v`, and nothing else.
pub proof fn lemma_run_output(options: Seq<Text>, v: Text, command: Seq<Text>)
    requires
        options.len() > 0,
        run_of(with_command(options, command)) matches Some(run) && run.command == command,
    ensures
        run_of(with_command(options + seq!["-o"@, v], command)) == Some(
            (RunText { out: Some(v), ..run_of(with_command(options, command))->Some_0 }),
        ),
{
    let extra = seq!["-o"@, v];
    lemma_run_takes(options, extra, command);
    let r = lemma_run_goes_on(options, extra, command);
    assert(extra[0] == "-o"@ && extra[1] == v);
    lemma_words();
    reveal(read_option);
}

/// `--module v` among the options of `run` adds the module `v`, and nothing else.
pub proof fn lemma_run_module(options: Seq<Text>, v: Text, command: Seq<Text>)
    requires
        options.len() > 0,
        run_of(with_command(options, command)) matches Some(run) && run.command == command,
    ensures
        ({
            let run = run_of(with_command(options, command))->Some_0;
            run_of(with_command(options + seq!["--module"@, v], command)) == Some(
                (RunText { modules: run.modules.push(v), ..run }),
            )
        }),
{
    let extra = seq!["--module"@, v];
    lemma_run_takes(options, extra, command);
    let r = lemma_run_goes_on(options, extra, command);
    assert(extra[0] == "--module"@ && extra[1] == v);
    lemma_words();
    reveal(read_option);
}

/// `--manifest v` among the options of `run` adds the manifest `v`, and nothing else.
pub proof fn lemma_run_manifest(options: Seq<Text>, v: Text, command: Seq<Text>)
    requires
        options.len() > 0,
        run_of(with_command(options, command)) matches Some(run) && run.command == command,
    ensures
        ({
            let run = run_of(with_command(options, command))->Some_0;
            run_of(with_command(options + seq!["--manifest"@, v], command)) == Some(
                (RunText { manifests: run.manifests.push(v), ..run }),
            )
        }),
{
    let extra = seq!["--manifest"@, v];
    lemma_run_takes(options, extra, command);
    let r = lemma_run_goes_on(options, extra, command);
    assert(extra[0] == "--manifest"@ && extra[1] == v);
    lemma_words();
    reveal(read_option);
}

/// `--duration v` among the options of `run` sets the duration to what `v` says, and nothing else.
pub proof fn lemma_run_duration(options: Seq<Text>, v: Text, command: Seq<Text>)
    requires
        options.len() > 0,
        run_of(with_command(options, command)) matches Some(run) && run.command == command,
    ensures
        ({
            let run = run_of(with_command(options, command))->Some_0;
            let line = with_command(options + seq!["--duration"@, v], command);
            match duration_value(v) {
                Ok(duration) => run_of(line) == Some(
                    (RunText { duration: Some(duration), ..run }),
                ),
                Err(_) => command_line(line) is Err,
            }
        }),
{
    let extra = seq!["--duration"@, v];
    lemma_run_takes(options, extra, command);
    let r = lemma_run_goes_on(options, extra, command);
    assert(extra[0] == "--duration"@ && extra[1] == v);
    lemma_words();
    reveal(read_option);
}

/// `--hook-symbol v` among the options of `run` adds the symbol that `v` names, and nothing else.
pub proof fn lemma_run_hook(options: Seq<Text>, v: Text, command: Seq<Text>)
    requires
        options.len() > 0,
        run_of(with_command(options, command)) matches Some(run) && run.command == command,
    ensures
        ({
            let run = run_of(with_command(options, command))->Some_0;
            let line = with_command(options + seq!["--hook-symbol"@, v], command);
            match hook_spec(v) {
                Ok((name, abi)) => run_of(line) == Some(
                    (RunText { hooks: hook_added(run.hooks, name, abi), ..run }),
                ),
                Err(_) => command_line(line) is Err,
            }
        }),
{
    let extra = seq!["--hook-symbol"@, v];
    lemma_run_takes(options, extra, command);
    let r = lemma_run_goes_on(options, extra, command);
    assert(extra[0] == "--hook-symbol"@ && extra[1] == v);
    lemma_words();
    reveal(read_option);
}

/// `--unsafe-unvalidated-metadata` among the options of `run` asks for such metadata, and for
/// nothing else.
pub proof fn lemma_run_metadata(options: Seq<Text>, command: Seq<Text>)
    requires
        options.len() > 0,
        run_of(with_command(options, command)) matches Some(run) && run.command == command,
    ensures
        ({
            let run = run_of(with_command(options, command))->Some_0;
            run_of(with_command(options + seq!["--unsafe-unvalidated-metadata"@], command))
                == Some((RunText { unsafe_requested: true, ..run }))
        }),
{
    let extra = seq!["--unsafe-unvalidated-metadata"@];
    lemma_run_takes(options, extra, command);
    let r = lemma_run_goes_on(options, extra, command);
    assert(extra[0] == "--unsafe-unvalidated-metadata"@);
    lemma_words();
    reveal(read_option);
}

/// `--max-events v` among the options of a run that is a trace bounds its events by the number that
/// `v` is, and changes nothing else; a run that is a profile has no such bound.
pub proof fn lemma_run_bound(options: Seq<Text>, v: Text, command: Seq<Text>)
    requires
        options.len() > 0,
        run_of(with_command(options, command)) matches Some(run) && run.command == command,
    ensures
        ({
            let run = run_of(with_command(options, command))->Some_0;
            let line = with_command(options + seq!["--max-events"@, v], command);
            match unsigned_value(v, u64::MAX as nat) {
                Some(number) => if run.kind == Kind::Trace && number > 0 {
                    run_of(line) == Some((RunText { max_events: Some(number as u64), ..run }))
                } else {
                    command_line(line) is Err
                },
                None => command_line(line) is Err,
            }
        }),
{
    let extra = seq!["--max-events"@, v];
    lemma_run_takes(options, extra, command);
    let r = lemma_run_goes_on(options, extra, command);
    assert(extra[0] == "--max-events"@ && extra[1] == v);
    lemma_words();
    reveal(read_option);
}

/// A mode among the options of `run` chooses the level of a run that is a profile, and nothing
/// else.
pub proof fn lemma_run_mode(options: Seq<Text>, metrics: bool, command: Seq<Text>)
    requires
        options.len() > 0,
        run_of(with_command(options, command)) matches Some(run) && run.command == command,
    ensures
        ({
            let run = run_of(with_command(options, command))->Some_0;
            let level = if metrics {
                "metrics"@
            } else {
                "profile"@
            };
            let line = with_command(options + seq!["--mode"@, level], command);
            if run.kind == Kind::Profile {
                run_of(line) == Some((RunText { metrics, ..run }))
            } else {
                command_line(line) is Err
            }
        }),
{
    let level = if metrics {
        "metrics"@
    } else {
        "profile"@
    };
    let extra = seq!["--mode"@, level];
    lemma_run_takes(options, extra, command);
    let r = lemma_run_goes_on(options, extra, command);
    assert(extra[0] == "--mode"@ && extra[1] == level);
    lemma_words();
    reveal(read_option);
}

/// A flag of `run` alone is read with what was read before it.
proof fn lemma_run_flag(options: Seq<Text>, extra: Seq<Text>, command: Seq<Text>, o: RunOptions)
    requires
        options.len() > 0,
        extra.len() > 0,
        run_of(with_command(options, command)) matches Some(run) && run.command == command,
        ({
            let (c, before) = read_before(options, command);
            let n = options.len() as int;
            let line = with_command(options + extra, command);
            scan_run(c, before, line, n) == scan_run(c, o, line, n + extra.len())
        }),
    ensures
        ({
            let (c, before) = read_before(options, command);
            let line = with_command(options + extra, command);
            &&& command_line(with_command(options, command)) == run_end(c, before, command)
            &&& command_line(line) == run_end(c, o, command)
        }),
{
    let r = lemma_run_goes_on(options, extra, command);
    lemma_run_takes(options, extra, command);
    lemma_words();
    let (c, before) = read_before(options, command);
    let n = options.len() as int;
    let line = with_command(options + extra, command);
    let next = n + extra.len();
    assert(line[next] == "--"@);
    assert(read_option(c, line, next) == Ok::<Option<(CommonText, int)>, CliRefusal>(None)) by {
        reveal(read_option);
    }
    assert(scan_run(c, o, line, next) == Ok::<_, CliRefusal>((c, o, next + 1)));
}

/// `--kill-on-timeout` of `run` lets the end of the duration end the child, and changes nothing
/// else.
pub proof fn lemma_run_kill(options: Seq<Text>, command: Seq<Text>)
    requires
        options.len() > 0,
        run_of(with_command(options, command)) matches Some(run) && run.command == command,
    ensures
        ({
            let run = run_of(with_command(options, command))->Some_0;
            run_of(with_command(options + seq!["--kill-on-timeout"@], command)) == Some(
                (RunText { kill_on_timeout: true, ..run }),
            )
        }),
{
    let extra = seq!["--kill-on-timeout"@];
    let (c, o) = read_before(options, command);
    let r = lemma_run_goes_on(options, extra, command);
    assert(extra[0] == "--kill-on-timeout"@);
    lemma_words();
    let line = with_command(options + extra, command);
    assert(read_option(c, line, options.len() as int) == Ok::<
        Option<(CommonText, int)>,
        CliRefusal,
    >(None)) by {
        reveal(read_option);
    }
    lemma_run_flag(options, extra, command, RunOptions { kill_on_timeout: true, ..o });
}

/// `--trace` of `run` makes it a trace, and changes nothing else; a run with a mode cannot be one.
pub proof fn lemma_run_trace(options: Seq<Text>, command: Seq<Text>)
    requires
        options.len() > 0,
        run_of(with_command(options, command)) matches Some(run) && run.command == command,
    ensures
        ({
            let run = run_of(with_command(options, command))->Some_0;
            let line = with_command(options + seq!["--trace"@], command);
            &&& run_of(line) matches Some(traced) ==> traced == (RunText {
                kind: Kind::Trace,
                ..run
            })
            &&& run.metrics ==> command_line(line) is Err
            &&& run.kind == Kind::Trace ==> run_of(line) == Some(run)
        }),
{
    let extra = seq!["--trace"@];
    let (c, o) = read_before(options, command);
    let r = lemma_run_goes_on(options, extra, command);
    assert(extra[0] == "--trace"@);
    lemma_words();
    let line = with_command(options + extra, command);
    assert(read_option(c, line, options.len() as int) == Ok::<
        Option<(CommonText, int)>,
        CliRefusal,
    >(None)) by {
        reveal(read_option);
    }
    lemma_run_flag(options, extra, command, RunOptions { trace: true, ..o });
}

/// `--pause` of `run` chooses one of three policies, and changes nothing else; another word is
/// refused.
pub proof fn lemma_run_pause(options: Seq<Text>, v: Text, command: Seq<Text>)
    requires
        options.len() > 0,
        run_of(with_command(options, command)) matches Some(run) && run.command == command,
    ensures
        ({
            let run = run_of(with_command(options, command))->Some_0;
            let line = with_command(options + seq!["--pause"@, v], command);
            &&& v == "never"@ ==> run_of(line) == Some(
                (RunText { pause: PausePolicy::Never, ..run }),
            )
            &&& v == "auto"@ ==> run_of(line) == Some((RunText { pause: PausePolicy::Auto, ..run }))
            &&& v == "always"@ ==> run_of(line) == Some(
                (RunText { pause: PausePolicy::Always, ..run }),
            )
            &&& v != "never"@ && v != "auto"@ && v != "always"@ ==> command_line(line) is Err
        }),
{
    let extra = seq!["--pause"@, v];
    let (c, o) = read_before(options, command);
    let r = lemma_run_goes_on(options, extra, command);
    assert(extra[0] == "--pause"@ && extra[1] == v);
    lemma_words();
    let line = with_command(options + extra, command);
    let n = options.len() as int;
    assert(read_option(c, line, n) == Ok::<Option<(CommonText, int)>, CliRefusal>(None)) by {
        reveal(read_option);
    }
    assert(line[n + 1] == v);
    if let Ok(pause) = read_pause(line, n + 1) {
        lemma_run_flag(options, extra, command, RunOptions { pause, ..o });
    }
}

/// A run of a command, with nothing else asked for: a profile that never pauses its child and never
/// ends it.
pub proof fn lemma_bare_run(command: Seq<Text>)
    requires
        command.len() > 0,
        command[0].len() > 0,
    ensures
        run_of(with_command(seq!["run"@], command)) == Some(
            (RunText {
                kind: Kind::Profile,
                modules: Seq::empty(),
                manifests: Seq::empty(),
                hooks: builtin_hooks(),
                metrics: false,
                duration: None,
                out: None,
                max_events: None,
                unsafe_requested: false,
                pause: PausePolicy::Never,
                kill_on_timeout: false,
                command,
            }),
        ),
{
    lemma_words();
    reveal(read_option);
    let line = with_command(seq!["run"@], command);
    assert(line[0] == "run"@ && line[1] == "--"@);
    assert(line.skip(2) =~= command);
    reveal_with_fuel(scan_run, 2);
}

/// A run without a command is refused.
pub proof fn lemma_run_needs_a_command(options: Seq<Text>)
    requires
        options.len() > 0,
        options[0] == "run"@,
        forall|i: int| 0 <= i < options.len() ==> #[trigger] options[i] != "--"@,
    ensures
        command_line(options) is Err,
{
    lemma_words();
    lemma_no_command(no_options(), no_run_options(), options, 1);
}

/// Where no `--` stands, no command is found.
proof fn lemma_no_command(c: CommonText, o: RunOptions, a: Seq<Text>, at: int)
    requires
        0 <= at,
        forall|i: int| 0 <= i < a.len() ==> #[trigger] a[i] != "--"@,
    ensures
        scan_run(c, o, a, at) matches Ok((_, _, start)) ==> start == a.len(),
    decreases a.len() - at,
{
    if at < a.len() {
        lemma_option_moves_on(c, a, at);
        match read_option(c, a, at) {
            Ok(Some((d, next))) => {
                lemma_no_command(d, o, a, next);
            },
            _ => {
                lemma_no_command(c, RunOptions { trace: true, ..o }, a, at + 1);
                lemma_no_command(c, RunOptions { kill_on_timeout: true, ..o }, a, at + 1);
                if let Ok(pause) = read_pause(a, at + 1) {
                    lemma_no_command(c, RunOptions { pause, ..o }, a, at + 2);
                }
            },
        }
    }
}

/// What a command line of `inspect` means, if it is one.
pub open spec fn inspect_of(args: Seq<Text>) -> Option<InspectText> {
    match command_line(args) {
        Ok(CommandText::Inspect(inspect)) => Some(inspect),
        _ => None,
    }
}

/// What `inspect` read so far stays, whatever stands behind it.
proof fn lemma_inspect_extends(
    pid: Option<u32>,
    modules: Seq<Text>,
    hooks: Hooks,
    json: bool,
    args: Seq<Text>,
    tail: Seq<Text>,
    at: int,
)
    requires
        0 <= at <= args.len(),
        inspect_from(pid, modules, hooks, json, args, at) is Ok,
    ensures
        ({
            let r = inspect_from(pid, modules, hooks, json, args, at)->Ok_0;
            inspect_from(pid, modules, hooks, json, args + tail, at) == inspect_from(
                Some(r.pid),
                r.modules,
                r.hooks,
                r.json,
                args + tail,
                args.len() as int,
            )
        }),
    decreases args.len() - at,
{
    if at < args.len() {
        let more = args + tail;
        assert(more[at] == args[at]);
        if at + 1 < args.len() {
            assert(more[at + 1] == args[at + 1]);
        }
        if args[at] == "--pid"@ {
            let p = pid_at(args, at + 1)->Ok_0;
            lemma_inspect_extends(Some(p), modules, hooks, json, args, tail, at + 2);
        } else if args[at] == "--module"@ {
            let path = value_at(args, at + 1, "--module"@)->Ok_0;
            lemma_inspect_extends(pid, modules.push(path), hooks, json, args, tail, at + 2);
        } else if args[at] == "--hook-symbol"@ {
            let h = read_hook(hooks, args, at + 1)->Ok_0;
            lemma_inspect_extends(pid, modules, h, json, args, tail, at + 2);
        } else {
            lemma_inspect_extends(pid, modules, hooks, true, args, tail, at + 1);
        }
    }
}

/// Each argument of `inspect` sets what it names, and nothing else.
pub proof fn lemma_inspect_arguments(args: Seq<Text>, v: Text)
    requires
        inspect_of(args) is Some,
    ensures
        ({
            let inspect = inspect_of(args)->Some_0;
            &&& inspect_of(args + seq!["--json"@]) == Some((InspectText { json: true, ..inspect }))
            &&& inspect_of(args + seq!["--module"@, v]) == Some(
                (InspectText { modules: inspect.modules.push(v), ..inspect }),
            )
            &&& match unsigned_value(v, 0xffff_ffff) {
                Some(pid) => inspect_of(args + seq!["--pid"@, v]) == Some(
                    (InspectText { pid: pid as u32, ..inspect }),
                ),
                None => command_line(args + seq!["--pid"@, v]) is Err,
            }
            &&& match hook_spec(v) {
                Ok((name, abi)) => inspect_of(args + seq!["--hook-symbol"@, v]) == Some(
                    (InspectText { hooks: hook_added(inspect.hooks, name, abi), ..inspect }),
                ),
                Err(_) => command_line(args + seq!["--hook-symbol"@, v]) is Err,
            }
        }),
{
    lemma_words();
    let n = args.len() as int;
    let json = seq!["--json"@];
    lemma_inspect_extends(None, Seq::empty(), builtin_hooks(), false, args, json, 1);
    assert((args + json)[0] == args[0] && (args + json)[n] == "--json"@);
    let module = seq!["--module"@, v];
    lemma_inspect_extends(None, Seq::empty(), builtin_hooks(), false, args, module, 1);
    assert((args + module)[0] == args[0] && (args + module)[n] == "--module"@ && (args + module)[n
        + 1] == v);
    let pid = seq!["--pid"@, v];
    lemma_inspect_extends(None, Seq::empty(), builtin_hooks(), false, args, pid, 1);
    assert((args + pid)[0] == args[0] && (args + pid)[n] == "--pid"@ && (args + pid)[n + 1] == v);
    let hook = seq!["--hook-symbol"@, v];
    lemma_inspect_extends(None, Seq::empty(), builtin_hooks(), false, args, hook, 1);
    assert((args + hook)[0] == args[0] && (args + hook)[n] == "--hook-symbol"@ && (args + hook)[n
        + 1] == v);
    reveal_with_fuel(inspect_from, 2);
}

/// An inspection of a process, with nothing else asked for; one of no process is refused.
pub proof fn lemma_bare_inspect(v: Text)
    ensures
        match unsigned_value(v, 0xffff_ffff) {
            Some(pid) => inspect_of(seq!["inspect"@, "--pid"@, v]) == Some(
                (InspectText {
                    pid: pid as u32,
                    modules: Seq::empty(),
                    hooks: builtin_hooks(),
                    json: false,
                }),
            ),
            None => command_line(seq!["inspect"@, "--pid"@, v]) is Err,
        },
        command_line(seq!["inspect"@]) is Err,
{
    lemma_words();
    reveal_with_fuel(inspect_from, 3);
}

/// What a command line of `doctor` means, if it is one.
pub open spec fn doctor_of(args: Seq<Text>) -> Option<DoctorText> {
    match command_line(args) {
        Ok(CommandText::Doctor(doctor)) => Some(doctor),
        _ => None,
    }
}

/// What `doctor` read so far stays, whatever stands behind it.
proof fn lemma_doctor_extends(d: DoctorText, args: Seq<Text>, tail: Seq<Text>, at: int)
    requires
        0 <= at <= args.len(),
        doctor_from(d, args, at) is Ok,
    ensures
        doctor_from(d, args + tail, at) == doctor_from(
            doctor_from(d, args, at)->Ok_0,
            args + tail,
            args.len() as int,
        ),
    decreases args.len() - at,
{
    if at < args.len() {
        let more = args + tail;
        assert(more[at] == args[at]);
        if at + 1 < args.len() {
            assert(more[at + 1] == args[at + 1]);
        }
        if args[at] == "--pid"@ {
            let pid = pid_at(args, at + 1)->Ok_0;
            lemma_doctor_extends(DoctorText { pid: Some(pid), ..d }, args, tail, at + 2);
        } else {
            let path = value_at(args, at + 1, "--cgroup"@)->Ok_0;
            lemma_doctor_extends(DoctorText { cgroup: Some(path), ..d }, args, tail, at + 2);
        }
    }
}

/// Each argument of `doctor` sets what it names, and nothing else; none is needed.
pub proof fn lemma_doctor_arguments(args: Seq<Text>, v: Text)
    requires
        doctor_of(args) is Some,
    ensures
        ({
            let doctor = doctor_of(args)->Some_0;
            &&& doctor_of(args + seq!["--cgroup"@, v]) == Some(
                (DoctorText { cgroup: Some(v), ..doctor }),
            )
            &&& match unsigned_value(v, 0xffff_ffff) {
                Some(pid) => doctor_of(args + seq!["--pid"@, v]) == Some(
                    (DoctorText { pid: Some(pid as u32), ..doctor }),
                ),
                None => command_line(args + seq!["--pid"@, v]) is Err,
            }
            &&& command_line(args + seq!["--module"@, v]) is Err
        }),
        doctor_of(seq!["doctor"@]) == Some((DoctorText { pid: None, cgroup: None })),
{
    lemma_words();
    let n = args.len() as int;
    let none = DoctorText { pid: None, cgroup: None };
    let group = seq!["--cgroup"@, v];
    lemma_doctor_extends(none, args, group, 1);
    assert((args + group)[0] == args[0] && (args + group)[n] == "--cgroup"@ && (args + group)[n + 1]
        == v);
    let pid = seq!["--pid"@, v];
    lemma_doctor_extends(none, args, pid, 1);
    assert((args + pid)[0] == args[0] && (args + pid)[n] == "--pid"@ && (args + pid)[n + 1] == v);
    let module = seq!["--module"@, v];
    lemma_doctor_extends(none, args, module, 1);
    assert((args + module)[0] == args[0] && (args + module)[n] == "--module"@);
    reveal_with_fuel(doctor_from, 2);
}

/// A number of seconds, minutes or hours is a duration of so many seconds, where that many can be
/// counted.
pub proof fn lemma_durations(number: Text, n: nat)
    requires
        digits_value(number, u64::MAX as nat) == Some(n),
    ensures
        duration_value(number) == Ok::<core::time::Duration, Text>(duration_of_secs(n as u64)),
        duration_value(number.push('s')) == Ok::<core::time::Duration, Text>(
            duration_of_secs(n as u64),
        ),
        60 * n <= u64::MAX ==> duration_value(number.push('m')) == Ok::<
            core::time::Duration,
            Text,
        >(duration_of_secs((60 * n) as u64)),
        60 * n > u64::MAX ==> duration_value(number.push('m')) is Err,
        3600 * n <= u64::MAX ==> duration_value(number.push('h')) == Ok::<
            core::time::Duration,
            Text,
        >(duration_of_secs((3600 * n) as u64)),
        3600 * n > u64::MAX ==> duration_value(number.push('h')) is Err,
{
    assert(is_digit(number[number.len() - 1]));
    assert(number.push('s').drop_last() =~= number);
    assert(number.push('m').drop_last() =~= number);
    assert(number.push('h').drop_last() =~= number);
}

/// What is no number of seconds, minutes or hours is no duration.
pub proof fn lemma_no_durations(s: Text)
    ensures
        duration_value(s) is Ok ==> s.len() > 0 && (digits_value(s, u64::MAX as nat) is Some || ((
        s.last() == 's' || s.last() == 'm' || s.last() == 'h') && digits_value(
            s.drop_last(),
            u64::MAX as nat,
        ) is Some)),
{
}

} // verus!
