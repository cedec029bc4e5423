//! Command-line parsing for every subcommand: one body for the options that captures share,
//! durations with suffixes, and hints for removed flags.

use crate::discovery::hooks::{builtin_hooks, hook_added, hook_spec, HookRegistry, Hooks};
use crate::text::{
    concat3, debug_of, debug_text, digits_value, parse_digits, parse_unsigned, push_text, same,
    texts, unsigned_value, Text,
};
use core::time::Duration;
use vstd::prelude::*;
use vstd::string::*;

verus! {

/// What a capture produces.
#[derive(Clone, Copy, Debug, PartialEq, Eq, Structural)]
pub enum Kind {
    Profile,
    Trace,
}

/// Which processes a capture is about.
#[derive(Clone, Debug, PartialEq, Eq)]
pub enum ScopeArg {
    Pid(u32),
    Cgroup(String),
}

/// The arguments of `profile` and `trace`.
#[derive(Clone, Debug, PartialEq, Eq)]
pub struct CaptureArgs {
    pub kind: Kind,
    /// `--module` hints; with none, every object that looks like PKCS#11 is discovered.
    pub modules: Vec<String>,
    /// `--manifest` inputs; with none, discovery only scans.
    pub manifests: Vec<String>,
    pub hooks: HookRegistry,
    pub scope: ScopeArg,
    /// `--mode metrics`, of a profile only.
    pub metrics: bool,
    pub duration: Option<Duration>,
    pub out: Option<String>,
    pub max_events: Option<u64>,
    pub unsafe_requested: bool,
}

/// What `run` may do to its own child to keep loader discovery from racing an unobserved load.
/// Nothing that was started is stopped unless it was asked for.
#[derive(Clone, Copy, Debug, PartialEq, Eq, Structural)]
pub enum PausePolicy {
    /// Never pause.
    Never,
    /// Pause where possible, report a partial result otherwise.
    Auto,
    /// Pause, and fail where that is not confirmed.
    Always,
}

impl Default for PausePolicy {
    fn default() -> (policy: Self)
        ensures
            policy == PausePolicy::Never,
    {
        PausePolicy::Never
    }
}

/// The arguments of `run`: those of a capture, and the command, which is the scope.
#[derive(Clone, Debug, PartialEq, Eq)]
pub struct RunArgs {
    /// `--trace` selects a trace; otherwise this is a profile.
    pub kind: Kind,
    pub modules: Vec<String>,
    pub manifests: Vec<String>,
    pub hooks: HookRegistry,
    /// `--mode metrics`, of a profile only.
    pub metrics: bool,
    pub duration: Option<Duration>,
    pub out: Option<String>,
    pub max_events: Option<u64>,
    pub unsafe_requested: bool,
    pub pause: PausePolicy,
    /// `--kill-on-timeout`: the end of `--duration` ends the child too.
    pub kill_on_timeout: bool,
    /// Everything after `--`, verbatim. Never empty.
    pub command: Vec<String>,
}

/// The arguments of `inspect`.
#[derive(Clone, Debug, PartialEq, Eq)]
pub struct InspectArgs {
    pub pid: u32,
    pub modules: Vec<String>,
    pub hooks: HookRegistry,
    pub json: bool,
}

/// The arguments of `doctor`.
#[derive(Clone, Debug, PartialEq, Eq)]
pub struct DoctorArgs {
    pub pid: Option<u32>,
    pub cgroup: Option<String>,
}

/// A parsed command line.
#[derive(Clone, Debug, PartialEq, Eq)]
pub enum Command {
    Profile(CaptureArgs),
    Trace(CaptureArgs),
    Run(RunArgs),
    Inspect(InspectArgs),
    Doctor(DoctorArgs),
}

/// Why a command line was not parsed.
#[derive(Debug, PartialEq, Eq)]
pub enum CliError {
    Usage(String),
    Help,
}

/// The help text.
pub const USAGE: &'static str = "usage:
  p11scope profile [--pid <n> | --cgroup <path>] [--module <provider.so>]... [--manifest <m.json>]...
                   [--mode profile|metrics] [--duration <30|30s|5m|1h>] [-o <out.json>]
                   [--hook-symbol <NAME[:functionlist|interfacelist|interface]>]...
                   [--unsafe-unvalidated-metadata]
  p11scope trace   [same scope and discovery options] [--duration <…>] [--max-events <n>] [-o <out.file>]
  p11scope run     [same discovery options] [--mode profile|metrics | --trace] [--duration <…>]
                   [-o <out>] [--pause never|auto|always] [--kill-on-timeout] -- CMD [ARGS...]
  p11scope inspect --pid <n> [--module <provider.so>]... [--hook-symbol <…>]... [--json]
  p11scope doctor  [--pid <n>] [--cgroup <path>]
  p11scope-discover --module <provider.so> [-o <m.json>]   (offline helper; executes provider code)

notes: discovery scans the target's mapped memory — no manifest and no helper are required.
--module narrows the scan to named providers. --manifest is explicit operator attestation of exact accepted function-name/offset claims; it is corroborated against the scan when possible.
scan-only discovery is semantics-unverified and count-only; aggregate counts/RVs/latency remain available. Scanning continues for the life of the capture, not just at attach.
run starts CMD itself and captures exactly that command; it takes no --pid/--cgroup. --pause
selects what run may do to its own child while it observes loading: never (default) touches
nothing, auto only when the child would otherwise load unobserved, always on every load.
--kill-on-timeout ends the child when --duration expires instead of leaving it running.
--mode defaults to profile; --mode metrics is the lighter maps-only level. Ctrl-C or SIGTERM
ends a capture cleanly (final frame printed, -o written). --cgroup matches that cgroup and
every descendant (kernel >= 5.15). Provider identity is pinned by SHA-256 at attach and
checked for in-place change during capture (evidence.provider_changed).
";

/// The hint for a flag that no longer exists.
pub const REMOVED_FLAG_HINT: &'static str =
    "removed in productization slice 1a: the observer pins provider identity by SHA-256 and fstat; see docs/usage.md";

/// Why a command line was not parsed, by the characters of the message.
pub enum CliRefusal {
    Usage(Text),
    Help,
}

impl View for CliError {
    type V = CliRefusal;

    open spec fn view(&self) -> CliRefusal {
        match *self {
            CliError::Usage(message) => CliRefusal::Usage(message@),
            CliError::Help => CliRefusal::Help,
        }
    }
}

/// A path or a name, where one was given.
pub open spec fn maybe(s: Option<String>) -> Option<Text> {
    match s {
        Some(s) => Some(s@),
        None => None,
    }
}

/// A message followed by the help text.
pub open spec fn usage(message: Text) -> CliRefusal {
    CliRefusal::Usage(message + "\n"@ + USAGE@)
}

fn usage_err(message: &str) -> (error: CliError)
    ensures
        error@ == usage(message@),
{
    CliError::Usage(concat3(message, "\n", USAGE))
}

/// The value that follows a flag.
pub open spec fn value_at(args: Seq<Text>, at: int, flag: Text) -> Result<Text, CliRefusal> {
    if at < args.len() {
        Ok(args[at])
    } else {
        Err(usage(flag + " requires a value"@))
    }
}

fn require_value(args: &Vec<String>, at: usize, flag: &str) -> (r: Result<String, CliError>)
    ensures
        match value_at(texts(args@), at as int, flag@) {
            Ok(value) => at < args@.len() && (r matches Ok(given) && given@ == value),
            Err(refusal) => r matches Err(error) && error@ == refusal,
        },
{
    if at < args.len() {
        assert(texts(args@)[at as int] == args@[at as int]@);
        Ok(args[at].clone())
    } else {
        let mut message = flag.to_owned();
        message.append(" requires a value");
        Err(usage_err(message.as_str()))
    }
}

/// The process id that follows `--pid`.
pub open spec fn pid_at(args: Seq<Text>, at: int) -> Result<u32, CliRefusal> {
    match value_at(args, at, "--pid"@) {
        Err(refusal) => Err(refusal),
        Ok(value) => match unsigned_value(value, 0xffff_ffff) {
            Some(pid) => Ok(pid as u32),
            None => Err(usage("--pid: invalid number "@ + debug_text(value))),
        },
    }
}

fn require_pid(args: &Vec<String>, at: usize) -> (r: Result<u32, CliError>)
    ensures
        match pid_at(texts(args@), at as int) {
            Ok(pid) => at < args@.len() && r == Ok::<u32, CliError>(pid),
            Err(refusal) => r matches Err(error) && error@ == refusal,
        },
{
    let value = match require_value(args, at, "--pid") {
        Ok(value) => value,
        Err(error) => return Err(error),
    };
    match parse_unsigned(value.as_str(), 0xffff_ffff) {
        Some(pid) => Ok(pid as u32),
        None => {
            let mut message = "--pid: invalid number ".to_owned();
            message.append(debug_of(value.as_str()).as_str());
            Err(usage_err(message.as_str()))
        },
    }
}

/// What an argument that nothing recognizes is answered: removed flags get their hint, and the
/// pause policy is refused by name outside of `run`.
pub open spec fn unknown(arg: Text) -> CliRefusal {
    if arg == "--provenance-module"@ || arg == "--trusted-workload"@ {
        usage(arg + ": "@ + REMOVED_FLAG_HINT@)
    } else if arg == "--pause"@ {
        usage(
            "--pause is a `p11scope run` option: only a child this observer started can be paused"@,
        )
    } else {
        usage("unknown argument: "@ + arg)
    }
}

fn unknown_arg(arg: &str) -> (error: CliError)
    ensures
        error@ == unknown(arg@),
{
    if same(arg, "--provenance-module") || same(arg, "--trusted-workload") {
        usage_err(concat3(arg, ": ", REMOVED_FLAG_HINT).as_str())
    } else if same(arg, "--pause") {
        usage_err(
            "--pause is a `p11scope run` option: only a child this observer started can be paused",
        )
    } else {
        let mut message = "unknown argument: ".to_owned();
        message.append(arg);
        usage_err(message.as_str())
    }
}

/// The options that every capture shares. `metrics` is `None` until `--mode` is given, so that a
/// trace can refuse a mode whichever came first.
pub struct Common {
    pub modules: Vec<String>,
    pub manifests: Vec<String>,
    pub hooks: HookRegistry,
    pub metrics: Option<bool>,
    pub duration: Option<Duration>,
    pub out: Option<String>,
    pub max_events: Option<u64>,
    pub unsafe_requested: bool,
}

/// The options that every capture shares, by their characters.
pub struct CommonText {
    pub modules: Seq<Text>,
    pub manifests: Seq<Text>,
    pub hooks: Hooks,
    pub metrics: Option<bool>,
    pub duration: Option<Duration>,
    pub out: Option<Text>,
    pub max_events: Option<u64>,
    pub unsafe_requested: bool,
}

impl View for Common {
    type V = CommonText;

    open spec fn view(&self) -> CommonText {
        CommonText {
            modules: texts(self.modules@),
            manifests: texts(self.manifests@),
            hooks: self.hooks@,
            metrics: self.metrics,
            duration: self.duration,
            out: maybe(self.out),
            max_events: self.max_events,
            unsafe_requested: self.unsafe_requested,
        }
    }
}

/// The options of a capture of which none was given.
pub open spec fn no_options() -> CommonText {
    CommonText {
        modules: Seq::empty(),
        manifests: Seq::empty(),
        hooks: builtin_hooks(),
        metrics: None,
        duration: None,
        out: None,
        max_events: None,
        unsafe_requested: false,
    }
}

/// The options after one of them was read, and the position behind it. `None` where the argument
/// is none of them.
pub type OptionRead = Result<Option<(CommonText, int)>, CliRefusal>;

/// The duration of so many seconds.
pub uninterp spec fn duration_of_secs(secs: u64) -> Duration;

/// The duration of so many seconds, by `Duration::from_secs`. The result is a function of the
/// number alone.
pub assume_specification[ Duration::from_secs ](secs: u64) -> (d: Duration)
    ensures
        d == duration_of_secs(secs),
;

/// The digits of a duration and the seconds that each stands for: a trailing `s`, `m` or `h` is
/// taken off.
pub open spec fn duration_parts(s: Text) -> (Text, u64) {
    if s.last() == 's' {
        (s.drop_last(), 1)
    } else if s.last() == 'm' {
        (s.drop_last(), 60)
    } else if s.last() == 'h' {
        (s.drop_last(), 3600)
    } else {
        (s, 1)
    }
}

/// The duration that bare seconds, or a number with the suffix `s`, `m` or `h`, stands for.
pub open spec fn duration_value(s: Text) -> Result<Duration, Text> {
    if s.len() == 0 {
        Err("empty duration"@)
    } else {
        let (digits, seconds) = duration_parts(s);
        match digits_value(digits, u64::MAX as nat) {
            None => Err("invalid duration "@ + debug_text(s)),
            Some(value) => if value * seconds > u64::MAX {
                Err("duration "@ + debug_text(s) + " overflows"@)
            } else {
                Ok(duration_of_secs((value * seconds) as u64))
            },
        }
    }
}

/// Parses a duration given as bare seconds or with a single trailing `s`, `m` or `h`.
pub fn parse_duration(s: &str) -> (r: Result<Duration, String>)
    ensures
        match duration_value(s@) {
            Ok(duration) => r == Ok::<Duration, String>(duration),
            Err(message) => r matches Err(given) && given@ == message,
        },
{
    let len: usize = s.unicode_len();
    if len == 0 {
        return Err("empty duration".to_owned());
    }
    let last = s.get_char(len - 1);
    let shorter = s.substring_char(0, len - 1);
    assert(shorter@ =~= s@.drop_last());
    let (digits, seconds): (&str, u64) = if last == 's' {
        (shorter, 1)
    } else if last == 'm' {
        (shorter, 60)
    } else if last == 'h' {
        (shorter, 3600)
    } else {
        (s, 1)
    };
    match parse_digits(digits, 0xffff_ffff_ffff_ffff) {
        None => {
            let mut message = "invalid duration ".to_owned();
            message.append(debug_of(s).as_str());
            Err(message)
        },
        Some(value) => match value.checked_mul(seconds) {
            None => Err(concat3("duration ", debug_of(s).as_str(), " overflows")),
            Some(total) => Ok(Duration::from_secs(total)),
        },
    }
}

/// `--mode`: whether the lighter level was asked for.
pub open spec fn read_mode(args: Seq<Text>, at: int) -> Result<bool, CliRefusal> {
    match value_at(args, at, "--mode"@) {
        Err(refusal) => Err(refusal),
        Ok(value) => if value == "profile"@ {
            Ok(false)
        } else if value == "metrics"@ {
            Ok(true)
        } else if value == "trace"@ {
            Err(
                usage(
                    "trace is a subcommand (`p11scope trace …`) or the `run --trace` flag, not --mode trace"@,
                ),
            )
        } else {
            Err(usage("--mode: invalid value "@ + debug_text(value)))
        },
    }
}

fn parse_mode(args: &Vec<String>, at: usize) -> (r: Result<bool, CliError>)
    ensures
        match read_mode(texts(args@), at as int) {
            Ok(metrics) => at < args@.len() && r == Ok::<bool, CliError>(metrics),
            Err(refusal) => r matches Err(error) && error@ == refusal,
        },
{
    let value = match require_value(args, at, "--mode") {
        Ok(value) => value,
        Err(error) => return Err(error),
    };
    if same(value.as_str(), "profile") {
        Ok(false)
    } else if same(value.as_str(), "metrics") {
        Ok(true)
    } else if same(value.as_str(), "trace") {
        Err(
            usage_err(
                "trace is a subcommand (`p11scope trace …`) or the `run --trace` flag, not --mode trace",
            ),
        )
    } else {
        let mut message = "--mode: invalid value ".to_owned();
        message.append(debug_of(value.as_str()).as_str());
        Err(usage_err(message.as_str()))
    }
}

/// `--duration`.
pub open spec fn read_duration(args: Seq<Text>, at: int) -> Result<Duration, CliRefusal> {
    match value_at(args, at, "--duration"@) {
        Err(refusal) => Err(refusal),
        Ok(value) => match duration_value(value) {
            Ok(duration) => Ok(duration),
            Err(message) => Err(
                usage("--duration: invalid value "@ + debug_text(value) + ": "@ + message),
            ),
        },
    }
}

fn parse_duration_at(args: &Vec<String>, at: usize) -> (r: Result<Duration, CliError>)
    ensures
        match read_duration(texts(args@), at as int) {
            Ok(duration) => at < args@.len() && r == Ok::<Duration, CliError>(duration),
            Err(refusal) => r matches Err(error) && error@ == refusal,
        },
{
    let value = match require_value(args, at, "--duration") {
        Ok(value) => value,
        Err(error) => return Err(error),
    };
    match parse_duration(value.as_str()) {
        Ok(duration) => Ok(duration),
        Err(why) => {
            let mut message = concat3(
                "--duration: invalid value ",
                debug_of(value.as_str()).as_str(),
                ": ",
            );
            message.append(why.as_str());
            Err(usage_err(message.as_str()))
        },
    }
}

/// `--max-events`.
pub open spec fn read_max_events(args: Seq<Text>, at: int) -> Result<u64, CliRefusal> {
    match value_at(args, at, "--max-events"@) {
        Err(refusal) => Err(refusal),
        Ok(value) => match unsigned_value(value, u64::MAX as nat) {
            None => Err(usage("--max-events: invalid number "@ + debug_text(value))),
            Some(number) => if number == 0 {
                Err(usage("--max-events must be greater than zero"@))
            } else {
                Ok(number as u64)
            },
        },
    }
}

fn parse_max_events(args: &Vec<String>, at: usize) -> (r: Result<u64, CliError>)
    ensures
        match read_max_events(texts(args@), at as int) {
            Ok(number) => at < args@.len() && r == Ok::<u64, CliError>(number),
            Err(refusal) => r matches Err(error) && error@ == refusal,
        },
{
    let value = match require_value(args, at, "--max-events") {
        Ok(value) => value,
        Err(error) => return Err(error),
    };
    match parse_unsigned(value.as_str(), 0xffff_ffff_ffff_ffff) {
        None => {
            let mut message = "--max-events: invalid number ".to_owned();
            message.append(debug_of(value.as_str()).as_str());
            Err(usage_err(message.as_str()))
        },
        Some(number) => if number == 0 {
            Err(usage_err("--max-events must be greater than zero"))
        } else {
            Ok(number)
        },
    }
}

/// `--hook-symbol`: the registry with the symbol.
pub open spec fn read_hook(hooks: Hooks, args: Seq<Text>, at: int) -> Result<Hooks, CliRefusal> {
    match value_at(args, at, "--hook-symbol"@) {
        Err(refusal) => Err(refusal),
        Ok(value) => match hook_spec(value) {
            Ok((name, abi)) => Ok(hook_added(hooks, name, abi)),
            Err(message) => Err(usage(message)),
        },
    }
}

fn add_hook(hooks: &mut HookRegistry, args: &Vec<String>, at: usize) -> (r: Result<(), CliError>)
    ensures
        match read_hook(old(hooks)@, texts(args@), at as int) {
            Ok(added) => at < args@.len() && r is Ok && final(hooks)@ == added,
            Err(refusal) => r matches Err(error) && error@ == refusal,
        },
        old(hooks).well_formed() ==> final(hooks).well_formed(),
{
    let spec = match require_value(args, at, "--hook-symbol") {
        Ok(value) => value,
        Err(error) => return Err(error),
    };
    match hooks.add_spec(spec.as_str()) {
        Ok(()) => Ok(()),
        Err(message) => Err(usage_err(message.as_str())),
    }
}

/// One option that every capture shares, at position `at`.
#[verifier::opaque]
pub open spec fn read_option(c: CommonText, args: Seq<Text>, at: int) -> OptionRead {
    let arg = args[at];
    if arg == "--module"@ {
        match value_at(args, at + 1, "--module"@) {
            Err(refusal) => Err(refusal),
            Ok(value) => Ok(Some((CommonText { modules: c.modules.push(value), ..c }, at + 2))),
        }
    } else if arg == "--manifest"@ {
        match value_at(args, at + 1, "--manifest"@) {
            Err(refusal) => Err(refusal),
            Ok(value) => Ok(
                Some((CommonText { manifests: c.manifests.push(value), ..c }, at + 2)),
            ),
        }
    } else if arg == "--hook-symbol"@ {
        match read_hook(c.hooks, args, at + 1) {
            Err(refusal) => Err(refusal),
            Ok(hooks) => Ok(Some((CommonText { hooks, ..c }, at + 2))),
        }
    } else if arg == "--mode"@ {
        match read_mode(args, at + 1) {
            Err(refusal) => Err(refusal),
            Ok(metrics) => Ok(Some((CommonText { metrics: Some(metrics), ..c }, at + 2))),
        }
    } else if arg == "--duration"@ {
        match read_duration(args, at + 1) {
            Err(refusal) => Err(refusal),
            Ok(duration) => Ok(Some((CommonText { duration: Some(duration), ..c }, at + 2))),
        }
    } else if arg == "--max-events"@ {
        match read_max_events(args, at + 1) {
            Err(refusal) => Err(refusal),
            Ok(number) => Ok(Some((CommonText { max_events: Some(number), ..c }, at + 2))),
        }
    } else if arg == "-o"@ {
        match value_at(args, at + 1, "-o"@) {
            Err(refusal) => Err(refusal),
            Ok(value) => Ok(Some((CommonText { out: Some(value), ..c }, at + 2))),
        }
    } else if arg == "--unsafe-unvalidated-metadata"@ {
        Ok(Some((CommonText { unsafe_requested: true, ..c }, at + 1)))
    } else {
        Ok(None)
    }
}

/// An option takes one or two arguments.
pub proof fn lemma_option_moves_on(c: CommonText, args: Seq<Text>, at: int)
    requires
        0 <= at < args.len(),
    ensures
        read_option(c, args, at) matches Ok(Some((_, next))) ==> at < next <= args.len(),
{
    reveal(read_option);
}

/// Reads one option that every capture shares. `None` where the argument is none of them.
fn capture_option(common: &mut Common, args: &Vec<String>, at: usize) -> (r: Result<
    Option<usize>,
    CliError,
>)
    requires
        at < args@.len(),
        old(common).hooks.well_formed(),
    ensures
        final(common).hooks.well_formed(),
        match read_option(old(common)@, texts(args@), at as int) {
            Err(refusal) => r matches Err(error) && error@ == refusal,
            Ok(None) => final(common)@ == old(common)@ && r == Ok::<Option<usize>, CliError>(None),
            Ok(Some((c, next))) => final(common)@ == c && at < next <= args@.len() && r == Ok::<
                Option<usize>,
                CliError,
            >(Some(next as usize)),
        },
{
    proof {
        reveal(read_option);
    }
    let len: usize = args.len();
    let arg = args[at].as_str();
    assert(texts(args@)[at as int] == arg@);
    assert(texts(args@).len() == len);
    if same(arg, "--module") {
        match require_value(args, at + 1, "--module") {
            Err(error) => return Err(error),
            Ok(value) => push_text(&mut common.modules, value),
        }
        Ok(Some(at + 2))
    } else if same(arg, "--manifest") {
        match require_value(args, at + 1, "--manifest") {
            Err(error) => return Err(error),
            Ok(value) => push_text(&mut common.manifests, value),
        }
        Ok(Some(at + 2))
    } else if same(arg, "--hook-symbol") {
        if let Err(error) = add_hook(&mut common.hooks, args, at + 1) {
            return Err(error);
        }
        Ok(Some(at + 2))
    } else if same(arg, "--mode") {
        match parse_mode(args, at + 1) {
            Err(error) => return Err(error),
            Ok(metrics) => common.metrics = Some(metrics),
        }
        Ok(Some(at + 2))
    } else if same(arg, "--duration") {
        match parse_duration_at(args, at + 1) {
            Err(error) => return Err(error),
            Ok(duration) => common.duration = Some(duration),
        }
        Ok(Some(at + 2))
    } else if same(arg, "--max-events") {
        match parse_max_events(args, at + 1) {
            Err(error) => return Err(error),
            Ok(number) => common.max_events = Some(number),
        }
        Ok(Some(at + 2))
    } else if same(arg, "-o") {
        match require_value(args, at + 1, "-o") {
            Err(error) => return Err(error),
            Ok(value) => common.out = Some(value),
        }
        Ok(Some(at + 2))
    } else if same(arg, "--unsafe-unvalidated-metadata") {
        common.unsafe_requested = true;
        Ok(Some(at + 1))
    } else {
        Ok(None)
    }
}

impl Common {
    fn none() -> (common: Common)
        ensures
            common@ == no_options(),
            common.hooks.well_formed(),
    {
        let common = Common {
            modules: Vec::new(),
            manifests: Vec::new(),
            hooks: HookRegistry::builtin(),
            metrics: None,
            duration: None,
            out: None,
            max_events: None,
            unsafe_requested: false,
        };
        assert(texts(common.modules@) =~= Seq::<Text>::empty());
        assert(texts(common.manifests@) =~= Seq::<Text>::empty());
        common
    }
}

/// Whether an argument asks for help.
pub open spec fn asks_help(arg: Text) -> bool {
    arg == "--help"@ || arg == "-h"@
}

fn is_help(arg: &str) -> (r: bool)
    ensures
        r == asks_help(arg@),
{
    same(arg, "--help") || same(arg, "-h")
}

/// Whether the lighter level was asked for. A trace has no mode.
pub open spec fn mode_for(c: CommonText, kind: Kind, subject: Text) -> Result<bool, CliRefusal> {
    match c.metrics {
        None => Ok(false),
        Some(metrics) => if kind == Kind::Trace {
            Err(usage(subject + " has no --mode; it always streams raw events"@))
        } else {
            Ok(metrics)
        },
    }
}

impl Common {
    /// One rule on `--mode` for every capture.
    fn metrics_for(&self, kind: Kind, subject: &str) -> (r: Result<bool, CliError>)
        ensures
            match mode_for(self@, kind, subject@) {
                Ok(metrics) => r == Ok::<bool, CliError>(metrics),
                Err(refusal) => r matches Err(error) && error@ == refusal,
            },
    {
        match self.metrics {
            None => Ok(false),
            Some(metrics) => if kind == Kind::Trace {
                let mut message = subject.to_owned();
                message.append(" has no --mode; it always streams raw events");
                Err(usage_err(message.as_str()))
            } else {
                Ok(metrics)
            },
        }
    }
}

/// Which processes a capture is about, by characters.
pub enum ScopeText {
    Pid(u32),
    Cgroup(Text),
}

impl View for ScopeArg {
    type V = ScopeText;

    open spec fn view(&self) -> ScopeText {
        match *self {
            ScopeArg::Pid(pid) => ScopeText::Pid(pid),
            ScopeArg::Cgroup(path) => ScopeText::Cgroup(path@),
        }
    }
}

/// The arguments of `profile` and `trace`, by characters.
pub struct CaptureText {
    pub kind: Kind,
    pub modules: Seq<Text>,
    pub manifests: Seq<Text>,
    pub hooks: Hooks,
    pub scope: ScopeText,
    pub metrics: bool,
    pub duration: Option<Duration>,
    pub out: Option<Text>,
    pub max_events: Option<u64>,
    pub unsafe_requested: bool,
}

impl View for CaptureArgs {
    type V = CaptureText;

    open spec fn view(&self) -> CaptureText {
        CaptureText {
            kind: self.kind,
            modules: texts(self.modules@),
            manifests: texts(self.manifests@),
            hooks: self.hooks@,
            scope: self.scope@,
            metrics: self.metrics,
            duration: self.duration,
            out: maybe(self.out),
            max_events: self.max_events,
            unsafe_requested: self.unsafe_requested,
        }
    }
}

/// What the arguments of a capture hold, from position `at` on: the options, `--pid` and
/// `--cgroup`.
pub open spec fn scan_capture(
    c: CommonText,
    pid: Option<u32>,
    cgroup: Option<Text>,
    args: Seq<Text>,
    at: int,
) -> Result<(CommonText, Option<u32>, Option<Text>), CliRefusal>
    decreases args.len() - at,
{
    if at < 0 || at >= args.len() {
        Ok((c, pid, cgroup))
    } else {
        proof {
            lemma_option_moves_on(c, args, at);
        }
        match read_option(c, args, at) {
            Err(refusal) => Err(refusal),
            Ok(Some((c, next))) => scan_capture(c, pid, cgroup, args, next),
            Ok(None) => if asks_help(args[at]) {
                Err(CliRefusal::Help)
            } else if args[at] == "--pid"@ {
                match pid_at(args, at + 1) {
                    Err(refusal) => Err(refusal),
                    Ok(pid) => scan_capture(c, Some(pid), cgroup, args, at + 2),
                }
            } else if args[at] == "--cgroup"@ {
                match value_at(args, at + 1, "--cgroup"@) {
                    Err(refusal) => Err(refusal),
                    Ok(path) => scan_capture(c, pid, Some(path), args, at + 2),
                }
            } else {
                Err(unknown(args[at]))
            },
        }
    }
}

/// The scope of a capture: exactly one of a process and a control group.
pub open spec fn one_scope(pid: Option<u32>, cgroup: Option<Text>) -> Result<
    ScopeText,
    CliRefusal,
> {
    match (pid, cgroup) {
        (Some(pid), None) => Ok(ScopeText::Pid(pid)),
        (None, Some(path)) => Ok(ScopeText::Cgroup(path)),
        (None, None) => Err(usage("exactly one of --pid or --cgroup is required"@)),
        (Some(_), Some(_)) => Err(usage("--pid and --cgroup are mutually exclusive"@)),
    }
}

/// A bound on the events belongs to a trace.
pub open spec fn bound_for(c: CommonText, kind: Kind) -> Result<(), CliRefusal> {
    if kind == Kind::Profile && c.max_events is Some {
        Err(
            usage(
                "--max-events is a trace option; profile publishes one aggregate document"@,
            ),
        )
    } else {
        Ok(())
    }
}

fn check_bound(common: &Common, kind: Kind) -> (r: Result<(), CliError>)
    ensures
        match bound_for(common@, kind) {
            Ok(()) => r is Ok,
            Err(refusal) => r matches Err(error) && error@ == refusal,
        },
{
    if kind == Kind::Profile && common.max_events.is_some() {
        Err(
            usage_err("--max-events is a trace option; profile publishes one aggregate document"),
        )
    } else {
        Ok(())
    }
}

/// The arguments of a capture, once everything is read.
pub open spec fn end_capture(
    kind: Kind,
    c: CommonText,
    pid: Option<u32>,
    cgroup: Option<Text>,
) -> Result<CaptureText, CliRefusal> {
    match one_scope(pid, cgroup) {
        Err(refusal) => Err(refusal),
        Ok(scope) => match bound_for(c, kind) {
            Err(refusal) => Err(refusal),
            Ok(()) => match mode_for(c, kind, "trace"@) {
                Err(refusal) => Err(refusal),
                Ok(metrics) => Ok(
                    CaptureText {
                        kind,
                        modules: c.modules,
                        manifests: c.manifests,
                        hooks: c.hooks,
                        scope,
                        metrics,
                        duration: c.duration,
                        out: c.out,
                        max_events: c.max_events,
                        unsafe_requested: c.unsafe_requested,
                    },
                ),
            },
        },
    }
}

/// The arguments of a capture from position `at` on.
pub open spec fn capture_from(kind: Kind, args: Seq<Text>, at: int) -> Result<
    CaptureText,
    CliRefusal,
> {
    match scan_capture(no_options(), None, None, args, at) {
        Err(refusal) => Err(refusal),
        Ok((c, pid, cgroup)) => end_capture(kind, c, pid, cgroup),
    }
}

/// What a parse came to, by characters.
pub open spec fn parsed<T: View>(r: Result<T, CliError>) -> Result<T::V, CliRefusal> {
    match r {
        Ok(value) => Ok(value@),
        Err(error) => Err(error@),
    }
}

fn parse_capture_from(kind: Kind, args: &Vec<String>, from: usize) -> (r: Result<
    CaptureArgs,
    CliError,
>)
    requires
        from <= args@.len(),
    ensures
        parsed(r) == capture_from(kind, texts(args@), from as int),
{
    let mut common = Common::none();
    let mut pid: Option<u32> = None;
    let mut cgroup: Option<String> = None;
    let mut at: usize = from;
    let len: usize = args.len();
    while at < len
        invariant
            at <= len,
            len == args@.len(),
            texts(args@).len() == len,
            common.hooks.well_formed(),
            scan_capture(no_options(), None, None, texts(args@), from as int) == scan_capture(
                common@,
                pid,
                maybe(cgroup),
                texts(args@),
                at as int,
            ),
        decreases len - at,
    {
        proof {
            lemma_option_moves_on(common@, texts(args@), at as int);
        }
        match capture_option(&mut common, args, at) {
            Err(error) => return Err(error),
            Ok(Some(next)) => {
                at = next;
            },
            Ok(None) => {
                let arg = args[at].as_str();
                assert(texts(args@)[at as int] == arg@);
                if is_help(arg) {
                    return Err(CliError::Help);
                }
                if same(arg, "--pid") {
                    match require_pid(args, at + 1) {
                        Err(error) => return Err(error),
                        Ok(number) => pid = Some(number),
                    }
                    at += 2;
                } else if same(arg, "--cgroup") {
                    match require_value(args, at + 1, "--cgroup") {
                        Err(error) => return Err(error),
                        Ok(path) => cgroup = Some(path),
                    }
                    at += 2;
                } else {
                    return Err(unknown_arg(arg));
                }
            },
        }
    }
    let scope = match (pid, cgroup) {
        (Some(number), None) => ScopeArg::Pid(number),
        (None, Some(path)) => ScopeArg::Cgroup(path),
        (None, None) => return Err(usage_err("exactly one of --pid or --cgroup is required")),
        (Some(_), Some(_)) => return Err(usage_err("--pid and --cgroup are mutually exclusive")),
    };
    if let Err(error) = check_bound(&common, kind) {
        return Err(error);
    }
    let metrics = match common.metrics_for(kind, "trace") {
        Err(error) => return Err(error),
        Ok(metrics) => metrics,
    };
    Ok(
        CaptureArgs {
            kind,
            modules: common.modules,
            manifests: common.manifests,
            hooks: common.hooks,
            scope,
            metrics,
            duration: common.duration,
            out: common.out,
            max_events: common.max_events,
            unsafe_requested: common.unsafe_requested,
        },
    )
}

/// Parses the arguments that `profile` and `trace` share.
pub fn parse_capture(kind: Kind, args: Vec<String>) -> (r: Result<CaptureArgs, CliError>)
    ensures
        parsed(r) == capture_from(kind, texts(args@), 0),
{
    parse_capture_from(kind, &args, 0)
}

/// What the options of `run` hold besides those of a capture.
pub struct RunOptions {
    pub trace: bool,
    pub pause: PausePolicy,
    pub kill_on_timeout: bool,
}

/// The pause policy that a word names.
pub open spec fn policy_named(word: Text) -> Option<PausePolicy> {
    if word == "never"@ {
        Some(PausePolicy::Never)
    } else if word == "auto"@ {
        Some(PausePolicy::Auto)
    } else if word == "always"@ {
        Some(PausePolicy::Always)
    } else {
        None
    }
}

/// `--pause`.
pub open spec fn read_pause(args: Seq<Text>, at: int) -> Result<PausePolicy, CliRefusal> {
    match value_at(args, at, "--pause"@) {
        Err(refusal) => Err(refusal),
        Ok(value) => match policy_named(value) {
            Some(policy) => Ok(policy),
            None => Err(
                usage(
                    "--pause: invalid value "@ + debug_text(value)
                        + " (expected never|auto|always)"@,
                ),
            ),
        },
    }
}

fn parse_pause(args: &Vec<String>, at: usize) -> (r: Result<PausePolicy, CliError>)
    ensures
        match read_pause(texts(args@), at as int) {
            Ok(policy) => at < args@.len() && r == Ok::<PausePolicy, CliError>(policy),
            Err(refusal) => r matches Err(error) && error@ == refusal,
        },
{
    let value = match require_value(args, at, "--pause") {
        Ok(value) => value,
        Err(error) => return Err(error),
    };
    if same(value.as_str(), "never") {
        Ok(PausePolicy::Never)
    } else if same(value.as_str(), "auto") {
        Ok(PausePolicy::Auto)
    } else if same(value.as_str(), "always") {
        Ok(PausePolicy::Always)
    } else {
        let message = concat3(
            "--pause: invalid value ",
            debug_of(value.as_str()).as_str(),
            " (expected never|auto|always)",
        );
        Err(usage_err(message.as_str()))
    }
}

/// What the arguments of `run` hold, from position `at` on: the options, and the position of the
/// command behind `--`, or the end.
pub open spec fn scan_run(c: CommonText, o: RunOptions, args: Seq<Text>, at: int) -> Result<
    (CommonText, RunOptions, int),
    CliRefusal,
>
    decreases args.len() - at,
{
    if at < 0 || at >= args.len() {
        Ok((c, o, args.len() as int))
    } else {
        proof {
            lemma_option_moves_on(c, args, at);
        }
        match read_option(c, args, at) {
            Err(refusal) => Err(refusal),
            Ok(Some((c, next))) => scan_run(c, o, args, next),
            Ok(None) => if asks_help(args[at]) {
                Err(CliRefusal::Help)
            } else if args[at] == "--trace"@ {
                scan_run(c, RunOptions { trace: true, ..o }, args, at + 1)
            } else if args[at] == "--pause"@ {
                match read_pause(args, at + 1) {
                    Err(refusal) => Err(refusal),
                    Ok(pause) => scan_run(c, RunOptions { pause, ..o }, args, at + 2),
                }
            } else if args[at] == "--kill-on-timeout"@ {
                scan_run(c, RunOptions { kill_on_timeout: true, ..o }, args, at + 1)
            } else if args[at] == "--pid"@ || args[at] == "--cgroup"@ {
                Err(
                    usage(
                        "run has no --pid or --cgroup: it captures exactly the command it starts"@,
                    ),
                )
            } else if args[at] == "--"@ {
                Ok((c, o, at + 1))
            } else {
                Err(unknown(args[at]))
            },
        }
    }
}

/// The arguments of `run`, by characters.
pub struct RunText {
    pub kind: Kind,
    pub modules: Seq<Text>,
    pub manifests: Seq<Text>,
    pub hooks: Hooks,
    pub metrics: bool,
    pub duration: Option<Duration>,
    pub out: Option<Text>,
    pub max_events: Option<u64>,
    pub unsafe_requested: bool,
    pub pause: PausePolicy,
    pub kill_on_timeout: bool,
    pub command: Seq<Text>,
}

impl View for RunArgs {
    type V = RunText;

    open spec fn view(&self) -> RunText {
        RunText {
            kind: self.kind,
            modules: texts(self.modules@),
            manifests: texts(self.manifests@),
            hooks: self.hooks@,
            metrics: self.metrics,
            duration: self.duration,
            out: maybe(self.out),
            max_events: self.max_events,
            unsafe_requested: self.unsafe_requested,
            pause: self.pause,
            kill_on_timeout: self.kill_on_timeout,
            command: texts(self.command@),
        }
    }
}

/// The kind of capture that `run` was asked for.
pub open spec fn run_kind(o: RunOptions) -> Kind {
    if o.trace {
        Kind::Trace
    } else {
        Kind::Profile
    }
}

/// The arguments of `run`, once everything is read.
pub open spec fn end_run(c: CommonText, o: RunOptions, command: Seq<Text>) -> Result<
    RunText,
    CliRefusal,
> {
    if command.len() == 0 || command[0].len() == 0 {
        Err(usage("run requires a command: `p11scope run [options] -- CMD [ARGS...]`"@))
    } else {
        match bound_for(c, run_kind(o)) {
            Err(refusal) => Err(refusal),
            Ok(()) => match mode_for(c, run_kind(o), "run --trace"@) {
                Err(refusal) => Err(refusal),
                Ok(metrics) => Ok(
                    RunText {
                        kind: run_kind(o),
                        modules: c.modules,
                        manifests: c.manifests,
                        hooks: c.hooks,
                        metrics,
                        duration: c.duration,
                        out: c.out,
                        max_events: c.max_events,
                        unsafe_requested: c.unsafe_requested,
                        pause: o.pause,
                        kill_on_timeout: o.kill_on_timeout,
                        command,
                    },
                ),
            },
        }
    }
}

/// The options of `run` of which none was given.
pub open spec fn no_run_options() -> RunOptions {
    RunOptions { trace: false, pause: PausePolicy::Never, kill_on_timeout: false }
}

/// The arguments of `run` from position `at` on. The command is everything after `--`.
pub open spec fn run_from(args: Seq<Text>, at: int) -> Result<RunText, CliRefusal> {
    match scan_run(no_options(), no_run_options(), args, at) {
        Err(refusal) => Err(refusal),
        Ok((c, o, start)) => end_run(c, o, args.skip(start)),
    }
}

/// The strings of a list from a position on.
fn tail(args: &Vec<String>, from: usize) -> (r: Vec<String>)
    requires
        from <= args@.len(),
    ensures
        texts(r@) == texts(args@).skip(from as int),
{
    let mut out: Vec<String> = Vec::new();
    let mut i: usize = from;
    while i < args.len()
        invariant
            from <= i <= args@.len(),
            out@.len() == i - from,
            forall|j: int| 0 <= j < out@.len() ==> (#[trigger] out@[j])@ == args@[from + j]@,
        decreases args@.len() - i,
    {
        out.push(args[i].clone());
        i += 1;
    }
    assert(texts(out@) =~= texts(args@).skip(from as int));
    out
}

fn parse_run_from(args: &Vec<String>, from: usize) -> (r: Result<RunArgs, CliError>)
    requires
        from <= args@.len(),
    ensures
        parsed(r) == run_from(texts(args@), from as int),
{
    let mut common = Common::none();
    let mut o = RunOptions { trace: false, pause: PausePolicy::Never, kill_on_timeout: false };
    let mut at: usize = from;
    let len: usize = args.len();
    let mut start: usize = len;
    while at < len
        invariant_except_break
            at <= len,
            len == args@.len(),
            start == len,
            texts(args@).len() == len,
            common.hooks.well_formed(),
            scan_run(no_options(), no_run_options(), texts(args@), from as int) == scan_run(
                common@,
                o,
                texts(args@),
                at as int,
            ),
        ensures
            start <= len,
            len == args@.len(),
            scan_run(no_options(), no_run_options(), texts(args@), from as int) == Ok::<
                (CommonText, RunOptions, int),
                CliRefusal,
            >((common@, o, start as int)),
        decreases len - at,
    {
        proof {
            lemma_option_moves_on(common@, texts(args@), at as int);
        }
        match capture_option(&mut common, args, at) {
            Err(error) => return Err(error),
            Ok(Some(next)) => {
                at = next;
            },
            Ok(None) => {
                let arg = args[at].as_str();
                assert(texts(args@)[at as int] == arg@);
                if is_help(arg) {
                    return Err(CliError::Help);
                }
                if same(arg, "--trace") {
                    o = RunOptions { trace: true, ..o };
                    at += 1;
                } else if same(arg, "--pause") {
                    match parse_pause(args, at + 1) {
                        Err(error) => return Err(error),
                        Ok(pause) => o = RunOptions { pause, ..o },
                    }
                    at += 2;
                } else if same(arg, "--kill-on-timeout") {
                    o = RunOptions { kill_on_timeout: true, ..o };
                    at += 1;
                } else if same(arg, "--pid") || same(arg, "--cgroup") {
                    return Err(
                        usage_err(
                            "run has no --pid or --cgroup: it captures exactly the command it starts",
                        ),
                    );
                } else if same(arg, "--") {
                    start = at + 1;
                    break;
                } else {
                    return Err(unknown_arg(arg));
                }
            },
        }
    }
    let command = tail(args, start);
    assert(texts(command@).len() == command@.len());
    assert(command@.len() > 0 ==> texts(command@)[0] == command@[0]@);
    if command.len() == 0 || command[0].as_str().is_empty() {
        return Err(
            usage_err("run requires a command: `p11scope run [options] -- CMD [ARGS...]`"),
        );
    }
    let kind = if o.trace {
        Kind::Trace
    } else {
        Kind::Profile
    };
    if let Err(error) = check_bound(&common, kind) {
        return Err(error);
    }
    let metrics = match common.metrics_for(kind, "run --trace") {
        Err(error) => return Err(error),
        Ok(metrics) => metrics,
    };
    Ok(
        RunArgs {
            kind,
            modules: common.modules,
            manifests: common.manifests,
            hooks: common.hooks,
            metrics,
            duration: common.duration,
            out: common.out,
            max_events: common.max_events,
            unsafe_requested: common.unsafe_requested,
            pause: o.pause,
            kill_on_timeout: o.kill_on_timeout,
            command,
        },
    )
}

/// Parses the arguments of `run`. Everything after `--` is the command, verbatim.
pub fn parse_run(args: Vec<String>) -> (r: Result<RunArgs, CliError>)
    ensures
        parsed(r) == run_from(texts(args@), 0),
{
    parse_run_from(&args, 0)
}

/// The arguments of `inspect`, by characters.
pub struct InspectText {
    pub pid: u32,
    pub modules: Seq<Text>,
    pub hooks: Hooks,
    pub json: bool,
}

impl View for InspectArgs {
    type V = InspectText;

    open spec fn view(&self) -> InspectText {
        InspectText {
            pid: self.pid,
            modules: texts(self.modules@),
            hooks: self.hooks@,
            json: self.json,
        }
    }
}

/// What the arguments of `inspect` hold, from position `at` on.
pub open spec fn inspect_from(
    pid: Option<u32>,
    modules: Seq<Text>,
    hooks: Hooks,
    json: bool,
    args: Seq<Text>,
    at: int,
) -> Result<InspectText, CliRefusal>
    decreases args.len() - at,
{
    if at < 0 || at >= args.len() {
        match pid {
            Some(pid) => Ok(InspectText { pid, modules, hooks, json }),
            None => Err(usage("inspect requires --pid <n>"@)),
        }
    } else if asks_help(args[at]) {
        Err(CliRefusal::Help)
    } else if args[at] == "--pid"@ {
        match pid_at(args, at + 1) {
            Err(refusal) => Err(refusal),
            Ok(pid) => inspect_from(Some(pid), modules, hooks, json, args, at + 2),
        }
    } else if args[at] == "--module"@ {
        match value_at(args, at + 1, "--module"@) {
            Err(refusal) => Err(refusal),
            Ok(path) => inspect_from(pid, modules.push(path), hooks, json, args, at + 2),
        }
    } else if args[at] == "--hook-symbol"@ {
        match read_hook(hooks, args, at + 1) {
            Err(refusal) => Err(refusal),
            Ok(hooks) => inspect_from(pid, modules, hooks, json, args, at + 2),
        }
    } else if args[at] == "--json"@ {
        inspect_from(pid, modules, hooks, true, args, at + 1)
    } else {
        Err(unknown(args[at]))
    }
}

fn parse_inspect_from(args: &Vec<String>, from: usize) -> (r: Result<InspectArgs, CliError>)
    requires
        from <= args@.len(),
    ensures
        parsed(r) == inspect_from(
            None,
            Seq::empty(),
            builtin_hooks(),
            false,
            texts(args@),
            from as int,
        ),
{
    let mut pid: Option<u32> = None;
    let mut modules: Vec<String> = Vec::new();
    let mut hooks = HookRegistry::builtin();
    let mut json = false;
    let mut at: usize = from;
    let len: usize = args.len();
    assert(texts(modules@) =~= Seq::<Text>::empty());
    while at < len
        invariant
            at <= len,
            len == args@.len(),
            texts(args@).len() == len,
            hooks.well_formed(),
            inspect_from(
                None,
                Seq::empty(),
                builtin_hooks(),
                false,
                texts(args@),
                from as int,
            ) == inspect_from(pid, texts(modules@), hooks@, json, texts(args@), at as int),
        decreases len - at,
    {
        let arg = args[at].as_str();
        assert(texts(args@)[at as int] == arg@);
        if is_help(arg) {
            return Err(CliError::Help);
        }
        if same(arg, "--pid") {
            match require_pid(args, at + 1) {
                Err(error) => return Err(error),
                Ok(number) => pid = Some(number),
            }
            at += 2;
        } else if same(arg, "--module") {
            match require_value(args, at + 1, "--module") {
                Err(error) => return Err(error),
                Ok(path) => push_text(&mut modules, path),
            }
            at += 2;
        } else if same(arg, "--hook-symbol") {
            if let Err(error) = add_hook(&mut hooks, args, at + 1) {
                return Err(error);
            }
            at += 2;
        } else if same(arg, "--json") {
            json = true;
            at += 1;
        } else {
            return Err(unknown_arg(arg));
        }
    }
    match pid {
        Some(pid) => Ok(InspectArgs { pid, modules, hooks, json }),
        None => Err(usage_err("inspect requires --pid <n>")),
    }
}

/// Parses the arguments of `inspect`.
pub fn parse_inspect(args: Vec<String>) -> (r: Result<InspectArgs, CliError>)
    ensures
        parsed(r) == inspect_from(
            None,
            Seq::empty(),
            builtin_hooks(),
            false,
            texts(args@),
            0,
        ),
{
    parse_inspect_from(&args, 0)
}

/// The arguments of `doctor`, by characters.
pub struct DoctorText {
    pub pid: Option<u32>,
    pub cgroup: Option<Text>,
}

impl View for DoctorArgs {
    type V = DoctorText;

    open spec fn view(&self) -> DoctorText {
        DoctorText { pid: self.pid, cgroup: maybe(self.cgroup) }
    }
}

/// What the arguments of `doctor` hold, from position `at` on. Every one is optional.
pub open spec fn doctor_from(d: DoctorText, args: Seq<Text>, at: int) -> Result<
    DoctorText,
    CliRefusal,
>
    decreases args.len() - at,
{
    if at < 0 || at >= args.len() {
        Ok(d)
    } else if asks_help(args[at]) {
        Err(CliRefusal::Help)
    } else if args[at] == "--pid"@ {
        match pid_at(args, at + 1) {
            Err(refusal) => Err(refusal),
            Ok(pid) => doctor_from(DoctorText { pid: Some(pid), ..d }, args, at + 2),
        }
    } else if args[at] == "--cgroup"@ {
        match value_at(args, at + 1, "--cgroup"@) {
            Err(refusal) => Err(refusal),
            Ok(path) => doctor_from(DoctorText { cgroup: Some(path), ..d }, args, at + 2),
        }
    } else if args[at] == "--module"@ {
        Err(
            usage(
                "doctor --module is not supported; use inspect --pid <n> --module <provider.so> for module-specific discovery"@,
            ),
        )
    } else {
        Err(unknown(args[at]))
    }
}

fn parse_doctor_from(args: &Vec<String>, from: usize) -> (r: Result<DoctorArgs, CliError>)
    requires
        from <= args@.len(),
    ensures
        parsed(r) == doctor_from(
            (DoctorText { pid: None, cgroup: None }),
            texts(args@),
            from as int,
        ),
{
    let mut doctor = DoctorArgs { pid: None, cgroup: None };
    let mut at: usize = from;
    let len: usize = args.len();
    while at < len
        invariant
            at <= len,
            len == args@.len(),
            texts(args@).len() == len,
            doctor_from((DoctorText { pid: None, cgroup: None }), texts(args@), from as int)
                == doctor_from(doctor@, texts(args@), at as int),
        decreases len - at,
    {
        let arg = args[at].as_str();
        assert(texts(args@)[at as int] == arg@);
        if is_help(arg) {
            return Err(CliError::Help);
        }
        if same(arg, "--pid") {
            match require_pid(args, at + 1) {
                Err(error) => return Err(error),
                Ok(number) => doctor.pid = Some(number),
            }
            at += 2;
        } else if same(arg, "--cgroup") {
            match require_value(args, at + 1, "--cgroup") {
                Err(error) => return Err(error),
                Ok(path) => doctor.cgroup = Some(path),
            }
            at += 2;
        } else if same(arg, "--module") {
            return Err(
                usage_err(
                    "doctor --module is not supported; use inspect --pid <n> --module <provider.so> for module-specific discovery",
                ),
            );
        } else {
            return Err(unknown_arg(arg));
        }
    }
    Ok(doctor)
}

/// Parses the arguments of `doctor`.
pub fn parse_doctor(args: Vec<String>) -> (r: Result<DoctorArgs, CliError>)
    ensures
        parsed(r) == doctor_from((DoctorText { pid: None, cgroup: None }), texts(args@), 0),
{
    parse_doctor_from(&args, 0)
}

/// A parsed command line, by characters.
pub enum CommandText {
    Profile(CaptureText),
    Trace(CaptureText),
    Run(RunText),
    Inspect(InspectText),
    Doctor(DoctorText),
}

impl View for Command {
    type V = CommandText;

    open spec fn view(&self) -> CommandText {
        match *self {
            Command::Profile(args) => CommandText::Profile(args@),
            Command::Trace(args) => CommandText::Trace(args@),
            Command::Run(args) => CommandText::Run(args@),
            Command::Inspect(args) => CommandText::Inspect(args@),
            Command::Doctor(args) => CommandText::Doctor(args@),
        }
    }
}

/// What a command line means: its first argument names the subcommand.
pub open spec fn command_line(args: Seq<Text>) -> Result<CommandText, CliRefusal> {
    if args.len() == 0 {
        Err(usage("missing subcommand"@))
    } else if args[0] == "profile"@ {
        match capture_from(Kind::Profile, args, 1) {
            Ok(capture) => Ok(CommandText::Profile(capture)),
            Err(refusal) => Err(refusal),
        }
    } else if args[0] == "trace"@ {
        match capture_from(Kind::Trace, args, 1) {
            Ok(capture) => Ok(CommandText::Trace(capture)),
            Err(refusal) => Err(refusal),
        }
    } else if args[0] == "run"@ {
        match run_from(args, 1) {
            Ok(run) => Ok(CommandText::Run(run)),
            Err(refusal) => Err(refusal),
        }
    } else if args[0] == "inspect"@ {
        match inspect_from(None, Seq::empty(), builtin_hooks(), false, args, 1) {
            Ok(inspect) => Ok(CommandText::Inspect(inspect)),
            Err(refusal) => Err(refusal),
        }
    } else if args[0] == "doctor"@ {
        match doctor_from(DoctorText { pid: None, cgroup: None }, args, 1) {
            Ok(doctor) => Ok(CommandText::Doctor(doctor)),
            Err(refusal) => Err(refusal),
        }
    } else if asks_help(args[0]) {
        Err(CliRefusal::Help)
    } else if args[0] == "discover"@ {
        Err(
            usage(
                "`p11scope discover` was removed: run `p11scope-discover --module <provider.so> -o <m.json>` (offline helper; executes provider code)"@,
            ),
        )
    } else {
        Err(usage("unknown subcommand: "@ + args[0]))
    }
}

/// Parses a whole command line: the subcommand and its arguments. The caller decides how to report
/// a refusal.
pub fn parse(argv: Vec<String>) -> (r: Result<Command, CliError>)
    ensures
        parsed(r) == command_line(texts(argv@)),
{
    assert(texts(argv@).len() == argv@.len());
    if argv.len() == 0 {
        return Err(usage_err("missing subcommand"));
    }
    assert(texts(argv@)[0] == argv@[0]@);
    let name = argv[0].as_str();
    if same(name, "profile") {
        match parse_capture_from(Kind::Profile, &argv, 1) {
            Ok(args) => Ok(Command::Profile(args)),
            Err(error) => Err(error),
        }
    } else if same(name, "trace") {
        match parse_capture_from(Kind::Trace, &argv, 1) {
            Ok(args) => Ok(Command::Trace(args)),
            Err(error) => Err(error),
        }
    } else if same(name, "run") {
        match parse_run_from(&argv, 1) {
            Ok(args) => Ok(Command::Run(args)),
            Err(error) => Err(error),
        }
    } else if same(name, "inspect") {
        match parse_inspect_from(&argv, 1) {
            Ok(args) => Ok(Command::Inspect(args)),
            Err(error) => Err(error),
        }
    } else if same(name, "doctor") {
        match parse_doctor_from(&argv, 1) {
            Ok(args) => Ok(Command::Doctor(args)),
            Err(error) => Err(error),
        }
    } else if is_help(name) {
        Err(CliError::Help)
    } else if same(name, "discover") {
        Err(
            usage_err(
                "`p11scope discover` was removed: run `p11scope-discover --module <provider.so> -o <m.json>` (offline helper; executes provider code)",
            ),
        )
    } else {
        let mut message = "unknown subcommand: ".to_owned();
        message.append(name);
        Err(usage_err(message.as_str()))
    }
}

/// A command line: a subcommand and the arguments behind it.
pub open spec fn line_of(name: Text, rest: Seq<Text>) -> Seq<Text> {
    seq![name] + rest
}

/// An option reads the same behind the name of a subcommand, one position later.
proof fn lemma_option_shifts(c: CommonText, name: Text, rest: Seq<Text>, at: int)
    requires
        0 <= at < rest.len(),
    ensures
        read_option(c, line_of(name, rest), at + 1) == match read_option(c, rest, at) {
            Ok(Some((more, next))) => Ok::<Option<(CommonText, int)>, CliRefusal>(
                Some((more, next + 1)),
            ),
            other => other,
        },
{
    reveal(read_option);
    lemma_value_shifts(name, rest, at);
    lemma_value_shifts(name, rest, at + 1);
}

/// An argument stands one position later behind the name of a subcommand.
proof fn lemma_value_shifts(name: Text, rest: Seq<Text>, at: int)
    requires
        0 <= at,
    ensures
        line_of(name, rest).len() == rest.len() + 1,
        at < rest.len() ==> line_of(name, rest)[at + 1] == rest[at],
{
}

/// The arguments of a capture read the same behind the name of the subcommand.
proof fn lemma_capture_shifts(
    c: CommonText,
    pid: Option<u32>,
    cgroup: Option<Text>,
    name: Text,
    rest: Seq<Text>,
    at: int,
)
    requires
        0 <= at,
    ensures
        scan_capture(c, pid, cgroup, line_of(name, rest), at + 1) == scan_capture(
            c,
            pid,
            cgroup,
            rest,
            at,
        ),
    decreases rest.len() - at,
{
    lemma_value_shifts(name, rest, at);
    if at < rest.len() {
        lemma_value_shifts(name, rest, at + 1);
        lemma_option_shifts(c, name, rest, at);
        lemma_option_moves_on(c, rest, at);
        match read_option(c, rest, at) {
            Ok(Some((more, next))) => {
                lemma_capture_shifts(more, pid, cgroup, name, rest, next);
            },
            _ => {
                if let Ok(pid) = pid_at(rest, at + 1) {
                    lemma_capture_shifts(c, Some(pid), cgroup, name, rest, at + 2);
                }
                if let Ok(path) = value_at(rest, at + 1, "--cgroup"@) {
                    lemma_capture_shifts(c, pid, Some(path), name, rest, at + 2);
                }
            },
        }
    }
}

/// The options of `run` read the same behind the name of the subcommand.
proof fn lemma_run_shifts(c: CommonText, o: RunOptions, name: Text, rest: Seq<Text>, at: int)
    requires
        0 <= at,
    ensures
        scan_run(c, o, line_of(name, rest), at + 1) == match scan_run(c, o, rest, at) {
            Ok((c, o, start)) => Ok::<(CommonText, RunOptions, int), CliRefusal>(
                (c, o, start + 1),
            ),
            Err(refusal) => Err(refusal),
        },
    decreases rest.len() - at,
{
    lemma_value_shifts(name, rest, at);
    if at < rest.len() {
        lemma_value_shifts(name, rest, at + 1);
        lemma_option_shifts(c, name, rest, at);
        lemma_option_moves_on(c, rest, at);
        match read_option(c, rest, at) {
            Ok(Some((more, next))) => {
                lemma_run_shifts(more, o, name, rest, next);
            },
            _ => {
                lemma_run_shifts(c, RunOptions { trace: true, ..o }, name, rest, at + 1);
                lemma_run_shifts(c, RunOptions { kill_on_timeout: true, ..o }, name, rest, at + 1);
                if let Ok(pause) = read_pause(rest, at + 1) {
                    lemma_run_shifts(c, RunOptions { pause, ..o }, name, rest, at + 2);
                }
            },
        }
    }
}

/// The arguments of `inspect` read the same behind the name of the subcommand.
proof fn lemma_inspect_shifts(
    pid: Option<u32>,
    modules: Seq<Text>,
    hooks: Hooks,
    json: bool,
    name: Text,
    rest: Seq<Text>,
    at: int,
)
    requires
        0 <= at,
    ensures
        inspect_from(pid, modules, hooks, json, line_of(name, rest), at + 1) == inspect_from(
            pid,
            modules,
            hooks,
            json,
            rest,
            at,
        ),
    decreases rest.len() - at,
{
    lemma_value_shifts(name, rest, at);
    if at < rest.len() {
        lemma_value_shifts(name, rest, at + 1);
        lemma_inspect_shifts(pid, modules, hooks, true, name, rest, at + 1);
        if let Ok(pid) = pid_at(rest, at + 1) {
            lemma_inspect_shifts(Some(pid), modules, hooks, json, name, rest, at + 2);
        }
        if let Ok(path) = value_at(rest, at + 1, "--module"@) {
            lemma_inspect_shifts(pid, modules.push(path), hooks, json, name, rest, at + 2);
        }
        if let Ok(hooks) = read_hook(hooks, rest, at + 1) {
            lemma_inspect_shifts(pid, modules, hooks, json, name, rest, at + 2);
        }
    }
}

/// The arguments of `doctor` read the same behind the name of the subcommand.
proof fn lemma_doctor_shifts(d: DoctorText, name: Text, rest: Seq<Text>, at: int)
    requires
        0 <= at,
    ensures
        doctor_from(d, line_of(name, rest), at + 1) == doctor_from(d, rest, at),
    decreases rest.len() - at,
{
    lemma_value_shifts(name, rest, at);
    if at < rest.len() {
        lemma_value_shifts(name, rest, at + 1);
        if let Ok(pid) = pid_at(rest, at + 1) {
            lemma_doctor_shifts(DoctorText { pid: Some(pid), ..d }, name, rest, at + 2);
        }
        if let Ok(path) = value_at(rest, at + 1, "--cgroup"@) {
            lemma_doctor_shifts(DoctorText { cgroup: Some(path), ..d }, name, rest, at + 2);
        }
    }
}

/// A subcommand reads the arguments behind its name, and nothing else: they mean what they mean on
/// their own.
pub proof fn lemma_subcommand_reads_the_rest(rest: Seq<Text>)
    ensures
        command_line(line_of("profile"@, rest)) == match capture_from(Kind::Profile, rest, 0) {
            Ok(capture) => Ok::<CommandText, CliRefusal>(CommandText::Profile(capture)),
            Err(refusal) => Err(refusal),
        },
        command_line(line_of("trace"@, rest)) == match capture_from(Kind::Trace, rest, 0) {
            Ok(capture) => Ok::<CommandText, CliRefusal>(CommandText::Trace(capture)),
            Err(refusal) => Err(refusal),
        },
        command_line(line_of("run"@, rest)) == match run_from(rest, 0) {
            Ok(run) => Ok::<CommandText, CliRefusal>(CommandText::Run(run)),
            Err(refusal) => Err(refusal),
        },
        command_line(line_of("inspect"@, rest)) == match inspect_from(
            None,
            Seq::empty(),
            builtin_hooks(),
            false,
            rest,
            0,
        ) {
            Ok(inspect) => Ok::<CommandText, CliRefusal>(CommandText::Inspect(inspect)),
            Err(refusal) => Err(refusal),
        },
        command_line(line_of("doctor"@, rest)) == match doctor_from(
            (DoctorText { pid: None, cgroup: None }),
            rest,
            0,
        ) {
            Ok(doctor) => Ok::<CommandText, CliRefusal>(CommandText::Doctor(doctor)),
            Err(refusal) => Err(refusal),
        },
{
    reveal_strlit("profile");
    reveal_strlit("trace");
    reveal_strlit("run");
    reveal_strlit("inspect");
    reveal_strlit("doctor");
    assert("profile"@.len() == 7 && "trace"@.len() == 5 && "run"@.len() == 3);
    assert("inspect"@[0] == 'i' && "profile"@[0] == 'p');
    assert("doctor"@.len() == 6);
    lemma_capture_shifts(no_options(), None, None, "profile"@, rest, 0);
    lemma_capture_shifts(no_options(), None, None, "trace"@, rest, 0);
    lemma_run_shifts(no_options(), no_run_options(), "run"@, rest, 0);
    if let Ok((_, _, start)) = scan_run(no_options(), no_run_options(), rest, 0) {
        lemma_scan_run_stops(no_options(), no_run_options(), rest, 0);
        assert(line_of("run"@, rest).skip(start + 1) =~= rest.skip(start));
    }
    lemma_inspect_shifts(None, Seq::empty(), builtin_hooks(), false, "inspect"@, rest, 0);
    lemma_doctor_shifts(DoctorText { pid: None, cgroup: None }, "doctor"@, rest, 0);
}

/// Whether an argument names a subcommand.
pub open spec fn names_subcommand(name: Text) -> bool {
    name == "profile"@ || name == "trace"@ || name == "run"@ || name == "inspect"@ || name
        == "doctor"@
}

/// What a command line is answered that names no subcommand: the help where it is asked for first,
/// and else how the program is used.
pub proof fn lemma_no_subcommand(args: Seq<Text>)
    requires
        args.len() == 0 || !names_subcommand(args[0]),
    ensures
        args.len() > 0 && asks_help(args[0]) ==> command_line(args) == Err::<
            CommandText,
            CliRefusal,
        >(CliRefusal::Help),
        args.len() == 0 || !asks_help(args[0]) ==> command_line(args) matches Err(
            CliRefusal::Usage(_),
        ),
{
}

/// What was parsed as a capture keeps to its kind: a profile has no bound on events, a trace is
/// never the lighter level.
pub proof fn lemma_capture_keeps_to_its_kind(args: Seq<Text>)
    ensures
        command_line(args) matches Ok(CommandText::Profile(capture)) ==> capture.kind
            == Kind::Profile && capture.max_events is None,
        command_line(args) matches Ok(CommandText::Trace(capture)) ==> capture.kind == Kind::Trace
            && !capture.metrics,
        command_line(args) matches Ok(CommandText::Run(run)) ==> (run.kind == Kind::Profile
            ==> run.max_events is None) && (run.kind == Kind::Trace ==> !run.metrics),
{
}

/// The arguments of `run` are read up to the first `--` that is not a value.
proof fn lemma_scan_run_stops(c: CommonText, o: RunOptions, args: Seq<Text>, at: int)
    requires
        0 <= at,
    ensures
        scan_run(c, o, args, at) matches Ok((_, _, start)) ==> start == args.len() || (at < start
            < args.len() && args[start - 1] == "--"@),
    decreases args.len() - at,
{
    if at < args.len() {
        lemma_option_moves_on(c, args, at);
        match read_option(c, args, at) {
            Ok(Some((more, next))) => {
                lemma_scan_run_stops(more, o, args, next);
            },
            _ => {
                lemma_scan_run_stops(c, RunOptions { trace: true, ..o }, args, at + 1);
                lemma_scan_run_stops(c, RunOptions { kill_on_timeout: true, ..o }, args, at + 1);
                if let Ok(pause) = read_pause(args, at + 1) {
                    lemma_scan_run_stops(c, RunOptions { pause, ..o }, args, at + 2);
                }
            },
        }
    }
}

/// The command of `run` is everything after a `--`, verbatim, and it is never empty.
pub proof fn lemma_run_command_is_verbatim(args: Seq<Text>)
    ensures
        command_line(args) matches Ok(CommandText::Run(run)) ==> run.command.len() > 0
            && run.command[0].len() > 0 && exists|k: int|
            0 < k < args.len() && #[trigger] args[k] == "--"@ && run.command == args.skip(k + 1),
{
    if let Ok(CommandText::Run(run)) = command_line(args) {
        lemma_scan_run_stops(no_options(), no_run_options(), args, 1);
        let start = scan_run(no_options(), no_run_options(), args, 1)->Ok_0.2;
        assert(run.command == args.skip(start));
        assert(start < args.len());
        assert(args[start - 1] == "--"@);
    }
}

/// What is read before the command of `run` does not depend on the command.
proof fn lemma_scan_run_prefix(
    c: CommonText,
    o: RunOptions,
    a: Seq<Text>,
    b: Seq<Text>,
    at: int,
    start: int,
)
    requires
        0 <= at,
        start < a.len(),
        start < b.len(),
        a.take(start) == b.take(start),
        scan_run(c, o, a, at) matches Ok((_, _, s)) && s == start,
    ensures
        scan_run(c, o, b, at) == scan_run(c, o, a, at),
    decreases a.len() - at,
{
    lemma_scan_run_stops(c, o, a, at);
    assert(at < start);
    assert(a[at] == a.take(start)[at]);
    assert(b[at] == b.take(start)[at]);
    if at + 1 < start {
        assert(a[at + 1] == a.take(start)[at + 1]);
        assert(b[at + 1] == b.take(start)[at + 1]);
    }
    lemma_option_moves_on(c, a, at);
    match read_option(c, a, at) {
        Ok(Some((more, next))) => {
            lemma_scan_run_stops(more, o, a, next);
            assert(at + 1 < start);
            assert(read_option(c, b, at) == read_option(c, a, at)) by {
                reveal(read_option);
            }
            lemma_scan_run_prefix(more, o, a, b, next, start);
        },
        _ => {
            assert(read_option(c, b, at) == read_option(c, a, at)) by {
                reveal(read_option);
            }
            if a[at] == "--trace"@ {
                lemma_scan_run_prefix(c, RunOptions { trace: true, ..o }, a, b, at + 1, start);
            } else if a[at] == "--pause"@ {
                let pause = read_pause(a, at + 1)->Ok_0;
                lemma_scan_run_stops(c, RunOptions { pause, ..o }, a, at + 2);
                lemma_scan_run_prefix(c, RunOptions { pause, ..o }, a, b, at + 2, start);
            } else if a[at] == "--kill-on-timeout"@ {
                lemma_scan_run_prefix(
                    c,
                    RunOptions { kill_on_timeout: true, ..o },
                    a,
                    b,
                    at + 1,
                    start,
                );
            }
        },
    }
}

/// Nothing in the command of `run` is taken for an option: the command is everything behind one
/// `--`, and another command behind the same `--` changes the command, and nothing else.
pub proof fn lemma_run_command_is_not_read(args: Seq<Text>, command: Seq<Text>)
    requires
        command.len() > 0,
        command[0].len() > 0,
    ensures
        command_line(args) matches Ok(CommandText::Run(run)) ==> exists|k: int|
            0 < k < args.len() && #[trigger] args[k] == "--"@ && run.command == args.skip(k + 1)
                && command_line(args.take(k + 1) + command) == Ok::<CommandText, CliRefusal>(
                CommandText::Run((RunText { command, ..run })),
            ),
{
    if let Ok(CommandText::Run(run)) = command_line(args) {
        lemma_scan_run_stops(no_options(), no_run_options(), args, 1);
        let (c, o, start) = scan_run(no_options(), no_run_options(), args, 1)->Ok_0;
        let other = args.take(start) + command;
        assert(other.take(start) =~= args.take(start));
        lemma_scan_run_prefix(no_options(), no_run_options(), args, other, 1, start);
        assert(other.skip(start) =~= command);
        assert(other[0] == args[0]);
        let k = start - 1;
        assert(args[k] == "--"@);
        assert(args.take(k + 1) + command == other);
        assert(other[0] == "run"@);
        assert("run"@ != "profile"@ && "run"@ != "trace"@) by {
            reveal_strlit("run");
            reveal_strlit("profile");
            reveal_strlit("trace");
        }
    }
}

/// What stands behind the `--` of `run` is the command, whatever it is: where options are followed
/// by `--` and one word, and that word is the command, any other command may stand in its place.
pub proof fn lemma_run_takes_any_command(options: Seq<Text>, word: Text, command: Seq<Text>)
    requires
        command.len() > 0,
        command[0].len() > 0,
    ensures
        run_from(options + seq!["--"@, word], 0) matches Ok(run) && run.command == seq![word]
            ==> run_from(options + seq!["--"@] + command, 0) == Ok::<RunText, CliRefusal>(
            (RunText { command, ..run_from(options + seq!["--"@, word], 0)->Ok_0 }),
        ),
{
    let args = options + seq!["--"@, word];
    let other = options + seq!["--"@] + command;
    if let Ok(run) = run_from(args, 0) {
        if run.command == seq![word] {
            let (c, o, start) = scan_run(no_options(), no_run_options(), args, 0)->Ok_0;
            lemma_scan_run_stops(no_options(), no_run_options(), args, 0);
            assert(run.command == args.skip(start));
            assert(args.skip(start).len() == 1);
            assert(start == options.len() + 1);
            assert(other.take(start) =~= args.take(start));
            lemma_scan_run_prefix(no_options(), no_run_options(), args, other, 0, start);
            assert(other.skip(start) =~= command);
        }
    }
}

} // verus!
