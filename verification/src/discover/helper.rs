//! The helper: whether it can be trusted, how it is found, what it is given, and what its output and
//! its end come to.

use crate::text::{
    concat3, debug_of, debug_text, decimal, digits, join, joined, parse_unsigned, push_text, same,
    signed_decimal, signed_digits, texts, unsigned_value, Text,
};
use vstd::prelude::*;
use vstd::string::*;

verus! {

/// How long the helper may take, in seconds.
pub const DISCOVERY_TIMEOUT_SECS: u64 = 30;

/// The user and group that a privileged observer gives the helper where nobody else asked for it.
pub const NOBODY: u32 = 65534;

/// What is known of the helper's file.
#[derive(Clone, Copy, Debug, PartialEq, Eq, Structural)]
pub struct HelperMetadata {
    pub is_file: bool,
    pub uid: u32,
    pub mode: u32,
}

/// Why a helper is not trusted.
pub open spec fn helper_fault(metadata: HelperMetadata, expected_owner: u32) -> Option<Text> {
    if !metadata.is_file {
        Some("discovery oracle helper is not a regular file"@)
    } else if metadata.uid != expected_owner {
        Some(
            "discovery oracle helper owner is uid "@ + digits(metadata.uid as nat)
                + ", expected uid "@ + digits(expected_owner as nat),
        )
    } else if metadata.mode & 0o111 == 0 {
        Some("discovery oracle helper is not executable"@)
    } else if metadata.mode & 0o022 != 0 {
        Some("discovery oracle helper is group/world writable"@)
    } else {
        None
    }
}

/// Checks that a helper is a regular file of the expected owner that can be executed and that nobody
/// else can write.
pub fn validate_helper_metadata(metadata: &HelperMetadata, expected_owner: u32) -> (r: Result<
    (),
    String,
>)
    ensures
        match helper_fault(*metadata, expected_owner) {
            None => r is Ok,
            Some(message) => r matches Err(given) && given@ == message,
        },
{
    if !metadata.is_file {
        return Err("discovery oracle helper is not a regular file".to_owned());
    }
    if metadata.uid != expected_owner {
        let mut message = concat3(
            "discovery oracle helper owner is uid ",
            decimal(metadata.uid as u64).as_str(),
            ", expected uid ",
        );
        message.append(decimal(expected_owner as u64).as_str());
        return Err(message);
    }
    if metadata.mode & 0o111 == 0 {
        return Err("discovery oracle helper is not executable".to_owned());
    }
    if metadata.mode & 0o022 != 0 {
        return Err("discovery oracle helper is group/world writable".to_owned());
    }
    Ok(())
}

/// The owner that a helper must have: root where the observer is privileged or the helper is root's,
/// and otherwise the observer.
pub fn expected_owner(privileged: bool, helper_uid: u32, euid: u32) -> (r: u32)
    ensures
        r == if privileged || helper_uid == 0 {
            0
        } else {
            euid
        },
{
    if privileged || helper_uid == 0 {
        0
    } else {
        euid
    }
}

/// A privileged observer runs only a helper of root that nobody else can write.
pub proof fn lemma_privileged_helper(metadata: HelperMetadata)
    requires
        helper_fault(metadata, 0) is None,
    ensures
        metadata.is_file,
        metadata.uid == 0,
        metadata.mode & 0o022 == 0,
        metadata.mode & 0o111 != 0,
{
}

/// Whether some of the words of a set of effective capabilities is not empty.
pub open spec fn any_set(words: Seq<u32>) -> bool {
    exists|i: int| 0 <= i < words.len() && #[trigger] words[i] != 0
}

/// Tells whether a process has privileges: it is root, or has a capability.
pub fn is_privileged(euid: u32, effective: &Vec<u32>) -> (r: bool)
    ensures
        r == (euid == 0 || any_set(effective@)),
{
    if euid == 0 {
        return true;
    }
    let mut i: usize = 0;
    while i < effective.len()
        invariant
            i <= effective@.len(),
            forall|j: int| 0 <= j < i ==> #[trigger] effective@[j] == 0,
        decreases effective@.len() - i,
    {
        if effective[i] != 0 {
            return true;
        }
        i += 1;
    }
    false
}

/// Adds bytes to an output, as long as it stays within a limit.
pub fn append_bounded(output: &mut Vec<u8>, bytes: &[u8], limit: u64) -> (r: Result<(), String>)
    ensures
        if old(output)@.len() + bytes@.len() <= limit {
            r is Ok && final(output)@ == old(output)@ + bytes@
        } else {
            final(output)@ == old(output)@ && (r matches Err(message) && message@
                == "discovery oracle output exceeds the "@ + digits(limit as nat)
                + "-byte limit"@)
        },
{
    let fits = match (output.len() as u64).checked_add(bytes.len() as u64) {
        Some(length) => length <= limit,
        None => false,
    };
    if !fits {
        return Err(
            concat3(
                "discovery oracle output exceeds the ",
                decimal(limit).as_str(),
                "-byte limit",
            ),
        );
    }
    output.extend_from_slice(bytes);
    assert(output@ =~= old(output)@ + bytes@);
    Ok(())
}

/// Refuses bytes beyond a limit. One byte beyond it is enough to tell.
pub fn check_bounded(length: u64, limit: u64, label: &str) -> (r: Result<(), String>)
    ensures
        if length <= limit {
            r is Ok
        } else {
            r matches Err(message) && message@ == label@ + " exceeds the "@ + digits(limit as nat)
                + "-byte limit"@
        },
{
    if length <= limit {
        return Ok(());
    }
    let mut message = concat3(label, " exceeds the ", decimal(limit).as_str());
    message.append("-byte limit");
    Err(message)
}

/// How an end that was no success is written: by the exit code, or by the signal.
pub open spec fn end_text(code: Option<i32>, signal: Option<i32>) -> Text {
    match code {
        Some(code) => signed_digits(code as int),
        None => "signal "@ + signed_digits(
            match signal {
                Some(signal) => signal as int,
                None => 0,
            },
        ),
    }
}

/// Writes an end that was no success.
fn render_end(code: Option<i32>, signal: Option<i32>) -> (r: String)
    ensures
        r@ == end_text(code, signal),
{
    match code {
        Some(code) => signed_decimal(code as i64),
        None => {
            let mut out = "signal ".to_owned();
            let number: i32 = match signal {
                Some(signal) => signal,
                None => 0,
            };
            out.append(signed_decimal(number as i64).as_str());
            out
        },
    }
}

/// Refuses an end that was no success. `what` names who ended.
pub fn check_end(what: &str, code: Option<i32>, signal: Option<i32>) -> (r: Result<(), String>)
    ensures
        if code == Some(0i32) {
            r is Ok
        } else {
            r matches Err(message) && message@ == what@ + " exited with "@ + end_text(code, signal)
        },
{
    if let Some(code) = code {
        if code == 0 {
            return Ok(());
        }
    }
    Err(concat3(what, " exited with ", render_end(code, signal).as_str()))
}

/// The exit code that stands for the end of the helper: its own, or that of the signal that ended
/// it.
pub fn forwarded_exit_code(code: Option<i32>, signal: Option<i32>) -> (r: i32)
    requires
        signal matches Some(n) ==> n <= i32::MAX - 128,
    ensures
        r == match code {
            Some(code) => code as int,
            None => 128 + match signal {
                Some(signal) => signal as int,
                None => 0,
            },
        },
{
    match code {
        Some(code) => code,
        None => 128 + match signal {
            Some(signal) => signal,
            None => 0,
        },
    }
}

/// Refuses output of another schema. `what` names whose output it is.
pub fn check_schema(what: &str, got: &str, expected: &str) -> (r: Result<(), String>)
    ensures
        if got@ == expected@ {
            r is Ok
        } else {
            r matches Err(message) && message@ == what@ + " schema mismatch: got "@ + debug_text(
                got@,
            ) + ", expected "@ + debug_text(expected@)
        },
{
    if same(got, expected) {
        return Ok(());
    }
    let mut message = concat3(what, " schema mismatch: got ", debug_of(got).as_str());
    message.append(", expected ");
    message.append(debug_of(expected).as_str());
    Err(message)
}

/// What to do about the helper once its output was read as far as there is any.
#[derive(Clone, Copy, Debug, PartialEq, Eq, Structural)]
pub enum OracleStep {
    /// The output is complete, and the helper has ended.
    Done,
    /// The time is over.
    TimedOut,
    /// Look again a little later.
    Wait,
}

/// What to do about the helper: its output must be complete and it must have ended, in time.
pub fn oracle_step(output_ended: bool, helper_ended: bool, past_deadline: bool) -> (r: OracleStep)
    ensures
        r == if output_ended && helper_ended {
            OracleStep::Done
        } else if past_deadline {
            OracleStep::TimedOut
        } else {
            OracleStep::Wait
        },
{
    if output_ended && helper_ended {
        OracleStep::Done
    } else if past_deadline {
        OracleStep::TimedOut
    } else {
        OracleStep::Wait
    }
}

/// The user or group that a setting names, where it is a number other than that of root.
pub open spec fn target_of(setting: Option<String>) -> Option<u32> {
    match setting {
        Some(text) => match unsigned_value(text@, u32::MAX as nat) {
            Some(id) => if id != 0 {
                Some(id as u32)
            } else {
                None
            },
            None => None,
        },
        None => None,
    }
}

/// Reads the user or group that a setting names.
pub fn target_id(setting: &Option<String>) -> (r: Option<u32>)
    ensures
        r == target_of(*setting),
{
    match setting {
        Some(text) => match parse_unsigned(text.as_str(), 0xffff_ffff) {
            Some(id) => if id != 0 {
                Some(id as u32)
            } else {
                None
            },
            None => None,
        },
        None => None,
    }
}

/// The user and group that the helper is given: that of whoever asked root for it, or nobody's.
/// Where the observer is not root the helper keeps the observer's, and credentials that a set-id file
/// gave are refused.
pub fn helper_credentials(
    uid: u32,
    euid: u32,
    gid: u32,
    egid: u32,
    sudo_uid: &Option<String>,
    sudo_gid: &Option<String>,
) -> (r: Result<Option<(u32, u32)>, String>)
    ensures
        if euid != 0 && (uid != euid || gid != egid) {
            r matches Err(message) && message@ == "refusing discovery with set-id credentials"@
        } else if euid == 0 {
            r == Ok::<Option<(u32, u32)>, String>(
                Some(
                    (
                        match target_of(*sudo_uid) {
                            Some(id) => id,
                            None => NOBODY,
                        },
                        match target_of(*sudo_gid) {
                            Some(id) => id,
                            None => NOBODY,
                        },
                    ),
                ),
            )
        } else {
            r == Ok::<Option<(u32, u32)>, String>(None)
        },
        r matches Ok(Some(ids)) ==> ids.0 != 0 && ids.1 != 0,
{
    if euid != 0 && (uid != euid || gid != egid) {
        return Err("refusing discovery with set-id credentials".to_owned());
    }
    if euid != 0 {
        return Ok(None);
    }
    let user: u32 = match target_id(sudo_uid) {
        Some(id) => id,
        None => NOBODY,
    };
    let group: u32 = match target_id(sudo_gid) {
        Some(id) => id,
        None => NOBODY,
    };
    Ok(Some((user, group)))
}

/// What the arguments of `discover` ask for: a helper, and what is handed on to it.
#[derive(Debug)]
pub struct DiscoverArgs {
    pub helper: Option<String>,
    pub forwarded: Vec<String>,
}

/// Why the arguments of `discover` are refused.
#[derive(Clone, Copy, Debug, PartialEq, Eq, Structural)]
pub enum ArgFault {
    /// A helper is asked for and none is named.
    HelperValue,
    /// An argument that is not known here.
    TrustedWorkload,
    /// No module is named.
    ModuleMissing,
}

/// What the arguments from position `at` on ask for, beside what was read before them.
pub open spec fn args_from(
    args: Seq<Text>,
    at: int,
    helper: Option<Text>,
    forwarded: Seq<Text>,
) -> Result<(Option<Text>, Seq<Text>), ArgFault>
    decreases args.len() - at,
{
    if at < 0 || at >= args.len() {
        if forwarded.contains("--module"@) {
            Ok((helper, forwarded))
        } else {
            Err(ArgFault::ModuleMissing)
        }
    } else if args[at] == "--helper"@ {
        if at + 1 >= args.len() {
            Err(ArgFault::HelperValue)
        } else {
            args_from(args, at + 2, Some(args[at + 1]), forwarded)
        }
    } else if args[at] == "--trusted-workload"@ {
        Err(ArgFault::TrustedWorkload)
    } else {
        args_from(args, at + 1, helper, forwarded.push(args[at]))
    }
}

/// Tells whether a list holds a string.
fn holds(list: &Vec<String>, wanted: &str) -> (r: bool)
    ensures
        r == texts(list@).contains(wanted@),
{
    let mut i: usize = 0;
    while i < list.len()
        invariant
            i <= list@.len(),
            forall|j: int| 0 <= j < i ==> (#[trigger] list@[j])@ != wanted@,
        decreases list@.len() - i,
    {
        if same(list[i].as_str(), wanted) {
            assert(texts(list@)[i as int] == wanted@);
            return true;
        }
        i += 1;
    }
    assert forall|j: int| 0 <= j < texts(list@).len() implies texts(list@)[j] != wanted@ by {
        assert(texts(list@)[j] == list@[j]@);
    }
    false
}

/// Reads the arguments of `discover`.
pub fn split_arguments(args: &Vec<String>) -> (r: Result<DiscoverArgs, ArgFault>)
    ensures
        match args_from(texts(args@), 0, None, Seq::empty()) {
            Ok((helper, forwarded)) => r matches Ok(given) && texts(given.forwarded@) == forwarded
                && (match helper {
                Some(path) => given.helper matches Some(h) && h@ == path,
                None => given.helper is None,
            }),
            Err(fault) => r == Err::<DiscoverArgs, ArgFault>(fault),
        },
{
    let ghost all = texts(args@);
    let len: usize = args.len();
    let mut helper: Option<String> = None;
    let ghost mut named: Option<Text> = None;
    let mut forwarded: Vec<String> = Vec::new();
    assert(texts(forwarded@) =~= Seq::<Text>::empty());
    let mut at: usize = 0;
    while at < len
        invariant
            at <= len,
            len == args@.len(),
            all == texts(args@),
            all.len() == len,
            match named {
                Some(path) => helper matches Some(h) && h@ == path,
                None => helper is None,
            },
            args_from(all, at as int, named, texts(forwarded@)) == args_from(
                all,
                0,
                None,
                Seq::empty(),
            ),
        decreases len - at,
    {
        assert(all[at as int] == args@[at as int]@);
        if same(args[at].as_str(), "--helper") {
            if len - at < 2 {
                return Err(ArgFault::HelperValue);
            }
            assert(all[at + 1] == args@[at + 1]@);
            helper = Some(args[at + 1].clone());
            proof {
                named = Some(all[at + 1]);
            }
            at += 2;
        } else if same(args[at].as_str(), "--trusted-workload") {
            return Err(ArgFault::TrustedWorkload);
        } else {
            push_text(&mut forwarded, args[at].clone());
            at += 1;
        }
    }
    if !holds(&forwarded, "--module") {
        return Err(ArgFault::ModuleMissing);
    }
    Ok(DiscoverArgs { helper, forwarded })
}

/// A place where the helper may be, and whether it is there.
#[derive(Clone, Debug)]
pub struct Candidate {
    pub path: String,
    pub exists: bool,
}

/// The helper that was found, and where it was looked for.
#[derive(Debug)]
pub struct FoundHelper {
    pub path: String,
    pub searched: Vec<String>,
}

/// Where the helper is looked for, in order.
pub open spec fn searched_for(
    helper: Option<Candidate>,
    sibling: Option<Candidate>,
) -> Seq<Text> {
    match helper {
        Some(given) => seq![given.path@],
        None => match sibling {
            Some(near) => if near.exists {
                seq![near.path@]
            } else {
                seq![near.path@, "p11scope-discover on PATH (searched)"@]
            },
            None => seq!["p11scope-discover on PATH (searched)"@],
        },
    }
}

/// Which helper is taken: the one asked for, and no other; else the one beside the observer; else
/// the first on the search path.
pub open spec fn helper_taken(
    helper: Option<Candidate>,
    sibling: Option<Candidate>,
    on_path: Option<String>,
) -> Option<Text> {
    match helper {
        Some(given) => if given.exists {
            Some(given.path@)
        } else {
            None
        },
        None => if sibling matches Some(near) && near.exists {
            Some(sibling->Some_0.path@)
        } else {
            match on_path {
                Some(path) => Some(path@),
                None => None,
            }
        },
    }
}

/// What is reported where no helper is found.
pub open spec fn not_found_text(searched: Seq<Text>) -> Text {
    "cannot execute discovery helper; searched: "@ + joined(searched, ", "@)
}

/// Finds the helper. The search path is looked at only where nothing before it gave one.
pub fn find_helper(
    helper: Option<Candidate>,
    sibling: Option<Candidate>,
    on_path: Option<String>,
) -> (r: Result<FoundHelper, String>)
    ensures
        match helper_taken(helper, sibling, on_path) {
            Some(path) => r matches Ok(given) && given.path@ == path && texts(given.searched@)
                == searched_for(helper, sibling),
            None => r matches Err(message) && message@ == not_found_text(
                searched_for(helper, sibling),
            ),
        },
{
    let mut searched: Vec<String> = Vec::new();
    assert(texts(searched@) =~= Seq::<Text>::empty());
    let mut path: Option<String> = None;
    match helper {
        Some(given) => {
            push_text(&mut searched, given.path.clone());
            if given.exists {
                path = Some(given.path);
            }
        },
        None => {
            let mut near_hit: bool = false;
            if let Some(near) = sibling {
                push_text(&mut searched, near.path.clone());
                if near.exists {
                    near_hit = true;
                    path = Some(near.path);
                }
            }
            if !near_hit {
                push_text(&mut searched, "p11scope-discover on PATH (searched)".to_owned());
                path = on_path;
            }
        },
    }
    assert(texts(searched@) =~= searched_for(helper, sibling));
    match path {
        Some(path) => Ok(FoundHelper { path, searched }),
        None => {
            let mut message = "cannot execute discovery helper; searched: ".to_owned();
            message.append(join(&searched, ", ").as_str());
            Err(message)
        },
    }
}

/// How long to wait for the next event, in milliseconds: what is left until the deadline, and one
/// more, as far as the width goes.
pub fn poll_timeout(remaining_millis: Option<u128>) -> (r: Result<i32, String>)
    ensures
        match remaining_millis {
            None => r matches Err(message) && message@
                == "hardened discovery oracle reached its absolute deadline"@,
            Some(millis) => r matches Ok(given) && given == if millis + 1 > i32::MAX {
                i32::MAX as int
            } else {
                millis + 1
            },
        },
{
    match remaining_millis {
        None => Err("hardened discovery oracle reached its absolute deadline".to_owned()),
        Some(millis) => {
            if millis >= 0x7fff_ffff {
                return Ok(i32::MAX);
            }
            Ok((millis + 1) as i32)
        },
    }
}

} // verus!
