//! What holds of a discovery by a helper, said of the files, descriptors, arguments and packets
//! that it is about.

use crate::discover::closure::{
    closure_fault, hardened_maps_fault, identical, influence_index, keys_of, objects_fault,
    retain_fault, ClosureLeases, ProvenanceObject,
};
use crate::discover::command::{helper_line, kill_fault, GroupKill, HelperDescriptors, LeaderKill};
use crate::discover::helper::{
    any_set, args_from, helper_fault, helper_taken, target_of, ArgFault, Candidate, HelperMetadata,
};
use crate::discover::inheritance::{alias_fault, fds_fault, FdSeen};
use crate::discover::protocol::{
    after_break, after_deadline, after_drain, after_poll, after_reap, after_receive, drop_packet,
    go_packet, packet_taken, prepared_packet, ready_packet, Barrier, BreakAt, ControlPacket,
    Happened, Pass, PassStep,
};
use crate::discover::stabilize::{after_check, after_pass, after_retain, Progress, StabilizeStep};
use crate::discovery::identity::laws::alike;
use crate::discovery::identity::pinned::ObjectIdentity;
use crate::mapped::lemma_executable_files;
use crate::maps::{executable_keys, maps_from, Mapping, ObjectKey};
use crate::text::{holds_part, signed_digits, unsigned_value, Text};
use vstd::prelude::*;
use vstd::string::*;
use vstd::utf8::*;

verus! {

/// Whether a reported file can be relied on: named from the root, on a file system, and with a
/// digest of all of it.
pub open spec fn is_reliable(object: ProvenanceObject) -> bool {
    &&& object.path@.len() > 0 && object.path@[0] == '/'
    &&& object.key.inode != 0
    &&& object.identity.reusable
    &&& object.identity.sha256 matches Some(digest) && encode_utf8(digest@).len() == 64
}

/// A report is accepted exactly where it names at least one file and no more than may be, each of
/// them can be relied on, and no two are one file.
pub proof fn lemma_accepted_closures(objects: Seq<ProvenanceObject>, max_objects: nat)
    ensures
        closure_fault(objects, max_objects) is None <==> 1 <= objects.len() <= max_objects && (
        forall|i: int| 0 <= i < objects.len() ==> is_reliable(#[trigger] objects[i])) && forall|
            i: int,
            j: int,
        |
            0 <= i < j < objects.len() ==> (#[trigger] objects[i]).key != (
            #[trigger] objects[j]).key,
{
    lemma_accepted_objects(objects, objects.len() as int);
}

/// Files are accepted exactly where each can be relied on and no two are one file.
proof fn lemma_accepted_objects(objects: Seq<ProvenanceObject>, n: int)
    requires
        0 <= n <= objects.len(),
    ensures
        objects_fault(objects, n) is None <==> (forall|i: int|
            0 <= i < n ==> is_reliable(#[trigger] objects[i])) && forall|i: int, j: int|
            0 <= i < j < n ==> (#[trigger] objects[i]).key != (#[trigger] objects[j]).key,
    decreases n,
{
    if n > 0 {
        lemma_accepted_objects(objects, n - 1);
        let keys = keys_of(objects, n - 1);
        let last = objects[n - 1];
        if objects_fault(objects, n - 1) is Some {
            if exists|i: int| 0 <= i < n - 1 && !is_reliable(#[trigger] objects[i]) {
                let i = choose|i: int| 0 <= i < n - 1 && !is_reliable(#[trigger] objects[i]);
                assert(!is_reliable(objects[i]));
            } else {
                let (i, j) = choose|i: int, j: int|
                    0 <= i < j < n - 1 && (#[trigger] objects[i]).key == (
                    #[trigger] objects[j]).key;
                assert(objects[i].key == objects[j].key);
            }
        } else {
            if keys.contains(last.key) {
                let i = choose|i: int| 0 <= i < keys.len() && keys[i] == last.key;
                assert(objects[i].key == objects[n - 1].key);
            } else {
                assert forall|i: int| 0 <= i < n - 1 implies (#[trigger] objects[i]).key
                    != last.key by {
                    assert(keys[i] == objects[i].key);
                }
            }
            assert(is_reliable(last) || !is_reliable(objects[n - 1]));
        }
    }
}

/// Two identities are the same where kind, value, digest and whether they can be relied on are.
pub proof fn lemma_identical(a: ObjectIdentity, b: ObjectIdentity)
    ensures
        identical(a, b) <==> a.kind == b.kind && alike(a.value, b.value) && alike(
            a.sha256,
            b.sha256,
        ) && a.reusable == b.reusable,
{
}

/// One more file can be held exactly where that keeps to the number of files and of bytes.
pub proof fn lemma_room_for_a_file(leases: ClosureLeases, len: u64)
    ensures
        retain_fault(leases, len) is None <==> leases.objects@.len() < leases.max_objects
            && leases.total_bytes + len <= leases.max_bytes,
{
}

/// An influence is found at the first position that holds its key.
pub proof fn lemma_influences(influences: Seq<ObjectKey>, key: ObjectKey, from: int)
    requires
        0 <= from <= influences.len(),
    ensures
        from <= influence_index(influences, key, from) <= influences.len(),
        influence_index(influences, key, from) < influences.len() ==> influences[influence_index(
            influences,
            key,
            from,
        )] == key,
        forall|i: int|
            from <= i < influence_index(influences, key, from) ==> #[trigger] influences[i] != key,
    decreases influences.len() - from,
{
    if from < influences.len() && influences[from] != key {
        lemma_influences(influences, key, from + 1);
    }
}

/// A child passes the look at what it maps as code exactly where its mappings can be read, every
/// file that it maps as code was authorized, every file that was authorized is mapped as code, and
/// the provider is not.
pub proof fn lemma_hardened_mappings(
    bytes: Seq<u8>,
    expected: Set<ObjectKey>,
    provider: ObjectKey,
)
    ensures
        hardened_maps_fault(bytes, expected, provider) is None <==> (maps_from(
            bytes,
            0,
            Seq::empty(),
        ) matches Ok(list) && (forall|key: ObjectKey|
            #[trigger] expected.contains(key) <==> maps_code(list, key)) && !maps_code(
            list,
            provider,
        )),
{
    if let Ok(list) = maps_from(bytes, 0, Seq::empty()) {
        let actual = executable_keys(list, list.len() as int);
        assert forall|key: ObjectKey| #[trigger] actual.contains(key) == maps_code(list, key) by {
            lemma_executable_files(list, list.len() as int, key);
        }
        lemma_executable_files(list, list.len() as int, provider);
        if forall|key: ObjectKey| #[trigger] expected.contains(key) <==> maps_code(list, key) {
            assert(actual =~= expected);
        }
        if actual == expected {
            assert forall|key: ObjectKey|
                #[trigger] expected.contains(key) <==> maps_code(list, key) by {
                assert(actual.contains(key) == maps_code(list, key));
            }
        }
    }
}

/// Whether a file is mapped as code.
pub open spec fn maps_code(list: Seq<Mapping>, key: ObjectKey) -> bool {
    exists|i: int|
        0 <= i < list.len() && (#[trigger] list[i]).permissions[2] == 'x' as u8 && list[i].inode
            != 0 && list[i].inode == key.inode && list[i].device == key.device
}

/// A helper is started through descriptors alone: the loader, the directory of libraries and the
/// helper are those that are held, and the module is the one asked for.
pub proof fn lemma_helper_lines(fds: HelperDescriptors, module: Text)
    ensures
        ({
            let line = helper_line(fds, module);
            &&& line.len() == 9
            &&& line[0] == "/proc/self/fd/"@ + signed_digits(fds.loader as int)
            &&& line[1] == "--inhibit-cache"@
            &&& line[2] == "--library-path"@ && line[3] == "/proc/self/fd/"@ + signed_digits(
                fds.directory as int,
            )
            &&& line[4] == "/proc/self/fd/"@ + signed_digits(fds.helper as int)
            &&& line[5] == "--module"@ && line[6] == module
            &&& line[7] == "--control-fd"@ && line[8] == signed_digits(fds.control as int)
        }),
{
}

/// Killing a helper failed where its group could not be signalled, where it could not be signalled
/// itself though it was there, or where its end could not be waited for.
pub proof fn lemma_kills(group: GroupKill, leader: Option<LeaderKill>)
    ensures
        kill_fault(group, leader) is None <==> group is Done && (leader matches Some(leader) ==> (
        leader.signalled matches Err(error) ==> holds_part(error@, "No such process"@))
            && leader.waited is Ok),
{
}

/// A helper is trusted exactly where it is a regular file of the expected owner that somebody can
/// execute and that neither its group nor the world can write.
pub proof fn lemma_trusted_helpers(metadata: HelperMetadata, owner: u32)
    ensures
        helper_fault(metadata, owner) is None <==> metadata.is_file && metadata.uid == owner
            && metadata.mode & 0o111 != 0 && metadata.mode & 0o020 == 0 && metadata.mode & 0o002
            == 0,
{
    let mode = metadata.mode;
    assert(mode & 0o022 == 0 <==> mode & 0o020 == 0 && mode & 0o002 == 0) by (bit_vector);
}

/// What the arguments of `discover` read so far stays, whatever stands behind them.
proof fn lemma_args_extend(
    args: Seq<Text>,
    tail: Seq<Text>,
    at: int,
    helper: Option<Text>,
    forwarded: Seq<Text>,
)
    requires
        0 <= at <= args.len(),
        args_from(args, at, helper, forwarded) is Ok,
    ensures
        ({
            let (h, f) = args_from(args, at, helper, forwarded)->Ok_0;
            args_from(args + tail, at, helper, forwarded) == args_from(
                args + tail,
                args.len() as int,
                h,
                f,
            )
        }),
    decreases args.len() - at,
{
    if at < args.len() {
        let more = args + tail;
        assert(more[at] == args[at]);
        if args[at] == "--helper"@ {
            assert(more[at + 1] == args[at + 1]);
            lemma_args_extend(args, tail, at + 2, Some(args[at + 1]), forwarded);
        } else {
            lemma_args_extend(args, tail, at + 1, helper, forwarded.push(args[at]));
        }
    }
}

/// `--helper v` names the helper and is not handed on; `--trusted-workload` is refused; every other
/// argument is handed on, in order.
pub proof fn lemma_discover_arguments(args: Seq<Text>, v: Text)
    requires
        args_from(args, 0, None, Seq::empty()) is Ok,
    ensures
        ({
            let (helper, forwarded) = args_from(args, 0, None, Seq::empty())->Ok_0;
            &&& args_from(args + seq!["--helper"@, v], 0, None, Seq::empty()) == Ok::<
                (Option<Text>, Seq<Text>),
                ArgFault,
            >((Some(v), forwarded))
            &&& args_from(args + seq!["--helper"@], 0, None, Seq::empty()) == Err::<
                (Option<Text>, Seq<Text>),
                ArgFault,
            >(ArgFault::HelperValue)
            &&& args_from(args + seq!["--trusted-workload"@], 0, None, Seq::empty()) == Err::<
                (Option<Text>, Seq<Text>),
                ArgFault,
            >(ArgFault::TrustedWorkload)
            &&& v != "--helper"@ && v != "--trusted-workload"@ ==> args_from(
                args + seq![v],
                0,
                None,
                Seq::empty(),
            ) == Ok::<(Option<Text>, Seq<Text>), ArgFault>((helper, forwarded.push(v)))
            &&& forwarded.contains("--module"@)
        }),
{
    let (helper, forwarded) = args_from(args, 0, None, Seq::empty())->Ok_0;
    let n = args.len() as int;
    reveal_strlit("--helper");
    reveal_strlit("--trusted-workload");
    assert("--helper"@.len() == 8 && "--trusted-workload"@.len() == 18);
    lemma_args_have_module(args, 0, None, Seq::empty());
    let named = seq!["--helper"@, v];
    lemma_args_extend(args, named, 0, None, Seq::empty());
    assert((args + named)[n] == "--helper"@ && (args + named)[n + 1] == v);
    let bare = seq!["--helper"@];
    lemma_args_extend(args, bare, 0, None, Seq::empty());
    assert((args + bare)[n] == "--helper"@);
    let trusted = seq!["--trusted-workload"@];
    lemma_args_extend(args, trusted, 0, None, Seq::empty());
    assert((args + trusted)[n] == "--trusted-workload"@);
    let other = seq![v];
    lemma_args_extend(args, other, 0, None, Seq::empty());
    assert((args + other)[n] == v);
    let k = choose|k: int| 0 <= k < forwarded.len() && forwarded[k] == "--module"@;
    assert(forwarded.push(v)[k] == "--module"@);
    reveal_with_fuel(args_from, 2);
}

/// What is handed on names a module.
proof fn lemma_args_have_module(
    args: Seq<Text>,
    at: int,
    helper: Option<Text>,
    forwarded: Seq<Text>,
)
    requires
        0 <= at,
    ensures
        args_from(args, at, helper, forwarded) matches Ok((_, f)) ==> f.contains("--module"@),
    decreases args.len() - at,
{
    if at < args.len() {
        if args[at] == "--helper"@ {
            if at + 1 < args.len() {
                lemma_args_have_module(args, at + 2, Some(args[at + 1]), forwarded);
            }
        } else {
            lemma_args_have_module(args, at + 1, helper, forwarded.push(args[at]));
        }
    }
}

/// A module alone is handed on, and no helper is named.
pub proof fn lemma_bare_discover(module: Text)
    requires
        module != "--helper"@,
        module != "--trusted-workload"@,
    ensures
        args_from(seq!["--module"@, module], 0, None, Seq::empty()) == Ok::<
            (Option<Text>, Seq<Text>),
            ArgFault,
        >((None, seq!["--module"@, module])),
        args_from(Seq::empty(), 0, None, Seq::empty()) == Err::<
            (Option<Text>, Seq<Text>),
            ArgFault,
        >(ArgFault::ModuleMissing),
{
    reveal_strlit("--helper");
    reveal_strlit("--trusted-workload");
    reveal_strlit("--module");
    assert("--helper"@.len() == 8 && "--trusted-workload"@.len() == 18 && "--module"@.len() == 8);
    assert("--helper"@[2] == 'h' && "--module"@[2] == 'm');
    reveal_with_fuel(args_from, 3);
    let both = Seq::<Text>::empty().push("--module"@).push(module);
    assert(both =~= seq!["--module"@, module]);
    assert(both[0] == "--module"@);
}

/// The helper that was asked for is taken, or none is; where none was asked for, the one beside the
/// observer is taken before any on the search path.
pub proof fn lemma_taken_helpers(
    helper: Option<Candidate>,
    sibling: Option<Candidate>,
    on_path: Option<String>,
)
    ensures
        helper matches Some(given) ==> helper_taken(helper, sibling, on_path) == (
        if given.exists {
            Some(given.path@)
        } else {
            None
        }),
        helper is None ==> (sibling matches Some(near) ==> (near.exists ==> helper_taken(
            helper,
            sibling,
            on_path,
        ) == Some(near.path@))),
        helper is None && (sibling matches Some(near) ==> !near.exists) ==> helper_taken(
            helper,
            sibling,
            on_path,
        ) == match on_path {
            Some(path) => Some(path@),
            None => None,
        },
{
}

/// A setting names a user or group exactly where it is a number that is not root's.
pub proof fn lemma_targets_are_not_root(setting: Option<String>, id: u32)
    ensures
        target_of(setting) == Some(id) <==> id != 0 && (setting matches Some(text)
            && unsigned_value(text@, 0xffff_ffff) == Some(id as nat)),
{
}

/// Descriptors can be inherited exactly where each is above the standard three, is open, and what
/// it refers to could be read.
pub proof fn lemma_inherited_descriptors(fds: Seq<i32>, seen: Seq<FdSeen>, n: int)
    requires
        0 <= n <= fds.len() == seen.len(),
    ensures
        fds_fault(fds, seen, n) is None <==> forall|i: int|
            0 <= i < n ==> #[trigger] fds[i] > 2 && seen[i] is Seen,
    decreases n,
{
    if n > 0 {
        lemma_inherited_descriptors(fds, seen, n - 1);
        if fds_fault(fds, seen, n - 1) is Some {
            let i = choose|i: int| 0 <= i < n - 1 && !(#[trigger] fds[i] > 2 && seen[i] is Seen);
            assert(!(fds[i] > 2 && seen[i] is Seen));
        } else {
            assert((fds[n - 1] > 2 && seen[n - 1] is Seen) || !(fds[n - 1] > 2 && seen[n - 1]
                is Seen));
        }
    }
}

/// Alias directories are accepted exactly where each of them is inherited.
pub proof fn lemma_inherited_directories(fds: Seq<i32>, directories: Seq<i32>, n: int)
    requires
        0 <= n <= directories.len(),
    ensures
        alias_fault(fds, directories, n) is None <==> forall|i: int|
            0 <= i < n ==> fds.contains(#[trigger] directories[i]),
    decreases n,
{
    if n > 0 {
        lemma_inherited_directories(fds, directories, n - 1);
        if alias_fault(fds, directories, n - 1) is Some {
            let i = choose|i: int| 0 <= i < n - 1 && !fds.contains(#[trigger] directories[i]);
            assert(!fds.contains(directories[i]));
        } else {
            assert(fds.contains(directories[n - 1]) || !fds.contains(directories[n - 1]));
        }
    }
}

/// The packets are the words that they stand for.
pub proof fn lemma_packets()
    ensures
        prepared_packet() == seq![
            'P' as u8,
            'R' as u8,
            'E' as u8,
            'P' as u8,
            'A' as u8,
            'R' as u8,
            'E' as u8,
            'D' as u8,
        ],
        ready_packet() == seq!['R' as u8, 'E' as u8, 'A' as u8, 'D' as u8, 'Y' as u8],
        drop_packet() == seq!['D' as u8, 'R' as u8, 'O' as u8, 'P' as u8],
        go_packet() == seq!['G' as u8, 'O' as u8],
{
}

/// A packet is taken exactly where it is the one that the helper is to send now, and leads to the
/// look at the barrier that it stands before.
pub proof fn lemma_taken_packets(p: Pass)
    ensures
        packet_taken(p) is Ok <==> (p.state is Prepared && p.packet == prepared_packet()) || (
        p.state is Ready && p.packet == ready_packet()),
        packet_taken(p) matches Ok(q) ==> q.step == PassStep::Inspect(
            if p.state is Prepared {
                Barrier::Prepared
            } else {
                Barrier::Ready
            },
        ) && q == (Pass { step: q.step, ..p }),
{
}

/// A held file that is about to change ends a pass at every look: nothing but waiting for the
/// helper comes between, and no report is used.
pub proof fn lemma_breaks_end_a_pass(p: Pass)
    requires
        p.step is CheckBreak,
    ensures
        after_break(p, Ok(true)) matches Ok(q) && (q.step is Broken || (q.step == PassStep::Reap(
            true,
        ) && after_reap(q).step is Broken)),
        after_break(p, Ok(true)) matches Ok(q) && (q.step is Broken <==> p.step
            == PassStep::CheckBreak(BreakAt::Start) || p.step == PassStep::CheckBreak(
            BreakAt::Parsed,
        ) || p.step == PassStep::CheckBreak(BreakAt::Final)),
{
}

/// Time that is over ends a pass, wherever it is looked at; and so does an end of the helper, or of
/// what it sends, before it was told to go.
pub proof fn lemma_early_ends(p: Pass, happened: Happened)
    ensures
        after_deadline(p, true) is Err,
        !happened.any ==> after_poll(p, happened) is Err,
        happened.child && !(p.state is Running) ==> after_poll(p, happened) is Err,
        !(p.state is Running) ==> after_receive(p, ControlPacket::Eof) is Err,
        after_poll(p, happened) matches Ok(q) ==> q.child_exited == (p.child_exited
            || happened.child) && (q.step is Receive <==> happened.control && !happened.lease),
{
}

/// A helper is waited for exactly where it was told to go, its end was seen and its output ended;
/// else the pass waits for what happens.
pub proof fn lemma_output_is_read_to_its_end(p: Pass, ended: bool)
    ensures
        after_drain(p, ended).step == PassStep::Reap(false) <==> p.state is Running
            && p.child_exited && (p.stdout_eof || ended),
        after_drain(p, ended).step is Poll <==> !(p.state is Running && p.child_exited && (
        p.stdout_eof || ended)),
        after_drain(p, ended).output == p.output,
{
}

/// A discovery stands still exactly where the pass that is over used only files that were held
/// before it began, and the very same files as the pass before.
pub proof fn lemma_stands_still(p: Progress)
    requires
        p.step is Last,
    ensures
        (after_check(p, Ok(false)) matches Ok(q) && q.step is Stable) <==> (forall|key: ObjectKey|
            p.current.contains(key) ==> p.held.contains(key)) && (p.previous matches Some(previous)
            && forall|key: ObjectKey| p.current.contains(key) <==> previous.contains(key)),
        (after_check(p, Ok(false)) matches Ok(q) && q.step is Before) ==> (after_check(
            p,
            Ok(false),
        ) matches Ok(q) && q.passes == p.passes + 1 && q.passes < 8 && q.previous == Some(
            p.current,
        )),
{
    if let Some(previous) = p.previous {
        if forall|key: ObjectKey| p.current.contains(key) <==> previous.contains(key) {
            assert(previous =~= p.current);
        }
    }
}

/// A held file that is about to change breaks a discovery off at every step, and a failure of a
/// check ends it with that failure.
pub proof fn lemma_broken_off(
    p: Progress,
    held: Set<ObjectKey>,
    reported: Seq<ProvenanceObject>,
    error: Text,
)
    ensures
        after_check(p, Ok(true)) matches Ok(q) && q.step is Broken,
        after_retain(p, Ok(true)) matches Ok(q) && q.step is Broken,
        after_pass(p, held, None) matches Ok(q) && q.step is Broken,
        after_check(p, Err(error)) == Err::<Progress, Text>(error),
        after_retain(p, Err(error)) == Err::<Progress, Text>(error),
        after_pass(p, held, Some(reported)) matches Ok(q) ==> q.step is After && q.held == held
            && q.reported == reported,
{
}

/// What a pass reported is held file by file, every one of them, before the last check.
pub proof fn lemma_every_reported_file_is_held(p: Progress, i: usize)
    requires
        p.step == StabilizeStep::Retain(i),
        i < usize::MAX,
    ensures
        i + 1 < p.reported.len() ==> (after_retain(p, Ok(false)) matches Ok(q) && q.step
            == StabilizeStep::Retain((i + 1) as usize)),
        i + 1 >= p.reported.len() ==> (after_retain(p, Ok(false)) matches Ok(q) && q.step is Last),
{
}

/// A report becomes what a pass used only where it is accepted and has the module, and then that is
/// every file that it names and no other.
pub proof fn lemma_pass_uses_what_it_reports(p: Progress, key: ObjectKey)
    requires
        p.step is After,
        !p.hardened,
    ensures
        after_check(p, Ok(false)) is Ok <==> closure_fault(p.reported, p.max_objects) is None
            && exists|i: int| 0 <= i < p.reported.len() && (#[trigger] p.reported[i]).key == p.seed,
        after_check(p, Ok(false)) matches Ok(q) ==> q.step == StabilizeStep::Retain(0) && (
        q.current.contains(key) <==> exists|i: int|
            0 <= i < p.reported.len() && (#[trigger] p.reported[i]).key == key),
{
    let keys = keys_of(p.reported, p.reported.len() as int);
    lemma_reported_keys(p.reported, p.seed);
    lemma_reported_keys(p.reported, key);
}

/// A key is among those of files exactly where a file has it.
proof fn lemma_reported_keys(reported: Seq<ProvenanceObject>, key: ObjectKey)
    ensures
        keys_of(reported, reported.len() as int).to_set().contains(key) <==> exists|i: int|
            0 <= i < reported.len() && (#[trigger] reported[i]).key == key,
{
    let keys = keys_of(reported, reported.len() as int);
    if keys.to_set().contains(key) {
        assert(keys.contains(key));
        let i = choose|i: int| 0 <= i < keys.len() && keys[i] == key;
        assert(reported[i].key == key);
    }
    if exists|i: int| 0 <= i < reported.len() && (#[trigger] reported[i]).key == key {
        let i = choose|i: int| 0 <= i < reported.len() && (#[trigger] reported[i]).key == key;
        assert(keys[i] == key);
    }
}

/// A process has a capability exactly where not all of its words are zero.
pub proof fn lemma_capabilities(words: Seq<u32>)
    ensures
        !any_set(words) <==> forall|i: int| 0 <= i < words.len() ==> #[trigger] words[i] == 0,
{
}

} // verus!
