//! What holds of the rules by which a session is started and its object is checked, said of what
//! they are applied to.

use crate::attach::catalog::{catalog_fault, is_key, lemma_number_of, number_of};
use crate::attach::counters::{cells_sum, counter, unread};
use crate::attach::format::{
    attribute, attributes, collected, declared, declares, field_offset, format_offsets,
    line_offset, offset_next, offsets_of, step_follows, FieldText, FormatStep, ReadFailure,
};
use crate::attach::inventory::{
    default_programs, feature_maps, maps_fault, policy_fault, policy_maps, runtime_maps,
    unsafe_programs, ExactMapMetadata, MapSeen, MapType, ObjectSizes,
};
use crate::attach::lifecycle::{event_file, tracefs_failure, AttachFault, FaultCause};
use crate::attach::links::producer_turn;
use crate::attach::policy::{
    pause_key_of, policy_for, CapturePolicy, OwnedPauseGeneration, PauseKey, Scope,
};
use crate::attach::probes::export_names;
use crate::attach::readback::{function_key, same_pairs};
use crate::attach::startup::{creation_loss, step_after, StartStep, StepFault};
use crate::discovery::hooks::HookAbi;
use crate::text::{digits, index_from, is_space, lines_from, trimmed, unsigned_value, Text};
use crate::words::{lemma_index, lemma_trimmed};
use vstd::prelude::*;
use vstd::string::*;
use vstd::utf8::*;

verus! {

/// Maps are accepted exactly where each of them was read and is what is expected of it.
pub proof fn lemma_maps_are_exact(
    expected: Seq<(Text, ExactMapMetadata)>,
    what: Text,
    seen: Seq<MapSeen>,
    n: int,
)
    requires
        0 <= n <= expected.len(),
        n <= seen.len(),
    ensures
        maps_fault(expected, what, seen, n) is None <==> forall|i: int|
            0 <= i < n ==> #[trigger] seen[i] == MapSeen::Seen(expected[i].1),
    decreases n,
{
    if n > 0 {
        lemma_maps_are_exact(expected, what, seen, n - 1);
        if maps_fault(expected, what, seen, n - 1) is Some {
            let i = choose|i: int|
                0 <= i < n - 1 && #[trigger] seen[i] != MapSeen::Seen(expected[i].1);
            assert(seen[i] != MapSeen::Seen(expected[i].1));
        }
    }
}

/// The policy maps of an object are accepted exactly where all seven are what they must be, and
/// where the map of boolean attributes is what it must be in an object with unvalidated metadata,
/// and is missing in any other.
pub proof fn lemma_policy_maps_are_exact(
    sizes: ObjectSizes,
    seen: Seq<MapSeen>,
    feature: MapSeen,
    object_has_unsafe: bool,
)
    requires
        seen.len() == 7,
    ensures
        policy_fault(sizes, seen, feature, object_has_unsafe) is None <==> (forall|i: int|
            0 <= i < 7 ==> #[trigger] seen[i] == MapSeen::Seen(policy_maps(sizes)[i].1)) && (
        if object_has_unsafe {
            feature == MapSeen::Seen(feature_maps()[0].1)
        } else {
            feature is Missing
        }),
{
    lemma_maps_are_exact(policy_maps(sizes), "policy"@, seen, 7);
}

/// What is expected of one map.
pub open spec fn is_expected(
    map: (Text, ExactMapMetadata),
    name: Text,
    map_type: MapType,
    sizes: (u32, u32, u32),
    read_only: bool,
) -> bool {
    &&& map.0 == name
    &&& map.1.map_type == map_type
    &&& map.1.key_size == sizes.0
    &&& map.1.value_size == sizes.1
    &&& map.1.max_entries == sizes.2
    &&& map.1.flags == if read_only {
        128u32
    } else {
        0u32
    }
}

/// The maps that an object must have. Programs may only read those that hold the policy, but for
/// the control group and the tail calls, which the kernel reads itself.
pub proof fn lemma_maps_of_an_object(sizes: ObjectSizes)
    ensures
        ({
            let policy = policy_maps(sizes);
            &&& policy.len() == 7
            &&& is_expected(policy[0], "CONFIG"@, MapType::Array, (4, 8, 2), true)
            &&& is_expected(policy[1], "PID_FILTER"@, MapType::Hash, (4, 8, 1024), true)
            &&& is_expected(policy[2], "CGROUP_FILTER"@, MapType::CgroupArray, (4, 4, 1), false)
            &&& is_expected(
                policy[3],
                "DESCRIPTORS"@,
                MapType::Array,
                (4, 18, sizes.max_descriptors),
                true,
            )
            &&& is_expected(policy[4], "ASYNC_FUNCTIONS"@, MapType::Hash, (32, 4, 128), true)
            &&& is_expected(
                policy[5],
                "MECH_SHAPE"@,
                MapType::Hash,
                (8, 4, sizes.max_mech_shapes),
                true,
            )
            &&& is_expected(policy[6], "TAIL_CALLS"@, MapType::ProgramArray, (4, 4, 2), false)
            &&& feature_maps().len() == 1
            &&& is_expected(feature_maps()[0], "ATTR_BOOL_BITS"@, MapType::Hash, (4, 4, 16), true)
            &&& runtime_maps(sizes).len() == 4
            &&& is_expected(
                runtime_maps(sizes)[0],
                "DISCOVERY"@,
                MapType::RingBuf,
                (0, 0, sizes.discovery_bytes),
                false,
            )
            &&& is_expected(
                runtime_maps(sizes)[1],
                "DISCOVERY_STATE"@,
                MapType::Hash,
                (24, 24, 64),
                false,
            )
            &&& is_expected(
                runtime_maps(sizes)[2],
                "COUNTERS"@,
                MapType::PerCpuArray,
                (4, 8, sizes.discovery_counter_cells),
                false,
            )
            &&& is_expected(
                runtime_maps(sizes)[3],
                "PAUSE_PIDS"@,
                MapType::Hash,
                (16, 8, 1),
                false,
            )
        }),
{
}

/// An object with unvalidated metadata has the programs of every object and four more, which read
/// templates.
pub proof fn lemma_programs_of_an_object(name: Text)
    ensures
        unsafe_programs().contains(name) <==> default_programs().contains(name) || name
            == "p11_entry_template"@ || name == "p11_entry_template_pair"@ || name
            == "p11_entry_template_second"@ || name == "p11_entry_template_types"@,
        default_programs().contains("p11_entry"@),
        default_programs().contains("p11_return"@),
        default_programs().contains("dl_debug_state"@),
        default_programs().contains("task_newtask"@),
        default_programs().contains("sched_process_exec"@),
        default_programs().contains("sched_process_exit"@),
        default_programs().contains("function_list_entry"@),
        default_programs().contains("function_list_return"@),
        default_programs().contains("interface_entry"@),
        default_programs().contains("interface_return"@),
        default_programs().contains("interface_list_entry"@),
        default_programs().contains("interface_list_return"@),
        default_programs().contains("interface_list_worker"@),
        default_programs().len() == 13,
        unsafe_programs().len() == 17,
{
    let all = default_programs();
    let more = unsafe_programs();
    assert(all[0] == "dl_debug_state"@ && all[1] == "function_list_entry"@ && all[2]
        == "function_list_return"@ && all[3] == "interface_entry"@ && all[4]
        == "interface_list_entry"@ && all[5] == "interface_list_return"@ && all[6]
        == "interface_list_worker"@ && all[7] == "interface_return"@ && all[8] == "p11_entry"@
        && all[9] == "p11_return"@ && all[10] == "sched_process_exec"@ && all[11]
        == "sched_process_exit"@ && all[12] == "task_newtask"@);
    assert(more[9] == "p11_entry_template"@ && more[10] == "p11_entry_template_pair"@ && more[11]
        == "p11_entry_template_second"@ && more[12] == "p11_entry_template_types"@);
    if more.contains(name) {
        let i = choose|i: int| 0 <= i < more.len() && more[i] == name;
        if i < 9 {
            assert(all[i] == more[i]);
        } else if i > 12 {
            assert(all[i - 4] == more[i]);
        }
    }
    if all.contains(name) {
        let i = choose|i: int| 0 <= i < all.len() && all[i] == name;
        if i < 9 {
            assert(all[i] == more[i]);
        } else {
            assert(all[i] == more[i + 4]);
        }
    }
}

/// A counter is the sum of its cells, or as much of it as can be counted.
pub proof fn lemma_counter_is_the_sum(cells: Seq<u64>)
    ensures
        ({
            let sum = cells.fold_left(0int, |sum: int, cell: u64| sum + cell);
            counter(cells) == if sum > u64::MAX {
                u64::MAX as int
            } else {
                sum
            }
        }),
{
    lemma_cells_fold(cells, cells.len() as int);
    assert(cells.take(cells.len() as int) =~= cells);
    lemma_cells_are_counted(cells, cells.len() as int);
}

/// The first cells sum up as they do one after the other.
proof fn lemma_cells_fold(cells: Seq<u64>, n: int)
    requires
        0 <= n <= cells.len(),
    ensures
        cells_sum(cells, n) == cells.take(n).fold_left(0int, |sum: int, cell: u64| sum + cell),
    decreases n,
{
    let first = cells.take(n);
    if n > 0 {
        lemma_cells_fold(cells, n - 1);
        assert(first.drop_last() =~= cells.take(n - 1));
        reveal_with_fuel(Seq::fold_left, 2);
    } else {
        reveal_with_fuel(Seq::fold_left, 2);
    }
}

/// No cell takes anything away.
proof fn lemma_cells_are_counted(cells: Seq<u64>, n: int)
    ensures
        cells_sum(cells, n) >= 0,
    decreases n,
{
    if n > 0 {
        lemma_cells_are_counted(cells, n - 1);
    }
}

/// Counters are all there exactly where each could be read, and else the first that could not be is
/// what is reported.
pub proof fn lemma_unread(cells: Seq<Result<Vec<u64>, String>>, n: int)
    requires
        0 <= n <= cells.len(),
    ensures
        match unread(cells, n) {
            None => forall|i: int| 0 <= i < n ==> (#[trigger] cells[i]) is Ok,
            Some(message) => exists|i: int|
                0 <= i < n && (#[trigger] cells[i] matches Err(given) && given@ == message)
                    && forall|j: int| 0 <= j < i ==> (#[trigger] cells[j]) is Ok,
        },
    decreases n,
{
    if n > 0 {
        lemma_unread(cells, n - 1);
        if let Some(message) = unread(cells, n - 1) {
            let i = choose|i: int|
                0 <= i < n - 1 && (#[trigger] cells[i] matches Err(given) && given@ == message)
                    && forall|j: int| 0 <= j < i ==> (#[trigger] cells[j]) is Ok;
            assert(cells[i] is Err);
        } else {
            assert(cells[n - 1] is Ok || cells[n - 1] is Err);
        }
    }
}

/// The trace file system is what is missing exactly where it is not there, or where the file that
/// names the event, under one of its two roots, is absent or not permitted.
pub proof fn lemma_tracefs_is_missing(fault: AttachFault, program: Text)
    ensures
        ({
            let group = if program == "task_newtask"@ {
                "task"@
            } else {
                "sched"@
            };
            let tail = "/events/"@ + group + "/"@ + program + "/id"@;
            tracefs_failure(fault, program) is Some <==> match fault.cause {
                FaultCause::TracefsMissing => true,
                FaultCause::EventFile(path, _, unavailable) => unavailable && (path@
                    == "/sys/kernel/tracing"@ + tail || path@ == "/sys/kernel/debug/tracing"@
                    + tail),
                FaultCause::Other => false,
            }
        }),
{
    let group = if program == "task_newtask"@ {
        "task"@
    } else {
        "sched"@
    };
    let tail = "/events/"@ + group + "/"@ + program + "/id"@;
    assert("/sys/kernel/tracing"@ + tail =~= event_file(
        "/sys/kernel/tracing"@,
        program,
    ));
    assert("/sys/kernel/debug/tracing"@ + tail =~= event_file(
        "/sys/kernel/debug/tracing"@,
        program,
    ));
}

/// Which policy a capture has: metrics only count, and never with unvalidated metadata; a profile
/// or a trace records what is allowed, or unvalidated metadata where that is asked for and compiled
/// in.
pub proof fn lemma_policies(mode: Text, requested: bool, compiled: bool)
    ensures
        policy_for(mode, requested, compiled) == Ok::<CapturePolicy, Text>(
            CapturePolicy::AggregateOnly,
        ) <==> mode == "metrics"@ && !requested,
        policy_for(mode, requested, compiled) == Ok::<CapturePolicy, Text>(
            CapturePolicy::Allowlisted,
        ) <==> (mode == "profile"@ || mode == "trace"@) && !requested,
        policy_for(mode, requested, compiled) == Ok::<CapturePolicy, Text>(
            CapturePolicy::UnsafeUnvalidatedMetadata,
        ) <==> (mode == "profile"@ || mode == "trace"@) && requested && compiled,
{
    reveal_strlit("metrics");
    reveal_strlit("profile");
    reveal_strlit("trace");
    assert("metrics"@[0] == 'm' && "profile"@[0] == 'p' && "trace"@[0] == 't');
}

/// Only a capture of one process that is the owned child may pause it, and then under that child's
/// own generation.
pub proof fn lemma_pause_keys(scope: Scope, capability: Option<OwnedPauseGeneration>)
    ensures
        pause_key_of(scope, capability) matches Ok(Some(key)) <==> (capability matches Some(owned)
            && (scope matches Scope::Pid(pid) && pid == owned.tgid)),
        pause_key_of(scope, capability) matches Ok(Some(key)) ==> (capability matches Some(owned)
            && key.tgid == owned.tgid && key.generation_token == owned.generation && key.pad == 0),
        pause_key_of(scope, capability) == Ok::<Option<PauseKey>, Text>(None) <==> capability
            is None,
{
}

/// No step of a start is left out, but for the two that serve the creation of processes, where that
/// is not captured or cannot be.
pub proof fn lemma_no_step_is_left_out(creation: bool, unavailable: bool)
    ensures
        step_after(StartStep::LoadObject, creation, unavailable) is ValidatePolicyMaps,
        step_after(StartStep::ValidatePolicyMaps, creation, unavailable) is ValidateRuntimeMaps,
        step_after(StartStep::ValidateRuntimeMaps, creation, unavailable) is ValidatePrograms,
        step_after(StartStep::ValidatePrograms, creation, unavailable) is PublishScope,
        step_after(StartStep::PublishScope, creation, unavailable) is PublishTaskOffsets <==> creation,
        step_after(StartStep::PublishScope, creation, unavailable) is PublishDescriptors
            <==> !creation,
        step_after(StartStep::PublishTaskOffsets, creation, unavailable) is PublishDescriptors,
        step_after(StartStep::PublishDescriptors, creation, unavailable) is PublishAsyncCatalog,
        step_after(StartStep::PublishAsyncCatalog, creation, unavailable) is LoadMechanisms,
        step_after(StartStep::LoadMechanisms, creation, unavailable) is PublishShapes,
        step_after(StartStep::PublishShapes, creation, unavailable) is PublishAttributes,
        step_after(StartStep::PublishAttributes, creation, unavailable) is FreezePublished,
        step_after(StartStep::FreezePublished, creation, unavailable) is LoadPrograms,
        step_after(StartStep::LoadPrograms, creation, unavailable) is FreezeDescriptors,
        step_after(StartStep::FreezeDescriptors, creation, unavailable) is PublishTailCalls,
        step_after(StartStep::PublishTailCalls, creation, unavailable) is AttachProcessCreation
            <==> creation && !unavailable,
        step_after(StartStep::PublishTailCalls, creation, unavailable) is AttachLifecycle <==> !creation
            || unavailable,
        step_after(StartStep::AttachProcessCreation, creation, unavailable) is AttachLifecycle,
        step_after(StartStep::AttachLifecycle, creation, unavailable) is Started,
{
}

/// A start goes on after a failure only where the creation of processes is what cannot be tracked:
/// its event is not described, since the description is absent or not permitted, or it cannot be
/// probed, since the trace file system is what is missing.
pub proof fn lemma_what_a_start_survives(step: StartStep, fault: StepFault)
    ensures
        creation_loss(step, fault) is Some <==> (step is PublishTaskOffsets
            && fault.unavailable_file is Some) || (step is AttachProcessCreation && !fault.missing
            && tracefs_failure(fault.fault, "task_newtask"@) is Some),
{
}

/// Names make a catalog exactly where each can be a key and no two are the same.
pub proof fn lemma_catalogs(names: Seq<Text>, n: int)
    requires
        0 <= n <= names.len(),
    ensures
        catalog_fault(names, n) is None <==> (forall|i: int|
            0 <= i < n ==> is_key(#[trigger] names[i])) && forall|i: int, j: int|
            0 <= i < j < n ==> #[trigger] names[i] != #[trigger] names[j],
    decreases n,
{
    if n > 0 {
        lemma_catalogs(names, n - 1);
        lemma_number_of(names, names[n - 1], n - 1);
        if catalog_fault(names, n - 1) is Some {
            if exists|i: int| 0 <= i < n - 1 && !is_key(#[trigger] names[i]) {
                let i = choose|i: int| 0 <= i < n - 1 && !is_key(#[trigger] names[i]);
                assert(!is_key(names[i]));
            } else {
                let (i, j) = choose|i: int, j: int|
                    0 <= i < j < n - 1 && #[trigger] names[i] == #[trigger] names[j];
                assert(names[i] == names[j]);
            }
        } else if let Some(i) = number_of(names, names[n - 1], n - 1) {
            assert(names[i] == names[n - 1]);
        }
    }
}

/// The key of a function is its name, filled up with zeros to 32 bytes.
pub proof fn lemma_function_keys(name: Text, i: int)
    requires
        is_key(name),
        0 <= i < 32,
    ensures
        function_key(name).len() == 32,
        function_key(name)[i] == if i < encode_utf8(name).len() {
            encode_utf8(name)[i]
        } else {
            0u8
        },
{
}

/// A field is found at an offset exactly where its line gives that offset as a number that fits 16
/// bits, its size, and its sign, as expected.
pub proof fn lemma_field_offsets(field: FieldText, name: Text, size: nat, signed: Text, at: nat)
    requires
        size <= 8,
    ensures
        field_offset(field, name, size, signed) == Ok::<nat, Text>(at) <==> (field.offset matches
            Some(offset) && unsigned_value(offset, usize::MAX as nat) == Some(at)) && (field.size
            matches Some(given) && given == digits(size)) && (field.signed matches Some(given)
            && given == signed) && at <= 0xffff && at + size <= usize::MAX,
{
}

/// How often a key stands among the first `n` attributes.
pub open spec fn key_count(pairs: Seq<(Text, Text)>, key: Text, n: int) -> nat
    decreases n,
{
    if n <= 0 {
        0
    } else {
        key_count(pairs, key, n - 1) + if pairs[n - 1].0 == key {
            1nat
        } else {
            0nat
        }
    }
}

/// Whether an attribute was taken as it stands: given once with its value, or not at all.
pub open spec fn is_taken(
    taken: Option<Text>,
    pairs: Seq<(Text, Text)>,
    key: Text,
    n: int,
) -> bool {
    match taken {
        Some(value) => key_count(pairs, key, n) == 1 && exists|i: int|
            0 <= i < n && #[trigger] pairs[i] == (key, value),
        None => key_count(pairs, key, n) == 0,
    }
}

/// The attributes of a field are read exactly where none of offset, size and sign is given twice,
/// and then each is taken as it stands.
pub proof fn lemma_attributes_are_taken(pairs: Seq<(Text, Text)>, name: Text, n: int)
    requires
        0 <= n <= pairs.len(),
    ensures
        collected(pairs, name, n) is Ok <==> key_count(pairs, "offset"@, n) <= 1 && key_count(
            pairs,
            "size"@,
            n,
        ) <= 1 && key_count(pairs, "signed"@, n) <= 1,
        collected(pairs, name, n) matches Ok(field) ==> is_taken(
            field.offset,
            pairs,
            "offset"@,
            n,
        ) && is_taken(field.size, pairs, "size"@, n) && is_taken(
            field.signed,
            pairs,
            "signed"@,
            n,
        ),
    decreases n,
{
    if n > 0 {
        lemma_attributes_are_taken(pairs, name, n - 1);
        reveal_strlit("offset");
        reveal_strlit("size");
        reveal_strlit("signed");
        assert("offset"@[0] == 'o' && "size"@.len() == 4 && "signed"@.len() == 6 && "signed"@[0]
            == 's');
        if let Ok(before) = collected(pairs, name, n - 1) {
            let last = pairs[n - 1];
            lemma_taken_on(before.offset, pairs, "offset"@, n);
            lemma_taken_on(before.size, pairs, "size"@, n);
            lemma_taken_on(before.signed, pairs, "signed"@, n);
        }
    }
}

/// What was taken stays taken where the next attribute is another, and is taken where it is the
/// first.
proof fn lemma_taken_on(taken: Option<Text>, pairs: Seq<(Text, Text)>, key: Text, n: int)
    requires
        0 < n <= pairs.len(),
        is_taken(taken, pairs, key, n - 1),
    ensures
        pairs[n - 1].0 != key ==> is_taken(taken, pairs, key, n),
        pairs[n - 1].0 == key && taken is None ==> is_taken(
            Some(pairs[n - 1].1),
            pairs,
            key,
            n,
        ),
        pairs[n - 1].0 == key && taken is Some ==> key_count(pairs, key, n) == 2,
{
    let last = pairs[n - 1];
    if let Some(value) = taken {
        let i = choose|i: int| 0 <= i < n - 1 && #[trigger] pairs[i] == (key, value);
        assert(pairs[i] == (key, value));
    }
    if last.0 == key {
        assert(pairs[n - 1] == (key, last.1));
    }
}

/// A line declares a field as often as its attributes name a field whose last word is the name.
pub proof fn lemma_declarations(pairs: Seq<(Text, Text)>, name: Text, n: int)
    requires
        0 <= n <= pairs.len(),
    ensures
        declared(pairs, name, n) == 0 <==> forall|i: int|
            0 <= i < n ==> !declares(#[trigger] pairs[i], name),
        declared(pairs, name, n) >= 1 <==> exists|i: int|
            0 <= i < n && declares(#[trigger] pairs[i], name),
        declared(pairs, name, n) >= 2 <==> exists|i: int, j: int|
            0 <= i < j < n && declares(#[trigger] pairs[i], name) && declares(
                #[trigger] pairs[j],
                name,
            ),
    decreases n,
{
    if n > 0 {
        lemma_declarations(pairs, name, n - 1);
        let before = declared(pairs, name, n - 1);
        if before >= 1 {
            let i = choose|i: int| 0 <= i < n - 1 && declares(#[trigger] pairs[i], name);
            assert(declares(pairs[i], name));
        }
        if before >= 2 {
            let (i, j) = choose|i: int, j: int|
                0 <= i < j < n - 1 && declares(#[trigger] pairs[i], name) && declares(
                    #[trigger] pairs[j],
                    name,
                );
            assert(declares(pairs[i], name) && declares(pairs[j], name));
        }
        if before == 1 && declares(pairs[n - 1], name) {
            let i = choose|i: int| 0 <= i < n - 1 && declares(#[trigger] pairs[i], name);
            assert(declares(pairs[i], name) && declares(pairs[n - 1], name));
        }
    }
}

/// Whether a line alone among the first `n` gives an offset of a field, and no line is refused.
pub open spec fn alone_gives(
    at: nat,
    lines: Seq<Text>,
    n: int,
    k: int,
    name: Text,
    size: nat,
    signed: Text,
) -> bool {
    &&& 0 <= k < n
    &&& line_offset(lines[k], name, size, signed) == Ok::<Option<nat>, Text>(Some(at))
    &&& forall|i: int|
        0 <= i < n && i != k ==> line_offset(#[trigger] lines[i], name, size, signed) == Ok::<
            Option<nat>,
            Text,
        >(None)
}

/// Whether one line alone gives the offset of a field, and no line is refused; or none gives it.
pub open spec fn is_given(
    given: Option<nat>,
    lines: Seq<Text>,
    n: int,
    name: Text,
    size: nat,
    signed: Text,
) -> bool {
    match given {
        Some(at) => exists|k: int| #[trigger] alone_gives(at, lines, n, k, name, size, signed),
        None => forall|i: int|
            0 <= i < n ==> line_offset(#[trigger] lines[i], name, size, signed) == Ok::<
                Option<nat>,
                Text,
            >(None),
    }
}

/// One more line keeps an offset that is given, gives one, or is refused.
proof fn lemma_given_on(
    given: Option<nat>,
    lines: Seq<Text>,
    n: int,
    name: Text,
    size: nat,
    signed: Text,
)
    requires
        0 < n <= lines.len(),
        is_given(given, lines, n - 1, name, size, signed),
    ensures
        offset_next(given, lines[n - 1], name, size, signed) matches Ok(next) ==> is_given(
            next,
            lines,
            n,
            name,
            size,
            signed,
        ),
{
    let last = line_offset(lines[n - 1], name, size, signed);
    if let Some(at) = given {
        let k = choose|k: int| #[trigger] alone_gives(at, lines, n - 1, k, name, size, signed);
        if last == Ok::<Option<nat>, Text>(None) {
            assert(alone_gives(at, lines, n, k, name, size, signed));
        }
    } else if let Ok(Some(at)) = last {
        assert(alone_gives(at, lines, n, n - 1, name, size, signed));
    }
}

/// The offsets of a description are those that one line each gives: the process id of four bytes
/// with a sign, and the clone flags of eight bytes without one. A description in which a second
/// line gives one of them is refused.
pub proof fn lemma_offsets_are_given(format: Text)
    ensures
        format_offsets(format) matches Ok((pid, flags)) ==> is_given(
            Some(pid),
            lines_from(format, 0),
            lines_from(format, 0).len() as int,
            "pid"@,
            4,
            "1"@,
        ) && is_given(
            Some(flags),
            lines_from(format, 0),
            lines_from(format, 0).len() as int,
            "clone_flags"@,
            8,
            "0"@,
        ),
{
    let lines = lines_from(format, 0);
    lemma_lines_give(lines, lines.len() as int);
}

/// The offsets that lines give.
proof fn lemma_lines_give(lines: Seq<Text>, n: int)
    requires
        0 <= n <= lines.len(),
    ensures
        offsets_of(lines, n) matches Ok((pid, flags)) ==> is_given(pid, lines, n, "pid"@, 4, "1"@)
            && is_given(flags, lines, n, "clone_flags"@, 8, "0"@),
    decreases n,
{
    if n > 0 {
        lemma_lines_give(lines, n - 1);
        if let Ok((pid, flags)) = offsets_of(lines, n - 1) {
            lemma_given_on(pid, lines, n, "pid"@, 4, "1"@);
            lemma_given_on(flags, lines, n, "clone_flags"@, 8, "0"@);
        }
    }
}

/// Whether a text has no white space at its ends.
pub open spec fn is_trim(s: Text) -> bool {
    s.len() > 0 ==> !is_space(s[0]) && !is_space(s.last())
}

/// A key and a value with a colon between them are an attribute.
pub proof fn lemma_attribute_parts(key: Text, value: Text)
    requires
        is_trim(key),
        is_trim(value),
        key.len() > 0,
        value.len() > 0,
        forall|i: int| 0 <= i < key.len() ==> #[trigger] key[i] != ':',
    ensures
        attribute(key + seq![':'] + value) == Some((key, value)),
{
    let s = key + seq![':'] + value;
    let n = key.len() as int;
    assert(s[0] == key[0]);
    assert(s.last() == value.last());
    lemma_trim_stays(s);
    lemma_trim_stays(key);
    lemma_trim_stays(value);
    assert(index_from(s, ':', 0) == n) by {
        lemma_index(s, ':', 0);
        assert(s[n] == ':');
        assert forall|i: int| 0 <= i < n implies s[i] != ':' by {
            assert(s[i] == key[i]);
        }
    }
    assert(s.take(n) =~= key);
    assert(s.skip(n + 1) =~= value);
}

/// A part without a colon is no attribute.
pub proof fn lemma_no_attribute(part: Text)
    requires
        forall|i: int| 0 <= i < part.len() ==> #[trigger] part[i] != ':',
    ensures
        attribute(part) is None,
{
    let inner = trimmed(part);
    lemma_trimmed(part);
    let (from, to) = choose|from: int, to: int|
        0 <= from <= to <= part.len() && #[trigger] part.subrange(from, to) == inner && (forall|
            i: int,
        |
            0 <= i < from ==> is_space(#[trigger] part[i])) && (forall|i: int|
            to <= i < part.len() ==> is_space(#[trigger] part[i]));
    lemma_index(inner, ':', 0);
    let at = index_from(inner, ':', 0);
    if at < inner.len() {
        assert(part.subrange(from, to)[at] == part[from + at]);
    }
}

/// A text without white space at its ends stays as it is.
proof fn lemma_trim_stays(s: Text)
    requires
        is_trim(s),
        s.len() > 0,
    ensures
        trimmed(s) == s,
{
    lemma_trimmed(s);
    let (from, to) = choose|from: int, to: int|
        0 <= from <= to <= s.len() && #[trigger] s.subrange(from, to) == trimmed(s) && (forall|
            i: int,
        |
            0 <= i < from ==> is_space(#[trigger] s[i])) && (forall|i: int|
            to <= i < s.len() ==> is_space(#[trigger] s[i]));
    if from > 0 {
        assert(is_space(s[0]));
    }
    if to < s.len() {
        assert(is_space(s[s.len() - 1]));
    }
    assert(s.subrange(from, to) =~= s);
}

/// The attributes of a line are those of its parts, in order: each part that is one gives it.
pub proof fn lemma_parts_give_attributes(parts: Seq<Text>, n: int)
    requires
        0 <= n <= parts.len(),
    ensures
        forall|i: int|
            0 <= i < n ==> (attribute(#[trigger] parts[i]) matches Some(pair) ==> attributes(
                parts,
                n,
            ).contains(pair)),
        attributes(parts, n).len() <= n,
    decreases n,
{
    if n > 0 {
        lemma_parts_give_attributes(parts, n - 1);
        let before = attributes(parts, n - 1);
        let now = attributes(parts, n);
        assert forall|i: int| 0 <= i < n implies (attribute(#[trigger] parts[i]) matches Some(pair)
            ==> now.contains(pair)) by {
            if let Some(pair) = attribute(parts[i]) {
                if i < n - 1 {
                    assert(before.contains(pair));
                    let k = choose|k: int| 0 <= k < before.len() && before[k] == pair;
                    assert(now[k] == pair);
                } else {
                    assert(now[now.len() - 1] == pair);
                }
            }
        }
    }
}

/// A description is read at the first path, then at the second, and taken as soon as one gives it.
/// Where neither does, it is unavailable exactly where both were.
pub proof fn lemma_format_is_tried_twice(
    first: ReadFailure,
    second: ReadFailure,
    format: String,
    step: FormatStep,
)
    ensures
        step_follows(Seq::empty(), step) ==> step == FormatStep::Read(0),
        step_follows(seq![Ok(format)], step) ==> (step matches FormatStep::Found(given) && given@
            == format@),
        step_follows(seq![Err(first)], step) ==> step == FormatStep::Read(1),
        step_follows(seq![Err(first), Ok(format)], step) ==> (step matches FormatStep::Found(given)
            && given@ == format@),
        step_follows(seq![Err(first), Err(second)], step) ==> (step matches FormatStep::Failed(
            _,
            unavailable,
        ) && (unavailable <==> first.unavailable && second.unavailable)),
{
    let both = seq![Err::<String, ReadFailure>(first), Err(second)];
    assert(both[0] == Err::<String, ReadFailure>(first));
    assert(both[1] == Err::<String, ReadFailure>(second));
}

/// Producers end in turn: each after those before it, entries first, then the fork, and returns
/// last.
pub proof fn lemma_producers_end_in_turn(unsafe_decoders: bool, fork_attached: bool, i: int, j: int)
    requires
        0 <= i < j,
        j <= 1 + (if unsafe_decoders {
            3int
        } else {
            0int
        }) + (if fork_attached {
            1int
        } else {
            0int
        }),
    ensures
        producer_turn(unsafe_decoders, fork_attached, i) < producer_turn(
            unsafe_decoders,
            fork_attached,
            j,
        ),
        producer_turn(unsafe_decoders, fork_attached, 0) == 0,
        j == 1 + (if unsafe_decoders {
            3int
        } else {
            0int
        }) + (if fork_attached {
            1int
        } else {
            0int
        }) ==> producer_turn(unsafe_decoders, fork_attached, j) == 5,
{
}

/// What was read back is as it was meant exactly where both list the same pairs, in any order: it
/// lacks none and adds none.
pub proof fn lemma_read_back<K, V>(a: Seq<(K, V)>, b: Seq<(K, V)>)
    ensures
        same_pairs(a, b) <==> a.to_set() =~= b.to_set(),
        same_pairs(a, b) == same_pairs(b, a),
{
    if same_pairs(a, b) {
        assert forall|x: (K, V)| a.to_set().contains(x) == b.to_set().contains(x) by {
            if a.contains(x) {
                let i = choose|i: int| 0 <= i < a.len() && a[i] == x;
                assert(b.contains(a[i]));
            }
            if b.contains(x) {
                let i = choose|i: int| 0 <= i < b.len() && b[i] == x;
                assert(a.contains(b[i]));
            }
        }
    }
    if a.to_set() =~= b.to_set() {
        assert forall|i: int| 0 <= i < a.len() implies b.contains(#[trigger] a[i]) by {
            assert(a.to_set().contains(a[i]));
        }
        assert forall|i: int| 0 <= i < b.len() implies a.contains(#[trigger] b[i]) by {
            assert(b.to_set().contains(b[i]));
        }
    }
}

/// Every kind of hook has programs of its own, and its entry is not its return.
pub proof fn lemma_export_programs(a: HookAbi, b: HookAbi)
    ensures
        export_names(a).0 != export_names(b).1,
        a != b ==> export_names(a).0 != export_names(b).0,
        a != b ==> export_names(a).1 != export_names(b).1,
        export_names(HookAbi::FunctionList).0 == "function_list_entry"@,
        export_names(HookAbi::FunctionList).1 == "function_list_return"@,
        export_names(HookAbi::InterfaceList).0 == "interface_list_entry"@,
        export_names(HookAbi::InterfaceList).1 == "interface_list_return"@,
        export_names(HookAbi::Interface).0 == "interface_entry"@,
        export_names(HookAbi::Interface).1 == "interface_return"@,
{
    reveal_strlit("function_list_entry");
    reveal_strlit("function_list_return");
    reveal_strlit("interface_list_entry");
    reveal_strlit("interface_list_return");
    reveal_strlit("interface_entry");
    reveal_strlit("interface_return");
    let e = export_names(a).0;
    let r = export_names(b).1;
    if e == r {
        assert(e.last() == r.last());
    }
    if a != b {
        if export_names(a).0 == export_names(b).0 {
            assert(export_names(a).0.len() == export_names(b).0.len());
        }
        if export_names(a).1 == export_names(b).1 {
            assert(export_names(a).1.len() == export_names(b).1.len());
        }
    }
}

} // verus!
