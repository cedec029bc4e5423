//! Exactly which maps and programs the loaded object must have. Anything else is refused before it
//! is used.

use crate::text::{
    concat3, debug_of, debug_text, decimal, digits, join, joined, push_text, same, texts, Text,
};
use vstd::prelude::*;
use vstd::string::*;

verus! {

/// The flag of a map that programs may only read.
pub const BPF_F_RDONLY_PROG: u32 = 128;

/// The kind of a map.
#[derive(Clone, Copy, Debug, PartialEq, Eq, Structural)]
pub enum MapType {
    Unspecified,
    Hash,
    Array,
    ProgramArray,
    PerfEventArray,
    PerCpuHash,
    PerCpuArray,
    StackTrace,
    CgroupArray,
    LruHash,
    LruPerCpuHash,
    LpmTrie,
    ArrayOfMaps,
    HashOfMaps,
    DevMap,
    SockMap,
    CpuMap,
    XskMap,
    SockHash,
    CgroupStorage,
    ReuseportSockArray,
    PerCpuCgroupStorage,
    Queue,
    Stack,
    SkStorage,
    DevMapHash,
    StructOps,
    RingBuf,
    InodeStorage,
    TaskStorage,
    BloomFilter,
    UserRingBuf,
    CgrpStorage,
    Arena,
}

/// Everything about a map that must be exact.
#[derive(Clone, Copy, Debug, PartialEq, Eq, Structural)]
pub struct ExactMapMetadata {
    pub map_type: MapType,
    pub key_size: u32,
    pub value_size: u32,
    pub max_entries: u32,
    pub flags: u32,
}

/// The sizes that the loaded object was built with.
#[derive(Clone, Copy, Debug, PartialEq, Eq, Structural)]
pub struct ObjectSizes {
    pub max_descriptors: u32,
    pub max_mech_shapes: u32,
    pub discovery_bytes: u32,
    pub discovery_counter_cells: u32,
}

/// Everything about a map that must be exact.
pub open spec fn metadata(
    map_type: MapType,
    key_size: u32,
    value_size: u32,
    max_entries: u32,
    flags: u32,
) -> ExactMapMetadata {
    ExactMapMetadata { map_type, key_size, value_size, max_entries, flags }
}

/// Puts the metadata of a map together.
fn map_metadata(
    map_type: MapType,
    key_size: u32,
    value_size: u32,
    max_entries: u32,
    flags: u32,
) -> (r: ExactMapMetadata)
    ensures
        r == metadata(map_type, key_size, value_size, max_entries, flags),
{
    ExactMapMetadata { map_type, key_size, value_size, max_entries, flags }
}

/// The maps that hold the policy of a capture, in the order in which they are looked at. Programs
/// may read all of them and write none, but for the two that the kernel reads itself.
pub open spec fn policy_maps(sizes: ObjectSizes) -> Seq<(Text, ExactMapMetadata)> {
    seq![
        ("CONFIG"@, metadata(MapType::Array, 4, 8, 2, BPF_F_RDONLY_PROG)),
        ("PID_FILTER"@, metadata(MapType::Hash, 4, 8, 1024, BPF_F_RDONLY_PROG)),
        ("CGROUP_FILTER"@, metadata(MapType::CgroupArray, 4, 4, 1, 0)),
        (
            "DESCRIPTORS"@,
            metadata(MapType::Array, 4, 18, sizes.max_descriptors, BPF_F_RDONLY_PROG),
        ),
        ("ASYNC_FUNCTIONS"@, metadata(MapType::Hash, 32, 4, 128, BPF_F_RDONLY_PROG)),
        (
            "MECH_SHAPE"@,
            metadata(MapType::Hash, 8, 4, sizes.max_mech_shapes, BPF_F_RDONLY_PROG),
        ),
        ("TAIL_CALLS"@, metadata(MapType::ProgramArray, 4, 4, 2, 0)),
    ]
}

/// The maps that only an object with unvalidated metadata has.
pub open spec fn feature_maps() -> Seq<(Text, ExactMapMetadata)> {
    seq![("ATTR_BOOL_BITS"@, metadata(MapType::Hash, 4, 4, 16, BPF_F_RDONLY_PROG))]
}

/// The maps that programs write while a capture runs.
pub open spec fn runtime_maps(sizes: ObjectSizes) -> Seq<(Text, ExactMapMetadata)> {
    seq![
        ("DISCOVERY"@, metadata(MapType::RingBuf, 0, 0, sizes.discovery_bytes, 0)),
        ("DISCOVERY_STATE"@, metadata(MapType::Hash, 24, 24, 64, 0)),
        ("COUNTERS"@, metadata(MapType::PerCpuArray, 4, 8, sizes.discovery_counter_cells, 0)),
        ("PAUSE_PIDS"@, metadata(MapType::Hash, 16, 8, 1, 0)),
    ]
}

/// Named metadata, by characters.
pub open spec fn named(list: Seq<(&'static str, ExactMapMetadata)>) -> Seq<
    (Text, ExactMapMetadata),
> {
    list.map_values(|m: (&'static str, ExactMapMetadata)| (m.0@, m.1))
}

/// The maps that hold the policy of a capture.
pub fn base_policy_maps(sizes: &ObjectSizes) -> (r: Vec<(&'static str, ExactMapMetadata)>)
    ensures
        named(r@) == policy_maps(*sizes),
{
    let mut r: Vec<(&'static str, ExactMapMetadata)> = Vec::new();
    r.push(("CONFIG", map_metadata(MapType::Array, 4, 8, 2, BPF_F_RDONLY_PROG)));
    r.push(("PID_FILTER", map_metadata(MapType::Hash, 4, 8, 1024, BPF_F_RDONLY_PROG)));
    r.push(("CGROUP_FILTER", map_metadata(MapType::CgroupArray, 4, 4, 1, 0)));
    r.push(
        (
            "DESCRIPTORS",
            map_metadata(MapType::Array, 4, 18, sizes.max_descriptors, BPF_F_RDONLY_PROG),
        ),
    );
    r.push(("ASYNC_FUNCTIONS", map_metadata(MapType::Hash, 32, 4, 128, BPF_F_RDONLY_PROG)));
    r.push(
        (
            "MECH_SHAPE",
            map_metadata(MapType::Hash, 8, 4, sizes.max_mech_shapes, BPF_F_RDONLY_PROG),
        ),
    );
    r.push(("TAIL_CALLS", map_metadata(MapType::ProgramArray, 4, 4, 2, 0)));
    assert(named(r@) =~= policy_maps(*sizes));
    r
}

/// The maps that only an object with unvalidated metadata has.
pub fn feature_policy_maps() -> (r: Vec<(&'static str, ExactMapMetadata)>)
    ensures
        named(r@) == feature_maps(),
{
    let mut r: Vec<(&'static str, ExactMapMetadata)> = Vec::new();
    r.push(("ATTR_BOOL_BITS", map_metadata(MapType::Hash, 4, 4, 16, BPF_F_RDONLY_PROG)));
    assert(named(r@) =~= feature_maps());
    r
}

/// The maps that programs write while a capture runs.
pub fn runtime_map_inventory(sizes: &ObjectSizes) -> (r: Vec<(&'static str, ExactMapMetadata)>)
    ensures
        named(r@) == runtime_maps(*sizes),
{
    let mut r: Vec<(&'static str, ExactMapMetadata)> = Vec::new();
    r.push(("DISCOVERY", map_metadata(MapType::RingBuf, 0, 0, sizes.discovery_bytes, 0)));
    r.push(("DISCOVERY_STATE", map_metadata(MapType::Hash, 24, 24, 64, 0)));
    r.push(
        (
            "COUNTERS",
            map_metadata(MapType::PerCpuArray, 4, 8, sizes.discovery_counter_cells, 0),
        ),
    );
    r.push(("PAUSE_PIDS", map_metadata(MapType::Hash, 16, 8, 1, 0)));
    assert(named(r@) =~= runtime_maps(*sizes));
    r
}

/// What was seen of a map.
#[derive(Clone, Debug)]
pub enum MapSeen {
    /// The object has no such map.
    Missing,
    /// The map is of a kind that is not looked into, named as it is.
    Unexpected(String),
    /// What the kernel says of the map could not be read.
    Unreadable(String),
    /// The kind that the kernel says the map is of has no name.
    Unnamed(String),
    /// What the kernel says of the map.
    Seen(ExactMapMetadata),
}

/// How the kind of a map is written.
pub open spec fn type_text(map_type: MapType) -> Text {
    match map_type {
        MapType::Unspecified => "Unspecified"@,
        MapType::Hash => "Hash"@,
        MapType::Array => "Array"@,
        MapType::ProgramArray => "ProgramArray"@,
        MapType::PerfEventArray => "PerfEventArray"@,
        MapType::PerCpuHash => "PerCpuHash"@,
        MapType::PerCpuArray => "PerCpuArray"@,
        MapType::StackTrace => "StackTrace"@,
        MapType::CgroupArray => "CgroupArray"@,
        MapType::LruHash => "LruHash"@,
        MapType::LruPerCpuHash => "LruPerCpuHash"@,
        MapType::LpmTrie => "LpmTrie"@,
        MapType::ArrayOfMaps => "ArrayOfMaps"@,
        MapType::HashOfMaps => "HashOfMaps"@,
        MapType::DevMap => "DevMap"@,
        MapType::SockMap => "SockMap"@,
        MapType::CpuMap => "CpuMap"@,
        MapType::XskMap => "XskMap"@,
        MapType::SockHash => "SockHash"@,
        MapType::CgroupStorage => "CgroupStorage"@,
        MapType::ReuseportSockArray => "ReuseportSockArray"@,
        MapType::PerCpuCgroupStorage => "PerCpuCgroupStorage"@,
        MapType::Queue => "Queue"@,
        MapType::Stack => "Stack"@,
        MapType::SkStorage => "SkStorage"@,
        MapType::DevMapHash => "DevMapHash"@,
        MapType::StructOps => "StructOps"@,
        MapType::RingBuf => "RingBuf"@,
        MapType::InodeStorage => "InodeStorage"@,
        MapType::TaskStorage => "TaskStorage"@,
        MapType::BloomFilter => "BloomFilter"@,
        MapType::UserRingBuf => "UserRingBuf"@,
        MapType::CgrpStorage => "CgrpStorage"@,
        MapType::Arena => "Arena"@,
    }
}

/// How metadata is written.
pub open spec fn metadata_text(m: ExactMapMetadata) -> Text {
    "ExactMapMetadata { map_type: "@ + type_text(m.map_type) + ", key_size: "@ + digits(
        m.key_size as nat,
    ) + ", value_size: "@ + digits(m.value_size as nat) + ", max_entries: "@ + digits(
        m.max_entries as nat,
    ) + ", flags: "@ + digits(m.flags as nat) + " }"@
}

/// Writes the kind of a map.
fn kind_name(map_type: MapType) -> (r: &'static str)
    ensures
        r@ == type_text(map_type),
{
    match map_type {
        MapType::Unspecified => "Unspecified",
        MapType::Hash => "Hash",
        MapType::Array => "Array",
        MapType::ProgramArray => "ProgramArray",
        MapType::PerfEventArray => "PerfEventArray",
        MapType::PerCpuHash => "PerCpuHash",
        MapType::PerCpuArray => "PerCpuArray",
        MapType::StackTrace => "StackTrace",
        MapType::CgroupArray => "CgroupArray",
        MapType::LruHash => "LruHash",
        MapType::LruPerCpuHash => "LruPerCpuHash",
        MapType::LpmTrie => "LpmTrie",
        MapType::ArrayOfMaps => "ArrayOfMaps",
        MapType::HashOfMaps => "HashOfMaps",
        MapType::DevMap => "DevMap",
        MapType::SockMap => "SockMap",
        MapType::CpuMap => "CpuMap",
        MapType::XskMap => "XskMap",
        MapType::SockHash => "SockHash",
        MapType::CgroupStorage => "CgroupStorage",
        MapType::ReuseportSockArray => "ReuseportSockArray",
        MapType::PerCpuCgroupStorage => "PerCpuCgroupStorage",
        MapType::Queue => "Queue",
        MapType::Stack => "Stack",
        MapType::SkStorage => "SkStorage",
        MapType::DevMapHash => "DevMapHash",
        MapType::StructOps => "StructOps",
        MapType::RingBuf => "RingBuf",
        MapType::InodeStorage => "InodeStorage",
        MapType::TaskStorage => "TaskStorage",
        MapType::BloomFilter => "BloomFilter",
        MapType::UserRingBuf => "UserRingBuf",
        MapType::CgrpStorage => "CgrpStorage",
        MapType::Arena => "Arena",
    }
}

/// Adds metadata to a message.
fn append_metadata(out: &mut String, m: &ExactMapMetadata)
    ensures
        final(out)@ == old(out)@ + metadata_text(*m),
{
    out.append("ExactMapMetadata { map_type: ");
    out.append(kind_name(m.map_type));
    out.append(", key_size: ");
    out.append(decimal(m.key_size as u64).as_str());
    out.append(", value_size: ");
    out.append(decimal(m.value_size as u64).as_str());
    out.append(", max_entries: ");
    out.append(decimal(m.max_entries as u64).as_str());
    out.append(", flags: ");
    out.append(decimal(m.flags as u64).as_str());
    out.append(" }");
    assert(out@ =~= old(out)@ + metadata_text(*m));
}

/// Why a map is refused. `what` says what the map is for.
pub open spec fn map_fault(
    name: Text,
    what: Text,
    seen: MapSeen,
    expected: ExactMapMetadata,
) -> Option<Text> {
    match seen {
        MapSeen::Missing => Some(name + " map"@),
        MapSeen::Unexpected(variant) => Some(
            "refusing unexpected "@ + name + " "@ + what + " map variant "@ + variant@,
        ),
        MapSeen::Unreadable(error) => Some("reading "@ + name + " map info: "@ + error@),
        MapSeen::Unnamed(error) => Some(error@),
        MapSeen::Seen(actual) => if actual != expected {
            Some(
                name + " metadata "@ + metadata_text(actual) + " differs from exact expected "@
                    + metadata_text(expected),
            )
        } else {
            None
        },
    }
}

/// Checks one map.
pub fn validate_map_metadata(
    name: &str,
    what: &str,
    seen: &MapSeen,
    expected: &ExactMapMetadata,
) -> (r: Result<(), String>)
    ensures
        match map_fault(name@, what@, *seen, *expected) {
            None => r is Ok,
            Some(message) => r matches Err(given) && given@ == message,
        },
{
    match seen {
        MapSeen::Missing => {
            let mut out = name.to_owned();
            out.append(" map");
            Err(out)
        },
        MapSeen::Unexpected(variant) => {
            let mut out = concat3("refusing unexpected ", name, " ");
            out.append(what);
            out.append(" map variant ");
            out.append(variant.as_str());
            Err(out)
        },
        MapSeen::Unreadable(error) => {
            let mut out = concat3("reading ", name, " map info: ");
            out.append(error.as_str());
            Err(out)
        },
        MapSeen::Unnamed(error) => Err(error.clone()),
        MapSeen::Seen(actual) => {
            if *actual == *expected {
                return Ok(());
            }
            let mut out = name.to_owned();
            out.append(" metadata ");
            append_metadata(&mut out, actual);
            out.append(" differs from exact expected ");
            append_metadata(&mut out, expected);
            Err(out)
        },
    }
}

/// The first of the first `n` maps that is refused.
pub open spec fn maps_fault(
    expected: Seq<(Text, ExactMapMetadata)>,
    what: Text,
    seen: Seq<MapSeen>,
    n: int,
) -> Option<Text>
    decreases n,
{
    if n <= 0 {
        None
    } else {
        match maps_fault(expected, what, seen, n - 1) {
            Some(message) => Some(message),
            None => map_fault(expected[n - 1].0, what, seen[n - 1], expected[n - 1].1),
        }
    }
}

/// The first map that is refused stays the first.
proof fn lemma_maps_fault_stays(
    expected: Seq<(Text, ExactMapMetadata)>,
    what: Text,
    seen: Seq<MapSeen>,
    n: int,
    m: int,
)
    requires
        n <= m,
        maps_fault(expected, what, seen, n) is Some,
    ensures
        maps_fault(expected, what, seen, m) == maps_fault(expected, what, seen, n),
    decreases m - n,
{
    if n < m {
        lemma_maps_fault_stays(expected, what, seen, n, m - 1);
    }
}

/// Checks maps, in order.
fn validate_maps(
    expected: &Vec<(&'static str, ExactMapMetadata)>,
    what: &str,
    seen: &Vec<MapSeen>,
) -> (r: Result<(), String>)
    requires
        seen@.len() >= expected@.len(),
    ensures
        match maps_fault(named(expected@), what@, seen@, expected@.len() as int) {
            None => r is Ok,
            Some(message) => r matches Err(given) && given@ == message,
        },
{
    let ghost all = named(expected@);
    let mut i: usize = 0;
    while i < expected.len()
        invariant
            i <= expected@.len() <= seen@.len(),
            all == named(expected@),
            maps_fault(all, what@, seen@, i as int) is None,
        decreases expected@.len() - i,
    {
        assert(all[i as int] == (expected@[i as int].0@, expected@[i as int].1));
        if let Err(message) = validate_map_metadata(
            expected[i].0,
            what,
            &seen[i],
            &expected[i].1,
        ) {
            proof {
                lemma_maps_fault_stays(all, what@, seen@, i + 1, expected@.len() as int);
            }
            return Err(message);
        }
        i += 1;
    }
    Ok(())
}

/// Why the policy maps of an object are refused: one of them is not exact, or one is there that only
/// an object with unvalidated metadata has.
pub open spec fn policy_fault(
    sizes: ObjectSizes,
    seen: Seq<MapSeen>,
    feature: MapSeen,
    object_has_unsafe: bool,
) -> Option<Text> {
    match maps_fault(policy_maps(sizes), "policy"@, seen, 7) {
        Some(message) => Some(message),
        None => if object_has_unsafe {
            map_fault(feature_maps()[0].0, "policy"@, feature, feature_maps()[0].1)
        } else if feature is Missing {
            None
        } else {
            Some(feature_maps()[0].0 + " must be absent from the default eBPF object"@)
        },
    }
}

/// Checks the policy maps of an object: what was seen of each, in order, and of the one that only an
/// object with unvalidated metadata has.
pub fn validate_policy_maps(
    sizes: &ObjectSizes,
    seen: &Vec<MapSeen>,
    feature: &MapSeen,
    object_has_unsafe: bool,
) -> (r: Result<(), String>)
    requires
        seen@.len() == 7,
    ensures
        match policy_fault(*sizes, seen@, *feature, object_has_unsafe) {
            None => r is Ok,
            Some(message) => r matches Err(given) && given@ == message,
        },
{
    let expected = base_policy_maps(sizes);
    assert(named(expected@).len() == expected@.len());
    if let Err(message) = validate_maps(&expected, "policy", seen) {
        return Err(message);
    }
    let extra = feature_policy_maps();
    assert(named(extra@)[0] == (extra@[0].0@, extra@[0].1)) by {
        assert(named(extra@).len() == extra@.len());
    }
    assert(extra@.len() == 1) by {
        assert(named(extra@).len() == extra@.len());
    }
    if object_has_unsafe {
        return validate_map_metadata(extra[0].0, "policy", feature, &extra[0].1);
    }
    match feature {
        MapSeen::Missing => Ok(()),
        _ => {
            let mut message = extra[0].0.to_owned();
            message.append(" must be absent from the default eBPF object");
            Err(message)
        },
    }
}

/// Checks the maps that programs write while a capture runs.
pub fn validate_runtime_maps(sizes: &ObjectSizes, seen: &Vec<MapSeen>) -> (r: Result<(), String>)
    requires
        seen@.len() == 4,
    ensures
        match maps_fault(runtime_maps(*sizes), "runtime"@, seen@, 4) {
            None => r is Ok,
            Some(message) => r matches Err(given) && given@ == message,
        },
{
    let expected = runtime_map_inventory(sizes);
    assert(named(expected@).len() == expected@.len());
    validate_maps(&expected, "runtime", seen)
}

/// The programs of every object, in the order of their names.
pub open spec fn default_programs() -> Seq<Text> {
    seq![
        "dl_debug_state"@,
        "function_list_entry"@,
        "function_list_return"@,
        "interface_entry"@,
        "interface_list_entry"@,
        "interface_list_return"@,
        "interface_list_worker"@,
        "interface_return"@,
        "p11_entry"@,
        "p11_return"@,
        "sched_process_exec"@,
        "sched_process_exit"@,
        "task_newtask"@,
    ]
}

/// The programs of an object with unvalidated metadata, in the order of their names.
pub open spec fn unsafe_programs() -> Seq<Text> {
    seq![
        "dl_debug_state"@,
        "function_list_entry"@,
        "function_list_return"@,
        "interface_entry"@,
        "interface_list_entry"@,
        "interface_list_return"@,
        "interface_list_worker"@,
        "interface_return"@,
        "p11_entry"@,
        "p11_entry_template"@,
        "p11_entry_template_pair"@,
        "p11_entry_template_second"@,
        "p11_entry_template_types"@,
        "p11_return"@,
        "sched_process_exec"@,
        "sched_process_exit"@,
        "task_newtask"@,
    ]
}

/// Names, by characters.
pub open spec fn name_texts(list: Seq<&'static str>) -> Seq<Text> {
    list.map_values(|s: &'static str| s@)
}

/// The programs that an object must have, in the order of their names.
pub fn expected_programs(unsafe_enabled: bool) -> (r: Vec<&'static str>)
    ensures
        name_texts(r@) == if unsafe_enabled {
            unsafe_programs()
        } else {
            default_programs()
        },
{
    let mut r: Vec<&'static str> = Vec::new();
    r.push("dl_debug_state");
    r.push("function_list_entry");
    r.push("function_list_return");
    r.push("interface_entry");
    r.push("interface_list_entry");
    r.push("interface_list_return");
    r.push("interface_list_worker");
    r.push("interface_return");
    r.push("p11_entry");
    if unsafe_enabled {
        r.push("p11_entry_template");
        r.push("p11_entry_template_pair");
        r.push("p11_entry_template_second");
        r.push("p11_entry_template_types");
    }
    r.push("p11_return");
    r.push("sched_process_exec");
    r.push("sched_process_exit");
    r.push("task_newtask");
    if unsafe_enabled {
        assert(name_texts(r@) =~= unsafe_programs());
    } else {
        assert(name_texts(r@) =~= default_programs());
    }
    r
}

/// How a set of names is written.
pub open spec fn set_text(names: Seq<Text>) -> Text {
    "{"@ + joined(names.map_values(|n: Text| debug_text(n)), ", "@) + "}"@
}

/// Writes a set of names.
fn render_set(names: &Vec<String>) -> (r: String)
    ensures
        r@ == set_text(texts(names@)),
{
    let mut parts: Vec<String> = Vec::new();
    let ghost all = texts(names@).map_values(|n: Text| debug_text(n));
    let mut i: usize = 0;
    assert(texts(parts@) =~= all.take(0));
    while i < names.len()
        invariant
            i <= names@.len(),
            all == texts(names@).map_values(|n: Text| debug_text(n)),
            texts(parts@) == all.take(i as int),
        decreases names@.len() - i,
    {
        let part = debug_of(names[i].as_str());
        assert(part@ == all[i as int]);
        push_text(&mut parts, part);
        i += 1;
        assert(texts(parts@) =~= all.take(i as int));
    }
    assert(all.take(i as int) =~= all);
    concat3("{", join(&parts, ", ").as_str(), "}")
}

/// Checks the programs of an object, given in the order of their names: they must be exactly those
/// that are expected.
pub fn validate_program_inventory(actual: &Vec<String>, unsafe_enabled: bool) -> (r: Result<
    (),
    String,
>)
    ensures
        ({
            let expected = if unsafe_enabled {
                unsafe_programs()
            } else {
                default_programs()
            };
            if texts(actual@) == expected {
                r is Ok
            } else {
                r matches Err(message) && message@ == "eBPF program inventory "@ + set_text(
                    texts(actual@),
                ) + " differs from "@ + set_text(expected)
            }
        }),
{
    let names = expected_programs(unsafe_enabled);
    let mut expected: Vec<String> = Vec::new();
    let mut i: usize = 0;
    assert(texts(expected@) =~= name_texts(names@).take(0));
    while i < names.len()
        invariant
            i <= names@.len(),
            texts(expected@) == name_texts(names@).take(i as int),
        decreases names@.len() - i,
    {
        push_text(&mut expected, names[i].to_owned());
        i += 1;
        assert(texts(expected@) =~= name_texts(names@).take(i as int));
    }
    assert(name_texts(names@).take(i as int) =~= name_texts(names@));
    if same_names(actual, &expected) {
        return Ok(());
    }
    let mut message = concat3("eBPF program inventory ", render_set(actual).as_str(), " differs from ");
    message.append(render_set(&expected).as_str());
    Err(message)
}

/// Tells whether two lists hold the same names.
fn same_names(a: &Vec<String>, b: &Vec<String>) -> (r: bool)
    ensures
        r == (texts(a@) == texts(b@)),
{
    assert(texts(a@).len() == a@.len() && texts(b@).len() == b@.len());
    if a.len() != b.len() {
        return false;
    }
    let mut i: usize = 0;
    while i < a.len()
        invariant
            i <= a@.len(),
            a@.len() == b@.len(),
            forall|j: int| 0 <= j < i ==> (#[trigger] a@[j])@ == b@[j]@,
        decreases a@.len() - i,
    {
        if !same(a[i].as_str(), b[i].as_str()) {
            assert(texts(a@)[i as int] != texts(b@)[i as int]);
            return false;
        }
        i += 1;
    }
    assert(texts(a@) =~= texts(b@));
    true
}

/// Tells whether a program probes a kernel event rather than a place in a file.
pub fn is_tracepoint_program(name: &str) -> (r: bool)
    ensures
        r == (name@ == "task_newtask"@ || name@ == "sched_process_exec"@ || name@
            == "sched_process_exit"@),
{
    same(name, "task_newtask") || same(name, "sched_process_exec") || same(
        name,
        "sched_process_exit",
    )
}

/// Tells whether a policy map is frozen as soon as it is filled. The descriptors are frozen once the
/// programs are loaded, and the tail calls once they are filled from the programs.
pub fn is_frozen_early(name: &str) -> (r: bool)
    ensures
        r == (name@ != "DESCRIPTORS"@ && name@ != "TAIL_CALLS"@),
{
    !same(name, "DESCRIPTORS") && !same(name, "TAIL_CALLS")
}

/// The attribute block of the call that freezes a map: the descriptor of the map alone.
pub fn map_freeze_attribute(map_fd: u32) -> (r: [u32; 1])
    ensures
        r@ == seq![map_fd],
{
    let r = [map_fd];
    assert(r@ =~= seq![map_fd]);
    r
}

/// The attribute block of the call that looks an element up, as four words on a little-endian
/// machine: the descriptor of the map with nothing above it, where the key lies, where the value
/// goes, and flags.
pub fn map_element_attribute(map_fd: u32, key: u64, value: u64, flags: u64) -> (r: [u64; 4])
    ensures
        r@ == seq![map_fd as u64, key, value, flags],
{
    let r = [map_fd as u64, key, value, flags];
    assert(r@ =~= seq![map_fd as u64, key, value, flags]);
    r
}

/// What a look-up in a program array comes to: the program found, none, or a failure.
pub fn program_array_lookup_result(
    name: &str,
    key: u32,
    value: u32,
    result: Result<(), (bool, String)>,
) -> (r: Result<Option<u32>, String>)
    ensures
        match result {
            Ok(()) => r == Ok::<Option<u32>, String>(Some(value)),
            Err((absent, error)) => if absent {
                r == Ok::<Option<u32>, String>(None)
            } else {
                r matches Err(message) && message@ == "reading back "@ + name@ + "["@ + digits(
                    key as nat,
                ) + "]: "@ + error@
            },
        },
{
    match result {
        Ok(()) => Ok(Some(value)),
        Err((absent, error)) => {
            if absent {
                return Ok(None);
            }
            let mut message = concat3("reading back ", name, "[");
            message.append(decimal(key as u64).as_str());
            message.append("]: ");
            message.append(error.as_str());
            Err(message)
        },
    }
}

/// How a program identifier that may be absent is written.
pub open spec fn id_text(id: Option<u32>) -> Text {
    match id {
        Some(n) => "Some("@ + digits(n as nat) + ")"@,
        None => "None"@,
    }
}

/// Writes a program identifier that may be absent.
fn render_id(id: Option<u32>) -> (r: String)
    ensures
        r@ == id_text(id),
{
    match id {
        Some(n) => concat3("Some(", decimal(n as u64).as_str(), ")"),
        None => "None".to_owned(),
    }
}

/// Checks the tail calls as they read back: the worker, and the second template program where there
/// is one.
pub fn validate_tail_calls(
    worker: Option<u32>,
    loaded_worker: u32,
    second: Option<u32>,
    loaded_second: Option<u32>,
) -> (r: Result<(), String>)
    ensures
        if worker != Some(loaded_worker) {
            r matches Err(message) && message@ == "TAIL_CALLS worker exact readback id "@ + id_text(
                worker,
            ) + " differs from loaded program "@ + digits(loaded_worker as nat)
        } else if second != loaded_second {
            r matches Err(message) && message@
                == "TAIL_CALLS template-second exact readback id "@ + id_text(second)
                + " differs from expected "@ + id_text(loaded_second)
        } else {
            r is Ok
        },
{
    let worker_exact = match worker {
        Some(id) => id == loaded_worker,
        None => false,
    };
    if !worker_exact {
        let mut message = concat3(
            "TAIL_CALLS worker exact readback id ",
            render_id(worker).as_str(),
            " differs from loaded program ",
        );
        message.append(decimal(loaded_worker as u64).as_str());
        return Err(message);
    }
    let second_exact = match (second, loaded_second) {
        (Some(a), Some(b)) => a == b,
        (None, None) => true,
        _ => false,
    };
    if !second_exact {
        let mut message = concat3(
            "TAIL_CALLS template-second exact readback id ",
            render_id(second).as_str(),
            " differs from expected ",
        );
        message.append(render_id(loaded_second).as_str());
        return Err(message);
    }
    Ok(())
}

} // verus!
