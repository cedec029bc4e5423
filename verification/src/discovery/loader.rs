//! Loader contexts: every dynamic-loader hook that a capture placed, with what a hit of it must
//! look like. Contexts are numbered once and never reused.

use crate::maps::{MapEntry, Mapping, SymbolFact};
use crate::text::{
    concat3, decimal, digits, hex_digits, hexadecimal, signed_decimal, signed_digits, Text,
};
use vstd::prelude::*;
use vstd::string::*;

verus! {

/// The most loader contexts of one capture.
pub const MAX_LOADER_CONTEXTS: usize = 256;

/// The smallest distance of the loader state from its hook that a cookie can hold.
pub const MIN_STATE_DELTA: i64 = -0x40_0000_0000_0000;

/// The largest distance of the loader state from its hook that a cookie can hold.
pub const MAX_STATE_DELTA: i64 = 0x3f_ffff_ffff_ffff;

/// Where the distance starts in a cookie.
pub const LOADER_STATE_SHIFT: u32 = 9;

/// The bit of a cookie that says that it holds a distance.
pub const LOADER_STATE_PRESENT: u64 = 256;

/// What stands in place of the distance in a cookie without one.
pub const LOADER_STATE_ABSENT_SENTINEL: u64 = 1;

/// The bits of a cookie that name the context.
pub const LOADER_CONTEXT_ID_MASK: u64 = 255;

/// A process, as one view of it.
#[derive(Clone, Copy, Debug, PartialEq, Eq, Structural)]
pub struct ProcessViewId(pub u64);

/// An object that the capture holds open.
#[derive(Clone, Copy, Debug, PartialEq, Eq, Structural)]
pub struct PinnedObjectId(pub u64);

/// A loader context, counted from one.
#[derive(Clone, Copy, Debug, PartialEq, Eq, Structural)]
pub struct LoaderContextId(pub u16);

impl LoaderContextId {
    /// The number of the context.
    pub fn get(self) -> (r: u16)
        ensures
            r == self.0,
    {
        self.0
    }

    /// The number of the context in a record, counted from zero.
    pub fn case_id(self) -> (r: u8)
        requires
            1 <= self.0 <= 256,
        ensures
            r == self.0 - 1,
    {
        (self.0 - 1) as u8
    }

    /// The context that a record names.
    pub fn from_case_id(case_id: u8) -> (r: Self)
        ensures
            r.0 == case_id + 1,
    {
        LoaderContextId(case_id as u16 + 1)
    }
}

/// The cookie of a context, or why there is none. The low byte holds the context; the bits from the
/// ninth on hold the distance as a signed number, where the bit below says that there is one.
pub open spec fn cookie_of(context_id: int, delta: Option<int>) -> Result<int, Text> {
    if context_id < 1 || context_id > 256 {
        Err("loader context id "@ + digits(context_id as nat) + " is outside 1..=256"@)
    } else {
        match delta {
            None => Ok(512 + context_id - 1),
            Some(d) => if d < MIN_STATE_DELTA || d > MAX_STATE_DELTA {
                Err("loader state delta "@ + signed_digits(d) + " does not fit signed 55 bits"@)
            } else if d < 0 {
                Ok(0x1_0000_0000_0000_0000 + d * 512 + 256 + context_id - 1)
            } else {
                Ok(d * 512 + 256 + context_id - 1)
            },
        }
    }
}

/// A cookie as a signed number.
pub open spec fn as_signed(cookie: int) -> int {
    if cookie >= 0x8000_0000_0000_0000 {
        cookie - 0x1_0000_0000_0000_0000
    } else {
        cookie
    }
}

/// Whether a cookie holds a distance.
pub open spec fn holds_delta(cookie: int) -> bool {
    cookie % 512 >= 256
}

/// The context and the distance of a cookie, or why it is refused.
pub open spec fn cookie_parts(cookie: int) -> Result<(int, Option<int>), Text> {
    if holds_delta(cookie) {
        Ok((cookie % 256 + 1, Some(as_signed(cookie) / 512)))
    } else if cookie / 512 == LOADER_STATE_ABSENT_SENTINEL {
        Ok((cookie % 256 + 1, None))
    } else {
        Err("invalid loader cookie 0x"@ + hex_digits(cookie as nat))
    }
}

/// An optional number without its width.
pub open spec fn wide(delta: Option<i64>) -> Option<int> {
    match delta {
        Some(d) => Some(d as int),
        None => None,
    }
}

/// Every cookie gives back the context and the distance that it was made from.
pub proof fn lemma_cookie_round_trip(context_id: int, delta: Option<int>)
    requires
        cookie_of(context_id, delta) is Ok,
    ensures
        0 < cookie_of(context_id, delta)->Ok_0 <= u64::MAX,
        cookie_parts(cookie_of(context_id, delta)->Ok_0) == Ok::<(int, Option<int>), Text>(
            (context_id, delta),
        ),
{
    let c = context_id - 1;
    match delta {
        None => {},
        Some(d) => {
            let cookie = cookie_of(context_id, delta)->Ok_0;
            assert(as_signed(cookie) == d * 512 + 256 + c);
            if d < 0 {
                assert(cookie == (0x80_0000_0000_0000 + d) * 512 + 256 + c);
            }
        },
    }
}

/// Makes the cookie of a context.
pub fn encode_loader_cookie(context_id: u16, state_delta: Option<i64>) -> (r: Result<u64, String>)
    ensures
        match cookie_of(context_id as int, wide(state_delta)) {
            Ok(cookie) => r matches Ok(given) && given == cookie,
            Err(message) => r matches Err(given) && given@ == message,
        },
{
    if context_id < 1 || context_id > 256 {
        return Err(
            concat3(
                "loader context id ",
                decimal(context_id as u64).as_str(),
                " is outside 1..=256",
            ),
        );
    }
    let case_id: u64 = (context_id - 1) as u64;
    match state_delta {
        None => {
            assert((1u64 << 9u32) | case_id == 512 + case_id) by (bit_vector)
                requires
                    case_id < 256,
            ;
            Ok((LOADER_STATE_ABSENT_SENTINEL << LOADER_STATE_SHIFT) | case_id)
        },
        Some(delta) => {
            if delta < MIN_STATE_DELTA || delta > MAX_STATE_DELTA {
                return Err(
                    concat3(
                        "loader state delta ",
                        signed_decimal(delta).as_str(),
                        " does not fit signed 55 bits",
                    ),
                );
            }
            assert(delta >= 0 ==> ((delta as u64) << 9u32) | 256u64 | case_id == delta * 512 + 256
                + case_id) by (bit_vector)
                requires
                    case_id < 256,
                    -0x40_0000_0000_0000i64 <= delta <= 0x3f_ffff_ffff_ffffi64,
            ;
            assert(delta < 0 ==> ((delta as u64) << 9u32) | 256u64 | case_id
                == 0x1_0000_0000_0000_0000 + delta * 512 + 256 + case_id) by (bit_vector)
                requires
                    case_id < 256,
                    -0x40_0000_0000_0000i64 <= delta <= 0x3f_ffff_ffff_ffffi64,
            ;
            Ok(
                (#[verifier::truncate] (delta as u64) << LOADER_STATE_SHIFT) | LOADER_STATE_PRESENT
                    | case_id,
            )
        },
    }
}

/// Tells whether a cookie is one that a context can have.
pub fn valid_loader_cookie(cookie: u64) -> (r: bool)
    ensures
        r == (cookie_parts(cookie as int) is Ok),
{
    assert(cookie & 256u64 != 0 <==> cookie % 512 >= 256) by (bit_vector);
    assert(cookie >> 9u32 == cookie / 512) by (bit_vector);
    cookie & LOADER_STATE_PRESENT != 0 || cookie >> LOADER_STATE_SHIFT
        == LOADER_STATE_ABSENT_SENTINEL
}

/// Takes a cookie apart.
pub fn decode_loader_cookie(cookie: u64) -> (r: Result<(LoaderContextId, Option<i64>), String>)
    ensures
        match cookie_parts(cookie as int) {
            Ok((context_id, delta)) => r matches Ok(given) && given.0.0 == context_id && wide(
                given.1,
            ) == delta,
            Err(message) => r matches Err(given) && given@ == message,
        },
{
    if !valid_loader_cookie(cookie) {
        let mut message = "invalid loader cookie 0x".to_owned();
        message.append(hexadecimal(cookie).as_str());
        return Err(message);
    }
    assert(cookie & 255u64 == cookie % 256) by (bit_vector);
    assert(cookie & 256u64 != 0 <==> cookie % 512 >= 256) by (bit_vector);
    let context = LoaderContextId((cookie & LOADER_CONTEXT_ID_MASK) as u16 + 1);
    let signed: i64 = #[verifier::truncate] (cookie as i64);
    assert(cookie < 0x8000_0000_0000_0000u64 ==> (cookie as i64) == cookie) by (bit_vector);
    assert(cookie >= 0x8000_0000_0000_0000u64 ==> (cookie as i64) == cookie
        - 0x1_0000_0000_0000_0000) by (bit_vector);
    assert(signed == as_signed(cookie as int));
    let delta: i64 = signed >> LOADER_STATE_SHIFT;
    assert(delta * 512 <= signed && signed < delta * 512 + 512) by (bit_vector)
        requires
            delta == signed >> 9u32,
    ;
    if cookie & LOADER_STATE_PRESENT != 0 {
        Ok((context, Some(delta)))
    } else {
        Ok((context, None))
    }
}

/// What a loader hook is placed with: the process, the loader, the mapping that holds the hook,
/// and where the hook and the loader state lie.
#[derive(Clone, Debug)]
pub struct LoaderContextSpec {
    pub view: ProcessViewId,
    pub loader: PinnedObjectId,
    pub mapping: MapEntry,
    pub hook: SymbolFact,
    pub state: Option<SymbolFact>,
}

/// What a loader hook is placed with, by the values that it holds.
pub struct Placement {
    pub view: ProcessViewId,
    pub loader: PinnedObjectId,
    pub mapping: Mapping,
    pub hook: SymbolFact,
    pub state: Option<SymbolFact>,
}

impl View for LoaderContextSpec {
    type V = Placement;

    open spec fn view(&self) -> Placement {
        Placement {
            view: self.view,
            loader: self.loader,
            mapping: self.mapping@,
            hook: self.hook,
            state: self.state,
        }
    }
}

/// How far a loader context has come.
#[derive(Clone, Copy, Debug, PartialEq, Eq, Structural)]
pub enum LoaderContextState {
    Prepared,
    Attached,
    Tombstoned,
}

/// A loader context: what it was placed with, its cookie, the address that a hit must show, how
/// far it has come, and the earliest hit so far.
#[derive(Clone, Debug)]
pub struct LoaderContext {
    pub spec: LoaderContextSpec,
    pub cookie: u64,
    pub expected_hook_ip: u64,
    pub state: LoaderContextState,
    pub was_attached: bool,
    pub earliest_hit_ns: Option<u64>,
}

/// A loader context, by the values that it holds.
pub struct Context {
    pub spec: Placement,
    pub cookie: u64,
    pub expected_hook_ip: u64,
    pub state: LoaderContextState,
    pub was_attached: bool,
    pub earliest_hit_ns: Option<u64>,
}

impl View for LoaderContext {
    type V = Context;

    open spec fn view(&self) -> Context {
        Context {
            spec: self.spec@,
            cookie: self.cookie,
            expected_hook_ip: self.expected_hook_ip,
            state: self.state,
            was_attached: self.was_attached,
            earliest_hit_ns: self.earliest_hit_ns,
        }
    }
}

/// A context that was found placeable, with the number that it will get.
#[derive(Debug)]
pub struct PreparedLoaderContext {
    pub id: LoaderContextId,
    pub context: LoaderContext,
}

impl PreparedLoaderContext {
    /// The cookie of the context.
    pub fn cookie(&self) -> (r: u64)
        ensures
            r == self.context.cookie,
    {
        self.context.cookie
    }
}

/// Every context that was placed, in the order of its number, with a gap where one was removed;
/// how many placements the capacity refused; and how many hits matched no context.
pub struct LoaderRegistry {
    pub contexts: Vec<Option<LoaderContext>>,
    pub truncated: u64,
    pub failures: u64,
}

/// The contexts of a registry, by the values that they hold.
pub type Contexts = Seq<Option<Context>>;

/// A context that may be gone.
pub open spec fn slot_view(slot: Option<LoaderContext>) -> Option<Context> {
    match slot {
        Some(context) => Some(context@),
        None => None,
    }
}

impl View for LoaderRegistry {
    type V = Contexts;

    open spec fn view(&self) -> Contexts {
        self.contexts@.map_values(|slot: Option<LoaderContext>| slot_view(slot))
    }
}

/// How far an address lies from another, where that fits a signed number.
pub open spec fn state_delta(address: u64, base: u64) -> Result<int, Text> {
    let delta = address - base;
    if -i64::MAX <= delta <= i64::MAX {
        Ok(delta)
    } else {
        Err("loader state delta overflows i64"@)
    }
}

/// How far an address lies from another.
fn signed_delta(address: u64, base: u64) -> (r: Result<i64, String>)
    ensures
        match state_delta(address, base) {
            Ok(delta) => r matches Ok(given) && given == delta,
            Err(message) => r matches Err(given) && given@ == message,
        },
{
    if address >= base {
        let distance: u64 = address - base;
        if distance > 0x7fff_ffff_ffff_ffff {
            return Err("loader state delta overflows i64".to_owned());
        }
        Ok(distance as i64)
    } else {
        let distance: u64 = base - address;
        if distance > 0x7fff_ffff_ffff_ffff {
            return Err("loader state delta overflows i64".to_owned());
        }
        Ok(-(distance as i64))
    }
}

/// How far the loader state lies from the hook, where the placement has one.
pub open spec fn placement_delta(spec: Placement) -> Result<Option<int>, Text> {
    match spec.state {
        None => Ok(None),
        Some(state) => match state_delta(state.virtual_address, spec.hook.virtual_address) {
            Ok(delta) => Ok(Some(delta)),
            Err(message) => Err(message),
        },
    }
}

/// The address of the hook in memory.
pub open spec fn hook_ip(spec: Placement) -> int {
    spec.mapping.start + (spec.hook.file_offset - spec.mapping.file_offset)
}

/// Why a placement is refused after `placed` contexts, before its cookie is made.
pub open spec fn placement_fault(placed: nat, spec: Placement) -> Option<Text> {
    if placed >= MAX_LOADER_CONTEXTS {
        Some("loader context capacity 256 is exhausted"@)
    } else if spec.mapping.permissions[2] != 120u8 || spec.mapping.inode == 0 {
        Some("loader hook mapping is not a file-backed executable mapping"@)
    } else if spec.hook.file_offset < spec.mapping.file_offset {
        Some("loader hook file offset precedes its mapping"@)
    } else if hook_ip(spec) > u64::MAX || hook_ip(spec) >= spec.mapping.end {
        Some("loader hook IP is outside its mapping"@)
    } else {
        None
    }
}

/// The cookie of a placement after `placed` contexts.
pub open spec fn placement_cookie(placed: nat, spec: Placement) -> Result<int, Text> {
    match placement_delta(spec) {
        Err(message) => Err(message),
        Ok(delta) => cookie_of(placed as int + 1, delta),
    }
}

/// The context of a placement after `placed` contexts, or why it is refused.
pub open spec fn placed_context(placed: nat, spec: Placement) -> Result<Context, Text> {
    match placement_fault(placed, spec) {
        Some(message) => Err(message),
        None => match placement_cookie(placed, spec) {
            Err(message) => Err(message),
            Ok(cookie) => Ok(
                Context {
                    spec,
                    cookie: cookie as u64,
                    expected_hook_ip: hook_ip(spec) as u64,
                    state: LoaderContextState::Prepared,
                    was_attached: false,
                    earliest_hit_ns: None,
                },
            ),
        },
    }
}

/// The context behind a number, where it is placed and not removed.
pub open spec fn context_of(contexts: Contexts, id: LoaderContextId) -> Option<Context> {
    if 1 <= id.0 <= contexts.len() {
        contexts[id.0 - 1]
    } else {
        None
    }
}

/// The position that a number names; no number names the first position too.
pub open spec fn slot_of(id: LoaderContextId) -> int {
    if id.0 == 0 {
        0
    } else {
        id.0 - 1
    }
}

/// The context at the position of a number.
pub open spec fn context_at(contexts: Contexts, id: LoaderContextId) -> Option<Context> {
    if slot_of(id) < contexts.len() {
        contexts[slot_of(id)]
    } else {
        None
    }
}

/// The message about a context.
pub open spec fn context_text(id: LoaderContextId, tail: Text) -> Text {
    "loader context "@ + digits(id.0 as nat) + tail
}

/// Writes a message about a context.
fn context_message(id: LoaderContextId, tail: &str) -> (r: String)
    ensures
        r@ == context_text(id, tail@),
{
    concat3("loader context ", decimal(id.0 as u64).as_str(), tail)
}

/// The contexts once the context behind a number has gone from one state to another, or why it has
/// not.
pub open spec fn stepped(
    contexts: Contexts,
    id: LoaderContextId,
    from: LoaderContextState,
    refusal: Text,
    to: LoaderContextState,
) -> Result<Contexts, Text> {
    match context_at(contexts, id) {
        None => Err(context_text(id, " is not active"@)),
        Some(context) => if context.state != from {
            Err(context_text(id, refusal))
        } else {
            Ok(
                contexts.update(
                    slot_of(id),
                    Some(
                        Context {
                            state: to,
                            was_attached: context.was_attached || to
                                == LoaderContextState::Attached,
                            ..context
                        },
                    ),
                ),
            )
        },
    }
}

/// The contexts once one is attached.
pub open spec fn attached(contexts: Contexts, id: LoaderContextId) -> Result<Contexts, Text> {
    stepped(
        contexts,
        id,
        LoaderContextState::Prepared,
        " is not prepared"@,
        LoaderContextState::Attached,
    )
}

/// The contexts once one that was attached accepts no more hits.
pub open spec fn tombstoned(contexts: Contexts, id: LoaderContextId) -> Result<Contexts, Text> {
    stepped(
        contexts,
        id,
        LoaderContextState::Attached,
        " is not attached"@,
        LoaderContextState::Tombstoned,
    )
}

/// The contexts once one that was never attached is given up.
pub open spec fn cancelled(contexts: Contexts, id: LoaderContextId) -> Result<Contexts, Text> {
    stepped(
        contexts,
        id,
        LoaderContextState::Prepared,
        " is not prepared"@,
        LoaderContextState::Tombstoned,
    )
}

/// The contexts once one that accepts no more hits is removed.
pub open spec fn removed(contexts: Contexts, id: LoaderContextId) -> Result<Contexts, Text> {
    match context_at(contexts, id) {
        None => Err(context_text(id, " is not active"@)),
        Some(context) => if context.state != LoaderContextState::Tombstoned {
            Err(context_text(id, " is not tombstoned"@))
        } else {
            Ok(contexts.update(slot_of(id), None))
        },
    }
}

/// One hit of a loader hook.
pub struct Hit {
    pub view: ProcessViewId,
    pub loader: PinnedObjectId,
    pub mapping: Mapping,
    pub hook_ip: u64,
}

/// Whether a hit is one of the context behind a number, in the given state.
pub open spec fn hit_matches(
    contexts: Contexts,
    id: LoaderContextId,
    state: LoaderContextState,
    hit: Hit,
) -> bool {
    match context_of(contexts, id) {
        None => false,
        Some(context) => {
            &&& context.state == state
            &&& context.spec.view == hit.view
            &&& context.spec.loader == hit.loader
            &&& context.spec.mapping == hit.mapping
            &&& context.expected_hook_ip == hit.hook_ip
        },
    }
}

/// The earlier of a time that may be absent and another.
pub open spec fn earlier(earliest: Option<u64>, timestamp_ns: u64) -> u64 {
    match earliest {
        Some(t) => if t <= timestamp_ns {
            t
        } else {
            timestamp_ns
        },
        None => timestamp_ns,
    }
}

/// A context that was hit.
pub open spec fn hit_at(context: Context, timestamp_ns: u64) -> Context {
    Context {
        earliest_hit_ns: Some(earlier(context.earliest_hit_ns, timestamp_ns)),
        ..context
    }
}

/// One more, as far as the width goes.
pub open spec fn one_more(n: u64) -> u64 {
    if n == u64::MAX {
        n
    } else {
        (n + 1) as u64
    }
}

/// What a registry comes to when it is shown a hit: a hit that matches marks its context, any other
/// is counted and refused.
pub open spec fn hit_shown(
    before: LoaderRegistry,
    id: LoaderContextId,
    state: LoaderContextState,
    hit: Hit,
    timestamp_ns: u64,
    after: LoaderRegistry,
    reply: Result<Context, Text>,
) -> bool {
    &&& after.truncated == before.truncated
    &&& if hit_matches(before@, id, state, hit) {
        let marked = hit_at(before@[id.0 - 1]->Some_0, timestamp_ns);
        &&& after@ == before@.update(id.0 - 1, Some(marked))
        &&& after.failures == before.failures
        &&& reply == Ok::<Context, Text>(marked)
    } else {
        &&& after@ == before@
        &&& after.failures == one_more(before.failures)
        &&& reply == Err::<Context, Text>(context_text(id, " does not match this event"@))
    }
}

/// A context in a reply, by the values that it holds.
pub open spec fn shown(reply: Result<&LoaderContext, String>) -> Result<Context, Text> {
    match reply {
        Ok(context) => Ok(context@),
        Err(message) => Err(message@),
    }
}

/// The numbers of the first `n` contexts that belong to a process.
pub open spec fn ids_of_view(contexts: Contexts, view: ProcessViewId, n: int) -> Seq<LoaderContextId>
    decreases n,
{
    if n <= 0 {
        Seq::empty()
    } else {
        let before = ids_of_view(contexts, view, n - 1);
        match contexts[n - 1] {
            Some(context) => if context.spec.view == view {
                before.push(LoaderContextId(n as u16))
            } else {
                before
            },
            None => before,
        }
    }
}

/// The numbers of the first `n` contexts whose loader is not among the objects held open.
pub open spec fn ids_unpinned(contexts: Contexts, pinned: Seq<PinnedObjectId>, n: int) -> Seq<
    LoaderContextId,
>
    decreases n,
{
    if n <= 0 {
        Seq::empty()
    } else {
        let before = ids_unpinned(contexts, pinned, n - 1);
        match contexts[n - 1] {
            Some(context) => if !pinned.contains(context.spec.loader) {
                before.push(LoaderContextId(n as u16))
            } else {
                before
            },
            None => before,
        }
    }
}

/// Tells whether an object is among those held open.
fn is_pinned(pinned: &Vec<PinnedObjectId>, object: PinnedObjectId) -> (r: bool)
    ensures
        r == pinned@.contains(object),
{
    let mut i: usize = 0;
    while i < pinned.len()
        invariant
            i <= pinned@.len(),
            forall|j: int| 0 <= j < i ==> pinned@[j] != object,
        decreases pinned@.len() - i,
    {
        if pinned[i] == object {
            return true;
        }
        i += 1;
    }
    false
}

impl Default for LoaderRegistry {
    fn default() -> (registry: Self)
        ensures
            registry@ == Seq::<Option<Context>>::empty(),
            registry.truncated == 0,
            registry.failures == 0,
            registry.well_formed(),
    {
        let registry = LoaderRegistry { contexts: Vec::new(), truncated: 0, failures: 0 };
        assert(registry@ =~= Seq::<Option<Context>>::empty());
        registry
    }
}

impl LoaderRegistry {
    /// Whether the registry keeps to its capacity.
    pub open spec fn well_formed(&self) -> bool {
        self.contexts@.len() <= MAX_LOADER_CONTEXTS
    }

    /// How many contexts were placed.
    pub fn allocated(&self) -> (r: usize)
        ensures
            r == self@.len(),
    {
        self.contexts.len()
    }

    /// Works out everything that a placement needs, and places nothing.
    pub fn preflight(&self, spec: LoaderContextSpec) -> (r: Result<PreparedLoaderContext, String>)
        requires
            self.well_formed(),
        ensures
            match placed_context(self@.len(), spec@) {
                Ok(context) => r matches Ok(given) && given.context@ == context && given.id.0
                    == self@.len() + 1,
                Err(message) => r matches Err(given) && given@ == message,
            },
    {
        if self.contexts.len() == MAX_LOADER_CONTEXTS {
            return Err("loader context capacity 256 is exhausted".to_owned());
        }
        if spec.mapping.permissions[2] != 120u8 || spec.mapping.inode == 0 {
            return Err("loader hook mapping is not a file-backed executable mapping".to_owned());
        }
        if spec.hook.file_offset < spec.mapping.file_offset {
            return Err("loader hook file offset precedes its mapping".to_owned());
        }
        let hook_delta: u64 = spec.hook.file_offset - spec.mapping.file_offset;
        let expected_hook_ip: u64 = match spec.mapping.start.checked_add(hook_delta) {
            Some(ip) => ip,
            None => return Err("loader hook IP is outside its mapping".to_owned()),
        };
        if expected_hook_ip >= spec.mapping.end {
            return Err("loader hook IP is outside its mapping".to_owned());
        }
        let mut delta: Option<i64> = None;
        if let Some(state) = spec.state {
            match signed_delta(state.virtual_address, spec.hook.virtual_address) {
                Ok(distance) => {
                    delta = Some(distance);
                },
                Err(message) => {
                    return Err(message);
                },
            }
        }
        assert(placement_delta(spec@) == Ok::<Option<int>, Text>(wide(delta)));
        let id = LoaderContextId(self.contexts.len() as u16 + 1);
        let cookie: u64 = match encode_loader_cookie(id.0, delta) {
            Ok(cookie) => cookie,
            Err(message) => return Err(message),
        };
        Ok(
            PreparedLoaderContext {
                id,
                context: LoaderContext {
                    spec,
                    cookie,
                    expected_hook_ip,
                    state: LoaderContextState::Prepared,
                    was_attached: false,
                    earliest_hit_ns: None,
                },
            },
        )
    }

    /// Places a context that was found placeable. It is refused where another was placed since.
    pub fn prepare(&mut self, prepared: PreparedLoaderContext) -> (r: Result<
        LoaderContextId,
        String,
    >)
        requires
            old(self).well_formed(),
        ensures
            final(self).well_formed(),
            final(self).truncated == old(self).truncated,
            final(self).failures == old(self).failures,
            if old(self)@.len() < MAX_LOADER_CONTEXTS && prepared.id.0 == old(self)@.len() + 1 {
                &&& r == Ok::<LoaderContextId, String>(prepared.id)
                &&& final(self)@ == old(self)@.push(Some(prepared.context@))
            } else {
                &&& final(self)@ == old(self)@
                &&& r matches Err(message) && message@
                    == "preflighted loader context no longer matches registry state"@
            },
    {
        let placed: usize = self.contexts.len();
        if placed == MAX_LOADER_CONTEXTS || prepared.id.0 != placed as u16 + 1 {
            return Err("preflighted loader context no longer matches registry state".to_owned());
        }
        let id = prepared.id;
        self.contexts.push(Some(prepared.context));
        assert(self@ =~= old(self)@.push(Some(prepared.context@)));
        Ok(id)
    }

    /// Counts a placement that the capacity refused.
    pub fn record_preflight_failure(&mut self)
        requires
            old(self).well_formed(),
        ensures
            final(self)@ == old(self)@,
            final(self).failures == old(self).failures,
            final(self).truncated == if old(self)@.len() == MAX_LOADER_CONTEXTS {
                one_more(old(self).truncated)
            } else {
                old(self).truncated
            },
    {
        if self.contexts.len() == MAX_LOADER_CONTEXTS {
            self.truncated = self.truncated.saturating_add(1);
        }
    }

    /// The context behind a number.
    pub fn context(&self, id: LoaderContextId) -> (r: Option<&LoaderContext>)
        requires
            id.0 >= 1,
        ensures
            match context_of(self@, id) {
                Some(context) => r matches Some(given) && given@ == context && self.contexts@[id.0
                    - 1] == Some(*given),
                None => r is None,
            },
    {
        let at: usize = (id.0 - 1) as usize;
        if at >= self.contexts.len() {
            return None;
        }
        assert(self@[at as int] == slot_view(self.contexts@[at as int]));
        match &self.contexts[at] {
            Some(context) => Some(context),
            None => None,
        }
    }

    /// Tells whether a context accepts no more hits and is not removed yet.
    pub fn is_tombstoned(&self, id: LoaderContextId) -> (r: bool)
        requires
            id.0 >= 1,
        ensures
            r == (context_of(self@, id) matches Some(context) && context.state
                == LoaderContextState::Tombstoned),
    {
        match self.context(id) {
            Some(context) => context.state == LoaderContextState::Tombstoned,
            None => false,
        }
    }

    /// The state of the context at the position of a number.
    fn state_at(&self, id: LoaderContextId) -> (r: Option<LoaderContextState>)
        ensures
            match context_at(self@, id) {
                Some(context) => r == Some(context.state),
                None => r is None,
            },
    {
        let at: usize = if id.0 == 0 {
            0
        } else {
            (id.0 - 1) as usize
        };
        if at >= self.contexts.len() {
            return None;
        }
        assert(self@[at as int] == slot_view(self.contexts@[at as int]));
        match &self.contexts[at] {
            Some(context) => Some(context.state),
            None => None,
        }
    }

    /// Takes a context from one state to another.
    fn step(
        &mut self,
        id: LoaderContextId,
        from: LoaderContextState,
        refusal: &str,
        to: LoaderContextState,
    ) -> (r: Result<(), String>)
        ensures
            final(self).contexts@.len() == old(self).contexts@.len(),
            final(self).truncated == old(self).truncated,
            final(self).failures == old(self).failures,
            match stepped(old(self)@, id, from, refusal@, to) {
                Ok(contexts) => r is Ok && final(self)@ == contexts,
                Err(message) => final(self)@ == old(self)@ && (r matches Err(given) && given@
                    == message),
            },
    {
        match self.state_at(id) {
            None => Err(context_message(id, " is not active")),
            Some(state) => {
                if state != from {
                    return Err(context_message(id, refusal));
                }
                let at: usize = if id.0 == 0 {
                    0
                } else {
                    (id.0 - 1) as usize
                };
                assert(self@[at as int] == slot_view(self.contexts@[at as int]));
                match &mut self.contexts[at] {
                    Some(context) => {
                        context.state = to;
                        if to == LoaderContextState::Attached {
                            context.was_attached = true;
                        }
                    },
                    None => {},
                }
                assert(self@ =~= stepped(old(self)@, id, from, refusal@, to)->Ok_0);
                Ok(())
            },
        }
    }

    /// Marks a context as attached.
    pub fn mark_attached(&mut self, id: LoaderContextId) -> (r: Result<(), String>)
        ensures
            final(self).contexts@.len() == old(self).contexts@.len(),
            final(self).truncated == old(self).truncated,
            final(self).failures == old(self).failures,
            match attached(old(self)@, id) {
                Ok(contexts) => r is Ok && final(self)@ == contexts,
                Err(message) => final(self)@ == old(self)@ && (r matches Err(given) && given@
                    == message),
            },
    {
        self.step(
            id,
            LoaderContextState::Prepared,
            " is not prepared",
            LoaderContextState::Attached,
        )
    }

    /// Lets an attached context accept no more hits.
    pub fn tombstone(&mut self, id: LoaderContextId) -> (r: Result<(), String>)
        ensures
            final(self).contexts@.len() == old(self).contexts@.len(),
            final(self).truncated == old(self).truncated,
            final(self).failures == old(self).failures,
            match tombstoned(old(self)@, id) {
                Ok(contexts) => r is Ok && final(self)@ == contexts,
                Err(message) => final(self)@ == old(self)@ && (r matches Err(given) && given@
                    == message),
            },
    {
        self.step(
            id,
            LoaderContextState::Attached,
            " is not attached",
            LoaderContextState::Tombstoned,
        )
    }

    /// Gives up a context that was never attached.
    pub fn cancel_prepared(&mut self, id: LoaderContextId) -> (r: Result<(), String>)
        ensures
            final(self).contexts@.len() == old(self).contexts@.len(),
            final(self).truncated == old(self).truncated,
            final(self).failures == old(self).failures,
            match cancelled(old(self)@, id) {
                Ok(contexts) => r is Ok && final(self)@ == contexts,
                Err(message) => final(self)@ == old(self)@ && (r matches Err(given) && given@
                    == message),
            },
    {
        self.step(
            id,
            LoaderContextState::Prepared,
            " is not prepared",
            LoaderContextState::Tombstoned,
        )
    }

    /// Removes a context that accepts no more hits. Its number is not given again.
    pub fn remove(&mut self, id: LoaderContextId) -> (r: Result<(), String>)
        ensures
            final(self).contexts@.len() == old(self).contexts@.len(),
            final(self).truncated == old(self).truncated,
            final(self).failures == old(self).failures,
            match removed(old(self)@, id) {
                Ok(contexts) => r is Ok && final(self)@ == contexts,
                Err(message) => final(self)@ == old(self)@ && (r matches Err(given) && given@
                    == message),
            },
    {
        match self.state_at(id) {
            None => Err(context_message(id, " is not active")),
            Some(state) => {
                if state != LoaderContextState::Tombstoned {
                    return Err(context_message(id, " is not tombstoned"));
                }
                let at: usize = if id.0 == 0 {
                    0
                } else {
                    (id.0 - 1) as usize
                };
                self.contexts.set(at, None);
                assert(self@ =~= old(self)@.update(at as int, None));
                Ok(())
            },
        }
    }

    /// Shows a hit to an attached context.
    pub fn validate_hit(
        &mut self,
        case_id: u8,
        view: ProcessViewId,
        loader: PinnedObjectId,
        mapping: &MapEntry,
        hook_ip: u64,
        timestamp_ns: u64,
    ) -> (r: Result<&LoaderContext, String>)
        ensures
            final(self).contexts@.len() == old(self).contexts@.len(),
            hit_shown(
                *old(self),
                LoaderContextId((case_id + 1) as u16),
                LoaderContextState::Attached,
                (Hit { view, loader, mapping: mapping@, hook_ip }),
                timestamp_ns,
                *final(self),
                shown(r),
            ),
    {
        let id = LoaderContextId(case_id as u16 + 1);
        self.validate_hit_in_state(
            id,
            LoaderContextState::Attached,
            view,
            loader,
            mapping,
            hook_ip,
            timestamp_ns,
        )
    }

    /// Shows a hit to a context that accepts no more new ones.
    pub fn validate_terminal_hit(
        &mut self,
        id: LoaderContextId,
        view: ProcessViewId,
        loader: PinnedObjectId,
        mapping: &MapEntry,
        hook_ip: u64,
        timestamp_ns: u64,
    ) -> (r: Result<&LoaderContext, String>)
        requires
            id.0 >= 1,
        ensures
            final(self).contexts@.len() == old(self).contexts@.len(),
            hit_shown(
                *old(self),
                id,
                LoaderContextState::Tombstoned,
                (Hit { view, loader, mapping: mapping@, hook_ip }),
                timestamp_ns,
                *final(self),
                shown(r),
            ),
    {
        self.validate_hit_in_state(
            id,
            LoaderContextState::Tombstoned,
            view,
            loader,
            mapping,
            hook_ip,
            timestamp_ns,
        )
    }

    /// Tells whether a hit is one of the context behind a number, in the given state.
    fn matches_hit(
        &self,
        id: LoaderContextId,
        state: LoaderContextState,
        view: ProcessViewId,
        loader: PinnedObjectId,
        mapping: &MapEntry,
        hook_ip: u64,
    ) -> (r: bool)
        requires
            id.0 >= 1,
        ensures
            r == hit_matches(self@, id, state, Hit { view, loader, mapping: mapping@, hook_ip }),
    {
        match self.context(id) {
            Some(context) => context.state == state && context.spec.view == view
                && context.spec.loader == loader && context.spec.mapping.same(mapping)
                && context.expected_hook_ip == hook_ip,
            None => false,
        }
    }

    /// Shows a hit to a context in the given state.
    fn validate_hit_in_state(
        &mut self,
        id: LoaderContextId,
        state: LoaderContextState,
        view: ProcessViewId,
        loader: PinnedObjectId,
        mapping: &MapEntry,
        hook_ip: u64,
        timestamp_ns: u64,
    ) -> (r: Result<&LoaderContext, String>)
        requires
            id.0 >= 1,
        ensures
            final(self).contexts@.len() == old(self).contexts@.len(),
            hit_shown(
                *old(self),
                id,
                state,
                (Hit { view, loader, mapping: mapping@, hook_ip }),
                timestamp_ns,
                *final(self),
                shown(r),
            ),
    {
        if !self.matches_hit(id, state, view, loader, mapping, hook_ip) {
            self.failures = self.failures.saturating_add(1);
            assert(self@ =~= old(self)@);
            return Err(context_message(id, " does not match this event"));
        }
        let at: usize = (id.0 - 1) as usize;
        assert(self@[at as int] == slot_view(self.contexts@[at as int]));
        let ghost marked = hit_at(self@[at as int]->Some_0, timestamp_ns);
        match &mut self.contexts[at] {
            Some(context) => {
                let earliest: u64 = match context.earliest_hit_ns {
                    Some(t) => if t <= timestamp_ns {
                        t
                    } else {
                        timestamp_ns
                    },
                    None => timestamp_ns,
                };
                context.earliest_hit_ns = Some(earliest);
            },
            None => {},
        }
        assert(self@ =~= old(self)@.update(at as int, Some(marked)));
        match self.context(id) {
            Some(context) => Ok(context),
            None => Err(context_message(id, " is not active")),
        }
    }

    /// How many placements the capacity refused.
    pub fn discovery_truncated(&self) -> (r: u64)
        ensures
            r == self.truncated,
    {
        self.truncated
    }

    /// How many hits matched no context.
    pub fn context_failures(&self) -> (r: u64)
        ensures
            r == self.failures,
    {
        self.failures
    }

    /// Counts a hit that matched no context.
    pub fn reject_hit(&mut self)
        ensures
            final(self)@ == old(self)@,
            final(self).truncated == old(self).truncated,
            final(self).failures == one_more(old(self).failures),
    {
        self.failures = self.failures.saturating_add(1);
    }

    /// The numbers of the contexts that belong to a process.
    pub fn ids_for_view(&self, view: ProcessViewId) -> (ids: Vec<LoaderContextId>)
        requires
            self.well_formed(),
        ensures
            ids@ == ids_of_view(self@, view, self@.len() as int),
    {
        let mut ids: Vec<LoaderContextId> = Vec::new();
        let mut i: usize = 0;
        while i < self.contexts.len()
            invariant
                i <= self.contexts@.len(),
                self.well_formed(),
                ids@ == ids_of_view(self@, view, i as int),
            decreases self.contexts@.len() - i,
        {
            assert(self@[i as int] == slot_view(self.contexts@[i as int]));
            if let Some(context) = &self.contexts[i] {
                if context.spec.view == view {
                    ids.push(LoaderContextId(i as u16 + 1));
                }
            }
            i += 1;
        }
        ids
    }

    /// The numbers of the contexts whose loader is not among the objects held open.
    pub fn contexts_missing_from(&self, pinned: &Vec<PinnedObjectId>) -> (ids: Vec<LoaderContextId>)
        requires
            self.well_formed(),
        ensures
            ids@ == ids_unpinned(self@, pinned@, self@.len() as int),
    {
        let mut ids: Vec<LoaderContextId> = Vec::new();
        let mut i: usize = 0;
        while i < self.contexts.len()
            invariant
                i <= self.contexts@.len(),
                self.well_formed(),
                ids@ == ids_unpinned(self@, pinned@, i as int),
            decreases self.contexts@.len() - i,
        {
            assert(self@[i as int] == slot_view(self.contexts@[i as int]));
            if let Some(context) = &self.contexts[i] {
                if !is_pinned(pinned, context.spec.loader) {
                    ids.push(LoaderContextId(i as u16 + 1));
                }
            }
            i += 1;
        }
        ids
    }
}

/// A context that was removed stays removed, whatever is asked for its number: it is not attached,
/// not tombstoned, not cancelled and not removed again, and no hit matches it.
pub proof fn lemma_removed_stays(contexts: Contexts, id: LoaderContextId, hit: Hit)
    requires
        1 <= id.0 <= contexts.len(),
        context_of(contexts, id) is None,
    ensures
        attached(contexts, id) is Err,
        tombstoned(contexts, id) is Err,
        cancelled(contexts, id) is Err,
        removed(contexts, id) is Err,
        !hit_matches(contexts, id, LoaderContextState::Attached, hit),
        !hit_matches(contexts, id, LoaderContextState::Tombstoned, hit),
{
}

/// A context is placed, attached, tombstoned and removed in that order, each once: after the first
/// of these steps only the next is open, and a hit is accepted only between the second and the
/// third.
pub proof fn lemma_context_life(contexts: Contexts, spec: Placement, hit: Hit)
    requires
        placed_context(contexts.len(), spec) is Ok,
    ensures
        ({
            let id = LoaderContextId((contexts.len() + 1) as u16);
            let placed = contexts.push(Some(placed_context(contexts.len(), spec)->Ok_0));
            let live = attached(placed, id)->Ok_0;
            let dead = tombstoned(live, id)->Ok_0;
            let gone = removed(dead, id)->Ok_0;
            &&& attached(placed, id) is Ok
            &&& tombstoned(placed, id) is Err
            &&& removed(placed, id) is Err
            &&& !hit_matches(placed, id, LoaderContextState::Attached, hit)
            &&& tombstoned(live, id) is Ok
            &&& attached(live, id) is Err
            &&& cancelled(live, id) is Err
            &&& removed(live, id) is Err
            &&& removed(dead, id) is Ok
            &&& attached(dead, id) is Err
            &&& tombstoned(dead, id) is Err
            &&& cancelled(dead, id) is Err
            &&& !hit_matches(dead, id, LoaderContextState::Attached, hit)
            &&& context_of(gone, id) is None
            &&& gone.len() == contexts.len() + 1
        }),
{
}

/// A step on one context leaves every other as it was, and frees no number.
pub proof fn lemma_other_contexts_stay(
    contexts: Contexts,
    id: LoaderContextId,
    after: Contexts,
    other: LoaderContextId,
)
    requires
        1 <= id.0,
        other != id,
        attached(contexts, id) == Ok::<Contexts, Text>(after) || tombstoned(contexts, id) == Ok::<
            Contexts,
            Text,
        >(after) || cancelled(contexts, id) == Ok::<Contexts, Text>(after) || removed(contexts, id)
            == Ok::<Contexts, Text>(after),
    ensures
        after.len() == contexts.len(),
        context_of(after, other) == context_of(contexts, other),
{
}

/// The earliest hit that a context remembers never moves later, and is never later than any hit
/// that it accepted.
pub proof fn lemma_earliest_hit(context: Context, first: u64, second: u64)
    ensures
        hit_at(hit_at(context, first), second).earliest_hit_ns matches Some(t) && t <= first && t
            <= second && (t == first || t == second || Some(t) == context.earliest_hit_ns),
        context.earliest_hit_ns matches Some(known) ==> hit_at(context, first).earliest_hit_ns
            matches Some(t) && t <= known,
{
}

} // verus!
