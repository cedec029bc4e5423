//! Which exported symbols hand out a PKCS#11 function table, and with what ABI. The standard three
//! and the two of NSS are built in; further names can be added.

use crate::text::{concat3, debug_of, debug_text, find_from, index_from, same, Text};
use vstd::prelude::*;
use vstd::string::*;

verus! {

/// How a symbol hands out its function table.
#[derive(Clone, Copy, Debug, PartialEq, Eq, Structural)]
pub enum HookAbi {
    /// `CK_RV f(CK_FUNCTION_LIST_PTR_PTR)`: the table is written to `*arg0`.
    FunctionList,
    /// `CK_RV f(CK_INTERFACE_PTR, CK_ULONG_PTR)`.
    InterfaceList,
    /// `CK_RV f(name, version, CK_INTERFACE_PTR_PTR, flags)`.
    Interface,
}

/// The symbols to hook, each with its ABI, in the order in which they were added.
#[derive(Clone, Debug, PartialEq, Eq)]
pub struct HookRegistry {
    pub entries: Vec<(String, HookAbi)>,
}

/// Symbols with their ABI, by the characters of their names.
pub type Hooks = Seq<(Text, HookAbi)>;

impl View for HookRegistry {
    type V = Hooks;

    open spec fn view(&self) -> Hooks {
        self.entries@.map_values(|e: (String, HookAbi)| (e.0@, e.1))
    }
}

/// The built-in symbols.
pub open spec fn builtin_hooks() -> Hooks {
    seq![
        ("C_GetFunctionList"@, HookAbi::FunctionList),
        ("C_GetInterfaceList"@, HookAbi::InterfaceList),
        ("C_GetInterface"@, HookAbi::Interface),
        ("NSC_GetFunctionList"@, HookAbi::FunctionList),
        ("FC_GetFunctionList"@, HookAbi::FunctionList),
    ]
}

/// Whether no name occurs twice.
pub open spec fn distinct(hooks: Hooks) -> bool {
    forall|i: int, j: int|
        0 <= i < j < hooks.len() ==> (#[trigger] hooks[i]).0 != (#[trigger] hooks[j]).0
}

/// The first position of a name at or after `from`, or the end.
pub open spec fn hook_index(hooks: Hooks, name: Text, from: int) -> int
    decreases hooks.len() - from,
{
    if from < 0 || from >= hooks.len() {
        hooks.len() as int
    } else if hooks[from].0 == name {
        from
    } else {
        hook_index(hooks, name, from + 1)
    }
}

/// The position of a name, where it is registered.
pub open spec fn hook_position(hooks: Hooks, name: Text) -> Option<int> {
    let i = hook_index(hooks, name, 0);
    if i < hooks.len() {
        Some(i)
    } else {
        None
    }
}

/// The symbols with one more: a name that is registered keeps its position and gets the new ABI.
pub open spec fn hook_added(hooks: Hooks, name: Text, abi: HookAbi) -> Hooks {
    match hook_position(hooks, name) {
        Some(i) => hooks.update(i, (name, abi)),
        None => hooks.push((name, abi)),
    }
}

/// Whether a character can stand in no symbol name: white space of ASCII, or NUL.
pub open spec fn unfit(c: char) -> bool {
    c == ' ' || c == '\t' || c == '\n' || c == '\x0c' || c == '\r' || c == '\0'
}

/// The ABI that a word names.
pub open spec fn abi_named(word: Text) -> Option<HookAbi> {
    if word == "functionlist"@ {
        Some(HookAbi::FunctionList)
    } else if word == "interfacelist"@ {
        Some(HookAbi::InterfaceList)
    } else if word == "interface"@ {
        Some(HookAbi::Interface)
    } else {
        None
    }
}

/// The ABI of a spec `NAME` or `NAME:ABI`, whose name ends at `colon`.
pub open spec fn spec_abi(spec: Text, colon: int) -> Result<HookAbi, Text> {
    if colon >= spec.len() {
        Ok(HookAbi::FunctionList)
    } else {
        let word = spec.subrange(colon + 1, index_from(spec, ':', colon + 1));
        match abi_named(word) {
            Some(abi) => Ok(abi),
            None => Err(
                "unknown hook ABI "@ + debug_text(word)
                    + "; expected functionlist, interfacelist or interface"@,
            ),
        }
    }
}

/// What a spec `NAME` or `NAME:ABI` names, or why it is refused.
pub open spec fn hook_spec(spec: Text) -> Result<(Text, HookAbi), Text> {
    let colon = index_from(spec, ':', 0);
    let name = spec.take(colon);
    match spec_abi(spec, colon) {
        Err(message) => Err(message),
        Ok(abi) => if colon < spec.len() && index_from(spec, ':', colon + 1) < spec.len() {
            Err("hook spec "@ + debug_text(spec) + " has more than one ':' separator"@)
        } else if name.len() == 0 {
            Err("hook spec "@ + debug_text(spec) + " has an empty symbol name"@)
        } else if exists|i: int| 0 <= i < name.len() && unfit(#[trigger] name[i]) {
            Err("hook symbol "@ + debug_text(name) + " contains whitespace or NUL"@)
        } else {
            Ok((name, abi))
        },
    }
}

/// A position is at or after where the search starts, holds the name, and is the first.
pub proof fn lemma_hook_index(hooks: Hooks, name: Text, from: int)
    requires
        0 <= from <= hooks.len(),
    ensures
        from <= hook_index(hooks, name, from) <= hooks.len(),
        hook_index(hooks, name, from) < hooks.len() ==> hooks[hook_index(hooks, name, from)].0
            == name,
        forall|i: int|
            from <= i < hook_index(hooks, name, from) ==> (#[trigger] hooks[i]).0 != name,
    decreases hooks.len() - from,
{
    if from < hooks.len() && hooks[from].0 != name {
        lemma_hook_index(hooks, name, from + 1);
    }
}

/// Adding a symbol keeps names distinct, keeps the position of every name, and registers the
/// symbol with the ABI.
pub proof fn lemma_hook_added(hooks: Hooks, name: Text, abi: HookAbi)
    requires
        distinct(hooks),
    ensures
        distinct(hook_added(hooks, name, abi)),
        forall|i: int|
            0 <= i < hooks.len() ==> (#[trigger] hook_added(hooks, name, abi)[i]).0 == hooks[i].0,
        forall|i: int|
            0 <= i < hooks.len() && hooks[i].0 != name ==> #[trigger] hook_added(
                hooks,
                name,
                abi,
            )[i] == hooks[i],
        hook_position(hook_added(hooks, name, abi), name) matches Some(i) && hook_added(
            hooks,
            name,
            abi,
        )[i] == (name, abi),
        hook_position(hooks, name) is Some ==> hook_position(hook_added(hooks, name, abi), name)
            == hook_position(hooks, name),
{
    lemma_hook_index(hooks, name, 0);
    let added = hook_added(hooks, name, abi);
    lemma_hook_index(added, name, 0);
    let at = hook_index(added, name, 0);
    match hook_position(hooks, name) {
        Some(i) => {
            assert(added[i].0 == name);
            if at != i {
                assert(added[at].0 != name || at > i);
            }
        },
        None => {
            assert(added[hooks.len() as int].0 == name);
            if at != hooks.len() {
                assert(added[at] == hooks[at]);
            }
        },
    }
}

/// In a registry without repeated names, the symbol at a position is found at that position: the
/// identifier of a symbol and the symbol of an identifier undo each other.
pub proof fn lemma_position_of_entry(hooks: Hooks, i: int)
    requires
        distinct(hooks),
        0 <= i < hooks.len(),
    ensures
        hook_position(hooks, hooks[i].0) == Some(i),
{
    lemma_hook_index(hooks, hooks[i].0, 0);
    let at = hook_index(hooks, hooks[i].0, 0);
    if at > i {
        assert(hooks[i].0 != hooks[i].0);
    } else if at < i {
        assert(hooks[at].0 != hooks[i].0);
    }
}

/// The built-in names are distinct.
pub proof fn lemma_builtin_distinct()
    ensures
        distinct(builtin_hooks()),
{
    reveal_strlit("C_GetFunctionList");
    reveal_strlit("C_GetInterfaceList");
    reveal_strlit("C_GetInterface");
    reveal_strlit("NSC_GetFunctionList");
    reveal_strlit("FC_GetFunctionList");
    let h = builtin_hooks();
    assert(h[0].0.len() == 17 && h[1].0.len() == 18 && h[2].0.len() == 14 && h[3].0.len() == 19
        && h[4].0.len() == 18);
    assert(h[1].0[0] == 'C' && h[4].0[0] == 'F');
}

impl HookRegistry {
    /// Whether no name is registered twice.
    pub open spec fn well_formed(&self) -> bool {
        distinct(self@)
    }

    /// The registry of the built-in symbols.
    pub fn builtin() -> (registry: Self)
        ensures
            registry@ == builtin_hooks(),
            registry.well_formed(),
    {
        let mut entries: Vec<(String, HookAbi)> = Vec::new();
        entries.push(("C_GetFunctionList".to_owned(), HookAbi::FunctionList));
        entries.push(("C_GetInterfaceList".to_owned(), HookAbi::InterfaceList));
        entries.push(("C_GetInterface".to_owned(), HookAbi::Interface));
        entries.push(("NSC_GetFunctionList".to_owned(), HookAbi::FunctionList));
        entries.push(("FC_GetFunctionList".to_owned(), HookAbi::FunctionList));
        let registry = HookRegistry { entries };
        assert(registry@ =~= builtin_hooks());
        proof {
            lemma_builtin_distinct();
        }
        registry
    }

    /// Finds the position of a name, or the end.
    fn find(&self, name: &str) -> (r: usize)
        ensures
            r == hook_index(self@, name@, 0),
            r <= self@.len(),
            self@.len() == self.entries@.len(),
            r < self@.len() ==> self@[r as int].0 == name@,
    {
        let mut i: usize = 0;
        while i < self.entries.len()
            invariant
                i <= self.entries@.len(),
                self@.len() == self.entries@.len(),
                hook_index(self@, name@, i as int) == hook_index(self@, name@, 0),
            decreases self.entries@.len() - i,
        {
            assert(self@[i as int].0 == self.entries@[i as int].0@);
            if same(self.entries[i].0.as_str(), name) {
                return i;
            }
            i += 1;
        }
        i
    }

    /// Adds `NAME`, `NAME:functionlist`, `NAME:interfacelist` or `NAME:interface`. A name that is
    /// registered gets the new ABI and keeps its identifier.
    pub fn add_spec(&mut self, spec: &str) -> (r: Result<(), String>)
        ensures
            match hook_spec(spec@) {
                Ok((name, abi)) => r is Ok && final(self)@ == hook_added(old(self)@, name, abi),
                Err(message) => final(self)@ == old(self)@ && (r matches Err(given) && given@
                    == message),
            },
            old(self).well_formed() ==> final(self).well_formed(),
    {
        let len: usize = spec.unicode_len();
        let colon: usize = find_from(spec, ':', 0);
        let name = spec.substring_char(0, colon);
        assert(name@ =~= spec@.take(colon as int));
        let mut abi = HookAbi::FunctionList;
        if colon < len {
            let second: usize = find_from(spec, ':', colon + 1);
            let word = spec.substring_char(colon + 1, second);
            if same(word, "functionlist") {
                abi = HookAbi::FunctionList;
            } else if same(word, "interfacelist") {
                abi = HookAbi::InterfaceList;
            } else if same(word, "interface") {
                abi = HookAbi::Interface;
            } else {
                return Err(
                    concat3(
                        "unknown hook ABI ",
                        debug_of(word).as_str(),
                        "; expected functionlist, interfacelist or interface",
                    ),
                );
            }
            if second < len {
                return Err(
                    concat3(
                        "hook spec ",
                        debug_of(spec).as_str(),
                        " has more than one ':' separator",
                    ),
                );
            }
        }
        if colon == 0 {
            return Err(
                concat3("hook spec ", debug_of(spec).as_str(), " has an empty symbol name"),
            );
        }
        let mut i: usize = 0;
        while i < colon
            invariant
                i <= colon,
                colon == name@.len(),
                forall|j: int| 0 <= j < i ==> !unfit(#[trigger] name@[j]),
                name@ == spec@.take(colon as int),
                *self == *old(self),
                hook_spec(spec@) is Ok ==> hook_spec(spec@) == Ok::<(Text, HookAbi), Text>(
                    (name@, abi),
                ),
                (hook_spec(spec@) is Err) == (exists|j: int|
                    0 <= j < name@.len() && unfit(#[trigger] name@[j])),
                hook_spec(spec@) is Err ==> hook_spec(spec@)->Err_0 == "hook symbol "@
                    + debug_text(name@) + " contains whitespace or NUL"@,
            decreases colon - i,
        {
            let c = name.get_char(i);
            if c == ' ' || c == '\t' || c == '\n' || c == '\x0c' || c == '\r' || c == '\0' {
                assert(unfit(name@[i as int]));
                return Err(
                    concat3(
                        "hook symbol ",
                        debug_of(name).as_str(),
                        " contains whitespace or NUL",
                    ),
                );
            }
            i += 1;
        }
        let at: usize = self.find(name);
        proof {
            if old(self).well_formed() {
                lemma_hook_added(old(self)@, name@, abi);
            }
        }
        if at < self.entries.len() {
            self.entries.set(at, (name.to_owned(), abi));
            assert(self@ =~= old(self)@.update(at as int, (name@, abi)));
        } else {
            self.entries.push((name.to_owned(), abi));
            assert(self@ =~= old(self)@.push((name@, abi)));
        }
        Ok(())
    }

    /// Every name, in order.
    pub fn names(&self) -> (names: Vec<&str>)
        ensures
            names@.len() == self@.len(),
            forall|i: int| 0 <= i < names@.len() ==> (#[trigger] names@[i])@ == self@[i].0,
    {
        let mut names: Vec<&str> = Vec::new();
        let mut i: usize = 0;
        while i < self.entries.len()
            invariant
                i <= self.entries@.len(),
                names@.len() == i,
                self@.len() == self.entries@.len(),
                forall|j: int| 0 <= j < i ==> (#[trigger] names@[j])@ == self@[j].0,
            decreases self.entries@.len() - i,
        {
            names.push(self.entries[i].0.as_str());
            i += 1;
        }
        names
    }

    /// The ABI of a name.
    pub fn abi(&self, name: &str) -> (abi: Option<HookAbi>)
        ensures
            abi == (match hook_position(self@, name@) {
                Some(i) => Some(self@[i].1),
                None => None::<HookAbi>,
            }),
    {
        let at: usize = self.find(name);
        if at < self.entries.len() {
            Some(self.entries[at].1)
        } else {
            None
        }
    }

    /// The identifier of a name: its position, counted from one, where it fits.
    pub fn id(&self, name: &str) -> (id: Option<u32>)
        ensures
            id == (match hook_position(self@, name@) {
                Some(i) => if i < u32::MAX {
                    Some((i + 1) as u32)
                } else {
                    None::<u32>
                },
                None => None::<u32>,
            }),
    {
        let at: usize = self.find(name);
        if at < self.entries.len() && at < 0xffff_ffff {
            Some(at as u32 + 1)
        } else {
            None
        }
    }

    /// The name and the ABI behind an identifier.
    pub fn by_id(&self, id: u32) -> (entry: Option<(&str, HookAbi)>)
        ensures
            match entry {
                Some((name, abi)) => 1 <= id <= self@.len() && self@[id - 1] == (name@, abi),
                None => id == 0 || id > self@.len(),
            },
    {
        if id == 0 || (id - 1) as usize >= self.entries.len() {
            return None;
        }
        let at: usize = (id - 1) as usize;
        Some((self.entries[at].0.as_str(), self.entries[at].1))
    }

    /// The attach cookie of a name: its identifier.
    pub fn export_cookie(&self, name: &str) -> (cookie: Option<u64>)
        ensures
            cookie == (match hook_position(self@, name@) {
                Some(i) => if i < u32::MAX {
                    Some((i + 1) as u64)
                } else {
                    None::<u64>
                },
                None => None::<u64>,
            }),
    {
        proof {
            lemma_hook_index(self@, name@, 0);
        }
        match self.id(name) {
            Some(id) => Some(id as u64),
            None => None,
        }
    }
}

impl Default for HookRegistry {
    fn default() -> (registry: Self)
        ensures
            registry@ == builtin_hooks(),
    {
        HookRegistry::builtin()
    }
}

} // verus!
