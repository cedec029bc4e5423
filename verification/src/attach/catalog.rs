//! The catalog of the standard functions, by name: each is numbered by its place in the function
//! tables of the standard, of which every version appends to the one before.

use crate::text::{concat3, decimal, digits, same, Text};
use pkcs11_proxy_ng_types::mechanism_registry::MechanismRegistry;
use vstd::prelude::*;
use vstd::string::*;
use vstd::utf8::*;

verus! {

/// The longest name of a function, in bytes.
pub const FUNCTION_NAME_MAX_BYTES: usize = 31;

/// The name of a field of the function table of the first versions of the standard.
pub uninterp spec fn base_field_name(i: int) -> Seq<char>;

/// The name of a field that version 3.0 of the standard appends.
pub uninterp spec fn field_name_3_0(i: int) -> Seq<char>;

/// The name of a field that version 3.2 of the standard appends.
pub uninterp spec fn field_name_3_2(i: int) -> Seq<char>;

/// Reads the name of a field of `pkcs11_module::FUNCTION_LIST_FIELDS`, a constant table of 68
/// fields. The name is a function of the position alone; nothing more is said of it.
#[verifier::external_body]
fn base_field(i: usize) -> (r: &'static str)
    requires
        i < 68,
    ensures
        r@ == base_field_name(i as int),
{
    pkcs11_module::FUNCTION_LIST_FIELDS[i].name
}

/// Reads the name of a field of `pkcs11_module::FUNCTION_LIST_3_0_EXTRA_FIELDS`, a constant table of
/// 24 fields. The name is a function of the position alone; nothing more is said of it.
#[verifier::external_body]
fn field_3_0(i: usize) -> (r: &'static str)
    requires
        i < 24,
    ensures
        r@ == field_name_3_0(i as int),
{
    pkcs11_module::FUNCTION_LIST_3_0_EXTRA_FIELDS[i].name
}

/// Reads the name of a field of `pkcs11_module::FUNCTION_LIST_3_2_EXTRA_FIELDS`, a constant table of
/// 12 fields. The name is a function of the position alone; nothing more is said of it.
#[verifier::external_body]
fn field_3_2(i: usize) -> (r: &'static str)
    requires
        i < 12,
    ensures
        r@ == field_name_3_2(i as int),
{
    pkcs11_module::FUNCTION_LIST_3_2_EXTRA_FIELDS[i].name
}

/// The names of the standard functions, in the order of their numbers.
pub open spec fn standard_names() -> Seq<Text> {
    Seq::new(
        104,
        |i: int|
            if i < 68 {
                base_field_name(i)
            } else if i < 92 {
                field_name_3_0(i - 68)
            } else {
                field_name_3_2(i - 92)
            },
    )
}

/// Lists the names of the standard functions.
pub fn standard_function_names() -> (names: Vec<&'static str>)
    ensures
        names@.len() == 104,
        forall|i: int| 0 <= i < 104 ==> (#[trigger] names@[i])@ == standard_names()[i],
{
    let mut names: Vec<&'static str> = Vec::new();
    let mut i: usize = 0;
    while i < 104
        invariant
            i <= 104,
            names@.len() == i,
            forall|j: int| 0 <= j < i ==> (#[trigger] names@[j])@ == standard_names()[j],
        decreases 104 - i,
    {
        let name = if i < 68 {
            base_field(i)
        } else if i < 92 {
            field_3_0(i - 68)
        } else {
            field_3_2(i - 92)
        };
        names.push(name);
        i += 1;
    }
    names
}

/// Whether a name can be a key: not empty, short enough, and without a NUL.
pub open spec fn is_key(name: Text) -> bool {
    &&& encode_utf8(name).len() > 0
    &&& encode_utf8(name).len() <= FUNCTION_NAME_MAX_BYTES
    &&& forall|i: int| 0 <= i < encode_utf8(name).len() ==> #[trigger] encode_utf8(name)[i] != 0u8
}

/// The number of the first of the first `n` names that equals one.
pub open spec fn number_of(names: Seq<Text>, name: Text, n: int) -> Option<int>
    decreases n,
{
    if n <= 0 {
        None
    } else {
        match number_of(names, name, n - 1) {
            Some(id) => Some(id),
            None => if names[n - 1] == name {
                Some(n - 1)
            } else {
                None
            },
        }
    }
}

/// Why the first `n` names make no catalog.
pub open spec fn catalog_fault(names: Seq<Text>, n: int) -> Option<Text>
    decreases n,
{
    if n <= 0 {
        None
    } else {
        match catalog_fault(names, n - 1) {
            Some(message) => Some(message),
            None => {
                let name = names[n - 1];
                if encode_utf8(name).len() > FUNCTION_NAME_MAX_BYTES {
                    Some("standard function name is too long: "@ + name)
                } else if !is_key(name) {
                    Some("invalid standard function name "@ + name)
                } else {
                    match number_of(names, name, n - 1) {
                        Some(previous) => Some(
                            "duplicate standard function name "@ + name + " at ids "@ + digits(
                                previous as nat,
                            ) + " and "@ + digits((n - 1) as nat),
                        ),
                        None => None,
                    }
                }
            },
        }
    }
}

/// A fault of the first names stays.
proof fn lemma_catalog_fault_stays(names: Seq<Text>, n: int, m: int)
    requires
        n <= m,
        catalog_fault(names, n) is Some,
    ensures
        catalog_fault(names, m) == catalog_fault(names, n),
    decreases m - n,
{
    if n < m {
        lemma_catalog_fault_stays(names, n, m - 1);
    }
}

/// A name found among the first names stays found.
proof fn lemma_number_stays(names: Seq<Text>, name: Text, n: int, m: int)
    requires
        n <= m,
        number_of(names, name, n) is Some,
    ensures
        number_of(names, name, m) == number_of(names, name, n),
    decreases m - n,
{
    if n < m {
        lemma_number_stays(names, name, n, m - 1);
    }
}

/// Names, by characters.
pub open spec fn str_texts(list: Seq<&'static str>) -> Seq<Text> {
    list.map_values(|s: &'static str| s@)
}

/// Finds the number of the first of the first `n` names that equals one.
fn find_number(names: &Vec<&'static str>, name: &str, n: usize) -> (r: Option<usize>)
    requires
        n <= names@.len(),
    ensures
        match number_of(str_texts(names@), name@, n as int) {
            Some(id) => r matches Some(given) && given == id && given < n,
            None => r is None,
        },
{
    let ghost all = str_texts(names@);
    let mut i: usize = 0;
    while i < n
        invariant
            i <= n <= names@.len(),
            all == str_texts(names@),
            number_of(all, name@, i as int) is None,
        decreases n - i,
    {
        if same(names[i], name) {
            proof {
                lemma_number_stays(all, name@, i + 1, n as int);
            }
            return Some(i);
        }
        i += 1;
    }
    None
}

/// Tells whether bytes hold a NUL.
fn holds_nul(bytes: &[u8]) -> (r: bool)
    ensures
        r == (exists|i: int| 0 <= i < bytes@.len() && #[trigger] bytes@[i] == 0u8),
{
    let mut i: usize = 0;
    while i < bytes.len()
        invariant
            i <= bytes@.len(),
            forall|j: int| 0 <= j < i ==> #[trigger] bytes@[j] != 0u8,
        decreases bytes@.len() - i,
    {
        if bytes[i] == 0 {
            return true;
        }
        i += 1;
    }
    false
}

/// The catalog of functions, in the order of their numbers.
#[derive(Debug)]
pub struct FunctionCatalog {
    pub names: Vec<&'static str>,
}

impl FunctionCatalog {
    /// Every name can be a key.
    pub open spec fn wf(self) -> bool {
        forall|id: int| 0 <= id < self.names@.len() ==> is_key((#[trigger] self.names@[id])@)
    }
}

/// Makes a catalog of names: every one must be a key, and none may occur twice.
pub fn async_catalog(names: Vec<&'static str>) -> (r: Result<FunctionCatalog, String>)
    ensures
        match catalog_fault(str_texts(names@), names@.len() as int) {
            None => r matches Ok(catalog) && catalog.names == names && catalog.wf(),
            Some(message) => r matches Err(given) && given@ == message,
        },
{
    let ghost all = str_texts(names@);
    let mut i: usize = 0;
    while i < names.len()
        invariant
            i <= names@.len(),
            all == str_texts(names@),
            catalog_fault(all, i as int) is None,
        decreases names@.len() - i,
    {
        let name = names[i];
        assert(all[i as int] == name@);
        let bytes = name.as_bytes();
        let ghost stays = catalog_fault(all, i + 1) is Some;
        proof {
            if stays {
                lemma_catalog_fault_stays(all, i + 1, names@.len() as int);
            }
        }
        if bytes.len() > FUNCTION_NAME_MAX_BYTES {
            let mut message = "standard function name is too long: ".to_owned();
            message.append(name);
            return Err(message);
        }
        if bytes.len() == 0 || holds_nul(bytes) {
            let mut message = "invalid standard function name ".to_owned();
            message.append(name);
            return Err(message);
        }
        if let Some(previous) = find_number(&names, name, i) {
            let mut message = concat3("duplicate standard function name ", name, " at ids ");
            message.append(decimal(previous as u64).as_str());
            message.append(" and ");
            message.append(decimal(i as u64).as_str());
            return Err(message);
        }
        i += 1;
    }
    assert forall|id: int| 0 <= id < names@.len() implies is_key((#[trigger] names@[id])@) by {
        lemma_catalog_numbers(all, names@.len() as int, id);
        assert(all[id] == names@[id]@);
    }
    Ok(FunctionCatalog { names })
}

/// Makes the catalog of the standard functions.
pub fn standard_async_catalog() -> (r: Result<FunctionCatalog, String>)
    ensures
        match catalog_fault(standard_names(), 104) {
            None => r matches Ok(catalog) && str_texts(catalog.names@) == standard_names()
                && catalog.wf(),
            Some(message) => r matches Err(given) && given@ == message,
        },
{
    let names = standard_function_names();
    assert(str_texts(names@) =~= standard_names());
    async_catalog(names)
}

impl FunctionCatalog {
    /// How many functions there are.
    pub fn len(&self) -> (r: usize)
        ensures
            r == self.names@.len(),
    {
        self.names.len()
    }

    /// The number of a function.
    pub fn get(&self, name: &str) -> (r: Option<usize>)
        ensures
            match number_of(str_texts(self.names@), name@, self.names@.len() as int) {
                Some(id) => r matches Some(given) && given == id,
                None => r is None,
            },
    {
        find_number(&self.names, name, self.names.len())
    }
}

/// A name found is the name, and no earlier one is.
pub proof fn lemma_number_of(names: Seq<Text>, name: Text, n: int)
    requires
        0 <= n <= names.len(),
    ensures
        match number_of(names, name, n) {
            Some(id) => 0 <= id < n && names[id] == name && forall|j: int|
                0 <= j < id ==> #[trigger] names[j] != name,
            None => forall|j: int| 0 <= j < n ==> #[trigger] names[j] != name,
        },
    decreases n,
{
    if n > 0 {
        lemma_number_of(names, name, n - 1);
    }
}

/// In a catalog, every name can be a key, and every function is found under its own number.
pub proof fn lemma_catalog_numbers(names: Seq<Text>, n: int, id: int)
    requires
        0 <= id < n <= names.len(),
        catalog_fault(names, n) is None,
    ensures
        number_of(names, names[id], n) == Some(id),
        is_key(names[id]),
    decreases n,
{
    if id == n - 1 {
        lemma_number_of(names, names[id], n - 1);
    } else {
        lemma_catalog_numbers(names, n - 1, id);
    }
}

/// The registry of mechanisms of `pkcs11_proxy_ng_types`, as it is handed on.
#[verifier::external_type_specification]
#[verifier::external_body]
pub struct ExMechanismRegistry(MechanismRegistry);

/// What a registry holds: every mechanism that `MechanismRegistry::registered_mechanisms` lists, with
/// the name of the shape that `MechanismRegistry::param_shape` gives for its parameters, or without
/// one.
pub uninterp spec fn registry_held(registry: MechanismRegistry) -> Map<u64, Option<Seq<char>>>;

/// What `MechanismRegistry::load_with_override_str` comes to for the text of an override: what the
/// registry that it gives holds, or the message that it gives.
pub uninterp spec fn load_outcome(override_toml: Option<Seq<char>>) -> Result<
    Map<u64, Option<Seq<char>>>,
    Seq<char>,
>;

/// The characters of an override, where there is one.
pub open spec fn override_text(override_toml: Option<&str>) -> Option<Seq<char>> {
    match override_toml {
        Some(text) => Some(text@),
        None => None,
    }
}

/// Calls `MechanismRegistry::load_with_override_str`: the registry that is embedded in the crate,
/// with the entries of the override merged into it. Whether that succeeds, what the registry holds
/// and what a failure says depend on nothing but the text of the override. Which mechanisms the
/// embedded text names is not said, nor that it parses, nor anything of the registry beside the
/// mechanisms and their shapes.
#[verifier::external_body]
fn load_registry(override_toml: Option<&str>) -> (r: Result<MechanismRegistry, String>)
    ensures
        match load_outcome(override_text(override_toml)) {
            Ok(held) => r matches Ok(registry) && registry_held(registry) == held,
            Err(error) => r matches Err(given) && given@ == error,
        },
{
    MechanismRegistry::load_with_override_str(override_toml)
}

/// Hands a registry on, or says what failed.
pub fn registry_loaded(loaded: Result<MechanismRegistry, String>) -> (r: Result<
    MechanismRegistry,
    String,
>)
    ensures
        match loaded {
            Ok(registry) => r == Ok::<MechanismRegistry, String>(registry),
            Err(error) => r matches Err(message) && message@ == "loading mechanism registry: "@
                + error@,
        },
{
    match loaded {
        Ok(registry) => Ok(registry),
        Err(error) => {
            let mut message = "loading mechanism registry: ".to_owned();
            message.append(error.as_str());
            Err(message)
        },
    }
}

/// Loads the embedded registry of mechanisms: with what the embedded text gives, where it can be
/// loaded, and else with what failed, put under what was tried.
pub fn mechanism_registry() -> (r: Result<MechanismRegistry, String>)
    ensures
        match load_outcome(None::<Seq<char>>) {
            Ok(held) => r matches Ok(registry) && registry_held(registry) == held,
            Err(error) => r matches Err(message) && message@ == "loading mechanism registry: "@
                + error,
        },
{
    registry_loaded(load_registry(None))
}

} // verus!
