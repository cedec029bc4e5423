//! The symbols that are hooked, and their ABI.

use p11scope::discovery::hooks::{HookAbi, HookRegistry};

const BUILTIN: [(&str, HookAbi); 5] = [
    ("C_GetFunctionList", HookAbi::FunctionList),
    ("C_GetInterfaceList", HookAbi::InterfaceList),
    ("C_GetInterface", HookAbi::Interface),
    ("NSC_GetFunctionList", HookAbi::FunctionList),
    ("FC_GetFunctionList", HookAbi::FunctionList),
];

#[test]
fn builtin_registry_is_the_five_documented_names() {
    let r = HookRegistry::builtin();
    let mut names = r.names();
    names.sort();
    assert_eq!(
        names,
        vec![
            "C_GetFunctionList",
            "C_GetInterface",
            "C_GetInterfaceList",
            "FC_GetFunctionList",
            "NSC_GetFunctionList",
        ]
    );
    assert_eq!(r.abi("C_GetFunctionList"), Some(HookAbi::FunctionList));
    assert_eq!(r.abi("C_GetInterfaceList"), Some(HookAbi::InterfaceList));
    assert_eq!(r.abi("C_GetInterface"), Some(HookAbi::Interface));
    assert_eq!(r.abi("NSC_GetFunctionList"), Some(HookAbi::FunctionList));
    assert_eq!(r.abi("nope"), None);
}

#[test]
fn hook_symbol_specs_default_to_functionlist_and_accept_every_abi() {
    let mut r = HookRegistry::builtin();
    r.add_spec("V_GetTable").unwrap();
    assert_eq!(r.abi("V_GetTable"), Some(HookAbi::FunctionList));
    r.add_spec("V_List:interfacelist").unwrap();
    assert_eq!(r.abi("V_List"), Some(HookAbi::InterfaceList));
    r.add_spec("V_One:interface").unwrap();
    assert_eq!(r.abi("V_One"), Some(HookAbi::Interface));
    // A repeat replaces the ABI rather than duplicating the name.
    r.add_spec("V_GetTable:interface").unwrap();
    assert_eq!(r.abi("V_GetTable"), Some(HookAbi::Interface));
    assert_eq!(r.names().iter().filter(|n| **n == "V_GetTable").count(), 1);
}

#[test]
fn malformed_hook_specs_are_refused_with_the_reason() {
    let mut r = HookRegistry::builtin();
    for bad in [
        "",
        ":",
        ":interface",
        "V_X:",
        "V_X:bogus",
        "V_X:interface:extra",
    ] {
        let error = r.add_spec(bad).unwrap_err();
        assert!(!error.is_empty(), "{bad:?} must be refused with a reason");
    }
    // A name with a NUL or whitespace could never be an ELF symbol.
    assert!(r.add_spec("has space").is_err());
}

#[test]
fn ids_are_one_based_stable_and_duplicates_keep_their_id() {
    let mut r = HookRegistry::builtin();
    for (position, (name, abi)) in BUILTIN.iter().enumerate() {
        let id = (position + 1) as u32;
        assert_eq!(r.id(name), Some(id));
        assert_eq!(r.by_id(id), Some((*name, *abi)));
        assert_eq!(r.export_cookie(name), Some(u64::from(id)));
    }
    assert_eq!(r.by_id(0), None);

    r.add_spec("V_GetTable:interfacelist").unwrap();
    let id = r.id("V_GetTable").unwrap();
    assert_eq!(id, 6);
    r.add_spec("V_GetTable:interface").unwrap();
    assert_eq!(r.id("V_GetTable"), Some(id));
    assert_eq!(r.by_id(id), Some(("V_GetTable", HookAbi::Interface)));

    r.add_spec("V_Other").unwrap();
    assert_eq!(r.id("V_Other"), Some(7));
}

#[test]
fn refused_specs_change_nothing_and_say_why() {
    let mut r = HookRegistry::builtin();
    assert_eq!(
        r.add_spec("V_X:bogus").unwrap_err(),
        "unknown hook ABI \"bogus\"; expected functionlist, interfacelist or interface"
    );
    assert_eq!(
        r.add_spec("V_X:interface:extra").unwrap_err(),
        "hook spec \"V_X:interface:extra\" has more than one ':' separator"
    );
    assert_eq!(r, HookRegistry::builtin());
    assert_eq!(HookRegistry::default(), HookRegistry::builtin());
}
