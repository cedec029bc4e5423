//! What is published to the loaded object is read back, and must be exactly what was meant.

use crate::attach::catalog::{is_key, str_texts, FunctionCatalog, FUNCTION_NAME_MAX_BYTES};
use crate::attach::probes::SlotSemantics;
use crate::maps::same_bytes;
use crate::text::Text;
use vstd::prelude::*;
use vstd::string::*;
use vstd::utf8::*;

verus! {

/// Whether two lists of pairs hold the same pairs.
pub open spec fn same_pairs<K, V>(a: Seq<(K, V)>, b: Seq<(K, V)>) -> bool {
    &&& forall|i: int| 0 <= i < a.len() ==> b.contains(#[trigger] a[i])
    &&& forall|i: int| 0 <= i < b.len() ==> a.contains(#[trigger] b[i])
}

fn lists_pair(list: &Vec<(u32, u32)>, pair: (u32, u32)) -> (r: bool)
    ensures
        r == list@.contains(pair),
{
    let mut i: usize = 0;
    while i < list.len()
        invariant
            i <= list@.len(),
            forall|j: int| 0 <= j < i ==> list@[j] != pair,
        decreases list@.len() - i,
    {
        if list[i].0 == pair.0 && list[i].1 == pair.1 {
            assert(list@[i as int] == pair);
            return true;
        }
        i += 1;
    }
    false
}

fn lists_all(list: &Vec<(u32, u32)>, of: &Vec<(u32, u32)>) -> (r: bool)
    ensures
        r == (forall|i: int| 0 <= i < of@.len() ==> list@.contains(#[trigger] of@[i])),
{
    let mut i: usize = 0;
    while i < of.len()
        invariant
            i <= of@.len(),
            forall|j: int| 0 <= j < i ==> list@.contains(#[trigger] of@[j]),
        decreases of@.len() - i,
    {
        if !lists_pair(list, of[i]) {
            assert(!list@.contains(of@[i as int]));
            return false;
        }
        i += 1;
    }
    true
}

/// What is done about the boolean attributes.
#[derive(Clone, Copy, Debug, PartialEq, Eq, Structural)]
pub enum AttributeStep {
    /// The object has no table of them, and none is needed.
    Nothing,
    /// Publish the masks and read them back.
    Publish,
}

/// Tells whether the boolean attributes are published to an object.
pub fn attribute_step(present: bool, enabled: bool) -> (r: Result<AttributeStep, String>)
    ensures
        if present {
            r == Ok::<AttributeStep, String>(AttributeStep::Publish)
        } else if enabled {
            r matches Err(message) && message@
                == "ATTR_BOOL_BITS is missing from the diagnostic eBPF object"@
        } else {
            r == Ok::<AttributeStep, String>(AttributeStep::Nothing)
        },
{
    if present {
        Ok(AttributeStep::Publish)
    } else if enabled {
        Err("ATTR_BOOL_BITS is missing from the diagnostic eBPF object".to_owned())
    } else {
        Ok(AttributeStep::Nothing)
    }
}

/// The masks of the boolean attributes, given by attribute and bit.
pub fn attribute_masks(types: &Vec<(u32, u32)>, enabled: bool) -> (masks: Vec<(u32, u32)>)
    requires
        forall|i: int| 0 <= i < types@.len() ==> (#[trigger] types@[i]).1 < 32,
    ensures
        masks@ == if enabled {
            types@.map_values(|pair: (u32, u32)| (pair.0, 1u32 << pair.1))
        } else {
            Seq::empty()
        },
{
    let mut masks: Vec<(u32, u32)> = Vec::new();
    if !enabled {
        return masks;
    }
    let mut i: usize = 0;
    while i < types.len()
        invariant
            i <= types@.len(),
            forall|i: int| 0 <= i < types@.len() ==> (#[trigger] types@[i]).1 < 32,
            masks@.len() == i,
            forall|j: int|
                0 <= j < i ==> #[trigger] masks@[j] == (types@[j].0, 1u32 << types@[j].1),
        decreases types@.len() - i,
    {
        let (attribute, bit) = types[i];
        assert(types@[i as int].1 < 32);
        masks.push((attribute, 1u32 << bit));
        i += 1;
    }
    assert(masks@ =~= types@.map_values(|pair: (u32, u32)| (pair.0, 1u32 << pair.1)));
    masks
}

/// Refuses masks that were not read back as they were meant.
pub fn check_attributes(actual: &Vec<(u32, u32)>, expected: &Vec<(u32, u32)>) -> (r: Result<
    (),
    String,
>)
    ensures
        if same_pairs(actual@, expected@) {
            r is Ok
        } else {
            r matches Err(message) && message@
                == "ATTR_BOOL_BITS exact readback differs from the selected policy"@
        },
{
    if lists_all(expected, actual) && lists_all(actual, expected) {
        Ok(())
    } else {
        Err("ATTR_BOOL_BITS exact readback differs from the selected policy".to_owned())
    }
}

/// Refuses descriptors that were not read back as they were meant.
pub fn check_descriptors(actual: &Vec<SlotSemantics>, expected: &Vec<SlotSemantics>) -> (r: Result<
    (),
    String,
>)
    ensures
        if actual@ == expected@ {
            r is Ok
        } else {
            r matches Err(message) && message@
                == "DESCRIPTORS exact readback differs from the fixed inventory"@
        },
{
    let refusal = "DESCRIPTORS exact readback differs from the fixed inventory";
    if actual.len() != expected.len() {
        return Err(refusal.to_owned());
    }
    let mut i: usize = 0;
    while i < actual.len()
        invariant
            i <= actual@.len(),
            actual@.len() == expected@.len(),
            forall|j: int| 0 <= j < i ==> actual@[j] == expected@[j],
            refusal@ == "DESCRIPTORS exact readback differs from the fixed inventory"@,
        decreases actual@.len() - i,
    {
        if actual[i] != expected[i] {
            return Err(refusal.to_owned());
        }
        i += 1;
    }
    assert(actual@ =~= expected@);
    Ok(())
}

/// Refuses offsets that were not read back as they were parsed.
pub fn check_offsets(actual: u64, expected: u64) -> (r: Result<(), String>)
    ensures
        if actual == expected {
            r is Ok
        } else {
            r matches Err(message) && message@
                == "CONFIG task_newtask offsets exact readback differs from parsed tracefs format"@
        },
{
    if actual == expected {
        Ok(())
    } else {
        Err(
            "CONFIG task_newtask offsets exact readback differs from parsed tracefs format".to_owned(),
        )
    }
}

/// The key of a function: the bytes of its name, filled up with zeros.
pub open spec fn function_key(name: Text) -> Seq<u8> {
    let bytes = encode_utf8(name);
    bytes + Seq::new((FUNCTION_NAME_MAX_BYTES + 1 - bytes.len()) as nat, |i: int| 0u8)
}

/// Makes the key of a function.
pub fn make_function_key(name: &str) -> (key: Vec<u8>)
    requires
        encode_utf8(name@).len() <= FUNCTION_NAME_MAX_BYTES,
    ensures
        key@ == function_key(name@),
{
    let bytes = name.as_bytes();
    let mut key: Vec<u8> = Vec::new();
    let mut i: usize = 0;
    while i < bytes.len()
        invariant
            i <= bytes@.len(),
            key@ == bytes@.take(i as int),
        decreases bytes@.len() - i,
    {
        key.push(bytes[i]);
        i += 1;
        assert(key@ =~= bytes@.take(i as int));
    }
    let ghost filled = bytes@;
    assert(key@ =~= filled);
    while key.len() < FUNCTION_NAME_MAX_BYTES + 1
        invariant
            filled.len() <= key@.len() <= FUNCTION_NAME_MAX_BYTES + 1,
            key@ == filled + Seq::new((key@.len() - filled.len()) as nat, |i: int| 0u8),
        decreases FUNCTION_NAME_MAX_BYTES + 1 - key@.len(),
    {
        let ghost before = key@;
        key.push(0);
        assert(key@ =~= filled + Seq::new((key@.len() - filled.len()) as nat, |i: int| 0u8));
    }
    key
}

/// No two names have one key, so that functions are told apart by their keys.
pub proof fn lemma_key_tells_name(a: Text, b: Text)
    requires
        is_key(a),
        is_key(b),
        function_key(a) == function_key(b),
    ensures
        a == b,
{
    let first = encode_utf8(a);
    let second = encode_utf8(b);
    if first.len() < second.len() {
        assert(function_key(a)[first.len() as int] == 0);
        assert(function_key(b)[first.len() as int] == second[first.len() as int]);
    }
    if second.len() < first.len() {
        assert(function_key(b)[second.len() as int] == 0);
        assert(function_key(a)[second.len() as int] == first[second.len() as int]);
    }
    assert(first =~= function_key(a).take(first.len() as int));
    assert(second =~= function_key(b).take(second.len() as int));
    encode_utf8_decode_utf8(a);
    encode_utf8_decode_utf8(b);
}

/// What is published of the functions of a catalog: each key with its number.
pub open spec fn function_pairs(names: Seq<Text>) -> Seq<(Seq<u8>, u32)> {
    Seq::new(names.len(), |i: int| (function_key(names[i]), i as u32))
}

/// Key and number of every function.
pub open spec fn pair_views(pairs: Seq<(Vec<u8>, u32)>) -> Seq<(Seq<u8>, u32)> {
    pairs.map_values(|pair: (Vec<u8>, u32)| (pair.0@, pair.1))
}

fn lists_function(list: &Vec<(Vec<u8>, u32)>, key: &Vec<u8>, id: u32) -> (r: bool)
    ensures
        r == pair_views(list@).contains((key@, id)),
{
    let ghost views = pair_views(list@);
    let mut i: usize = 0;
    while i < list.len()
        invariant
            i <= list@.len(),
            views == pair_views(list@),
            forall|j: int| 0 <= j < i ==> views[j] != (key@, id),
        decreases list@.len() - i,
    {
        assert(views[i as int] == (list@[i as int].0@, list@[i as int].1));
        if list[i].1 == id && same_bytes(list[i].0.as_slice(), key.as_slice()) {
            assert(views[i as int] == (key@, id));
            return true;
        }
        i += 1;
    }
    false
}

fn lists_functions(list: &Vec<(Vec<u8>, u32)>, of: &Vec<(Vec<u8>, u32)>) -> (r: bool)
    ensures
        r == (forall|i: int|
            0 <= i < of@.len() ==> pair_views(list@).contains(#[trigger] pair_views(of@)[i])),
{
    let ghost views = pair_views(of@);
    let mut i: usize = 0;
    while i < of.len()
        invariant
            i <= of@.len(),
            views == pair_views(of@),
            forall|j: int| 0 <= j < i ==> pair_views(list@).contains(#[trigger] views[j]),
        decreases of@.len() - i,
    {
        assert(views[i as int] == (of@[i as int].0@, of@[i as int].1));
        if !lists_function(list, &of[i].0, of[i].1) {
            assert(!pair_views(list@).contains(views[i as int]));
            return false;
        }
        i += 1;
    }
    true
}

impl FunctionCatalog {
    /// What is published of the functions: each key with its number.
    pub fn pairs(&self) -> (pairs: Vec<(Vec<u8>, u32)>)
        requires
            self.wf(),
            self.names@.len() <= u32::MAX,
        ensures
            pair_views(pairs@) == function_pairs(str_texts(self.names@)),
    {
        let mut pairs: Vec<(Vec<u8>, u32)> = Vec::new();
        let mut i: usize = 0;
        while i < self.names.len()
            invariant
                i <= self.names@.len(),
                self.names@.len() <= u32::MAX,
                self.wf(),
                pairs@.len() == i,
                forall|j: int|
                    0 <= j < i ==> (#[trigger] pairs@[j]).0@ == function_key(self.names@[j]@)
                        && pairs@[j].1 == j,
            decreases self.names@.len() - i,
        {
            let name = self.names[i];
            assert(is_key(self.names@[i as int]@));
            pairs.push((make_function_key(name), i as u32));
            i += 1;
        }
        assert(pair_views(pairs@) =~= function_pairs(str_texts(self.names@)));
        pairs
    }
}

/// Refuses functions that were not read back as they were meant.
pub fn check_functions(actual: &Vec<(Vec<u8>, u32)>, expected: &Vec<(Vec<u8>, u32)>) -> (r: Result<
    (),
    String,
>)
    ensures
        if same_pairs(pair_views(actual@), pair_views(expected@)) {
            r is Ok
        } else {
            r matches Err(message) && message@
                == "ASYNC_FUNCTIONS exact readback differs from the standard catalog"@
        },
{
    if lists_functions(expected, actual) && lists_functions(actual, expected) {
        Ok(())
    } else {
        Err("ASYNC_FUNCTIONS exact readback differs from the standard catalog".to_owned())
    }
}

} // verus!
