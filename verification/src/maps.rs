//! Memory mappings of a process and the files behind them, identified by device and inode.

use crate::text::{decimal, digits, Text};
use vstd::prelude::*;
use vstd::string::*;

verus! {

/// A device, by its two numbers.
#[derive(Clone, Copy, Debug, PartialEq, Eq, PartialOrd, Ord, Structural)]
pub struct Device {
    pub major: u64,
    pub minor: u64,
}

/// The file behind a mapping: its device and its inode.
#[derive(Clone, Copy, Debug, PartialEq, Eq, PartialOrd, Ord, Structural)]
pub struct ObjectKey {
    pub device: Device,
    pub inode: u64,
}

/// Where a symbol lies: in memory relative to its object, and in the file.
#[derive(Clone, Copy, Debug, PartialEq, Eq, Structural)]
pub struct SymbolFact {
    pub virtual_address: u64,
    pub file_offset: u64,
}

/// One mapping of a process.
#[derive(Clone, Debug, PartialEq, Eq)]
pub struct MapEntry {
    pub start: u64,
    pub end: u64,
    pub file_offset: u64,
    pub permissions: [u8; 4],
    pub device: Device,
    pub inode: u64,
    pub raw_path: Option<Vec<u8>>,
}

/// One mapping, by the values that it holds.
pub struct Mapping {
    pub start: u64,
    pub end: u64,
    pub file_offset: u64,
    pub permissions: Seq<u8>,
    pub device: Device,
    pub inode: u64,
    pub raw_path: Option<Seq<u8>>,
}

/// The bytes of a path that may be absent.
pub open spec fn path_bytes(path: Option<Vec<u8>>) -> Option<Seq<u8>> {
    match path {
        Some(bytes) => Some(bytes@),
        None => None,
    }
}

impl View for MapEntry {
    type V = Mapping;

    open spec fn view(&self) -> Mapping {
        Mapping {
            start: self.start,
            end: self.end,
            file_offset: self.file_offset,
            permissions: self.permissions@,
            device: self.device,
            inode: self.inode,
            raw_path: path_bytes(self.raw_path),
        }
    }
}

/// Tells whether two runs of bytes are the same.
pub fn same_bytes(a: &[u8], b: &[u8]) -> (r: bool)
    ensures
        r == (a@ == b@),
{
    if a.len() != b.len() {
        return false;
    }
    let mut i: usize = 0;
    while i < a.len()
        invariant
            i <= a@.len(),
            a@.len() == b@.len(),
            forall|j: int| 0 <= j < i ==> a@[j] == b@[j],
        decreases a@.len() - i,
    {
        if a[i] != b[i] {
            return false;
        }
        i += 1;
    }
    assert(a@ =~= b@);
    true
}

/// Tells whether two paths that may be absent are the same.
fn same_path(a: &Option<Vec<u8>>, b: &Option<Vec<u8>>) -> (r: bool)
    ensures
        r == (path_bytes(*a) == path_bytes(*b)),
{
    match (a, b) {
        (Some(x), Some(y)) => same_bytes(x.as_slice(), y.as_slice()),
        (None, None) => true,
        _ => false,
    }
}

impl MapEntry {
    /// Tells whether two mappings are the same in every value.
    pub fn same(&self, other: &MapEntry) -> (r: bool)
        ensures
            r == (self@ == other@),
    {
        self.start == other.start && self.end == other.end && self.file_offset == other.file_offset
            && same_bytes(&self.permissions, &other.permissions) && self.device == other.device
            && self.inode == other.inode && same_path(&self.raw_path, &other.raw_path)
    }
}

impl Device {
    /// Whether a device stands before another: by major number, then by minor number.
    pub open spec fn before(self, other: Device) -> bool {
        self.major < other.major || (self.major == other.major && self.minor < other.minor)
    }
}

impl ObjectKey {
    /// Whether a key stands before another: by device, then by inode.
    pub open spec fn before(self, other: ObjectKey) -> bool {
        self.device.before(other.device) || (self.device == other.device && self.inode
            < other.inode)
    }

    /// Tells whether a key stands before another.
    pub fn is_before(&self, other: &ObjectKey) -> (r: bool)
        ensures
            r == self.before(*other),
    {
        self.device.major < other.device.major || (self.device.major == other.device.major && (
        self.device.minor < other.device.minor || (self.device.minor == other.device.minor
            && self.inode < other.inode)))
    }

    /// How a key is written in a message.
    pub open spec fn text(self) -> Text {
        "ObjectKey { device: Device { major: "@ + digits(self.device.major as nat) + ", minor: "@
            + digits(self.device.minor as nat) + " }, inode: "@ + digits(self.inode as nat)
            + " }"@
    }

    /// Writes a key for a message.
    pub fn render(&self) -> (r: String)
        ensures
            r@ == self.text(),
    {
        let mut out = "ObjectKey { device: Device { major: ".to_owned();
        out.append(decimal(self.device.major).as_str());
        out.append(", minor: ");
        out.append(decimal(self.device.minor).as_str());
        out.append(" }, inode: ");
        out.append(decimal(self.inode).as_str());
        out.append(" }");
        out
    }
}

/// The first position of a byte at or after `from`, or the end.
pub open spec fn byte_index(s: Seq<u8>, b: u8, from: int) -> int
    decreases s.len() - from,
{
    if from < 0 || from >= s.len() {
        s.len() as int
    } else if s[from] == b {
        from
    } else {
        byte_index(s, b, from + 1)
    }
}

/// The first position at or after `from` that does not hold a byte, or the end.
pub open spec fn byte_skip(s: Seq<u8>, b: u8, from: int) -> int
    decreases s.len() - from,
{
    if from < 0 || from >= s.len() {
        s.len() as int
    } else if s[from] != b {
        from
    } else {
        byte_skip(s, b, from + 1)
    }
}

/// The value of a digit of a base up to sixteen.
pub open spec fn digit_value(b: u8) -> Option<int> {
    if 48 <= b <= 57 {
        Some(b - 48)
    } else if 97 <= b <= 102 {
        Some(b - 87)
    } else if 65 <= b <= 70 {
        Some(b - 55)
    } else {
        None
    }
}

/// The number that bytes stand for in a base, without its width; none where one is no digit.
pub open spec fn based(s: Seq<u8>, base: int) -> Option<int>
    decreases s.len(),
{
    if s.len() == 0 {
        Some(0)
    } else {
        match (based(s.drop_last(), base), digit_value(s.last())) {
            (Some(high), Some(low)) => if low < base {
                Some(high * base + low)
            } else {
                None
            },
            _ => None,
        }
    }
}

/// The number that bytes stand for in a base: at least one digit, and within 64 bits.
pub open spec fn based_value(s: Seq<u8>, base: int) -> Option<u64> {
    match based(s, base) {
        Some(value) => if s.len() > 0 && 0 <= value <= u64::MAX {
            Some(value as u64)
        } else {
            None
        },
        None => None,
    }
}

/// A number never shrinks by further digits.
proof fn lemma_based_grows(s: Seq<u8>, base: int, n: int)
    requires
        0 <= n <= s.len(),
        base == 10 || base == 16,
        based(s, base) is Some,
    ensures
        based(s.take(n), base) is Some,
        0 <= based(s.take(n), base)->Some_0 <= based(s, base)->Some_0,
    decreases s.len(),
{
    if n == s.len() {
        assert(s.take(n) =~= s);
        if s.len() > 0 {
            lemma_based_grows(s.drop_last(), base, s.len() - 1);
            assert(s.drop_last().take(s.len() - 1) =~= s.drop_last());
        }
    } else {
        lemma_based_grows(s.drop_last(), base, n);
        assert(s.drop_last().take(n) =~= s.take(n));
    }
}

/// A byte that is no digit spoils every number that it stands in.
proof fn lemma_based_fails(s: Seq<u8>, base: int, n: int)
    requires
        0 <= n <= s.len(),
        based(s.take(n), base) is None,
    ensures
        based(s, base) is None,
    decreases s.len() - n,
{
    if n < s.len() {
        assert(s.take(n + 1).drop_last() =~= s.take(n));
        lemma_based_fails(s, base, n + 1);
    } else {
        assert(s.take(n) =~= s);
    }
}

/// Reads the number that the bytes from `from` to `to` stand for in a base.
fn read_number(s: &[u8], from: usize, to: usize, base: u64) -> (r: Option<u64>)
    requires
        from <= to <= s@.len(),
        base == 10 || base == 16,
    ensures
        r == based_value(s@.subrange(from as int, to as int), base as int),
{
    let ghost all = s@.subrange(from as int, to as int);
    if from == to {
        return None;
    }
    let mut value: u64 = 0;
    let mut at: usize = from;
    assert(all.take(0) =~= Seq::<u8>::empty());
    while at < to
        invariant
            from <= at <= to <= s@.len(),
            all == s@.subrange(from as int, to as int),
            base == 10 || base == 16,
            based(all.take(at - from), base as int) == Some(value as int),
        decreases to - at,
    {
        let b = s[at];
        let ghost next = all.take(at - from + 1);
        assert(next.drop_last() =~= all.take(at - from));
        assert(next.last() == b);
        let digit: u64 = if 48 <= b && b <= 57 {
            (b - 48) as u64
        } else if 97 <= b && b <= 102 {
            (b - 87) as u64
        } else if 65 <= b && b <= 70 {
            (b - 55) as u64
        } else {
            proof {
                lemma_based_fails(all, base as int, at - from + 1);
            }
            return None;
        };
        if digit >= base {
            proof {
                lemma_based_fails(all, base as int, at - from + 1);
            }
            return None;
        }
        assert(based(next, base as int) == Some(value * base + digit));
        let high: Option<u64> = value.checked_mul(base);
        let sum: Option<u64> = match high {
            Some(high) => high.checked_add(digit),
            None => None,
        };
        match sum {
            Some(sum) => {
                value = sum;
            },
            None => {
                proof {
                    if based(all, base as int) is Some {
                        lemma_based_grows(all, base as int, at - from + 1);
                    }
                }
                return None;
            },
        }
        at += 1;
    }
    assert(all.take(at - from) =~= all);
    Some(value)
}

/// Finds the first position of a byte at or after `from`, or the end.
fn find_byte(s: &[u8], b: u8, from: usize) -> (r: usize)
    requires
        from <= s@.len(),
    ensures
        r == byte_index(s@, b, from as int),
        from <= r <= s@.len(),
{
    let mut at: usize = from;
    while at < s.len()
        invariant
            from <= at <= s@.len(),
            byte_index(s@, b, at as int) == byte_index(s@, b, from as int),
        decreases s@.len() - at,
    {
        if s[at] == b {
            return at;
        }
        at += 1;
    }
    at
}

/// Finds the first position at or after `from` that does not hold a byte, or the end.
fn skip_byte(s: &[u8], b: u8, from: usize) -> (r: usize)
    requires
        from <= s@.len(),
    ensures
        r == byte_skip(s@, b, from as int),
        from <= r <= s@.len(),
{
    let mut at: usize = from;
    while at < s.len()
        invariant
            from <= at <= s@.len(),
            byte_skip(s@, b, at as int) == byte_skip(s@, b, from as int),
        decreases s@.len() - at,
    {
        if s[at] != b {
            return at;
        }
        at += 1;
    }
    at
}

/// Copies the bytes from `from` to `to`.
fn copy_bytes(s: &[u8], from: usize, to: usize) -> (r: Vec<u8>)
    requires
        from <= to <= s@.len(),
    ensures
        r@ == s@.subrange(from as int, to as int),
{
    let mut r: Vec<u8> = Vec::new();
    let mut at: usize = from;
    while at < to
        invariant
            from <= at <= to <= s@.len(),
            r@ == s@.subrange(from as int, at as int),
        decreases to - at,
    {
        r.push(s[at]);
        assert(r@ =~= s@.subrange(from as int, at + 1));
        at += 1;
    }
    r
}

/// Two numbers with a byte between them.
pub open spec fn number_pair(s: Seq<u8>, between: u8) -> Option<(u64, u64)> {
    let at = byte_index(s, between, 0);
    if at >= s.len() {
        None
    } else {
        match (based_value(s.take(at), 16), based_value(s.skip(at + 1), 16)) {
            (Some(left), Some(right)) => Some((left, right)),
            _ => None,
        }
    }
}

/// Reads two numbers with a byte between them.
fn read_pair(s: &[u8], from: usize, to: usize, between: u8) -> (r: Option<(u64, u64)>)
    requires
        from <= to <= s@.len(),
    ensures
        r == number_pair(s@.subrange(from as int, to as int), between),
{
    let part = copy_bytes(s, from, to);
    let len: usize = part.len();
    let at: usize = find_byte(part.as_slice(), between, 0);
    if at >= len {
        return None;
    }
    let left: Option<u64> = read_number(part.as_slice(), 0, at, 16);
    let right: Option<u64> = read_number(part.as_slice(), at + 1, len, 16);
    assert(part@.subrange(0, at as int) =~= part@.take(at as int));
    assert(part@.subrange(at + 1, len as int) =~= part@.skip(at + 1));
    match (left, right) {
        (Some(left), Some(right)) => Some((left, right)),
        _ => None,
    }
}

/// Where the fields of a line start and end: five of them, with spaces between, and the rest.
pub struct LineFields {
    pub range: Seq<u8>,
    pub permissions: Seq<u8>,
    pub offset: Seq<u8>,
    pub device: Seq<u8>,
    pub inode: Seq<u8>,
    pub path: Seq<u8>,
}

/// The fields of a line.
pub open spec fn line_fields(line: Seq<u8>) -> LineFields {
    let e0 = byte_index(line, 32, 0);
    let b1 = byte_skip(line, 32, e0);
    let e1 = byte_index(line, 32, b1);
    let b2 = byte_skip(line, 32, e1);
    let e2 = byte_index(line, 32, b2);
    let b3 = byte_skip(line, 32, e2);
    let e3 = byte_index(line, 32, b3);
    let b4 = byte_skip(line, 32, e3);
    let e4 = byte_index(line, 32, b4);
    let b5 = byte_skip(line, 32, e4);
    LineFields {
        range: line.subrange(0, e0),
        permissions: line.subrange(b1, e1),
        offset: line.subrange(b2, e2),
        device: line.subrange(b3, e3),
        inode: line.subrange(b4, e4),
        path: line.subrange(b5, line.len() as int),
    }
}

/// The mapping that a line of `/proc/PID/maps` describes.
pub open spec fn line_mapping(line: Seq<u8>) -> Option<Mapping> {
    let f = line_fields(line);
    match (
        number_pair(f.range, 45),
        based_value(f.offset, 16),
        number_pair(f.device, 58),
        based_value(f.inode, 10),
    ) {
        (Some(range), Some(offset), Some(device), Some(inode)) => if f.permissions.len() == 4 {
            Some(
                Mapping {
                    start: range.0,
                    end: range.1,
                    file_offset: offset,
                    permissions: f.permissions,
                    device: Device { major: device.0, minor: device.1 },
                    inode,
                    raw_path: if f.path.len() > 0 {
                        Some(f.path)
                    } else {
                        None
                    },
                },
            )
        } else {
            None
        },
        _ => None,
    }
}

/// Reads the mapping that a line of `/proc/PID/maps` describes.
fn read_line(line: &[u8]) -> (r: Option<MapEntry>)
    ensures
        match line_mapping(line@) {
            Some(mapping) => r matches Some(entry) && entry@ == mapping,
            None => r is None,
        },
{
    let len: usize = line.len();
    let e0: usize = find_byte(line, 32, 0);
    let b1: usize = skip_byte(line, 32, e0);
    let e1: usize = find_byte(line, 32, b1);
    let b2: usize = skip_byte(line, 32, e1);
    let e2: usize = find_byte(line, 32, b2);
    let b3: usize = skip_byte(line, 32, e2);
    let e3: usize = find_byte(line, 32, b3);
    let b4: usize = skip_byte(line, 32, e3);
    let e4: usize = find_byte(line, 32, b4);
    let b5: usize = skip_byte(line, 32, e4);
    let range: Option<(u64, u64)> = read_pair(line, 0, e0, 45);
    let offset: Option<u64> = read_number(line, b2, e2, 16);
    let device: Option<(u64, u64)> = read_pair(line, b3, e3, 58);
    let inode: Option<u64> = read_number(line, b4, e4, 10);
    match (range, offset, device, inode) {
        (Some(range), Some(offset), Some(device), Some(inode)) => {
            if e1 - b1 != 4 {
                return None;
            }
            let permissions = [line[b1], line[b1 + 1], line[b1 + 2], line[b1 + 3]];
            assert(permissions@ =~= line@.subrange(b1 as int, e1 as int));
            let mut raw_path: Option<Vec<u8>> = None;
            if b5 < len {
                raw_path = Some(copy_bytes(line, b5, len));
            }
            Some(
                MapEntry {
                    start: range.0,
                    end: range.1,
                    file_offset: offset,
                    permissions,
                    device: Device { major: device.0, minor: device.1 },
                    inode,
                    raw_path,
                },
            )
        },
        _ => None,
    }
}

/// Mappings, by the values that they hold.
pub open spec fn mappings(list: Seq<MapEntry>) -> Seq<Mapping> {
    list.map_values(|m: MapEntry| m@)
}

/// The mappings that the lines from position `from` on describe, or the number of the first line
/// that describes none; `done` lines stand before it.
pub open spec fn maps_from(s: Seq<u8>, from: int, done: Seq<Mapping>) -> Result<Seq<Mapping>, nat>
    decreases s.len() - from,
{
    if from < 0 || from >= s.len() {
        Ok(done)
    } else {
        let end = byte_index(s, 10, from);
        if end < from {
            Ok(done)
        } else {
            match line_mapping(s.subrange(from, end)) {
                None => Err(done.len() + 1),
                Some(mapping) => if end >= s.len() {
                    Ok(done.push(mapping))
                } else {
                    maps_from(s, end + 1, done.push(mapping))
                },
            }
        }
    }
}

/// Reads `/proc/PID/maps`. Every line must describe a mapping.
pub fn parse_maps(bytes: &[u8]) -> (r: Result<Vec<MapEntry>, String>)
    ensures
        match maps_from(bytes@, 0, Seq::empty()) {
            Ok(list) => r matches Ok(given) && mappings(given@) == list,
            Err(line) => r matches Err(message) && message@ == "cannot parse maps line "@ + digits(
                line,
            ),
        },
{
    let mut list: Vec<MapEntry> = Vec::new();
    let len: usize = bytes.len();
    let mut from: usize = 0;
    assert(mappings(list@) =~= Seq::<Mapping>::empty());
    while from < len
        invariant
            from <= len,
            len == bytes@.len(),
            list@.len() <= from,
            maps_from(bytes@, from as int, mappings(list@)) == maps_from(
                bytes@,
                0,
                Seq::empty(),
            ),
        decreases len - from,
    {
        let end: usize = find_byte(bytes, 10, from);
        let line = copy_bytes(bytes, from, end);
        let ghost before = mappings(list@);
        match read_line(line.as_slice()) {
            None => {
                let mut message = "cannot parse maps line ".to_owned();
                message.append(decimal(list.len() as u64 + 1).as_str());
                return Err(message);
            },
            Some(entry) => {
                let ghost mapping = entry@;
                list.push(entry);
                assert(mappings(list@) =~= before.push(mapping));
            },
        }
        if end == len {
            return Ok(list);
        }
        from = end + 1;
    }
    Ok(list)
}

/// The file behind a mapping.
pub open spec fn mapping_key(m: Mapping) -> ObjectKey {
    ObjectKey { device: m.device, inode: m.inode }
}

/// Whether a mapping is of a file, and may be executed.
pub open spec fn runs_file(m: Mapping) -> bool {
    m.permissions[2] == 120u8 && m.inode != 0
}

/// The files that the first `n` mappings may execute.
pub open spec fn executable_keys(list: Seq<Mapping>, n: int) -> Set<ObjectKey>
    decreases n,
{
    if n <= 0 {
        Set::empty()
    } else if runs_file(list[n - 1]) {
        executable_keys(list, n - 1).insert(mapping_key(list[n - 1]))
    } else {
        executable_keys(list, n - 1)
    }
}

/// Lists the files that mappings may execute.
pub fn executable_file_keys(list: &Vec<MapEntry>) -> (keys: Vec<ObjectKey>)
    ensures
        keys@.to_set() == executable_keys(mappings(list@), list@.len() as int),
{
    let mut keys: Vec<ObjectKey> = Vec::new();
    let mut i: usize = 0;
    assert(keys@.to_set() =~= Set::<ObjectKey>::empty());
    while i < list.len()
        invariant
            i <= list@.len(),
            keys@.to_set() == executable_keys(mappings(list@), i as int),
        decreases list@.len() - i,
    {
        let entry = &list[i];
        assert(mappings(list@)[i as int] == entry@);
        if entry.permissions[2] == 120u8 && entry.inode != 0 {
            let key = ObjectKey { device: entry.device, inode: entry.inode };
            let ghost before = keys@;
            keys.push(key);
            assert(keys@.to_set() =~= before.to_set().insert(key)) by {
                assert forall|k: ObjectKey| keys@.to_set().contains(k)
                    == before.to_set().insert(key).contains(k) by {
                    if before.contains(k) {
                        let p = choose|p: int| 0 <= p < before.len() && before[p] == k;
                        assert(keys@[p] == k);
                    }
                    assert(keys@[before.len() as int] == key);
                }
            }
        }
        i += 1;
    }
    keys
}

/// Tells whether a key is listed.
pub fn lists_key(list: &Vec<ObjectKey>, key: &ObjectKey) -> (r: bool)
    ensures
        r == list@.contains(*key),
        r == list@.to_set().contains(*key),
{
    let mut i: usize = 0;
    while i < list.len()
        invariant
            i <= list@.len(),
            forall|j: int| 0 <= j < i ==> list@[j] != *key,
        decreases list@.len() - i,
    {
        if list[i] == *key {
            return true;
        }
        i += 1;
    }
    false
}

/// Tells whether every key of one list is in the other.
pub fn all_listed(list: &Vec<ObjectKey>, other: &Vec<ObjectKey>) -> (r: bool)
    ensures
        r == list@.to_set().subset_of(other@.to_set()),
{
    let mut i: usize = 0;
    while i < list.len()
        invariant
            i <= list@.len(),
            forall|j: int| 0 <= j < i ==> other@.contains(#[trigger] list@[j]),
        decreases list@.len() - i,
    {
        if !lists_key(other, &list[i]) {
            assert(list@.to_set().contains(list@[i as int]));
            return false;
        }
        i += 1;
    }
    true
}

/// Tells whether two lists hold the same keys.
pub fn same_keys(a: &Vec<ObjectKey>, b: &Vec<ObjectKey>) -> (r: bool)
    ensures
        r == (a@.to_set() == b@.to_set()),
{
    let forth: bool = all_listed(a, b);
    let back: bool = all_listed(b, a);
    assert(forth && back ==> a@.to_set() =~= b@.to_set());
    forth && back
}

} // verus!
