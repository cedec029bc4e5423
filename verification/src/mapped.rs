//! What holds of the mappings of a process as they are read.

use crate::maps::{
    based, based_value, byte_index, byte_skip, executable_keys, line_mapping, mapping_key,
    maps_from, number_pair, Device, Mapping, ObjectKey,
};
use vstd::prelude::*;

verus! {

/// A digit in bytes.
pub open spec fn byte_digit(n: int) -> u8 {
    if n < 10 {
        (48 + n) as u8
    } else {
        (87 + n) as u8
    }
}

/// A number in a base, written in bytes.
pub open spec fn written(n: nat, base: nat) -> Seq<u8>
    decreases n,
{
    if base < 2 || n < base {
        seq![byte_digit(n as int)]
    } else {
        proof {
            assert(n / base < n) by (nonlinear_arith)
                requires
                    2 <= base,
                    base <= n,
            ;
        }
        written(n / base, base).push(byte_digit((n % base) as int))
    }
}

/// Whether a byte is a digit as it is written.
pub open spec fn is_written_digit(b: u8) -> bool {
    48 <= b <= 57 || 97 <= b <= 102
}

/// A number that is written in base ten or sixteen reads as itself, and holds nothing but digits.
pub proof fn lemma_written_reads_back(n: nat, base: nat)
    requires
        base == 10 || base == 16,
    ensures
        based(written(n, base), base as int) == Some(n as int),
        written(n, base).len() > 0,
        n <= u64::MAX ==> based_value(written(n, base), base as int) == Some(n as u64),
        forall|i: int|
            0 <= i < written(n, base).len() ==> is_written_digit(#[trigger] written(n, base)[i]),
    decreases n,
{
    let s = written(n, base);
    if n < base {
        assert(s.drop_last() =~= Seq::<u8>::empty());
        reveal_with_fuel(based, 2);
    } else {
        assert(n / base < n) by (nonlinear_arith)
            requires
                2 <= base,
                base <= n,
        ;
        lemma_written_reads_back(n / base, base);
        let before = written(n / base, base);
        assert(s.drop_last() =~= before);
        assert(n == (n / base) * base + n % base) by (nonlinear_arith)
            requires
                base > 0,
        ;
        assert forall|i: int| 0 <= i < s.len() implies is_written_digit(#[trigger] s[i]) by {
            if i < before.len() {
                assert(s[i] == before[i]);
            }
        }
    }
}

/// A byte is found where it stands first.
pub proof fn lemma_byte_index(s: Seq<u8>, b: u8, from: int)
    requires
        0 <= from <= s.len(),
    ensures
        from <= byte_index(s, b, from) <= s.len(),
        byte_index(s, b, from) < s.len() ==> s[byte_index(s, b, from)] == b,
        forall|i: int| from <= i < byte_index(s, b, from) ==> #[trigger] s[i] != b,
    decreases s.len() - from,
{
    if from < s.len() && s[from] != b {
        lemma_byte_index(s, b, from + 1);
    }
}

/// A byte is found at a position that is the first to hold it.
proof fn lemma_byte_at(s: Seq<u8>, b: u8, from: int, at: int)
    requires
        0 <= from <= at <= s.len(),
        forall|i: int| from <= i < at ==> #[trigger] s[i] != b,
        at == s.len() || s[at] == b,
    ensures
        byte_index(s, b, from) == at,
{
    lemma_byte_index(s, b, from);
    let found = byte_index(s, b, from);
    if found < at {
        assert(s[found] != b);
    }
}

/// One space is passed over.
proof fn lemma_one_skipped(s: Seq<u8>, b: u8, at: int)
    requires
        0 <= at < s.len(),
        s[at] == b,
        at + 1 == s.len() || s[at + 1] != b,
    ensures
        byte_skip(s, b, at) == at + 1,
{
    reveal_with_fuel(byte_skip, 3);
}

/// Two numbers that are written with a byte between them read as themselves.
proof fn lemma_pair_reads_back(a: nat, b: nat, between: u8)
    requires
        a <= u64::MAX,
        b <= u64::MAX,
        between == 45 || between == 58,
    ensures
        number_pair(written(a, 16) + seq![between] + written(b, 16), between) == Some(
            (a as u64, b as u64),
        ),
{
    let x = written(a, 16);
    let y = written(b, 16);
    let s = x + seq![between] + y;
    lemma_written_reads_back(a, 16);
    lemma_written_reads_back(b, 16);
    let n = x.len() as int;
    assert forall|i: int| 0 <= i < n implies #[trigger] s[i] != between by {
        assert(s[i] == x[i]);
        assert(is_written_digit(x[i]));
    }
    assert(s[n] == between);
    lemma_byte_at(s, between, 0, n);
    assert(s.take(n) =~= x);
    assert(s.skip(n + 1) =~= y);
}

/// Whether bytes hold no space.
pub open spec fn is_solid(s: Seq<u8>) -> bool {
    forall|i: int| 0 <= i < s.len() ==> #[trigger] s[i] != 32
}

/// Where a field of a line ends, and where the next begins.
proof fn lemma_field(line: Seq<u8>, from: int, field: Seq<u8>)
    requires
        0 <= from,
        from + field.len() < line.len(),
        field.len() > 0,
        is_solid(field),
        line.subrange(from, from + field.len()) == field,
        line[from + field.len()] == 32,
        from + field.len() + 1 == line.len() || line[from + field.len() + 1] != 32,
    ensures
        byte_index(line, 32, from) == from + field.len(),
        byte_skip(line, 32, from + field.len()) == from + field.len() + 1,
{
    let end = from + field.len();
    assert forall|i: int| from <= i < end implies #[trigger] line[i] != 32 by {
        assert(line[i] == line.subrange(from, end)[i - from]);
        assert(field[i - from] != 32);
    }
    lemma_byte_at(line, 32, from, end);
    lemma_one_skipped(line, 32, end);
}

/// A line that describes a mapping: the range of addresses, the permissions, the offset in the
/// file, the device, the inode, and the path, which may be empty.
pub open spec fn described(
    start: u64,
    end: u64,
    permissions: Seq<u8>,
    offset: u64,
    device: Device,
    inode: u64,
    path: Seq<u8>,
) -> Seq<u8> {
    (written(start as nat, 16) + seq![45u8] + written(end as nat, 16)) + (seq![32u8] + permissions)
        + (seq![32u8] + written(offset as nat, 16)) + (seq![32u8] + (written(
        device.major as nat,
        16,
    ) + seq![58u8] + written(device.minor as nat, 16))) + (seq![32u8] + written(inode as nat, 10)) + (
    seq![32u8] + path)
}

/// Numbers with a byte between them hold no space.
proof fn lemma_pair_is_solid(a: nat, b: nat, between: u8)
    requires
        between == 45 || between == 58,
    ensures
        is_solid(written(a, 16) + seq![between] + written(b, 16)),
        (written(a, 16) + seq![between] + written(b, 16)).len() > 0,
{
    let s = written(a, 16) + seq![between] + written(b, 16);
    lemma_written_reads_back(a, 16);
    lemma_written_reads_back(b, 16);
    let n = written(a, 16).len() as int;
    assert forall|i: int| 0 <= i < s.len() implies #[trigger] s[i] != 32 by {
        if i < n {
            assert(is_written_digit(written(a, 16)[i]));
        } else if i > n {
            assert(is_written_digit(written(b, 16)[i - n - 1]));
        }
    }
}

/// A written number holds no space.
proof fn lemma_number_is_solid(n: nat, base: nat)
    requires
        base == 10 || base == 16,
    ensures
        is_solid(written(n, base)),
        written(n, base).len() > 0,
{
    lemma_written_reads_back(n, base);
    assert forall|i: int| 0 <= i < written(n, base).len() implies #[trigger] written(n, base)[i]
        != 32 by {
        assert(is_written_digit(written(n, base)[i]));
    }
}

/// A line that describes a mapping is read as that mapping: addresses, offset and device in base
/// sixteen, the inode in base ten, and the path as it stands.
#[verifier::rlimit(60)]
pub proof fn lemma_line_reads_back(
    start: u64,
    end: u64,
    permissions: Seq<u8>,
    offset: u64,
    device: Device,
    inode: u64,
    path: Seq<u8>,
)
    requires
        permissions.len() == 4,
        is_solid(permissions),
        path.len() > 0 ==> path[0] != 32,
    ensures
        line_mapping(described(start, end, permissions, offset, device, inode, path)) == Some(
            (Mapping {
                start,
                end,
                file_offset: offset,
                permissions,
                device,
                inode,
                raw_path: if path.len() > 0 {
                    Some(path)
                } else {
                    None
                },
            }),
        ),
{
    let f0 = written(start as nat, 16) + seq![45u8] + written(end as nat, 16);
    let f2 = written(offset as nat, 16);
    let f3 = written(device.major as nat, 16) + seq![58u8] + written(device.minor as nat, 16);
    let f4 = written(inode as nat, 10);
    let line = described(start, end, permissions, offset, device, inode, path);
    lemma_pair_is_solid(start as nat, end as nat, 45);
    lemma_pair_is_solid(device.major as nat, device.minor as nat, 58);
    lemma_number_is_solid(offset as nat, 16);
    lemma_number_is_solid(inode as nat, 10);
    lemma_pair_reads_back(start as nat, end as nat, 45);
    lemma_pair_reads_back(device.major as nat, device.minor as nat, 58);
    lemma_written_reads_back(offset as nat, 16);
    lemma_written_reads_back(inode as nat, 10);
    let e0 = f0.len() as int;
    let e1 = e0 + 1 + 4;
    let e2 = e1 + 1 + f2.len();
    let e3 = e2 + 1 + f3.len();
    let e4 = e3 + 1 + f4.len();
    assert(line.len() == e4 + 1 + path.len());
    assert(line.subrange(0, e0) =~= f0);
    assert(line.subrange(e0 + 1, e1) =~= permissions);
    assert(line.subrange(e1 + 1, e2) =~= f2);
    assert(line.subrange(e2 + 1, e3) =~= f3);
    assert(line.subrange(e3 + 1, e4) =~= f4);
    assert(line.subrange(e4 + 1, line.len() as int) =~= path);
    assert(line[e0] == 32 && line[e1] == 32 && line[e2] == 32 && line[e3] == 32 && line[e4] == 32);
    assert(line[e0 + 1] == permissions[0]);
    assert(line[e1 + 1] == f2[0]);
    assert(line[e2 + 1] == f3[0]);
    assert(line[e3 + 1] == f4[0]);
    assert(path.len() > 0 ==> line[e4 + 1] == path[0]);
    lemma_field(line, 0, f0);
    lemma_field(line, e0 + 1, permissions);
    lemma_field(line, e1 + 1, f2);
    lemma_field(line, e2 + 1, f3);
    lemma_field(line, e3 + 1, f4);
    assert(device == Device { major: device.major, minor: device.minor });
}

/// A line before a line feed is read first, and what stands behind it is read after it; a line that
/// describes nothing is refused by its number.
pub proof fn lemma_line_by_line(line: Seq<u8>, rest: Seq<u8>, done: Seq<Mapping>)
    requires
        forall|i: int| 0 <= i < line.len() ==> #[trigger] line[i] != 10,
    ensures
        maps_from(line + seq![10u8] + rest, 0, done) == match line_mapping(line) {
            Some(mapping) => maps_from(rest, 0, done.push(mapping)),
            None => Err((done.len() + 1) as nat),
        },
        line.len() > 0 ==> maps_from(line, 0, done) == match line_mapping(line) {
            Some(mapping) => Ok::<Seq<Mapping>, nat>(done.push(mapping)),
            None => Err((done.len() + 1) as nat),
        },
        maps_from(Seq::empty(), 0, done) == Ok::<Seq<Mapping>, nat>(done),
{
    let s = line + seq![10u8] + rest;
    let n = line.len() as int;
    assert forall|i: int| 0 <= i < n implies #[trigger] s[i] != 10 by {
        assert(s[i] == line[i]);
    }
    lemma_byte_at(s, 10, 0, n);
    assert(s.subrange(0, n) =~= line);
    if let Some(mapping) = line_mapping(line) {
        lemma_maps_shift(line + seq![10u8], rest, 0, done.push(mapping));
    }
    if n > 0 {
        lemma_byte_at(line, 10, 0, n);
        assert(line.subrange(0, n) =~= line);
    }
}

/// Lines read behind others as they read alone.
proof fn lemma_maps_shift(before: Seq<u8>, rest: Seq<u8>, from: int, done: Seq<Mapping>)
    requires
        0 <= from <= rest.len(),
    ensures
        maps_from(before + rest, before.len() + from, done) == maps_from(rest, from, done),
    decreases rest.len() - from,
{
    let s = before + rest;
    let n = before.len() as int;
    if from < rest.len() {
        lemma_byte_index(rest, 10, from);
        let end = byte_index(rest, 10, from);
        assert forall|i: int| n + from <= i < n + end implies #[trigger] s[i] != 10 by {
            assert(s[i] == rest[i - n]);
        }
        lemma_byte_at(s, 10, n + from, n + end);
        assert(s.subrange(n + from, n + end) =~= rest.subrange(from, end));
        if end < rest.len() {
            if let Some(mapping) = line_mapping(rest.subrange(from, end)) {
                lemma_maps_shift(before, rest, end + 1, done.push(mapping));
            }
        }
    }
}

/// A file may be executed exactly where a mapping of it may be.
pub proof fn lemma_executable_files(list: Seq<Mapping>, n: int, key: ObjectKey)
    requires
        0 <= n <= list.len(),
    ensures
        executable_keys(list, n).contains(key) <==> exists|i: int|
            0 <= i < n && (#[trigger] list[i]).permissions[2] == 'x' as u8 && list[i].inode != 0
                && list[i].inode == key.inode && list[i].device == key.device,
    decreases n,
{
    if n > 0 {
        lemma_executable_files(list, n - 1, key);
        let last = list[n - 1];
        if executable_keys(list, n - 1).contains(key) {
            let i = choose|i: int|
                0 <= i < n - 1 && (#[trigger] list[i]).permissions[2] == 'x' as u8 && list[i].inode
                    != 0 && list[i].inode == key.inode && list[i].device == key.device;
            assert(list[i].inode == key.inode);
        }
        assert(mapping_key(last) == key <==> last.inode == key.inode && last.device == key.device);
    }
}

} // verus!
