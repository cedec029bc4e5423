//! The layout of the `task_newtask` tracepoint: where its record holds the process id and the clone
//! flags, as the kernel describes it.

use crate::text::{
    concat3, decimal, digits, find_from, index_from, join, joined, last_word, lines_from,
    parse_unsigned, pieces, push_text, same, split_at_each, split_lines, take_last_word, texts,
    trim, trimmed, unsigned_value, Text,
};
use vstd::prelude::*;
use vstd::string::*;

verus! {

/// Where the kernel describes the tracepoint, in the order in which it is looked for.
pub open spec fn format_path(i: int) -> Text {
    if i == 0 {
        "/sys/kernel/tracing/events/task/task_newtask/format"@
    } else {
        "/sys/kernel/debug/tracing/events/task/task_newtask/format"@
    }
}

/// Where the kernel describes the tracepoint, in the order in which it is looked for.
pub fn task_newtask_format(i: usize) -> (r: &'static str)
    requires
        i < 2,
    ensures
        r@ == format_path(i as int),
{
    if i == 0 {
        "/sys/kernel/tracing/events/task/task_newtask/format"
    } else {
        "/sys/kernel/debug/tracing/events/task/task_newtask/format"
    }
}

/// One attribute `key: value` of a line, if the part holds one.
pub open spec fn attribute(part: Text) -> Option<(Text, Text)> {
    let inner = trimmed(part);
    let colon = index_from(inner, ':', 0);
    if colon < inner.len() {
        Some((trimmed(inner.take(colon)), trimmed(inner.skip(colon + 1))))
    } else {
        None
    }
}

/// The attributes among the first `n` parts of a line.
pub open spec fn attributes(parts: Seq<Text>, n: int) -> Seq<(Text, Text)>
    decreases n,
{
    if n <= 0 {
        Seq::empty()
    } else {
        match attribute(parts[n - 1]) {
            Some(pair) => attributes(parts, n - 1).push(pair),
            None => attributes(parts, n - 1),
        }
    }
}

/// The attributes of a line.
pub open spec fn line_attributes(line: Text) -> Seq<(Text, Text)> {
    attributes(pieces(line, ';'), pieces(line, ';').len() as int)
}

/// Whether an attribute declares a field: the last word of its value is the name.
pub open spec fn declares(pair: (Text, Text), name: Text) -> bool {
    pair.0 == "field"@ && pair.1.len() > 0 && last_word(pair.1) == name
}

/// How often the first `n` attributes declare a field.
pub open spec fn declared(pairs: Seq<(Text, Text)>, name: Text, n: int) -> nat
    decreases n,
{
    if n <= 0 {
        0
    } else {
        declared(pairs, name, n - 1) + if declares(pairs[n - 1], name) {
            1nat
        } else {
            0nat
        }
    }
}

/// What a line says of its field.
pub struct FieldText {
    pub offset: Option<Text>,
    pub size: Option<Text>,
    pub signed: Option<Text>,
}

/// What the first `n` attributes say of a field, each at most once.
pub open spec fn collected(pairs: Seq<(Text, Text)>, name: Text, n: int) -> Result<FieldText, Text>
    decreases n,
{
    if n <= 0 {
        Ok(FieldText { offset: None, size: None, signed: None })
    } else {
        match collected(pairs, name, n - 1) {
            Err(message) => Err(message),
            Ok(field) => {
                let (key, value) = pairs[n - 1];
                if key == "offset"@ {
                    if field.offset is Some {
                        Err("duplicate offset attribute for "@ + name)
                    } else {
                        Ok(FieldText { offset: Some(value), ..field })
                    }
                } else if key == "size"@ {
                    if field.size is Some {
                        Err("duplicate size attribute for "@ + name)
                    } else {
                        Ok(FieldText { size: Some(value), ..field })
                    }
                } else if key == "signed"@ {
                    if field.signed is Some {
                        Err("duplicate signed attribute for "@ + name)
                    } else {
                        Ok(FieldText { signed: Some(value), ..field })
                    }
                } else {
                    Ok(field)
                }
            },
        }
    }
}

/// What the standard library says of a string that is no number of so many bits.
pub uninterp spec fn number_fault(s: Seq<char>, bits: u32) -> Seq<char>;

/// Says why a string is no `usize`, by `str::parse` and the `Display` impl of its error. The result
/// is a function of the string and of the width of a `usize` alone; nothing more is said of it.
#[verifier::external_body]
fn number_fault_of(s: &str) -> (r: String)
    requires
        unsigned_value(s@, usize::MAX as nat) is None,
    ensures
        r@ == number_fault(s@, usize::BITS),
{
    match s.parse::<usize>() {
        Ok(_) => String::new(),
        Err(error) => format!("{error}"),
    }
}

/// What the standard library says of a number that does not fit into 16 bits.
pub uninterp spec fn narrowing_fault(n: nat) -> Seq<char>;

/// Says why a number is no `u16`, by `u16::try_from` and the `Display` impl of its error. The result
/// is a function of the number alone; nothing more is said of it.
#[verifier::external_body]
fn narrowing_fault_of(n: usize) -> (r: String)
    requires
        n > u16::MAX,
    ensures
        r@ == narrowing_fault(n as nat),
{
    match u16::try_from(n) {
        Ok(_) => String::new(),
        Err(error) => format!("{error}"),
    }
}

/// The offset of a field whose attributes are known, where they are what is expected.
pub open spec fn field_offset(
    field: FieldText,
    name: Text,
    size: nat,
    signed: Text,
) -> Result<nat, Text> {
    match field.offset {
        None => Err("missing offset"@),
        Some(offset) => match unsigned_value(offset, usize::MAX as nat) {
            None => Err("invalid offset for "@ + name + ": "@ + number_fault(offset, usize::BITS)),
            Some(at) => match field.size {
                None => Err("missing size"@),
                Some(given) => if given != digits(size) {
                    Err(name + " must have size "@ + digits(size))
                } else {
                    match field.signed {
                        None => Err("missing signedness"@),
                        Some(given) => if given != signed {
                            Err(name + " has unexpected signedness"@)
                        } else if at + size > usize::MAX {
                            Err("field offset overflows tracepoint record"@)
                        } else if at > u16::MAX {
                            Err(
                                "offset outside packed form for "@ + name + ": "@ + narrowing_fault(
                                    at,
                                ),
                            )
                        } else {
                            Ok(at)
                        },
                    }
                },
            },
        },
    }
}

/// The offset of a field in the line that declares it; nothing in any other line.
pub open spec fn line_offset(line: Text, name: Text, size: nat, signed: Text) -> Result<
    Option<nat>,
    Text,
> {
    let pairs = line_attributes(line);
    let times = declared(pairs, name, pairs.len() as int);
    if times == 0 {
        Ok(None)
    } else if times != 1 {
        Err("duplicate "@ + name + " field attribute in task_newtask format"@)
    } else {
        match collected(pairs, name, pairs.len() as int) {
            Err(message) => Err(message),
            Ok(field) => match field_offset(field, name, size, signed) {
                Err(message) => Err(message),
                Ok(at) => Ok(Some(at)),
            },
        }
    }
}

/// An offset found so far with what one more line says of the field.
pub open spec fn offset_next(
    known: Option<nat>,
    line: Text,
    name: Text,
    size: nat,
    signed: Text,
) -> Result<Option<nat>, Text> {
    match line_offset(line, name, size, signed) {
        Err(message) => Err(message),
        Ok(None) => Ok(known),
        Ok(Some(at)) => if known is Some {
            Err("duplicate "@ + name + " field in task_newtask format"@)
        } else {
            Ok(Some(at))
        },
    }
}

/// The two offsets that the first `n` lines give.
pub open spec fn offsets_of(lines: Seq<Text>, n: int) -> Result<(Option<nat>, Option<nat>), Text>
    decreases n,
{
    if n <= 0 {
        Ok((None, None))
    } else {
        match offsets_of(lines, n - 1) {
            Err(message) => Err(message),
            Ok((pid, flags)) => match offset_next(pid, lines[n - 1], "pid"@, 4, "1"@) {
                Err(message) => Err(message),
                Ok(pid) => match offset_next(flags, lines[n - 1], "clone_flags"@, 8, "0"@) {
                    Err(message) => Err(message),
                    Ok(flags) => Ok((pid, flags)),
                },
            },
        }
    }
}

/// The offsets of the process id and of the clone flags that a description gives.
pub open spec fn format_offsets(format: Text) -> Result<(nat, nat), Text> {
    let lines = lines_from(format, 0);
    match offsets_of(lines, lines.len() as int) {
        Err(message) => Err(message),
        Ok((None, _)) => Err("missing pid field in task_newtask format"@),
        Ok((Some(_), None)) => Err("missing clone_flags field in task_newtask format"@),
        Ok((Some(pid), Some(flags))) => Ok((pid, flags)),
    }
}

/// An error in the middle of the lines stays, whatever stands behind them.
proof fn lemma_offsets_stay(lines: Seq<Text>, n: int, m: int)
    requires
        n <= m,
        offsets_of(lines, n) is Err,
    ensures
        offsets_of(lines, m) == offsets_of(lines, n),
    decreases m - n,
{
    if n < m {
        lemma_offsets_stay(lines, n, m - 1);
    }
}

/// An error in the middle of the attributes stays, whatever stands behind them.
proof fn lemma_collected_stays(pairs: Seq<(Text, Text)>, name: Text, n: int, m: int)
    requires
        n <= m,
        collected(pairs, name, n) is Err,
    ensures
        collected(pairs, name, m) == collected(pairs, name, n),
    decreases m - n,
{
    if n < m {
        lemma_collected_stays(pairs, name, n, m - 1);
    }
}

/// Every offset that a description gives fits the packed form.
pub proof fn lemma_offsets_fit(format: Text)
    ensures
        format_offsets(format) matches Ok((pid, flags)) ==> pid <= u16::MAX && flags <= u16::MAX,
{
    let lines = lines_from(format, 0);
    lemma_lines_fit(lines, lines.len() as int);
}

/// Every offset that lines give fits the packed form.
proof fn lemma_lines_fit(lines: Seq<Text>, n: int)
    ensures
        offsets_of(lines, n) matches Ok((pid, flags)) ==> (pid matches Some(at) ==> at <= u16::MAX)
            && (flags matches Some(at) ==> at <= u16::MAX),
    decreases n,
{
    if n > 0 {
        lemma_lines_fit(lines, n - 1);
    }
}

/// Attributes, by characters.
pub open spec fn pair_texts(pairs: Seq<(String, String)>) -> Seq<(Text, Text)> {
    pairs.map_values(|p: (String, String)| (p.0@, p.1@))
}

/// Takes a line apart into its attributes.
fn read_attributes(line: &str) -> (pairs: Vec<(String, String)>)
    ensures
        pair_texts(pairs@) == line_attributes(line@),
{
    let parts = split_at_each(line, ';');
    let ghost all = pieces(line@, ';');
    let mut pairs: Vec<(String, String)> = Vec::new();
    assert(pair_texts(pairs@) =~= Seq::<(Text, Text)>::empty());
    let mut i: usize = 0;
    assert(texts(parts@).len() == parts@.len());
    while i < parts.len()
        invariant
            i <= parts@.len(),
            all == texts(parts@),
            pair_texts(pairs@) == attributes(all, i as int),
        decreases parts@.len() - i,
    {
        assert(all[i as int] == parts@[i as int]@);
        let inner = trim(parts[i].as_str());
        let len: usize = inner.unicode_len();
        let colon: usize = find_from(inner, ':', 0);
        let ghost before = pair_texts(pairs@);
        if colon < len {
            let left = inner.substring_char(0, colon);
            let right = inner.substring_char(colon + 1, len);
            assert(left@ =~= inner@.take(colon as int));
            assert(right@ =~= inner@.skip(colon + 1));
            let key = trim(left).to_owned();
            let value = trim(right).to_owned();
            let ghost pair = (key@, value@);
            pairs.push((key, value));
            assert(pair_texts(pairs@) =~= before.push(pair));
        }
        i += 1;
    }
    pairs
}

/// Counts how often attributes declare a field.
fn count_declared(pairs: &Vec<(String, String)>, name: &str) -> (r: usize)
    ensures
        r == declared(pair_texts(pairs@), name@, pairs@.len() as int),
{
    let mut count: usize = 0;
    let mut i: usize = 0;
    while i < pairs.len()
        invariant
            i <= pairs@.len(),
            count <= i,
            count == declared(pair_texts(pairs@), name@, i as int),
        decreases pairs@.len() - i,
    {
        assert(pair_texts(pairs@)[i as int] == (pairs@[i as int].0@, pairs@[i as int].1@));
        let value = pairs[i].1.as_str();
        if same(pairs[i].0.as_str(), "field") && value.unicode_len() > 0 && same(
            take_last_word(value),
            name,
        ) {
            count += 1;
        }
        i += 1;
    }
    count
}

/// What a line says of its field, as strings.
struct Field {
    offset: Option<String>,
    size: Option<String>,
    signed: Option<String>,
}

/// A string that may be absent, by characters.
spec fn known(s: Option<String>) -> Option<Text> {
    match s {
        Some(given) => Some(given@),
        None => None,
    }
}

/// What a line says of its field, by characters.
spec fn field_text(field: Field) -> FieldText {
    FieldText { offset: known(field.offset), size: known(field.size), signed: known(field.signed) }
}

/// Writes the message about an attribute that occurs twice.
fn twice(which: &str, name: &str) -> (r: String)
    ensures
        r@ == which@ + name@,
{
    let mut out = which.to_owned();
    out.append(name);
    out
}

/// Collects what attributes say of a field.
fn collect_field(pairs: &Vec<(String, String)>, name: &str) -> (r: Result<Field, String>)
    ensures
        match collected(pair_texts(pairs@), name@, pairs@.len() as int) {
            Ok(field) => r matches Ok(given) && field_text(given) == field,
            Err(message) => r matches Err(given) && given@ == message,
        },
{
    let mut field = Field { offset: None, size: None, signed: None };
    let ghost all = pair_texts(pairs@);
    let mut i: usize = 0;
    while i < pairs.len()
        invariant
            i <= pairs@.len(),
            all == pair_texts(pairs@),
            collected(all, name@, i as int) == Ok::<FieldText, Text>(field_text(field)),
        decreases pairs@.len() - i,
    {
        assert(all[i as int] == (pairs@[i as int].0@, pairs@[i as int].1@));
        let key = pairs[i].0.as_str();
        let value = pairs[i].1.clone();
        if same(key, "offset") {
            if field.offset.is_some() {
                proof {
                    lemma_collected_stays(all, name@, i + 1, pairs@.len() as int);
                }
                return Err(twice("duplicate offset attribute for ", name));
            }
            field.offset = Some(value);
        } else if same(key, "size") {
            if field.size.is_some() {
                proof {
                    lemma_collected_stays(all, name@, i + 1, pairs@.len() as int);
                }
                return Err(twice("duplicate size attribute for ", name));
            }
            field.size = Some(value);
        } else if same(key, "signed") {
            if field.signed.is_some() {
                proof {
                    lemma_collected_stays(all, name@, i + 1, pairs@.len() as int);
                }
                return Err(twice("duplicate signed attribute for ", name));
            }
            field.signed = Some(value);
        }
        i += 1;
    }
    Ok(field)
}

/// Reads the offset of a field whose attributes are known.
fn read_offset(field: &Field, name: &str, size: u64, signed: &str) -> (r: Result<u16, String>)
    ensures
        match field_offset(field_text(*field), name@, size as nat, signed@) {
            Ok(at) => r matches Ok(given) && given == at,
            Err(message) => r matches Err(given) && given@ == message,
        },
{
    let max: u64 = usize::MAX as u64;
    let at: u64 = match &field.offset {
        None => return Err("missing offset".to_owned()),
        Some(offset) => match parse_unsigned(offset.as_str(), max) {
            None => {
                let mut out = twice("invalid offset for ", name);
                out.append(": ");
                out.append(number_fault_of(offset.as_str()).as_str());
                return Err(out);
            },
            Some(at) => at,
        },
    };
    match &field.size {
        None => return Err("missing size".to_owned()),
        Some(given) => {
            if !same(given.as_str(), decimal(size).as_str()) {
                return Err(concat3(name, " must have size ", decimal(size).as_str()));
            }
        },
    }
    match &field.signed {
        None => return Err("missing signedness".to_owned()),
        Some(given) => {
            if !same(given.as_str(), signed) {
                return Err(twice(name, " has unexpected signedness"));
            }
        },
    }
    if size > max || at > max - size {
        return Err("field offset overflows tracepoint record".to_owned());
    }
    if at > 0xffff {
        let mut out = twice("offset outside packed form for ", name);
        out.append(": ");
        out.append(narrowing_fault_of(at as usize).as_str());
        return Err(out);
    }
    Ok(at as u16)
}

/// Reads the offset of a field from the line that declares it.
pub fn parse_task_newtask_field(
    line: &str,
    name: &str,
    expected_size: u64,
    expected_signed: &str,
) -> (r: Result<Option<u16>, String>)
    ensures
        match line_offset(line@, name@, expected_size as nat, expected_signed@) {
            Ok(None) => r matches Ok(given) && given is None,
            Ok(Some(at)) => r matches Ok(given) && (given matches Some(v) && v == at),
            Err(message) => r matches Err(given) && given@ == message,
        },
{
    let pairs = read_attributes(line);
    assert(pair_texts(pairs@).len() == pairs@.len());
    let times: usize = count_declared(&pairs, name);
    if times == 0 {
        return Ok(None);
    }
    if times != 1 {
        return Err(concat3("duplicate ", name, " field attribute in task_newtask format"));
    }
    match collect_field(&pairs, name) {
        Err(message) => Err(message),
        Ok(field) => match read_offset(&field, name, expected_size, expected_signed) {
            Err(message) => Err(message),
            Ok(at) => Ok(Some(at)),
        },
    }
}

/// An offset without its width.
pub open spec fn wide(at: Option<u16>) -> Option<nat> {
    match at {
        Some(v) => Some(v as nat),
        None => None,
    }
}

/// Adds what one line says of a field.
fn next_offset(
    known: Option<u16>,
    line: &str,
    name: &str,
    size: u64,
    signed: &str,
) -> (r: Result<Option<u16>, String>)
    ensures
        match offset_next(wide(known), line@, name@, size as nat, signed@) {
            Ok(at) => r matches Ok(given) && wide(given) == at,
            Err(message) => r matches Err(given) && given@ == message,
        },
{
    match parse_task_newtask_field(line, name, size, signed) {
        Err(message) => Err(message),
        Ok(None) => Ok(known),
        Ok(Some(at)) => {
            if known.is_some() {
                return Err(concat3("duplicate ", name, " field in task_newtask format"));
            }
            Ok(Some(at))
        },
    }
}

/// Reads the offsets of the process id and of the clone flags from a description.
pub fn parse_task_newtask_format(format: &str) -> (r: Result<(u16, u16), String>)
    ensures
        match format_offsets(format@) {
            Ok((pid, flags)) => r matches Ok(given) && given.0 == pid && given.1 == flags,
            Err(message) => r matches Err(given) && given@ == message,
        },
{
    let lines = split_lines(format);
    let ghost all = lines_from(format@, 0);
    assert(texts(lines@).len() == lines@.len());
    let mut pid: Option<u16> = None;
    let mut flags: Option<u16> = None;
    let mut i: usize = 0;
    while i < lines.len()
        invariant
            i <= lines@.len(),
            all == texts(lines@),
            all == lines_from(format@, 0),
            all.len() == lines@.len(),
            offsets_of(all, i as int) == Ok::<(Option<nat>, Option<nat>), Text>(
                (wide(pid), wide(flags)),
            ),
        decreases lines@.len() - i,
    {
        let line = lines[i].as_str();
        assert(all[i as int] == line@);
        match next_offset(pid, line, "pid", 4, "1") {
            Err(message) => {
                proof {
                    lemma_offsets_stay(all, i + 1, all.len() as int);
                }
                return Err(message);
            },
            Ok(at) => {
                pid = at;
            },
        }
        match next_offset(flags, line, "clone_flags", 8, "0") {
            Err(message) => {
                proof {
                    lemma_offsets_stay(all, i + 1, all.len() as int);
                }
                return Err(message);
            },
            Ok(at) => {
                flags = at;
            },
        }
        i += 1;
    }
    match (pid, flags) {
        (None, _) => Err("missing pid field in task_newtask format".to_owned()),
        (Some(_), None) => Err("missing clone_flags field in task_newtask format".to_owned()),
        (Some(pid), Some(flags)) => Ok((pid, flags)),
    }
}

/// The two offsets in one word: the process id in the low half of the lower part, the clone flags
/// above it.
pub fn pack_task_newtask_offsets(pid: u16, clone_flags: u16) -> (r: u64)
    ensures
        r == clone_flags * 0x1_0000 + pid,
{
    clone_flags as u64 * 0x1_0000 + pid as u64
}

/// Why a description could not be read, and whether it is just not there for the observer: absent,
/// or not permitted.
#[derive(Clone, Debug)]
pub struct ReadFailure {
    pub message: String,
    pub unavailable: bool,
}

/// What to do about the description: read it at a path, take what was read, or give up.
#[derive(Debug)]
pub enum FormatStep {
    /// Read the description at this path.
    Read(usize),
    /// The description.
    Found(String),
    /// No path gave it; whether it is just not there for the observer.
    Failed(String, bool),
}

/// How a path that failed is reported.
pub open spec fn failure_text(path: Text, failure: ReadFailure) -> Text {
    path + ": "@ + failure.message@
}

/// How the first `n` failures are reported.
pub open spec fn failure_texts(seen: Seq<Result<String, ReadFailure>>, n: int) -> Seq<Text> {
    Seq::new(n as nat, |i: int| failure_text(format_path(i), seen[i]->Err_0))
}

/// Whether a step is the right one after what was read so far.
pub open spec fn step_follows(seen: Seq<Result<String, ReadFailure>>, step: FormatStep) -> bool {
    let n = seen.len() as int;
    if n > 0 && seen[n - 1] is Ok {
        step matches FormatStep::Found(format) && format@ == seen[n - 1]->Ok_0@
    } else if n < 2 {
        step == FormatStep::Read(n as usize)
    } else {
        step matches FormatStep::Failed(message, unavailable) && message@
            == "reading task/task_newtask format failed: "@ + joined(
            failure_texts(seen, n),
            "; "@,
        ) && unavailable == (forall|i: int|
            0 <= i < n ==> (#[trigger] seen[i])->Err_0.unavailable)
    }
}

/// Writes how a path that failed is reported.
fn report_failure(i: usize, failure: &ReadFailure) -> (r: String)
    requires
        i < 2,
    ensures
        r@ == failure_text(format_path(i as int), *failure),
{
    concat3(task_newtask_format(i), ": ", failure.message.as_str())
}

/// What to do about the description after what was read so far: each path is read once, in order,
/// until one gives it.
pub fn read_task_newtask_format_step(seen: &Vec<Result<String, ReadFailure>>) -> (step: FormatStep)
    requires
        seen@.len() <= 2,
        forall|i: int| 0 <= i < seen@.len() - 1 ==> (#[trigger] seen@[i]) is Err,
    ensures
        step_follows(seen@, step),
{
    let n: usize = seen.len();
    if n > 0 {
        if let Ok(format) = &seen[n - 1] {
            return FormatStep::Found(format.clone());
        }
    }
    if n < 2 {
        return FormatStep::Read(n);
    }
    let mut failures: Vec<String> = Vec::new();
    let mut unavailable: bool = true;
    let mut i: usize = 0;
    assert(texts(failures@) =~= failure_texts(seen@, 0));
    while i < n
        invariant
            i <= n == 2,
            n == seen@.len(),
            forall|k: int| 0 <= k < n ==> (#[trigger] seen@[k]) is Err,
            texts(failures@) == failure_texts(seen@, i as int),
            unavailable == (forall|k: int|
                0 <= k < i ==> (#[trigger] seen@[k])->Err_0.unavailable),
        decreases n - i,
    {
        if let Err(failure) = &seen[i] {
            let ghost before = texts(failures@);
            push_text(&mut failures, report_failure(i, failure));
            assert(texts(failures@) =~= failure_texts(seen@, i + 1));
            if !failure.unavailable {
                assert(!seen@[i as int]->Err_0.unavailable);
                unavailable = false;
            }
        }
        i += 1;
    }
    let mut message = "reading task/task_newtask format failed: ".to_owned();
    message.append(join(&failures, "; ").as_str());
    FormatStep::Failed(message, unavailable)
}

} // verus!
