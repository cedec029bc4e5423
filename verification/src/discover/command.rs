//! How a hardened helper is started, spoken to and ended: through descriptors alone, so that no
//! name decides what is executed.

use crate::discover::closure::{is_absolute, starts_at_root};
use crate::discover::protocol::ControlPacket;
use crate::text::{contains_part, holds_part, signed_decimal, signed_digits, texts, Text};
use vstd::prelude::*;
use vstd::string::*;

verus! {

/// The descriptors that a helper is started through.
#[derive(Clone, Copy, Debug)]
pub struct HelperDescriptors {
    pub loader: i32,
    pub helper: i32,
    /// The private directory of libraries.
    pub directory: i32,
    /// The helper's end of the control channel.
    pub control: i32,
}

/// The path of a descriptor of this process.
pub open spec fn own_descriptor(fd: i32) -> Text {
    "/proc/self/fd/"@ + signed_digits(fd as int)
}

fn write_own_descriptor(fd: i32) -> (r: String)
    ensures
        r@ == own_descriptor(fd),
{
    let mut path = "/proc/self/fd/".to_owned();
    path.append(signed_decimal(fd as i64).as_str());
    path
}

/// What is executed to start a helper, with its arguments: the held loader, which takes libraries
/// from the private directory only, and runs the held helper.
pub open spec fn helper_line(fds: HelperDescriptors, module: Text) -> Seq<Text> {
    seq![
        own_descriptor(fds.loader),
        "--inhibit-cache"@,
        "--library-path"@,
        own_descriptor(fds.directory),
        own_descriptor(fds.helper),
        "--module"@,
        module,
        "--control-fd"@,
        signed_digits(fds.control as int),
    ]
}

/// Makes what is executed to start a helper. The module must be given from the root.
pub fn helper_command(fds: HelperDescriptors, module: &str) -> (r: Result<Vec<String>, String>)
    ensures
        if is_absolute(module@) {
            r matches Ok(line) && texts(line@) == helper_line(fds, module@)
        } else {
            r matches Err(message) && message@
                == "hardened discovery provider path must be absolute"@
        },
{
    if !starts_at_root(module) {
        return Err("hardened discovery provider path must be absolute".to_owned());
    }
    let mut line: Vec<String> = Vec::new();
    line.push(write_own_descriptor(fds.loader));
    line.push("--inhibit-cache".to_owned());
    line.push("--library-path".to_owned());
    line.push(write_own_descriptor(fds.directory));
    line.push(write_own_descriptor(fds.helper));
    line.push("--module".to_owned());
    line.push(module.to_owned());
    line.push("--control-fd".to_owned());
    line.push(signed_decimal(fds.control as i64));
    assert(texts(line@) =~= helper_line(fds, module@));
    Ok(line)
}

/// What a helper inherits: the descriptors of its runtime, and those that it is started through.
pub fn helper_inheritance(runtime: Vec<i32>, fds: HelperDescriptors) -> (r: Vec<i32>)
    ensures
        r@ == runtime@ + seq![fds.loader, fds.helper, fds.directory, fds.control],
{
    let mut inherited = runtime;
    inherited.push(fds.loader);
    inherited.push(fds.helper);
    inherited.push(fds.directory);
    inherited.push(fds.control);
    assert(inherited@ =~= runtime@ + seq![fds.loader, fds.helper, fds.directory, fds.control]);
    inherited
}

/// Refuses the name of an alias that cannot be handed to the kernel.
pub fn check_alias(name: &[u8]) -> (r: Result<(), String>)
    ensures
        if name@.contains(0u8) {
            r matches Err(message) && message@ == "private glibc alias contains NUL"@
        } else {
            r is Ok
        },
{
    let mut i: usize = 0;
    while i < name.len()
        invariant
            i <= name@.len(),
            forall|j: int| 0 <= j < i ==> name@[j] != 0u8,
        decreases name@.len() - i,
    {
        if name[i] == 0 {
            assert(name@[i as int] == 0u8);
            return Err("private glibc alias contains NUL".to_owned());
        }
        i += 1;
    }
    Ok(())
}

/// The room for a control packet, in bytes.
pub const CONTROL_BYTES: usize = 32;

/// What came of receiving on the control channel.
#[derive(Debug)]
pub enum Received {
    /// Nothing is there now.
    Later,
    /// It failed.
    Failed(String),
    /// A packet of this length, which may be longer than the room for it.
    Length(usize),
}

/// What was received: a packet is never cut short, and an empty one is the end.
pub fn read_control(received: Received, room: &Vec<u8>) -> (r: Result<ControlPacket, String>)
    requires
        room@.len() == CONTROL_BYTES,
    ensures
        match received {
            Received::Later => r == Ok::<ControlPacket, String>(ControlPacket::Nothing),
            Received::Failed(error) => r matches Err(message) && message@
                == "receiving hardened discovery control packet: "@ + error@,
            Received::Length(length) => if length == 0 {
                r == Ok::<ControlPacket, String>(ControlPacket::Eof)
            } else if length > CONTROL_BYTES {
                r matches Err(message) && message@
                    == "hardened discovery control packet exceeds 32 bytes"@
            } else {
                r matches Ok(ControlPacket::Packet(bytes)) && bytes@ == room@.take(length as int)
            },
        },
{
    match received {
        Received::Later => Ok(ControlPacket::Nothing),
        Received::Failed(error) => {
            let mut message = "receiving hardened discovery control packet: ".to_owned();
            message.append(error.as_str());
            Err(message)
        },
        Received::Length(length) => {
            if length == 0 {
                return Ok(ControlPacket::Eof);
            }
            if length > CONTROL_BYTES {
                return Err("hardened discovery control packet exceeds 32 bytes".to_owned());
            }
            let mut bytes: Vec<u8> = Vec::new();
            let mut i: usize = 0;
            while i < length
                invariant
                    i <= length <= room@.len(),
                    bytes@ == room@.take(i as int),
                decreases length - i,
            {
                bytes.push(room[i]);
                i += 1;
                assert(bytes@ =~= room@.take(i as int));
            }
            Ok(ControlPacket::Packet(bytes))
        },
    }
}

/// Refuses a packet that was not sent whole.
pub fn check_sent(sent: Result<usize, String>, length: usize) -> (r: Result<(), String>)
    ensures
        match sent {
            Err(error) => r == Err::<(), String>(error),
            Ok(count) => if count == length {
                r is Ok
            } else {
                r matches Err(message) && message@
                    == "hardened discovery control packet was partially sent"@
            },
        },
{
    match sent {
        Err(error) => Err(error),
        Ok(count) => if count == length {
            Ok(())
        } else {
            Err("hardened discovery control packet was partially sent".to_owned())
        },
    }
}

/// What came of killing the process group of a helper.
#[derive(Debug)]
pub enum GroupKill {
    /// It was signalled, or is gone.
    Done,
    /// It failed.
    Failed(String),
}

/// What came of killing the helper through its descriptor, and of waiting for its end.
#[derive(Debug)]
pub struct LeaderKill {
    pub signalled: Result<(), String>,
    pub waited: Result<(), String>,
}

/// The first thing that failed when a helper was killed. That it is gone already is no failure.
pub open spec fn kill_fault(group: GroupKill, leader: Option<LeaderKill>) -> Option<Text> {
    match group {
        GroupKill::Failed(error) => Some(
            "killing hardened discovery process group failed: "@ + error@,
        ),
        GroupKill::Done => match leader {
            None => None,
            Some(leader) => match leader.signalled {
                Err(error) if !holds_part(error@, "No such process"@) => Some(error@),
                _ => match leader.waited {
                    Err(error) => Some(error@),
                    Ok(_) => None,
                },
            },
        },
    }
}

/// What ending a helper comes to. It must be reaped, whatever failed before.
pub fn settle_end(group: GroupKill, leader: Option<LeaderKill>, reaped: Result<(), String>) -> (r:
    Result<(), String>)
    ensures
        match reaped {
            Err(error) => r matches Err(message) && message@
                == "reaping hardened discovery child: "@ + error@,
            Ok(_) => match kill_fault(group, leader) {
                Some(fault) => r matches Err(message) && message@ == fault,
                None => r is Ok,
            },
        },
{
    if let Err(error) = reaped {
        let mut message = "reaping hardened discovery child: ".to_owned();
        message.append(error.as_str());
        return Err(message);
    }
    if let GroupKill::Failed(error) = group {
        let mut message = "killing hardened discovery process group failed: ".to_owned();
        message.append(error.as_str());
        return Err(message);
    }
    match leader {
        None => Ok(()),
        Some(leader) => {
            if let Err(error) = leader.signalled {
                if !contains_part(error.as_str(), "No such process") {
                    return Err(error);
                }
            }
            leader.waited
        },
    }
}

} // verus!
