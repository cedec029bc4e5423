//! What a capture may record, which processes it covers, and the owned child that it may pause.

use crate::text::{concat3, debug_of, debug_text, decimal, digits, same, Text};
use vstd::prelude::*;
use vstd::string::*;

verus! {

/// The configuration bit of a capture that records what is allowed by name.
pub const FLAG_POLICY_ALLOWLISTED: u64 = 1;

/// The configuration bit of a capture that records metadata that nothing validated.
pub const FLAG_POLICY_UNSAFE_UNVALIDATED_METADATA: u64 = 2;

/// The configuration bit of a capture that only counts.
pub const FLAG_POLICY_AGGREGATE: u64 = 4;

/// What a capture records. It is chosen before anything is attached and does not change.
#[derive(Clone, Copy, Debug, PartialEq, Eq, Structural)]
pub enum CapturePolicy {
    Allowlisted,
    UnsafeUnvalidatedMetadata,
    AggregateOnly,
}

/// The policy of a capture mode. Metadata that nothing validated is recorded only where it is asked
/// for and compiled in, and never in metrics mode.
pub open spec fn policy_for(mode: Text, unsafe_requested: bool, unsafe_compiled: bool) -> Result<
    CapturePolicy,
    Text,
> {
    if mode == "metrics"@ {
        if unsafe_requested {
            Err("--unsafe-unvalidated-metadata is not available in metrics mode"@)
        } else {
            Ok(CapturePolicy::AggregateOnly)
        }
    } else if mode == "profile"@ || mode == "trace"@ {
        if !unsafe_requested {
            Ok(CapturePolicy::Allowlisted)
        } else if !unsafe_compiled {
            Err(
                "--unsafe-unvalidated-metadata requires a build with the unsafe-unvalidated-metadata Cargo feature"@,
            )
        } else {
            Ok(CapturePolicy::UnsafeUnvalidatedMetadata)
        }
    } else {
        Err("unknown capture mode "@ + debug_text(mode))
    }
}

impl CapturePolicy {
    /// Chooses the policy of a capture mode.
    pub fn from_cli(mode: &str, unsafe_requested: bool, unsafe_compiled: bool) -> (r: Result<
        Self,
        String,
    >)
        ensures
            match policy_for(mode@, unsafe_requested, unsafe_compiled) {
                Ok(policy) => r == Ok::<CapturePolicy, String>(policy),
                Err(message) => r matches Err(given) && given@ == message,
            },
    {
        if same(mode, "metrics") {
            if unsafe_requested {
                return Err(
                    "--unsafe-unvalidated-metadata is not available in metrics mode".to_owned(),
                );
            }
            return Ok(CapturePolicy::AggregateOnly);
        }
        if same(mode, "profile") || same(mode, "trace") {
            if !unsafe_requested {
                return Ok(CapturePolicy::Allowlisted);
            }
            if !unsafe_compiled {
                return Err(
                    "--unsafe-unvalidated-metadata requires a build with the unsafe-unvalidated-metadata Cargo feature".to_owned(),
                );
            }
            return Ok(CapturePolicy::UnsafeUnvalidatedMetadata);
        }
        let mut message = "unknown capture mode ".to_owned();
        message.append(debug_of(mode).as_str());
        Err(message)
    }

    /// The configuration bit of the policy.
    pub open spec fn bit(self) -> u64 {
        match self {
            CapturePolicy::Allowlisted => FLAG_POLICY_ALLOWLISTED,
            CapturePolicy::UnsafeUnvalidatedMetadata => FLAG_POLICY_UNSAFE_UNVALIDATED_METADATA,
            CapturePolicy::AggregateOnly => FLAG_POLICY_AGGREGATE,
        }
    }

    /// The configuration bit of the policy.
    pub fn config_bit(self) -> (r: u64)
        ensures
            r == self.bit(),
    {
        match self {
            CapturePolicy::Allowlisted => FLAG_POLICY_ALLOWLISTED,
            CapturePolicy::UnsafeUnvalidatedMetadata => FLAG_POLICY_UNSAFE_UNVALIDATED_METADATA,
            CapturePolicy::AggregateOnly => FLAG_POLICY_AGGREGATE,
        }
    }

    /// How the policy is named in what is published.
    pub open spec fn name(self) -> Text {
        match self {
            CapturePolicy::Allowlisted => "allowlisted"@,
            CapturePolicy::UnsafeUnvalidatedMetadata => "unsafe-unvalidated-metadata"@,
            CapturePolicy::AggregateOnly => "aggregate-only"@,
        }
    }

    /// How the policy is named in what is published.
    pub fn privacy_mode(self) -> (r: &'static str)
        ensures
            r@ == self.name(),
    {
        match self {
            CapturePolicy::Allowlisted => "allowlisted",
            CapturePolicy::UnsafeUnvalidatedMetadata => "unsafe-unvalidated-metadata",
            CapturePolicy::AggregateOnly => "aggregate-only",
        }
    }

    /// Tells whether single calls are recorded.
    pub fn uses_events(self) -> (r: bool)
        ensures
            r == (self != CapturePolicy::AggregateOnly),
    {
        match self {
            CapturePolicy::AggregateOnly => false,
            _ => true,
        }
    }

    /// Tells whether metadata that nothing validated is decoded.
    pub fn uses_unsafe_decoders(self) -> (r: bool)
        ensures
            r == (self == CapturePolicy::UnsafeUnvalidatedMetadata),
    {
        match self {
            CapturePolicy::UnsafeUnvalidatedMetadata => true,
            _ => false,
        }
    }
}

/// Two policies never share a configuration bit.
pub proof fn lemma_bits_distinct(a: CapturePolicy, b: CapturePolicy)
    ensures
        a.bit() == b.bit() ==> a == b,
        a.bit() & b.bit() == 0 || a == b,
{
    assert(1u64 & 2u64 == 0 && 1u64 & 4u64 == 0 && 2u64 & 1u64 == 0 && 2u64 & 4u64 == 0 && 4u64
        & 1u64 == 0 && 4u64 & 2u64 == 0) by (bit_vector);
}

/// Metadata that nothing validated is recorded only where it was asked for and compiled in.
pub proof fn lemma_unsafe_is_double_gated(
    mode: Text,
    unsafe_requested: bool,
    unsafe_compiled: bool,
)
    ensures
        policy_for(mode, unsafe_requested, unsafe_compiled) == Ok::<CapturePolicy, Text>(
            CapturePolicy::UnsafeUnvalidatedMetadata,
        ) ==> unsafe_requested && unsafe_compiled && mode != "metrics"@,
        unsafe_requested && (!unsafe_compiled || mode == "metrics"@) ==> policy_for(
            mode,
            unsafe_requested,
            unsafe_compiled,
        ) is Err,
{
}

/// Which processes a capture covers.
#[derive(Clone, Debug)]
pub enum Scope {
    /// One process.
    Pid(u32),
    /// A cgroup with everything below it: its number, and its path.
    Cgroup(u64, String),
}

/// Tells whether the creation of processes is captured: of a cgroup, where single calls are
/// recorded.
pub fn process_creation_capture_enabled(scope: &Scope, policy: CapturePolicy) -> (r: bool)
    ensures
        r == (scope is Cgroup && policy != CapturePolicy::AggregateOnly),
{
    match scope {
        Scope::Cgroup(_, _) => policy.uses_events(),
        Scope::Pid(_) => false,
    }
}

/// The child that a run owns: its process, and the generation that tells it from another process
/// with the same number.
#[derive(Clone, Copy, Debug, PartialEq, Eq, Structural)]
pub struct OwnedPauseGeneration {
    pub tgid: u32,
    pub generation: u64,
}

/// The key under which the kernel side finds whether an owned child may be paused.
#[derive(Clone, Copy, Debug, PartialEq, Eq, Structural)]
pub struct PauseKey {
    pub tgid: u32,
    pub pad: u32,
    pub generation_token: u64,
}

/// The pause key of a capture: only one process that is the owned child has one.
pub open spec fn pause_key_of(scope: Scope, capability: Option<OwnedPauseGeneration>) -> Result<
    Option<PauseKey>,
    Text,
> {
    match capability {
        None => Ok(None),
        Some(owned) => match scope {
            Scope::Pid(pid) => if pid == owned.tgid {
                Ok(
                    Some(
                        PauseKey {
                            tgid: owned.tgid,
                            pad: 0,
                            generation_token: owned.generation,
                        },
                    ),
                )
            } else {
                Err(
                    "owned pause generation PID "@ + digits(owned.tgid as nat)
                        + " does not match selected PID "@ + digits(pid as nat),
                )
            },
            Scope::Cgroup(_, _) => Err("owned pause generation requires PID scope"@),
        },
    }
}

/// Works out the pause key of a capture.
pub fn pause_key_for(scope: &Scope, capability: Option<OwnedPauseGeneration>) -> (r: Result<
    Option<PauseKey>,
    String,
>)
    ensures
        match pause_key_of(*scope, capability) {
            Ok(key) => r == Ok::<Option<PauseKey>, String>(key),
            Err(message) => r matches Err(given) && given@ == message,
        },
{
    match capability {
        None => Ok(None),
        Some(owned) => match scope {
            Scope::Pid(pid) => {
                if *pid == owned.tgid {
                    return Ok(
                        Some(
                            PauseKey {
                                tgid: owned.tgid,
                                pad: 0,
                                generation_token: owned.generation,
                            },
                        ),
                    );
                }
                let mut message = concat3(
                    "owned pause generation PID ",
                    decimal(owned.tgid as u64).as_str(),
                    " does not match selected PID ",
                );
                message.append(decimal(*pid as u64).as_str());
                Err(message)
            },
            Scope::Cgroup(_, _) => Err("owned pause generation requires PID scope".to_owned()),
        },
    }
}

/// What arming the pause of an owned child comes to, from the generation that the kernel side holds
/// for it and from what it reads back after it was armed.
#[derive(Clone, Copy, Debug, PartialEq, Eq, Structural)]
pub enum ArmStep {
    /// Write the authorization and read it back.
    Write,
    /// The child may be paused.
    Armed,
    /// Take the authorization away again: it reads back as something else.
    Withdraw,
}

/// What is reported where the pause of an owned child could not be armed.
pub const NOT_ARMED: &'static str = "PAUSE_PIDS exact full-key readback differs from ARMED";

/// Tells whether the generation that the kernel side holds is still that of the owned child.
pub fn may_arm(key: PauseKey, token: u64) -> (r: Result<ArmStep, String>)
    ensures
        if token != 0 && token == key.generation_token {
            r == Ok::<ArmStep, String>(ArmStep::Write)
        } else {
            r matches Err(message) && message@
                == "PID_FILTER generation token changed; refusing to arm pause"@
        },
{
    if token == 0 || token != key.generation_token {
        return Err("PID_FILTER generation token changed; refusing to arm pause".to_owned());
    }
    Ok(ArmStep::Write)
}

/// What an authorization that was read back comes to.
pub fn arm_read_back(actual: u64) -> (r: ArmStep)
    ensures
        r == if actual == crate::record::PAUSE_ARMED {
            ArmStep::Armed
        } else {
            ArmStep::Withdraw
        },
{
    if actual == crate::record::PAUSE_ARMED {
        ArmStep::Armed
    } else {
        ArmStep::Withdraw
    }
}

} // verus!
