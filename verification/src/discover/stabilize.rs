//! Repeats a discovery until it stands still: until one whole pass used only files that were held
//! before it began, and the very same files as the pass before.

use crate::discover::closure::{closure_fault, closure_keys, keys_of, ProvenanceObject};
use crate::maps::{all_listed, lists_key, same_keys, ObjectKey};
use crate::text::{heard, Text};
use vstd::prelude::*;
use vstd::string::*;

verus! {

/// How many passes a discovery may take.
pub const MAX_STABILIZATION_PASSES: usize = 8;

/// One step of a pass.
#[derive(Clone, Copy, Debug, PartialEq, Eq, Structural)]
pub enum StabilizeStep {
    /// Check everything that is held and the module.
    Before,
    /// Run the helper.
    RunPass,
    /// Check everything that is held and the module again.
    After,
    /// Hold the file at this position of what was reported.
    Retain(usize),
    /// Check everything that is held a last time.
    Last,
    /// The discovery stands still.
    Stable,
    /// A file that is held was about to change.
    Broken,
}

/// A discovery that is repeated: how it is run, the module, how many files it may have, how many
/// passes are over, what the last pass used, what was held before this one, what this one reported
/// and used, and the step that is next.
#[derive(Debug)]
pub struct Stabilizer {
    pub hardened: bool,
    pub seed: ObjectKey,
    pub max_objects: usize,
    pub passes: usize,
    pub previous: Option<Vec<ObjectKey>>,
    pub held: Vec<ObjectKey>,
    pub reported: Vec<ProvenanceObject>,
    pub current: Vec<ObjectKey>,
    pub step: StabilizeStep,
}

/// A discovery that is repeated, by the values that it holds.
pub struct Progress {
    pub hardened: bool,
    pub seed: ObjectKey,
    pub max_objects: nat,
    pub passes: nat,
    pub previous: Option<Set<ObjectKey>>,
    pub held: Set<ObjectKey>,
    pub reported: Seq<ProvenanceObject>,
    pub current: Set<ObjectKey>,
    pub step: StabilizeStep,
}

/// Keys that may be absent, as a set.
pub open spec fn maybe_set(keys: Option<Vec<ObjectKey>>) -> Option<Set<ObjectKey>> {
    match keys {
        Some(list) => Some(list@.to_set()),
        None => None,
    }
}

impl View for Stabilizer {
    type V = Progress;

    open spec fn view(&self) -> Progress {
        Progress {
            hardened: self.hardened,
            seed: self.seed,
            max_objects: self.max_objects as nat,
            passes: self.passes as nat,
            previous: maybe_set(self.previous),
            held: self.held@.to_set(),
            reported: self.reported@,
            current: self.current@.to_set(),
            step: self.step,
        }
    }
}

/// The files that a pass used, where what it reported is a closure that has the module.
pub open spec fn pass_keys(
    reported: Seq<ProvenanceObject>,
    max_objects: nat,
    seed: ObjectKey,
) -> Result<Set<ObjectKey>, Text> {
    match closure_fault(reported, max_objects) {
        Some(message) => Err(message),
        None => {
            let keys = keys_of(reported, reported.len() as int).to_set();
            if keys.contains(seed) {
                Ok(keys)
            } else {
                Err("discovery pass omitted the selected provenance module mapping"@)
            }
        },
    }
}

/// Whether the pass that is over makes the discovery stand still.
pub open spec fn stands_still(p: Progress) -> bool {
    p.current.subset_of(p.held) && p.previous == Some(p.current)
}

/// What a discovery comes to when a check of what is held is over.
pub open spec fn after_check(p: Progress, outcome: Result<bool, Text>) -> Result<Progress, Text> {
    match outcome {
        Err(message) => Err(message),
        Ok(true) => Ok(Progress { step: StabilizeStep::Broken, ..p }),
        Ok(false) => match p.step {
            StabilizeStep::Before => Ok(Progress { step: StabilizeStep::RunPass, ..p }),
            StabilizeStep::After => if p.hardened {
                Ok(Progress { step: StabilizeStep::Retain(0), ..p })
            } else {
                match pass_keys(p.reported, p.max_objects, p.seed) {
                    Err(message) => Err(message),
                    Ok(keys) => Ok(
                        Progress { current: keys, step: StabilizeStep::Retain(0), ..p },
                    ),
                }
            },
            StabilizeStep::Last => if stands_still(p) {
                Ok(Progress { step: StabilizeStep::Stable, ..p })
            } else if p.passes + 1 >= MAX_STABILIZATION_PASSES {
                Err("provenance closure did not stabilize within 8 discovery passes"@)
            } else {
                Ok(
                    Progress {
                        passes: p.passes + 1,
                        previous: Some(p.current),
                        step: StabilizeStep::Before,
                        ..p
                    },
                )
            },
            _ => Ok(p),
        },
    }
}

/// What a discovery comes to when the helper was run. A hardened helper's report is looked at at
/// once; any other only after what is held was checked again.
pub open spec fn after_pass(
    p: Progress,
    held: Set<ObjectKey>,
    reported: Option<Seq<ProvenanceObject>>,
) -> Result<Progress, Text> {
    match reported {
        None => Ok(Progress { step: StabilizeStep::Broken, ..p }),
        Some(list) => if p.hardened {
            match pass_keys(list, p.max_objects, p.seed) {
                Err(message) => Err(message),
                Ok(keys) => Ok(
                    Progress {
                        held,
                        reported: list,
                        current: keys,
                        step: StabilizeStep::After,
                        ..p
                    },
                ),
            }
        } else {
            Ok(Progress { held, reported: list, step: StabilizeStep::After, ..p })
        },
    }
}

/// What a discovery comes to when a reported file was held.
pub open spec fn after_retain(p: Progress, outcome: Result<bool, Text>) -> Result<Progress, Text> {
    match outcome {
        Err(message) => Err(message),
        Ok(true) => Ok(Progress { step: StabilizeStep::Broken, ..p }),
        Ok(false) => match p.step {
            StabilizeStep::Retain(i) => Ok(
                Progress {
                    step: if i + 1 < p.reported.len() {
                        StabilizeStep::Retain((i + 1) as usize)
                    } else {
                        StabilizeStep::Last
                    },
                    ..p
                },
            ),
            _ => Ok(p),
        },
    }
}

/// Whether a discovery is one that can have come about: fewer passes are over than may be, and what
/// the pass used is known where it is relied on.
pub open spec fn sound(p: Progress) -> bool {
    &&& p.passes < MAX_STABILIZATION_PASSES
    &&& (p.step is Retain || p.step is Last || p.step is Stable || (p.hardened && p.step is After))
        ==> pass_keys(p.reported, p.max_objects, p.seed) == Ok::<Set<ObjectKey>, Text>(p.current)
    &&& p.step matches StabilizeStep::Retain(i) ==> i < p.reported.len()
    &&& p.step is Stable ==> stands_still(p)
}

/// A discovery stays one that can have come about.
pub proof fn lemma_sound(
    p: Progress,
    outcome: Result<bool, Text>,
    held: Set<ObjectKey>,
    reported: Option<Seq<ProvenanceObject>>,
)
    requires
        sound(p),
    ensures
        p.step is Before || p.step is After || p.step is Last ==> (after_check(
            p,
            outcome,
        ) matches Ok(q) ==> sound(q)),
        p.step is RunPass ==> (after_pass(p, held, reported) matches Ok(q) ==> sound(q)),
        p.step is Retain ==> (after_retain(p, outcome) matches Ok(q) ==> sound(q)),
{
}

/// A discovery that stands still used the same files in its last two passes, all of them held before
/// the last one began, and the module among them.
pub proof fn lemma_stable(p: Progress)
    requires
        sound(p),
        p.step is Stable,
    ensures
        p.current.subset_of(p.held),
        p.previous == Some(p.current),
        p.current.contains(p.seed),
        p.current == keys_of(p.reported, p.reported.len() as int).to_set(),
{
}

/// The first pass never makes a discovery stand still, and every pass that does not ends nearer to
/// the last one that may be.
pub proof fn lemma_passes(p: Progress)
    requires
        sound(p),
        p.step is Last,
    ensures
        p.previous is None ==> !stands_still(p),
        after_check(p, Ok(false)) matches Ok(q) ==> q.step is Stable || q.passes == p.passes + 1,
{
}

impl Stabilizer {
    /// Nothing run yet.
    pub fn new(hardened: bool, seed: ObjectKey, max_objects: usize) -> (r: Self)
        ensures
            r@.hardened == hardened,
            r@.seed == seed,
            r@.max_objects == max_objects,
            r@.passes == 0,
            r@.previous is None,
            r@.step == StabilizeStep::Before,
            sound(r@),
    {
        Stabilizer {
            hardened,
            seed,
            max_objects,
            passes: 0,
            previous: None,
            held: Vec::new(),
            reported: Vec::new(),
            current: Vec::new(),
            step: StabilizeStep::Before,
        }
    }

    /// The files that a report used.
    fn judge(&self, reported: &Vec<ProvenanceObject>) -> (r: Result<Vec<ObjectKey>, String>)
        ensures
            match pass_keys(reported@, self.max_objects as nat, self.seed) {
                Ok(keys) => r matches Ok(given) && given@.to_set() == keys,
                Err(message) => r matches Err(given) && given@ == message,
            },
    {
        match closure_keys(reported, self.max_objects) {
            Err(message) => Err(message),
            Ok(keys) => {
                if !lists_key(&keys, &self.seed) {
                    return Err(
                        "discovery pass omitted the selected provenance module mapping".to_owned(),
                    );
                }
                Ok(keys)
            },
        }
    }

    /// Tells whether the pass that is over makes the discovery stand still.
    fn is_still(&self) -> (r: bool)
        ensures
            r == stands_still(self@),
    {
        match &self.previous {
            None => false,
            Some(previous) => all_listed(&self.current, &self.held) && same_keys(
                previous,
                &self.current,
            ),
        }
    }

    /// Takes in the outcome of a check of what is held: whether a held file was about to change.
    pub fn checked(&mut self, outcome: Result<bool, String>) -> (r: Result<(), String>)
        requires
            sound(old(self)@),
            old(self).step is Before || old(self).step is After || old(self).step is Last,
        ensures
            match after_check(old(self)@, heard(outcome)) {
                Ok(p) => r is Ok && final(self)@ == p && sound(p),
                Err(message) => final(self)@ == old(self)@ && (r matches Err(given) && given@
                    == message),
            },
    {
        proof {
            lemma_sound(self@, heard(outcome), Set::empty(), None);
        }
        let broken: bool = match outcome {
            Ok(broken) => broken,
            Err(message) => return Err(message),
        };
        if broken {
            self.step = StabilizeStep::Broken;
            return Ok(());
        }
        match self.step {
            StabilizeStep::Before => {
                self.step = StabilizeStep::RunPass;
                Ok(())
            },
            StabilizeStep::After => {
                if !self.hardened {
                    match self.judge(&self.reported) {
                        Err(message) => return Err(message),
                        Ok(keys) => {
                            self.current = keys;
                        },
                    }
                }
                self.step = StabilizeStep::Retain(0);
                Ok(())
            },
            StabilizeStep::Last => {
                if self.is_still() {
                    self.step = StabilizeStep::Stable;
                    return Ok(());
                }
                if self.passes + 1 >= MAX_STABILIZATION_PASSES {
                    return Err(
                        "provenance closure did not stabilize within 8 discovery passes".to_owned(),
                    );
                }
                self.passes = self.passes + 1;
                self.previous = Some(copy_keys(&self.current));
                self.step = StabilizeStep::Before;
                Ok(())
            },
            _ => Ok(()),
        }
    }

    /// Takes in what a run of the helper reported, beside what was held before it; nothing where a
    /// held file was about to change.
    pub fn passed(
        &mut self,
        held: Vec<ObjectKey>,
        reported: Option<Vec<ProvenanceObject>>,
    ) -> (r: Result<(), String>)
        requires
            sound(old(self)@),
            old(self).step is RunPass,
        ensures
            match after_pass(
                old(self)@,
                held@.to_set(),
                match reported {
                    Some(list) => Some(list@),
                    None => None,
                },
            ) {
                Ok(p) => r is Ok && final(self)@ == p && sound(p),
                Err(message) => final(self)@ == old(self)@ && (r matches Err(given) && given@
                    == message),
            },
    {
        let list = match reported {
            None => {
                self.step = StabilizeStep::Broken;
                return Ok(());
            },
            Some(list) => list,
        };
        if self.hardened {
            match self.judge(&list) {
                Err(message) => return Err(message),
                Ok(keys) => {
                    self.current = keys;
                },
            }
        }
        self.held = held;
        self.reported = list;
        self.step = StabilizeStep::After;
        Ok(())
    }

    /// Takes in the outcome of holding a reported file: whether a held file was about to change.
    pub fn retained(&mut self, outcome: Result<bool, String>) -> (r: Result<(), String>)
        requires
            sound(old(self)@),
            old(self).step is Retain,
        ensures
            match after_retain(old(self)@, heard(outcome)) {
                Ok(p) => r is Ok && final(self)@ == p && sound(p),
                Err(message) => final(self)@ == old(self)@ && (r matches Err(given) && given@
                    == message),
            },
    {
        let broken: bool = match outcome {
            Ok(broken) => broken,
            Err(message) => return Err(message),
        };
        if broken {
            self.step = StabilizeStep::Broken;
            return Ok(());
        }
        if let StabilizeStep::Retain(i) = self.step {
            let count: usize = self.reported.len();
            if i + 1 < count {
                self.step = StabilizeStep::Retain(i + 1);
            } else {
                self.step = StabilizeStep::Last;
            }
        }
        Ok(())
    }
}

/// Copies keys.
fn copy_keys(keys: &Vec<ObjectKey>) -> (r: Vec<ObjectKey>)
    ensures
        r@ == keys@,
{
    let mut r: Vec<ObjectKey> = Vec::new();
    let mut i: usize = 0;
    while i < keys.len()
        invariant
            i <= keys@.len(),
            r@ == keys@.take(i as int),
        decreases keys@.len() - i,
    {
        r.push(keys[i]);
        i += 1;
        assert(r@ =~= keys@.take(i as int));
    }
    assert(keys@.take(i as int) =~= keys@);
    r
}

/// How a hardened discovery ends, from what was checked after everything was cleaned up: the held
/// files, the module, the preparation, and what the discovery itself came to. The first that failed
/// decides.
pub fn finish_hardened(
    lease_check: Result<(), String>,
    seed_check: Result<(), String>,
    validation: Result<(), String>,
    stabilization: Result<(), String>,
) -> (r: Result<(), String>)
    ensures
        match (heard(lease_check), heard(seed_check), heard(validation), heard(stabilization)) {
            (Err(error), _, _, _) => r matches Err(message) && message@
                == "rechecking hardened glibc leases after cleanup: "@ + error,
            (Ok(_), Err(error), _, _) => r matches Err(message) && message@
                == "revalidating the provenance seed after cleanup: "@ + error,
            (Ok(_), Ok(_), Err(error), _) => r matches Err(message) && message@
                == "revalidating hardened glibc preparation: "@ + error,
            (Ok(_), Ok(_), Ok(_), Err(error)) => r matches Err(message) && message@ == error,
            (Ok(_), Ok(_), Ok(_), Ok(_)) => r is Ok,
        },
{
    if let Err(error) = lease_check {
        let mut message = "rechecking hardened glibc leases after cleanup: ".to_owned();
        message.append(error.as_str());
        return Err(message);
    }
    if let Err(error) = seed_check {
        let mut message = "revalidating the provenance seed after cleanup: ".to_owned();
        message.append(error.as_str());
        return Err(message);
    }
    if let Err(error) = validation {
        let mut message = "revalidating hardened glibc preparation: ".to_owned();
        message.append(error.as_str());
        return Err(message);
    }
    stabilization
}

} // verus!
