//! What holds of the links of a session and of the probes of slots, said of the links and results
//! themselves.

use crate::attach::dynamic::pending_from;
use crate::attach::links::{
    exports_for, failures_of, first_failure, DynamicExportIdentity, RegisteredLink,
};
use crate::attach::policy::CapturePolicy;
use crate::attach::probes::{
    entries_of, entry_name, entry_rank, entry_steps, lemma_entry_after_return, return_failures,
    returned, returns_of, served, side_of, ProbeSide, Slot, SlotSemantics,
};
use crate::attach::session::{
    chosen, failed_slots, has_slot, link_exports, linked, links_by_turn, links_with_turn, repeated,
    selects, target_fault, Selection,
};
use crate::discovery::loader::LoaderContextId;
use crate::text::Text;
use vstd::multiset::Multiset;
use vstd::prelude::*;
use vstd::seq_lib::group_to_multiset_ensures;
use vstd::string::*;

verus! {

/// Whether a link is handed over where some links are meant: every one, the probes of one loader
/// context, or the probes of some slots.
pub open spec fn is_meant(selection: Selection, link: RegisteredLink) -> bool {
    match selection {
        Selection::All => true,
        Selection::Context(meant) => match link {
            RegisteredLink::UProbe { .. } => false,
            RegisteredLink::TracePoint { .. } => false,
            RegisteredLink::DynamicUProbe { context, .. } => context == meant,
        },
        Selection::Slots(slots) => match link {
            RegisteredLink::UProbe { slot, .. } => exists|i: int|
                0 <= i < slots@.len() && #[trigger] slots@[i] == slot,
            RegisteredLink::TracePoint { .. } => false,
            RegisteredLink::DynamicUProbe { .. } => false,
        },
    }
}

/// Whether links are handed over and kept as they should be: what is handed over and what is kept
/// make up what there was, every link that is handed over is meant, and none that is kept is.
pub open spec fn parts_links(
    links: Seq<RegisteredLink>,
    selection: Selection,
    taken: Seq<RegisteredLink>,
    kept: Seq<RegisteredLink>,
) -> bool {
    &&& links.to_multiset() == taken.to_multiset().add(kept.to_multiset())
    &&& forall|i: int| 0 <= i < taken.len() ==> is_meant(selection, #[trigger] taken[i])
    &&& forall|i: int| 0 <= i < kept.len() ==> !is_meant(selection, #[trigger] kept[i])
    &&& forall|i: int|
        0 <= i < links.len() ==> if is_meant(selection, #[trigger] links[i]) {
            taken.contains(links[i])
        } else {
            kept.contains(links[i])
        }
}

/// Taking links hands over exactly those that are meant, each once, and keeps every other one. So
/// taking the links of one loader context keeps the probes of every other context, of every slot
/// and of every kernel event.
pub proof fn lemma_only_the_meant_are_taken(links: Seq<RegisteredLink>, selection: Selection)
    ensures
        parts_links(
            links,
            selection,
            links_by_turn(chosen(links, selection, true, links.len() as int), 7),
            chosen(links, selection, false, links.len() as int),
        ),
{
    broadcast use group_to_multiset_ensures;

    let n = links.len() as int;
    let selected = chosen(links, selection, true, n);
    let kept = chosen(links, selection, false, n);
    let taken = links_by_turn(selected, 7);
    lemma_chosen_bags(links, selection, n);
    assert(links.take(n) =~= links);
    lemma_turn_bags(selected);
    assert forall|i: int| 0 <= i < taken.len() implies is_meant(selection, #[trigger] taken[i]) by {
        assert(taken.to_multiset().count(taken[i]) > 0) by {
            assert(taken.contains(taken[i]));
        }
        assert(selected.contains(taken[i]));
        let k = choose|k: int| 0 <= k < selected.len() && selected[k] == taken[i];
        lemma_chosen_meant(links, selection, true, n, k);
    }
    assert forall|i: int| 0 <= i < kept.len() implies !is_meant(selection, #[trigger] kept[i]) by {
        lemma_chosen_meant(links, selection, false, n, i);
    }
    assert forall|i: int| 0 <= i < links.len() implies if is_meant(
        selection,
        #[trigger] links[i],
    ) {
        taken.contains(links[i])
    } else {
        kept.contains(links[i])
    } by {
        assert(links.contains(links[i]));
        assert(links.to_multiset().count(links[i]) > 0);
        if is_meant(selection, links[i]) {
            if kept.to_multiset().count(links[i]) > 0 {
                assert(kept.contains(links[i]));
                let k = choose|k: int| 0 <= k < kept.len() && kept[k] == links[i];
                assert(!is_meant(selection, kept[k]));
            }
            assert(taken.to_multiset().count(links[i]) > 0);
        } else {
            if taken.to_multiset().count(links[i]) > 0 {
                assert(taken.contains(links[i]));
                let k = choose|k: int| 0 <= k < taken.len() && taken[k] == links[i];
                assert(is_meant(selection, taken[k]));
            }
            assert(kept.to_multiset().count(links[i]) > 0);
        }
    }
}

/// Every link chosen is meant, or is not, as asked.
proof fn lemma_chosen_meant(
    links: Seq<RegisteredLink>,
    selection: Selection,
    meant: bool,
    n: int,
    k: int,
)
    requires
        0 <= n <= links.len(),
        0 <= k < chosen(links, selection, meant, n).len(),
    ensures
        is_meant(selection, chosen(links, selection, meant, n)[k]) == meant,
    decreases n,
{
    if n > 0 {
        if k < chosen(links, selection, meant, n - 1).len() {
            lemma_chosen_meant(links, selection, meant, n - 1, k);
        } else {
            lemma_meant(selection, links[n - 1]);
        }
    }
}

/// A link is selected exactly where it is meant.
proof fn lemma_meant(selection: Selection, link: RegisteredLink)
    ensures
        selects(selection, link) == is_meant(selection, link),
{
    if let Selection::Slots(slots) = selection {
        if let RegisteredLink::UProbe { slot, .. } = link {
            if slots@.contains(slot) {
                let i = choose|i: int| 0 <= i < slots@.len() && slots@[i] == slot;
                assert(slots@[i] == slot);
            }
        }
    }
}

/// What is meant and what is not make up what there is.
proof fn lemma_chosen_bags(links: Seq<RegisteredLink>, selection: Selection, n: int)
    requires
        0 <= n <= links.len(),
    ensures
        links.take(n).to_multiset() == chosen(links, selection, true, n).to_multiset().add(
            chosen(links, selection, false, n).to_multiset(),
        ),
    decreases n,
{
    broadcast use group_to_multiset_ensures;

    if n > 0 {
        lemma_chosen_bags(links, selection, n - 1);
        assert(links.take(n) =~= links.take(n - 1).push(links[n - 1]));
    }
    assert(links.take(n).to_multiset() =~= chosen(links, selection, true, n).to_multiset().add(
        chosen(links, selection, false, n).to_multiset(),
    )) by {
        if n <= 0 {
            assert(links.take(n) =~= Seq::<RegisteredLink>::empty());
            lemma_no_links();
        }
    }
}

/// No links make no bag.
proof fn lemma_no_links()
    ensures
        Seq::<RegisteredLink>::empty().to_multiset() == Multiset::<RegisteredLink>::empty(),
{
    broadcast use group_to_multiset_ensures;

    assert(Seq::<RegisteredLink>::empty().to_multiset() =~= Multiset::<RegisteredLink>::empty())
    by {
        assert forall|link: RegisteredLink|
            Seq::<RegisteredLink>::empty().to_multiset().count(link) == 0 by {
            assert(!Seq::<RegisteredLink>::empty().contains(link));
        }
    }
}

/// The links of one turn, as a bag.
spec fn turn_bag(links: Seq<RegisteredLink>, turn: int, n: int) -> Multiset<RegisteredLink> {
    links_with_turn(links, turn, n).to_multiset()
}

/// The links of every turn make up what there is.
proof fn lemma_turns_bag(links: Seq<RegisteredLink>, n: int)
    requires
        0 <= n <= links.len(),
    ensures
        links.take(n).to_multiset() == turn_bag(links, 0, n).add(turn_bag(links, 1, n)).add(
            turn_bag(links, 2, n),
        ).add(turn_bag(links, 3, n)).add(turn_bag(links, 4, n)).add(turn_bag(links, 5, n)).add(
            turn_bag(links, 6, n),
        ),
    decreases n,
{
    broadcast use group_to_multiset_ensures;

    let all = turn_bag(links, 0, n).add(turn_bag(links, 1, n)).add(turn_bag(links, 2, n)).add(
        turn_bag(links, 3, n),
    ).add(turn_bag(links, 4, n)).add(turn_bag(links, 5, n)).add(turn_bag(links, 6, n));
    if n > 0 {
        lemma_turns_bag(links, n - 1);
        assert(links.take(n) =~= links.take(n - 1).push(links[n - 1]));
        assert(links.take(n).to_multiset() =~= all);
    } else {
        assert(links.take(n) =~= Seq::<RegisteredLink>::empty());
        lemma_no_links();
        assert(links.take(n).to_multiset() =~= all);
    }
}

/// Putting links into the order of their turns neither loses one nor doubles one.
proof fn lemma_turn_bags(links: Seq<RegisteredLink>)
    ensures
        links_by_turn(links, 7).to_multiset() == links.to_multiset(),
{
    reveal_with_fuel(links_by_turn, 8);
    let n = links.len() as int;
    lemma_turns_bag(links, n);
    assert(links.take(n) =~= links);
    let none = Seq::<RegisteredLink>::empty();
    lemma_no_links();
    vstd::seq_lib::lemma_multiset_commutative(none, links_with_turn(links, 0, n));
    vstd::seq_lib::lemma_multiset_commutative(
        links_by_turn(links, 1),
        links_with_turn(links, 1, n),
    );
    vstd::seq_lib::lemma_multiset_commutative(
        links_by_turn(links, 2),
        links_with_turn(links, 2, n),
    );
    vstd::seq_lib::lemma_multiset_commutative(
        links_by_turn(links, 3),
        links_with_turn(links, 3, n),
    );
    vstd::seq_lib::lemma_multiset_commutative(
        links_by_turn(links, 4),
        links_with_turn(links, 4, n),
    );
    vstd::seq_lib::lemma_multiset_commutative(
        links_by_turn(links, 5),
        links_with_turn(links, 5, n),
    );
    vstd::seq_lib::lemma_multiset_commutative(
        links_by_turn(links, 6),
        links_with_turn(links, 6, n),
    );
    assert(links_by_turn(links, 7).to_multiset() =~= links.to_multiset());
}

/// Whether a link is a probe at the entry of a slot's function.
pub open spec fn is_entry_probe(link: RegisteredLink) -> bool {
    match link {
        RegisteredLink::UProbe { program, .. } => program@ == "p11_entry"@ || program@
            == "p11_entry_template"@ || program@ == "p11_entry_template_types"@ || program@
            == "p11_entry_template_pair"@,
        _ => false,
    }
}

/// Whether a link is a probe at the return of a slot's function.
pub open spec fn is_return_probe(link: RegisteredLink) -> bool {
    match link {
        RegisteredLink::UProbe { program, .. } => program@ == "p11_return"@,
        _ => false,
    }
}

/// Whether a link is the probe of the creation of processes.
pub open spec fn is_creation_probe(link: RegisteredLink) -> bool {
    match link {
        RegisteredLink::TracePoint { program, .. } => program@ == "task_newtask"@,
        _ => false,
    }
}

/// Entry probes are detached before anything else, the probe of the creation of processes before
/// every return probe, and return probes before the probes of loader contexts and of other kernel
/// events.
pub proof fn lemma_entries_are_detached_first(links: Seq<RegisteredLink>, a: int, b: int)
    requires
        0 <= a < b < links_by_turn(links, 7).len(),
        forall|i: int|
            0 <= i < links.len() ==> ((#[trigger] links[i]) matches RegisteredLink::DynamicUProbe {
                program,
                ..
            } ==> program@ != "p11_entry"@ && program@ != "p11_entry_template"@ && program@
                != "p11_entry_template_types"@ && program@ != "p11_entry_template_pair"@ && program@
                != "p11_return"@),
    ensures
        ({
            let first = links_by_turn(links, 7)[a];
            let second = links_by_turn(links, 7)[b];
            &&& is_entry_probe(second) ==> is_entry_probe(first)
            &&& is_creation_probe(second) ==> is_entry_probe(first) || is_creation_probe(first)
            &&& is_return_probe(second) ==> is_entry_probe(first) || is_creation_probe(first)
                || is_return_probe(first)
        }),
{
    broadcast use group_to_multiset_ensures;

    let taken = links_by_turn(links, 7);
    lemma_turns_grow(links, 7, a, b);
    lemma_turn_bags(links);
    assert(taken.contains(taken[a]) && taken.contains(taken[b]));
    assert(taken.to_multiset().count(taken[a]) > 0 && taken.to_multiset().count(taken[b]) > 0);
    assert(links.contains(taken[a]) && links.contains(taken[b]));
    let i = choose|i: int| 0 <= i < links.len() && links[i] == taken[a];
    let j = choose|j: int| 0 <= j < links.len() && links[j] == taken[b];
    assert(links[i] == taken[a] && links[j] == taken[b]);
    lemma_program_names();
}

/// The names of the programs of slots differ.
proof fn lemma_program_names()
    ensures
        "p11_entry"@ != "p11_return"@,
        "p11_entry_template"@ != "p11_return"@,
        "p11_entry_template_types"@ != "p11_return"@,
        "p11_entry_template_pair"@ != "p11_return"@,
        "p11_entry"@ != "p11_entry_template"@,
        "p11_entry"@ != "p11_entry_template_types"@,
        "p11_entry"@ != "p11_entry_template_pair"@,
        "p11_entry_template"@ != "p11_entry_template_types"@,
        "p11_entry_template"@ != "p11_entry_template_pair"@,
        "p11_entry_template_types"@ != "p11_entry_template_pair"@,
{
    reveal_strlit("p11_entry");
    reveal_strlit("p11_entry_template");
    reveal_strlit("p11_entry_template_types");
    reveal_strlit("p11_entry_template_pair");
    reveal_strlit("p11_return");
    assert("p11_entry"@.len() == 9);
    assert("p11_return"@.len() == 10);
    assert("p11_entry_template"@.len() == 18);
    assert("p11_entry_template_pair"@.len() == 23);
    assert("p11_entry_template_types"@.len() == 24);
}

/// In the order of turns no turn comes before an earlier one.
proof fn lemma_turns_grow(links: Seq<RegisteredLink>, turns: int, a: int, b: int)
    requires
        0 <= a < b < links_by_turn(links, turns).len(),
    ensures
        links_by_turn(links, turns)[a].rank() <= links_by_turn(links, turns)[b].rank(),
    decreases turns,
{
    if turns > 0 {
        let before = links_by_turn(links, turns - 1);
        if b < before.len() {
            lemma_turns_grow(links, turns - 1, a, b);
        } else {
            lemma_of_turn(links, turns - 1, links.len() as int, b - before.len());
            if a < before.len() {
                lemma_of_earlier_turns(links, turns - 1, a);
            } else {
                lemma_of_turn(links, turns - 1, links.len() as int, a - before.len());
            }
        }
    }
}

/// Every link of a turn has that turn.
proof fn lemma_of_turn(links: Seq<RegisteredLink>, turn: int, n: int, k: int)
    requires
        0 <= n <= links.len(),
        0 <= k < links_with_turn(links, turn, n).len(),
    ensures
        links_with_turn(links, turn, n)[k].rank() == turn,
    decreases n,
{
    if n > 0 && k < links_with_turn(links, turn, n - 1).len() {
        lemma_of_turn(links, turn, n - 1, k);
    }
}

/// Every link of the first turns has one of them.
proof fn lemma_of_earlier_turns(links: Seq<RegisteredLink>, turns: int, k: int)
    requires
        0 <= k < links_by_turn(links, turns).len(),
    ensures
        links_by_turn(links, turns)[k].rank() < turns,
    decreases turns,
{
    if turns > 0 {
        let before = links_by_turn(links, turns - 1);
        if k < before.len() {
            lemma_of_earlier_turns(links, turns - 1, k);
        } else {
            lemma_of_turn(links, turns - 1, links.len() as int, k - before.len());
        }
    }
}

/// Probes of loader contexts are detached in the order in which they were remembered: of a pair,
/// the entry probe goes before the return probe that consumes its state.
pub proof fn lemma_pairs_stay_in_order(
    links: Seq<RegisteredLink>,
    selection: Selection,
    i: int,
    j: int,
) -> (at: (int, int))
    requires
        0 <= i < j < links.len(),
        is_meant(selection, links[i]),
        is_meant(selection, links[j]),
        links[i].rank() == links[j].rank(),
    ensures
        ({
            let taken = links_by_turn(chosen(links, selection, true, links.len() as int), 7);
            &&& 0 <= at.0 < at.1 < taken.len()
            &&& taken[at.0] == links[i]
            &&& taken[at.1] == links[j]
        }),
{
    let n = links.len() as int;
    let selected = chosen(links, selection, true, n);
    let (p, q) = lemma_chosen_in_order(links, selection, i, j, n);
    let turn = links[i].rank();
    let (a, b) = lemma_turn_in_order(selected, turn, p, q, selected.len() as int);
    let start = links_by_turn(selected, turn).len() as int;
    lemma_turn_starts(selected, turn, 7, a);
    lemma_turn_starts(selected, turn, 7, b);
    (start + a, start + b)
}

/// Chosen links stay in their order.
proof fn lemma_chosen_in_order(
    links: Seq<RegisteredLink>,
    selection: Selection,
    i: int,
    j: int,
    n: int,
) -> (at: (int, int))
    requires
        0 <= i <= j < n <= links.len(),
        is_meant(selection, links[i]),
        is_meant(selection, links[j]),
    ensures
        0 <= at.0 <= at.1 < chosen(links, selection, true, n).len(),
        i < j ==> at.0 < at.1,
        chosen(links, selection, true, n)[at.0] == links[i],
        chosen(links, selection, true, n)[at.1] == links[j],
    decreases n,
{
    lemma_meant(selection, links[n - 1]);
    if j < n - 1 {
        lemma_chosen_in_order(links, selection, i, j, n - 1)
    } else {
        let last = chosen(links, selection, true, n).len() - 1;
        if i < j {
            let before = lemma_chosen_in_order(links, selection, i, i, n - 1);
            (before.0, last)
        } else {
            (last, last)
        }
    }
}

/// Links of one turn stay in their order.
proof fn lemma_turn_in_order(links: Seq<RegisteredLink>, turn: int, i: int, j: int, n: int) -> (at: (
    int,
    int,
))
    requires
        0 <= i <= j < n <= links.len(),
        links[i].rank() == turn,
        links[j].rank() == turn,
    ensures
        0 <= at.0 <= at.1 < links_with_turn(links, turn, n).len(),
        i < j ==> at.0 < at.1,
        links_with_turn(links, turn, n)[at.0] == links[i],
        links_with_turn(links, turn, n)[at.1] == links[j],
    decreases n,
{
    if j < n - 1 {
        lemma_turn_in_order(links, turn, i, j, n - 1)
    } else {
        let last = links_with_turn(links, turn, n).len() - 1;
        if i < j {
            let before = lemma_turn_in_order(links, turn, i, i, n - 1);
            (before.0, last)
        } else {
            (last, last)
        }
    }
}

/// Where the links of a turn stand among those of all turns.
proof fn lemma_turn_starts(links: Seq<RegisteredLink>, turn: int, turns: int, k: int)
    requires
        0 <= turn < turns,
        0 <= k < links_with_turn(links, turn, links.len() as int).len(),
    ensures
        links_by_turn(links, turn).len() + k < links_by_turn(links, turns).len(),
        links_by_turn(links, turns)[links_by_turn(links, turn).len() + k] == links_with_turn(
            links,
            turn,
            links.len() as int,
        )[k],
    decreases turns,
{
    if turn < turns - 1 {
        lemma_turn_starts(links, turn, turns - 1, k);
    }
}

/// A row of detachments is reported as failed exactly where one failed, and the first is reported.
pub proof fn lemma_first_failure(results: Seq<Result<(), String>>, n: int)
    requires
        0 <= n <= results.len(),
    ensures
        match first_failure(results, n) {
            None => forall|i: int| 0 <= i < n ==> (#[trigger] results[i]) is Ok,
            Some(message) => exists|i: int|
                0 <= i < n && (#[trigger] results[i] matches Err(given) && given@ == message)
                    && forall|j: int| 0 <= j < i ==> (#[trigger] results[j]) is Ok,
        },
    decreases n,
{
    if n > 0 {
        lemma_first_failure(results, n - 1);
        match first_failure(results, n - 1) {
            Some(message) => {
                let i = choose|i: int|
                    0 <= i < n - 1 && (#[trigger] results[i] matches Err(given) && given@
                        == message) && forall|j: int|
                        0 <= j < i ==> (#[trigger] results[j]) is Ok;
                assert(results[i] is Err);
            },
            None => {
                assert(results[n - 1] is Ok || results[n - 1] is Err);
            },
        }
    }
}

/// Whether a detachment failed with a message.
pub open spec fn failed_with(result: Result<(), String>, message: Text) -> bool {
    match result {
        Ok(()) => false,
        Err(given) => given@ == message,
    }
}

/// Every failure of a row of detachments is kept, in order, and nothing else.
pub proof fn lemma_every_failure_is_kept(results: Seq<Result<(), String>>, n: int)
    requires
        0 <= n <= results.len(),
    ensures
        forall|i: int|
            0 <= i < n ==> (#[trigger] results[i] matches Err(message) ==> failures_of(
                results,
                n,
            ).contains(message@)),
        forall|k: int|
            #![trigger failures_of(results, n)[k]]
            0 <= k < failures_of(results, n).len() ==> exists|i: int|
                0 <= i < n && failed_with(#[trigger] results[i], failures_of(results, n)[k]),
        failures_of(results, n).len() + results.take(n).filter(
            |r: Result<(), String>| r is Ok,
        ).len() == n,
    decreases n,
{
    let good = |r: Result<(), String>| r is Ok;
    if n > 0 {
        lemma_every_failure_is_kept(results, n - 1);
        let before = failures_of(results, n - 1);
        let now = failures_of(results, n);
        assert(results.take(n) =~= results.take(n - 1).push(results[n - 1]));
        assert(results.take(n).drop_last() =~= results.take(n - 1));
        reveal(Seq::filter);
        assert forall|i: int| 0 <= i < n implies (#[trigger] results[i] matches Err(message)
            ==> now.contains(message@)) by {
            if let Err(message) = results[i] {
                if i < n - 1 {
                    assert(before.contains(message@));
                    let k = choose|k: int| 0 <= k < before.len() && before[k] == message@;
                    assert(now[k] == message@);
                } else {
                    assert(now[now.len() - 1] == message@);
                }
            }
        }
        assert forall|k: int|
            #![trigger now[k]]
            0 <= k < now.len() implies exists|i: int|
            0 <= i < n && failed_with(#[trigger] results[i], now[k]) by {
            if k < before.len() {
                assert(before[k] == now[k]);
                let i = choose|i: int|
                    0 <= i < n - 1 && failed_with(#[trigger] results[i], before[k]);
                assert(failed_with(results[i], now[k]));
            } else {
                assert(failed_with(results[n - 1], now[k]));
            }
        }
    } else {
        assert(results.take(n) =~= Seq::<Result<(), String>>::empty());
        reveal(Seq::filter);
    }
}

/// Slots can be attached to where no two of them have one number and no link probes one of them,
/// and only there.
pub proof fn lemma_targets(slots: Seq<Slot>, links: Seq<RegisteredLink>)
    ensures
        target_fault(slots, links) is None <==> (forall|i: int, j: int|
            0 <= i < j < slots.len() ==> (#[trigger] slots[i]).index != (
            #[trigger] slots[j]).index) && forall|i: int, k: int|
            0 <= i < slots.len() && 0 <= k < links.len() ==> !((#[trigger] links[k]) matches
                RegisteredLink::UProbe { slot, .. } && slot == (#[trigger] slots[i]).index),
{
    let n = slots.len() as int;
    lemma_repeated(slots, n);
    lemma_linked(slots, links, n);
    assert(target_fault(slots, links) is None <==> repeated(slots, n)
        is None && linked(slots, links, n) is None);
}

/// A number is repeated exactly where two of the slots have it.
pub proof fn lemma_repeated(slots: Seq<Slot>, n: int)
    requires
        0 <= n <= slots.len(),
    ensures
        match repeated(slots, n) {
            None => forall|i: int, j: int|
                0 <= i < j < n ==> (#[trigger] slots[i]).index != (#[trigger] slots[j]).index,
            Some(index) => exists|i: int, j: int|
                0 <= i < j < n && (#[trigger] slots[i]).index == index && (
                #[trigger] slots[j]).index == index,
        },
    decreases n,
{
    if n > 0 {
        lemma_repeated(slots, n - 1);
        if let Some(index) = repeated(slots, n - 1) {
            let (i, j) = choose|i: int, j: int|
                0 <= i < j < n - 1 && (#[trigger] slots[i]).index == index && (
                #[trigger] slots[j]).index == index;
            assert(slots[i].index == index && slots[j].index == index);
        } else if let Some(index) = repeated(slots, n) {
            let i = choose|i: int|
                0 <= i < n - 1 && (#[trigger] slots[i]).index == slots[n - 1].index;
            assert(slots[i].index == index && slots[n - 1].index == index);
        }
    }
}

/// A slot is served exactly where a probe of a slot has its number.
pub proof fn lemma_linked(slots: Seq<Slot>, links: Seq<RegisteredLink>, n: int)
    requires
        0 <= n <= slots.len(),
    ensures
        match linked(slots, links, n) {
            None => forall|i: int, k: int|
                0 <= i < n && 0 <= k < links.len() ==> !((#[trigger] links[k]) matches
                    RegisteredLink::UProbe { slot, .. } && slot == (#[trigger] slots[i]).index),
            Some(index) => exists|i: int, k: int|
                0 <= i < n && 0 <= k < links.len() && (#[trigger] slots[i]).index == index && (
                #[trigger] links[k] matches RegisteredLink::UProbe { slot, .. } && slot == index),
        },
    decreases n,
{
    if n > 0 {
        lemma_linked(slots, links, n - 1);
        if let Some(index) = linked(slots, links, n - 1) {
            let (i, k) = choose|i: int, k: int|
                0 <= i < n - 1 && 0 <= k < links.len() && (#[trigger] slots[i]).index == index && (
                #[trigger] links[k] matches RegisteredLink::UProbe { slot, .. } && slot == index);
            assert(slots[i].index == index && links[k] is UProbe);
        } else if let Some(index) = linked(slots, links, n) {
            let k = choose|k: int|
                0 <= k < links.len() && (#[trigger] links[k]).slot_number() == Some(index);
            assert(slots[n - 1].index == index && links[k] is UProbe);
        } else {
            assert forall|i: int, k: int| 0 <= i < n && 0 <= k < links.len() implies !((
            #[trigger] links[k]) matches RegisteredLink::UProbe { slot, .. } && slot == (
            #[trigger] slots[i]).index) by {
                if i == n - 1 {
                    assert(links[k].slot_number() != Some(slots[i].index));
                }
            }
        }
    }
}

/// A symbol is listed for a loader context exactly where a probe of that context is at it.
pub proof fn lemma_listed_exports(
    links: Seq<RegisteredLink>,
    context: LoaderContextId,
    export: DynamicExportIdentity,
    n: int,
)
    requires
        0 <= n <= links.len(),
    ensures
        exports_for(link_exports(links, context), context, n).contains(export) <==> exists|i: int|
            0 <= i < n && (#[trigger] links[i] matches RegisteredLink::DynamicUProbe {
                context: of,
                object,
                file_offset,
                cookie,
                abi: Some(abi),
                ..
            } && of == context && object == export.object && file_offset == export.file_offset
                && cookie == export.cookie && abi == export.abi),
    decreases n,
{
    if n > 0 {
        lemma_listed_exports(links, context, export, n - 1);
        let pairs = link_exports(links, context);
        let before = exports_for(pairs, context, n - 1);
        let now = exports_for(pairs, context, n);
        let last = links[n - 1];
        assert(pairs[n - 1].1 == last.export_identity());
        if before.contains(export) {
            let k = choose|k: int| 0 <= k < before.len() && before[k] == export;
            assert(now[k] == export);
        }
        if now.contains(export) && !before.contains(export) {
            assert(last.export_identity() == Some(export));
            assert(last is DynamicUProbe);
        }
        if last matches RegisteredLink::DynamicUProbe {
            context: of,
            object,
            file_offset,
            cookie,
            abi: Some(abi),
            ..
        } && of == context && object == export.object && file_offset == export.file_offset && cookie
            == export.cookie && abi == export.abi {
            assert(last.export_identity() == Some(export));
            if !before.contains(export) {
                assert(now[now.len() - 1] == export);
            }
            assert(now.contains(export));
        }
    }
}

/// Whether no probe of a slot has a number.
pub open spec fn unserved(links: Seq<RegisteredLink>, number: u32) -> bool {
    forall|k: int|
        0 <= k < links.len() ==> !((#[trigger] links[k]) matches RegisteredLink::UProbe {
            slot,
            ..
        } && slot == number)
}

/// A slot is pending exactly where it is active and no probe of a slot has its number; pending
/// slots stand in the order of the plan, each once.
pub proof fn lemma_pending(
    slots: Seq<Slot>,
    active: Seq<bool>,
    links: Seq<RegisteredLink>,
    n: int,
)
    requires
        0 <= n <= slots.len(),
        slots.len() == active.len(),
    ensures
        forall|i: int| #[trigger]
            pending_from(slots, active, links, n).contains(i) <==> 0 <= i < n && active[i]
                && unserved(links, slots[i].index),
        forall|a: int, b: int|
            0 <= a < b < pending_from(slots, active, links, n).len() ==> pending_from(
                slots,
                active,
                links,
                n,
            )[a] < pending_from(slots, active, links, n)[b],
    decreases n,
{
    if n > 0 {
        lemma_pending(slots, active, links, n - 1);
        let before = pending_from(slots, active, links, n - 1);
        let now = pending_from(slots, active, links, n);
        lemma_unserved(links, slots[n - 1].index);
        assert forall|i: int| #[trigger]
            now.contains(i) <==> 0 <= i < n && active[i] && unserved(links, slots[i].index) by {
            if before.contains(i) {
                let k = choose|k: int| 0 <= k < before.len() && before[k] == i;
                assert(now[k] == i);
            }
            if now.contains(i) && !before.contains(i) {
                let k = choose|k: int| 0 <= k < now.len() && now[k] == i;
                assert(k < before.len() ==> before[k] == i);
                assert(i == n - 1);
            }
            if i == n - 1 && active[i] && unserved(links, slots[i].index) {
                assert(now[now.len() - 1] == i);
            }
        }
        assert forall|a: int, b: int| 0 <= a < b < now.len() implies now[a] < now[b] by {
            if b >= before.len() {
                assert(before.contains(before[a]));
                assert(now[a] == before[a]);
            } else {
                assert(now[a] == before[a] && now[b] == before[b]);
            }
        }
    }
}

/// A number is served exactly where a probe of a slot has it.
proof fn lemma_unserved(links: Seq<RegisteredLink>, number: u32)
    ensures
        has_slot(links, number) == !unserved(links, number),
{
    if has_slot(links, number) {
        let k = choose|k: int|
            0 <= k < links.len() && (#[trigger] links[k]).slot_number() == Some(number);
        assert(links[k] is UProbe);
    } else {
        assert forall|k: int| 0 <= k < links.len() implies !((#[trigger] links[k]) matches
            RegisteredLink::UProbe { slot, .. } && slot == number) by {
            assert(links[k].slot_number() != Some(number));
        }
    }
}

/// The program at the entry of a slot's function. Only a capture of unvalidated metadata runs
/// another one than the plain program: that of two templates where the function has a second one,
/// that of types alone where only types are read, and that of one template where it has one.
pub proof fn lemma_entry_programs(semantics: SlotSemantics, policy: CapturePolicy)
    ensures
        ({
            let name = entry_name(entry_rank(semantics, policy));
            let decodes = policy is UnsafeUnvalidatedMetadata;
            let pair = semantics.template1_arg != 255;
            let types = semantics.semantic_flags & 1 != 0;
            let one = semantics.template0_arg != 255;
            &&& name == "p11_entry_template_pair"@ <==> decodes && pair
            &&& name == "p11_entry_template_types"@ <==> decodes && !pair && types
            &&& name == "p11_entry_template"@ <==> decodes && !pair && !types && one
            &&& name == "p11_entry"@ <==> !decodes || (!pair && !types && !one)
            &&& side_of(name) == Some(ProbeSide::Entry)
            &&& side_of("p11_return"@) == Some(ProbeSide::Return)
        }),
{
    lemma_program_names();
}

/// An entry probe is tried for exactly the slots whose number a return probe was attached for, each
/// once.
pub proof fn lemma_entries_follow_returns(
    slots: Seq<Slot>,
    policy: CapturePolicy,
    exits: Seq<Result<(), String>>,
    i: int,
)
    requires
        slots.len() == exits.len(),
        slots.len() <= usize::MAX,
        0 <= i < slots.len(),
    ensures
        entry_steps(slots, policy, exits, 4).contains(i as usize) <==> exists|j: int|
            0 <= j < slots.len() && (#[trigger] slots[j]).index == slots[i].index && exits[j] is Ok,
        forall|a: int, b: int|
            0 <= a < b < entry_steps(slots, policy, exits, 4).len() ==> entry_steps(
                slots,
                policy,
                exits,
                4,
            )[a] != entry_steps(slots, policy, exits, 4)[b],
{
    let steps = entry_steps(slots, policy, exits, 4);
    assert forall|a: int, b: int| 0 <= a < b < steps.len() implies steps[a] != steps[b] by {
        lemma_steps_differ(slots, policy, exits, 4, a, b);
    }
    let here = exists|j: int|
        0 <= j < slots.len() && (#[trigger] slots[j]).index == slots[i].index && exits[j] is Ok;
    if steps.contains(i as usize) {
        let k = choose|k: int| 0 <= k < steps.len() && steps[k] == i as usize;
        lemma_entry_after_return(slots, policy, exits, 4, k);
    }
    if here {
        let rank = entry_rank(slots[i].semantics, policy);
        let k = lemma_served_at(slots, policy, exits, rank, slots.len() as int, i);
        let at = lemma_steps_start(slots, policy, exits, rank, 4, k);
        assert(steps[at] == i as usize);
    }
}

/// Where a slot stands among those that its entry program serves.
proof fn lemma_served_at(
    slots: Seq<Slot>,
    policy: CapturePolicy,
    exits: Seq<Result<(), String>>,
    rank: int,
    n: int,
    i: int,
) -> (k: int)
    requires
        0 <= i < n <= slots.len() <= usize::MAX,
        entry_rank(slots[i].semantics, policy) == rank,
        returned(slots, exits, slots[i].index),
    ensures
        0 <= k < served(slots, policy, exits, rank, n).len(),
        served(slots, policy, exits, rank, n)[k] == i as usize,
    decreases n,
{
    if i < n - 1 {
        lemma_served_at(slots, policy, exits, rank, n - 1, i)
    } else {
        served(slots, policy, exits, rank, n).len() - 1
    }
}

/// Where the slots of one entry program stand among all.
proof fn lemma_steps_start(
    slots: Seq<Slot>,
    policy: CapturePolicy,
    exits: Seq<Result<(), String>>,
    rank: int,
    ranks: int,
    k: int,
) -> (at: int)
    requires
        0 <= rank < ranks,
        0 <= k < served(slots, policy, exits, rank, slots.len() as int).len(),
    ensures
        0 <= at < entry_steps(slots, policy, exits, ranks).len(),
        entry_steps(slots, policy, exits, ranks)[at] == served(
            slots,
            policy,
            exits,
            rank,
            slots.len() as int,
        )[k],
    decreases ranks,
{
    if rank < ranks - 1 {
        lemma_steps_start(slots, policy, exits, rank, ranks - 1, k)
    } else {
        entry_steps(slots, policy, exits, ranks - 1).len() + k
    }
}

/// Slots that an entry program serves differ, and are served by it.
proof fn lemma_served_differ(
    slots: Seq<Slot>,
    policy: CapturePolicy,
    exits: Seq<Result<(), String>>,
    rank: int,
    n: int,
    b: int,
)
    requires
        0 <= n <= slots.len() <= usize::MAX,
        0 <= b < served(slots, policy, exits, rank, n).len(),
    ensures
        served(slots, policy, exits, rank, n)[b] < n,
        entry_rank(
            slots[served(slots, policy, exits, rank, n)[b] as int].semantics,
            policy,
        ) == rank,
        forall|a: int|
            0 <= a < b ==> served(slots, policy, exits, rank, n)[a] < served(
                slots,
                policy,
                exits,
                rank,
                n,
            )[b],
    decreases n,
{
    if n > 0 {
        let before = served(slots, policy, exits, rank, n - 1);
        if b < before.len() {
            lemma_served_differ(slots, policy, exits, rank, n - 1, b);
        } else {
            assert forall|a: int| 0 <= a < b implies before[a] < n - 1 by {
                lemma_served_differ(slots, policy, exits, rank, n - 1, a);
            }
        }
    }
}

/// The slots to which entry probes are attached differ.
proof fn lemma_steps_differ(
    slots: Seq<Slot>,
    policy: CapturePolicy,
    exits: Seq<Result<(), String>>,
    ranks: int,
    a: int,
    b: int,
)
    requires
        slots.len() <= usize::MAX,
        0 <= a < b < entry_steps(slots, policy, exits, ranks).len(),
    ensures
        entry_steps(slots, policy, exits, ranks)[a] != entry_steps(slots, policy, exits, ranks)[b],
    decreases ranks,
{
    if ranks > 0 {
        let before = entry_steps(slots, policy, exits, ranks - 1);
        let n = slots.len() as int;
        if b < before.len() {
            lemma_steps_differ(slots, policy, exits, ranks - 1, a, b);
        } else {
            lemma_served_differ(slots, policy, exits, ranks - 1, n, b - before.len());
            if a < before.len() {
                lemma_steps_rank(slots, policy, exits, ranks - 1, a);
            }
        }
    }
}

/// Every slot among those of the first entry programs is served by one of them.
proof fn lemma_steps_rank(
    slots: Seq<Slot>,
    policy: CapturePolicy,
    exits: Seq<Result<(), String>>,
    ranks: int,
    a: int,
)
    requires
        slots.len() <= usize::MAX,
        0 <= a < entry_steps(slots, policy, exits, ranks).len(),
    ensures
        entry_rank(
            slots[entry_steps(slots, policy, exits, ranks)[a] as int].semantics,
            policy,
        ) < ranks,
    decreases ranks,
{
    if ranks > 0 {
        let before = entry_steps(slots, policy, exits, ranks - 1);
        if a < before.len() {
            lemma_steps_rank(slots, policy, exits, ranks - 1, a);
        } else {
            lemma_served_differ(
                slots,
                policy,
                exits,
                ranks - 1,
                slots.len() as int,
                a - before.len(),
            );
        }
    }
}

/// A return probe is known for a slot exactly where one was attached for it, and every one that was
/// not is reported with its slot.
pub proof fn lemma_returns(slots: Seq<Slot>, exits: Seq<Result<(), String>>, n: int)
    requires
        0 <= n <= slots.len() == exits.len(),
    ensures
        forall|slot: u32|
            returns_of(slots, exits, n).contains(slot) <==> exists|i: int|
                0 <= i < n && (#[trigger] slots[i]).index == slot && exits[i] is Ok,
        forall|i: int|
            0 <= i < n ==> (#[trigger] exits[i] matches Err(message) ==> return_failures(
                slots,
                exits,
                n,
            ).contains((slots[i].index, message@))),
        forall|k: int|
            #![trigger return_failures(slots, exits, n)[k]]
            0 <= k < return_failures(slots, exits, n).len() ==> exists|i: int|
                0 <= i < n && (#[trigger] exits[i] matches Err(message) && (
                slots[i].index,
                message@,
            ) == return_failures(slots, exits, n)[k]),
    decreases n,
{
    if n > 0 {
        lemma_returns(slots, exits, n - 1);
        let there = returns_of(slots, exits, n - 1);
        let before = return_failures(slots, exits, n - 1);
        let now = return_failures(slots, exits, n);
        assert forall|slot: u32| returns_of(slots, exits, n).contains(slot) <==> exists|i: int|
            0 <= i < n && (#[trigger] slots[i]).index == slot && exits[i] is Ok by {
            if there.contains(slot) {
                let i = choose|i: int|
                    0 <= i < n - 1 && (#[trigger] slots[i]).index == slot && exits[i] is Ok;
                assert(slots[i].index == slot);
            }
            if returns_of(slots, exits, n).contains(slot) && !there.contains(slot) {
                assert(slots[n - 1].index == slot && exits[n - 1] is Ok);
            }
        }
        assert forall|i: int| 0 <= i < n implies (#[trigger] exits[i] matches Err(message)
            ==> now.contains((slots[i].index, message@))) by {
            if let Err(message) = exits[i] {
                if i < n - 1 {
                    let pair = (slots[i].index, message@);
                    assert(before.contains(pair));
                    let k = choose|k: int| 0 <= k < before.len() && before[k] == pair;
                    assert(now[k] == pair);
                } else {
                    assert(now[now.len() - 1] == (slots[i].index, message@));
                }
            }
        }
        assert forall|k: int|
            #![trigger now[k]]
            0 <= k < now.len() implies exists|i: int|
            0 <= i < n && (#[trigger] exits[i] matches Err(message) && (
            slots[i].index,
            message@,
        ) == now[k]) by {
            if k < before.len() {
                assert(before[k] == now[k]);
                let i = choose|i: int|
                    0 <= i < n - 1 && (#[trigger] exits[i] matches Err(message) && (
                    slots[i].index,
                    message@,
                ) == before[k]);
                assert(exits[i] is Err);
            } else {
                assert(exits[n - 1] is Err);
            }
        }
    }
}

/// Whether an entry probe was attached, and a slot so completed.
pub open spec fn completes(
    entry: Result<Option<u64>, String>,
    index: u32,
    pair: (u32, Option<u64>),
) -> bool {
    match entry {
        Ok(at) => pair.0 == index && pair.1 == at,
        Err(_) => false,
    }
}

/// An entry probe is known for a slot, and the slot counts as served on both sides, exactly where
/// one was attached for it; every one that was not is reported with its slot, after what was
/// reported before.
pub proof fn lemma_entries(
    slots: Seq<Slot>,
    steps: Seq<usize>,
    entries: Seq<Result<Option<u64>, String>>,
    failed: Seq<(u32, Text)>,
    n: int,
)
    requires
        0 <= n <= steps.len() == entries.len(),
        forall|i: int| 0 <= i < steps.len() ==> (#[trigger] steps[i]) < slots.len(),
    ensures
        ({
            let (there, failures, completed) = entries_of(slots, steps, entries, failed, n);
            &&& failed.len() <= failures.len()
            &&& forall|k: int| 0 <= k < failed.len() ==> failures[k] == failed[k]
            &&& failures.len() - failed.len() + completed.len() == n
            &&& forall|i: int|
                0 <= i < n ==> match #[trigger] entries[i] {
                    Ok(at) => there.contains(slots[steps[i] as int].index) && completed.contains(
                        (slots[steps[i] as int].index, at),
                    ),
                    Err(message) => failures.contains((slots[steps[i] as int].index, message@)),
                }
            &&& forall|k: int|
                0 <= k < completed.len() ==> exists|i: int|
                    0 <= i < n && completes(
                        #[trigger] entries[i],
                        slots[steps[i] as int].index,
                        #[trigger] completed[k],
                    )
            &&& forall|slot: u32|
                there.contains(slot) ==> exists|i: int|
                    0 <= i < n && (#[trigger] entries[i]) is Ok && slots[steps[i] as int].index
                        == slot
        }),
    decreases n,
{
    if n > 0 {
        lemma_entries(slots, steps, entries, failed, n - 1);
        let (there0, failures0, completed0) = entries_of(slots, steps, entries, failed, n - 1);
        let (there, failures, completed) = entries_of(slots, steps, entries, failed, n);
        let index = slots[steps[n - 1] as int].index;
        assert forall|i: int| 0 <= i < n implies match #[trigger] entries[i] {
            Ok(at) => there.contains(slots[steps[i] as int].index) && completed.contains(
                (slots[steps[i] as int].index, at),
            ),
            Err(message) => failures.contains((slots[steps[i] as int].index, message@)),
        } by {
            match entries[i] {
                Ok(at) => {
                    let pair = (slots[steps[i] as int].index, at);
                    if i < n - 1 {
                        let k = choose|k: int| 0 <= k < completed0.len() && completed0[k] == pair;
                        assert(completed0.contains(pair));
                        assert(completed[k] == pair);
                    } else {
                        assert(completed[completed.len() - 1] == pair);
                    }
                },
                Err(message) => {
                    let pair = (slots[steps[i] as int].index, message@);
                    if i < n - 1 {
                        let k = choose|k: int| 0 <= k < failures0.len() && failures0[k] == pair;
                        assert(failures0.contains(pair));
                        assert(failures[k] == pair);
                    } else {
                        assert(failures[failures.len() - 1] == pair);
                    }
                },
            }
        }
        assert forall|k: int| 0 <= k < completed.len() implies exists|i: int|
            0 <= i < n && completes(
                #[trigger] entries[i],
                slots[steps[i] as int].index,
                #[trigger] completed[k],
            ) by {
            if k < completed0.len() {
                assert(completed0[k] == completed[k]);
                let i = choose|i: int|
                    0 <= i < n - 1 && completes(
                        #[trigger] entries[i],
                        slots[steps[i] as int].index,
                        completed0[k],
                    );
                assert(completes(entries[i], slots[steps[i] as int].index, completed[k]));
            } else {
                assert(completes(entries[n - 1], index, completed[k]));
            }
        }
        assert forall|slot: u32| there.contains(slot) implies exists|i: int|
            0 <= i < n && (#[trigger] entries[i]) is Ok && slots[steps[i] as int].index == slot by {
            if there0.contains(slot) {
                let i = choose|i: int|
                    0 <= i < n - 1 && (#[trigger] entries[i]) is Ok && slots[steps[i] as int].index
                        == slot;
                assert(entries[i] is Ok);
            } else {
                assert(entries[n - 1] is Ok);
            }
        }
    }
}

/// A slot of a replacement is given up exactly where it failed.
pub proof fn lemma_losses(slots: Seq<Slot>, failed: Seq<u32>, n: int)
    requires
        0 <= n <= slots.len(),
    ensures
        forall|index: u32|
            failed_slots(slots, failed, n).contains(index) <==> (exists|
                i: int,
            |
                0 <= i < n && (#[trigger] slots[i]).index == index) && exists|k: int|
                0 <= k < failed.len() && #[trigger] failed[k] == index,
    decreases n,
{
    if n > 0 {
        lemma_losses(slots, failed, n - 1);
        let before = failed_slots(slots, failed, n - 1);
        let now = failed_slots(slots, failed, n);
        assert forall|index: u32| now.contains(index) <==> (exists|i: int|
            0 <= i < n && (#[trigger] slots[i]).index == index) && exists|k: int|
            0 <= k < failed.len() && #[trigger] failed[k] == index by {
            if before.contains(index) {
                let k = choose|k: int| 0 <= k < before.len() && before[k] == index;
                assert(now[k] == index);
                let i = choose|i: int| 0 <= i < n - 1 && (#[trigger] slots[i]).index == index;
                assert(slots[i].index == index);
            }
            if now.contains(index) && !before.contains(index) {
                assert(slots[n - 1].index == index);
                let k = choose|k: int| 0 <= k < failed.len() && failed[k] == index;
                assert(failed[k] == index);
            }
            if slots[n - 1].index == index && (exists|k: int|
                0 <= k < failed.len() && #[trigger] failed[k] == index) {
                assert(failed.contains(index));
                assert(now[now.len() - 1] == index);
            }
        }
    }
}

} // verus!
