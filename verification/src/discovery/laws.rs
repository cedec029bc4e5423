//! What holds of loader contexts, of hooked symbols and of the ledger of skips, said of them
//! themselves.

use crate::discovery::attribution::{
    all_noted, is_published, lemma_pair_found, lemma_pair_noted, lemma_site_found, ordered,
    pair_text, published_line, report_lines, site_text, sites_text, times_raised,
    unpublished_lines, PublishedSkip, RaisedText, Skipped,
};
use crate::discovery::hooks::{
    builtin_hooks, hook_added, hook_position, hook_spec, lemma_hook_index, unfit, HookAbi, Hooks,
};
use crate::discovery::loader::{
    attached, cancelled, context_of, cookie_parts, hit_at, hit_matches, ids_of_view, ids_unpinned,
    lemma_cookie_round_trip, placed_context, removed, tombstoned, Context, Contexts, Hit,
    LoaderContextId, LoaderContextState, PinnedObjectId, Placement, ProcessViewId,
};
use crate::text::{debug_text, digits, index_from, Text};
use crate::words::lemma_index;
use vstd::prelude::*;
use vstd::string::*;

verus! {

/// A context goes from prepared to attached, from attached to tombstoned, from prepared straight to
/// tombstoned where it is given up, and from tombstoned it is removed; each step is open from that
/// state and from no other, and changes nothing but how far the context has come.
pub proof fn lemma_steps_of_a_context(contexts: Contexts, id: LoaderContextId)
    requires
        1 <= id.0,
    ensures
        match context_of(contexts, id) {
            None => attached(contexts, id) is Err && tombstoned(contexts, id) is Err && cancelled(
                contexts,
                id,
            ) is Err && removed(contexts, id) is Err,
            Some(context) => {
                &&& attached(contexts, id) is Ok <==> context.state is Prepared
                &&& attached(contexts, id) matches Ok(after) ==> context_of(after, id) == Some(
                    (Context {
                        state: LoaderContextState::Attached,
                        was_attached: true,
                        ..context
                    }),
                )
                &&& tombstoned(contexts, id) is Ok <==> context.state is Attached
                &&& tombstoned(contexts, id) matches Ok(after) ==> context_of(after, id) == Some(
                    (Context { state: LoaderContextState::Tombstoned, ..context }),
                )
                &&& cancelled(contexts, id) is Ok <==> context.state is Prepared
                &&& cancelled(contexts, id) matches Ok(after) ==> context_of(after, id) == Some(
                    (Context { state: LoaderContextState::Tombstoned, ..context }),
                )
                &&& removed(contexts, id) is Ok <==> context.state is Tombstoned
                &&& removed(contexts, id) matches Ok(after) ==> context_of(after, id) is None
            },
        },
{
}

/// A hit is one of a context exactly where the context is there, has come as far as is asked, and
/// process, loader, mapping and address are its own.
pub proof fn lemma_hits(
    contexts: Contexts,
    id: LoaderContextId,
    state: LoaderContextState,
    hit: Hit,
)
    ensures
        hit_matches(contexts, id, state, hit) <==> 1 <= id.0 <= contexts.len() && (contexts[id.0
            - 1] matches Some(context) && context.state == state && context.spec.view == hit.view
            && context.spec.loader == hit.loader && context.spec.mapping == hit.mapping
            && context.expected_hook_ip == hit.hook_ip),
{
}

/// A hit changes nothing of a context but its earliest hit, which is then no later than the hit.
pub proof fn lemma_hit_marks_time(context: Context, timestamp_ns: u64)
    ensures
        hit_at(context, timestamp_ns).earliest_hit_ns matches Some(t) && t <= timestamp_ns && (t
            == timestamp_ns || context.earliest_hit_ns == Some(t)),
        context.earliest_hit_ns matches Some(known) && timestamp_ns < known ==> hit_at(
            context,
            timestamp_ns,
        ).earliest_hit_ns == Some(timestamp_ns),
        hit_at(context, timestamp_ns) == (Context {
            earliest_hit_ns: hit_at(context, timestamp_ns).earliest_hit_ns,
            ..context
        }),
{
}

/// A context is placed in a mapping of a file that may be executed, with its hook inside of it at
/// the offset that the file has it at, at most 256 in all; it is prepared, was never attached and
/// never hit, and its cookie gives back its number.
pub proof fn lemma_placed(placed: nat, spec: Placement)
    ensures
        placed_context(placed, spec) matches Ok(context) ==> {
            &&& placed < 256
            &&& context.spec == spec
            &&& spec.mapping.permissions[2] == 'x' as u8
            &&& spec.mapping.inode != 0
            &&& spec.mapping.start <= context.expected_hook_ip < spec.mapping.end
            &&& context.expected_hook_ip - spec.mapping.start == spec.hook.file_offset
                - spec.mapping.file_offset
            &&& context.state is Prepared
            &&& !context.was_attached
            &&& context.earliest_hit_ns is None
            &&& cookie_parts(context.cookie as int) matches Ok((number, delta)) && number == placed
                + 1 && delta == match spec.state {
                None => None,
                Some(state) => Some(state.virtual_address - spec.hook.virtual_address),
            }
        },
{
    if let Ok(context) = placed_context(placed, spec) {
        let delta: Option<int> = match spec.state {
            None => None,
            Some(state) => Some(state.virtual_address - spec.hook.virtual_address),
        };
        lemma_cookie_round_trip(placed as int + 1, delta);
    }
}

/// A placement is refused only where there is no room, where its mapping is no file that may be
/// executed, where its hook lies outside of the mapping, or where its state lies too far off.
pub proof fn lemma_refused_placement(placed: nat, spec: Placement)
    ensures
        placed < 256 && spec.mapping.permissions[2] == 'x' as u8 && spec.mapping.inode != 0
            && spec.mapping.file_offset <= spec.hook.file_offset && spec.mapping.start + (
        spec.hook.file_offset - spec.mapping.file_offset) < spec.mapping.end && (spec.state matches
            Some(state) ==> -0x40_0000_0000_0000 <= state.virtual_address
            - spec.hook.virtual_address < 0x40_0000_0000_0000) ==> placed_context(
            placed,
            spec,
        ) is Ok,
{
}

/// The contexts of a process are listed by their numbers, all of them, in order, and no other.
pub proof fn lemma_contexts_of_a_process(contexts: Contexts, view: ProcessViewId, n: int)
    requires
        0 <= n <= contexts.len() <= 256,
    ensures
        forall|id: LoaderContextId| #[trigger]
            ids_of_view(contexts, view, n).contains(id) <==> 1 <= id.0 <= n && (contexts[id.0 - 1]
                matches Some(context) && context.spec.view == view),
    decreases n,
{
    if n > 0 {
        lemma_contexts_of_a_process(contexts, view, n - 1);
        let before = ids_of_view(contexts, view, n - 1);
        let now = ids_of_view(contexts, view, n);
        assert forall|id: LoaderContextId| #[trigger]
            now.contains(id) <==> 1 <= id.0 <= n && (contexts[id.0 - 1] matches Some(context)
                && context.spec.view == view) by {
            if before.contains(id) {
                let k = choose|k: int| 0 <= k < before.len() && before[k] == id;
                assert(now[k] == id);
            }
            if now.contains(id) && !before.contains(id) {
                let k = choose|k: int| 0 <= k < now.len() && now[k] == id;
                assert(k < before.len() ==> before[k] == id);
                assert(id == LoaderContextId(n as u16));
            }
            if id.0 == n && (contexts[n - 1] matches Some(context) && context.spec.view == view) {
                assert(now[now.len() - 1] == LoaderContextId(n as u16));
                assert(id == LoaderContextId(n as u16));
            }
        }
    }
}

/// The contexts whose loader is no longer held open are listed by their numbers, all of them, and
/// no other.
pub proof fn lemma_contexts_without_loader(
    contexts: Contexts,
    pinned: Seq<PinnedObjectId>,
    n: int,
)
    requires
        0 <= n <= contexts.len() <= 256,
    ensures
        forall|id: LoaderContextId| #[trigger]
            ids_unpinned(contexts, pinned, n).contains(id) <==> 1 <= id.0 <= n && (contexts[id.0
                - 1] matches Some(context) && forall|k: int|
                0 <= k < pinned.len() ==> #[trigger] pinned[k] != context.spec.loader),
    decreases n,
{
    if n > 0 {
        lemma_contexts_without_loader(contexts, pinned, n - 1);
        let before = ids_unpinned(contexts, pinned, n - 1);
        let now = ids_unpinned(contexts, pinned, n);
        assert forall|id: LoaderContextId| #[trigger]
            now.contains(id) <==> 1 <= id.0 <= n && (contexts[id.0 - 1] matches Some(context)
                && forall|k: int|
                0 <= k < pinned.len() ==> #[trigger] pinned[k] != context.spec.loader) by {
            if before.contains(id) {
                let k = choose|k: int| 0 <= k < before.len() && before[k] == id;
                assert(now[k] == id);
            }
            if now.contains(id) && !before.contains(id) {
                let k = choose|k: int| 0 <= k < now.len() && now[k] == id;
                assert(k < before.len() ==> before[k] == id);
                assert(id == LoaderContextId(n as u16));
                let context = contexts[n - 1]->Some_0;
                assert forall|k: int| 0 <= k < pinned.len() implies #[trigger] pinned[k]
                    != context.spec.loader by {
                    assert(!pinned.contains(context.spec.loader));
                }
            }
            if id.0 == n && (contexts[n - 1] matches Some(context) && forall|k: int|
                0 <= k < pinned.len() ==> #[trigger] pinned[k] != context.spec.loader) {
                assert(!pinned.contains(contexts[n - 1]->Some_0.spec.loader));
                assert(now[now.len() - 1] == LoaderContextId(n as u16));
                assert(id == LoaderContextId(n as u16));
            }
        }
    }
}

/// Whether a symbol name can be hooked: it is not empty, and holds no colon, no white space of
/// ASCII and no NUL.
pub open spec fn is_symbol(name: Text) -> bool {
    name.len() > 0 && forall|i: int|
        0 <= i < name.len() ==> #[trigger] name[i] != ':' && name[i] != ' ' && name[i] != '\t'
            && name[i] != '\n' && name[i] != '\x0c' && name[i] != '\r' && name[i] != '\0'
}

/// A symbol alone hands out a function list; behind a colon one of three words says how it hands
/// out its table; anything else behind it is refused.
pub proof fn lemma_hook_specs(name: Text, word: Text)
    requires
        is_symbol(name),
        forall|i: int| 0 <= i < word.len() ==> #[trigger] word[i] != ':',
    ensures
        hook_spec(name) == Ok::<(Text, HookAbi), Text>((name, HookAbi::FunctionList)),
        ({
            let spec = name + seq![':'] + word;
            &&& word == "functionlist"@ ==> hook_spec(spec) == Ok::<(Text, HookAbi), Text>(
                (name, HookAbi::FunctionList),
            )
            &&& word == "interfacelist"@ ==> hook_spec(spec) == Ok::<(Text, HookAbi), Text>(
                (name, HookAbi::InterfaceList),
            )
            &&& word == "interface"@ ==> hook_spec(spec) == Ok::<(Text, HookAbi), Text>(
                (name, HookAbi::Interface),
            )
            &&& word != "functionlist"@ && word != "interfacelist"@ && word != "interface"@
                ==> hook_spec(spec) is Err
        }),
{
    let n = name.len() as int;
    lemma_index(name, ':', 0);
    assert(index_from(name, ':', 0) == n);
    assert(name.take(n) =~= name);
    let spec = name + seq![':'] + word;
    lemma_index(spec, ':', 0);
    assert(spec[n] == ':');
    assert forall|i: int| 0 <= i < n implies spec[i] != ':' by {
        assert(spec[i] == name[i]);
    }
    assert(index_from(spec, ':', 0) == n);
    lemma_index(spec, ':', n + 1);
    let end = index_from(spec, ':', n + 1);
    if end < spec.len() {
        assert(spec[end] == word[end - n - 1]);
    }
    assert(spec.take(n) =~= name);
    assert(spec.subrange(n + 1, end) =~= word);
    reveal_strlit("functionlist");
    reveal_strlit("interfacelist");
    reveal_strlit("interface");
    assert("functionlist"@.len() == 12 && "interfacelist"@.len() == 13 && "interface"@.len() == 9);
}

/// What is accepted as a hook names a symbol that can be hooked.
pub proof fn lemma_hooks_are_symbols(spec: Text)
    ensures
        hook_spec(spec) matches Ok((name, _)) ==> is_symbol(name) && name.is_prefix_of(spec),
{
    lemma_index(spec, ':', 0);
    let colon = index_from(spec, ':', 0);
    if let Ok((name, _)) = hook_spec(spec) {
        assert(name == spec.take(colon));
        assert forall|i: int| 0 <= i < name.len() implies #[trigger] name[i] != ':' && name[i] != ' '
            && name[i] != '\t' && name[i] != '\n' && name[i] != '\x0c' && name[i] != '\r' && name[i]
            != '\0' by {
            assert(name[i] == spec[i]);
            assert(!unfit(name[i]));
        }
    }
}

/// The standard symbols and those of NSS are hooked, each with how it hands out its table, and no
/// other.
pub proof fn lemma_builtin_hooks(name: Text, abi: HookAbi)
    ensures
        builtin_hooks().contains((name, abi)) <==> (name == "C_GetFunctionList"@ && abi
            is FunctionList) || (name == "C_GetInterfaceList"@ && abi is InterfaceList) || (name
            == "C_GetInterface"@ && abi is Interface) || (name == "NSC_GetFunctionList"@ && abi
            is FunctionList) || (name == "FC_GetFunctionList"@ && abi is FunctionList),
{
    let all = builtin_hooks();
    assert(all.len() == 5);
    assert(all[0] == ("C_GetFunctionList"@, HookAbi::FunctionList));
    assert(all[1] == ("C_GetInterfaceList"@, HookAbi::InterfaceList));
    assert(all[2] == ("C_GetInterface"@, HookAbi::Interface));
    assert(all[3] == ("NSC_GetFunctionList"@, HookAbi::FunctionList));
    assert(all[4] == ("FC_GetFunctionList"@, HookAbi::FunctionList));
    if all.contains((name, abi)) {
        let i = choose|i: int| 0 <= i < all.len() && all[i] == (name, abi);
        assert(i == 0 || i == 1 || i == 2 || i == 3 || i == 4);
    }
}

/// A symbol is registered exactly where an entry has its name, and then at the first that has.
pub proof fn lemma_registered(hooks: Hooks, name: Text)
    ensures
        match hook_position(hooks, name) {
            Some(i) => 0 <= i < hooks.len() && hooks[i].0 == name && forall|j: int|
                0 <= j < i ==> (#[trigger] hooks[j]).0 != name,
            None => forall|j: int| 0 <= j < hooks.len() ==> (#[trigger] hooks[j]).0 != name,
        },
{
    lemma_hook_index(hooks, name, 0);
}

/// Registering a symbol lists it with how it hands out its table, keeps every other as it is, and
/// adds at most one.
pub proof fn lemma_hook_is_registered(hooks: Hooks, name: Text, abi: HookAbi)
    ensures
        hook_added(hooks, name, abi).contains((name, abi)),
        forall|i: int|
            0 <= i < hooks.len() && (#[trigger] hooks[i]).0 != name ==> hook_added(
                hooks,
                name,
                abi,
            )[i] == hooks[i],
        hook_added(hooks, name, abi).len() == hooks.len() + if exists|i: int|
            0 <= i < hooks.len() && (#[trigger] hooks[i]).0 == name {
            0int
        } else {
            1int
        },
{
    lemma_hook_index(hooks, name, 0);
    let added = hook_added(hooks, name, abi);
    match hook_position(hooks, name) {
        Some(i) => {
            assert(added[i] == (name, abi));
            assert(hooks[i].0 == name);
        },
        None => {
            assert(added[hooks.len() as int] == (name, abi));
        },
    }
}

/// How many skips have a subject and a reason.
pub open spec fn how_many(skips: Seq<Skipped>, subject: Text, reason: Text) -> nat
    decreases skips.len(),
{
    if skips.len() == 0 {
        0
    } else {
        how_many(skips.drop_last(), subject, reason) + if skips.last().subject@ == subject
            && skips.last().reason@ == reason {
            1nat
        } else {
            0nat
        }
    }
}

/// A ledger counts a site for a pair as often as the site raised it: nothing is dropped, nothing is
/// counted for another pair or for another site.
pub proof fn lemma_every_skip_is_counted(
    raised: Seq<RaisedText>,
    skips: Seq<Skipped>,
    site: Text,
    subject: Text,
    reason: Text,
    other: Text,
)
    requires
        ordered(raised),
        forall|s: Text, r: Text|
            #[trigger] times_raised(raised, s, r, site) + skips.len() <= u64::MAX,
    ensures
        times_raised(all_noted(raised, skips, site), subject, reason, site) == times_raised(
            raised,
            subject,
            reason,
            site,
        ) + how_many(skips, subject, reason),
        other != site ==> times_raised(all_noted(raised, skips, site), subject, reason, other)
            == times_raised(raised, subject, reason, other),
        ordered(all_noted(raised, skips, site)),
    decreases skips.len(),
{
    if skips.len() > 0 {
        let before = skips.drop_last();
        let last = skips.last();
        assert forall|s: Text, r: Text|
            #[trigger] times_raised(raised, s, r, site) + before.len() <= u64::MAX by {
            assert(times_raised(raised, s, r, site) + skips.len() <= u64::MAX);
        }
        lemma_every_skip_is_counted(raised, before, site, subject, reason, other);
        lemma_every_skip_is_counted(raised, before, site, last.subject@, last.reason@, other);
        lemma_how_many(before, last.subject@, last.reason@);
        assert(times_raised(raised, last.subject@, last.reason@, site) + skips.len() <= u64::MAX);
        lemma_pair_noted(
            all_noted(raised, before, site),
            last.subject@,
            last.reason@,
            site,
            subject,
            reason,
            site,
        );
        lemma_pair_noted(
            all_noted(raised, before, site),
            last.subject@,
            last.reason@,
            site,
            subject,
            reason,
            other,
        );
    }
}

/// No more skips have a subject and a reason than there are.
proof fn lemma_how_many(skips: Seq<Skipped>, subject: Text, reason: Text)
    ensures
        how_many(skips, subject, reason) <= skips.len(),
    decreases skips.len(),
{
    if skips.len() > 0 {
        lemma_how_many(skips.drop_last(), subject, reason);
    }
}

/// What a ledger lists for a pair and a site is how often the site raised it.
pub proof fn lemma_listed_counts(raised: Seq<RaisedText>, i: int, j: int)
    requires
        ordered(raised),
        0 <= i < raised.len(),
        0 <= j < raised[i].sites.len(),
    ensures
        times_raised(raised, raised[i].subject, raised[i].reason, raised[i].sites[j].0)
            == raised[i].sites[j].1,
{
    lemma_pair_found(raised, raised[i].subject, raised[i].reason, i);
    lemma_site_found(raised[i].sites, raised[i].sites[j].0, j);
}

/// The line of a pair that was raised and is not published.
pub open spec fn unpublished_line(entry: RaisedText) -> Text {
    "[not published] "@ + sites_text(entry.sites) + pair_text(entry.subject, entry.reason)
}

/// Whether no published record names a pair.
pub open spec fn is_held_back(published: Seq<PublishedSkip>, entry: RaisedText) -> bool {
    forall|k: int|
        0 <= k < published.len() ==> !((#[trigger] published[k]).skip.subject@ == entry.subject
            && published[k].skip.reason@ == entry.reason)
}

/// Whether a line tells of a pair that no published record names.
pub open spec fn tells_of(published: Seq<PublishedSkip>, entry: RaisedText, line: Text) -> bool {
    is_held_back(published, entry) && line == unpublished_line(entry)
}

/// Every pair that was raised and that no published record names has its line in the report, and
/// every such line is one of such a pair.
pub proof fn lemma_held_back_is_reported(
    raised: Seq<RaisedText>,
    published: Seq<PublishedSkip>,
    n: int,
)
    requires
        0 <= n <= raised.len(),
    ensures
        forall|i: int|
            0 <= i < n && is_held_back(published, #[trigger] raised[i]) ==> unpublished_lines(
                raised,
                published,
                n,
            ).contains(unpublished_line(raised[i])),
        forall|k: int|
            #![trigger unpublished_lines(raised, published, n)[k]]
            0 <= k < unpublished_lines(raised, published, n).len() ==> exists|i: int|
                0 <= i < n && tells_of(
                    published,
                    #[trigger] raised[i],
                    unpublished_lines(raised, published, n)[k],
                ),
    decreases n,
{
    if n > 0 {
        lemma_held_back_is_reported(raised, published, n - 1);
        let before = unpublished_lines(raised, published, n - 1);
        let now = unpublished_lines(raised, published, n);
        let last = raised[n - 1];
        assert(is_held_back(published, last) == !is_published(
            published,
            last.subject,
            last.reason,
        )) by {
            if is_published(published, last.subject, last.reason) {
                let k = choose|k: int|
                    0 <= k < published.len() && (#[trigger] published[k]).skip.subject@
                        == last.subject && published[k].skip.reason@ == last.reason;
                assert(published[k].skip.subject@ == last.subject);
            }
        }
        assert forall|i: int| 0 <= i < n && is_held_back(published, #[trigger] raised[i]) implies
            now.contains(unpublished_line(raised[i])) by {
            if i < n - 1 {
                let line = unpublished_line(raised[i]);
                assert(before.contains(line));
                let k = choose|k: int| 0 <= k < before.len() && before[k] == line;
                assert(now[k] == line);
            } else {
                assert(now[now.len() - 1] == unpublished_line(raised[i]));
            }
        }
        assert forall|k: int|
            #![trigger now[k]]
            0 <= k < now.len() implies exists|i: int|
            0 <= i < n && tells_of(published, #[trigger] raised[i], now[k]) by {
            if k < before.len() {
                assert(before[k] == now[k]);
                let i = choose|i: int|
                    0 <= i < n - 1 && tells_of(published, #[trigger] raised[i], before[k]);
                assert(tells_of(published, raised[i], now[k]));
            } else {
                assert(tells_of(published, raised[n - 1], now[k]));
            }
        }
    }
}

/// The line of a published record names the sites that raised its pair, each as often as it did; a
/// pair that no site raised is told as such.
pub proof fn lemma_published_lines(
    raised: Seq<RaisedText>,
    published: Seq<PublishedSkip>,
    i: int,
    k: int,
)
    requires
        ordered(raised),
        0 <= i < published.len(),
        0 <= k < raised.len(),
    ensures
        ({
            let skip = published[i].skip;
            let start = "["@ + digits(i as nat) + "] "@ + debug_text(published[i].public_reason@)
                + " <- "@;
            let end = pair_text(skip.subject@, skip.reason@);
            &&& raised[k].subject == skip.subject@ && raised[k].reason == skip.reason@
                ==> published_line(raised, published, i) == start + sites_text(raised[k].sites)
                + end
            &&& (forall|j: int|
                0 <= j < raised.len() ==> !((#[trigger] raised[j]).subject == skip.subject@
                    && raised[j].reason == skip.reason@)) ==> published_line(raised, published, i)
                == start + "<unattributed>"@ + end
        }),
{
    let skip = published[i].skip;
    if raised[k].subject == skip.subject@ && raised[k].reason == skip.reason@ {
        lemma_pair_found(raised, skip.subject@, skip.reason@, k);
    }
}

/// A report starts with the number of published records; the line of each follows, in order, and
/// then the lines of the pairs that none of them names.
pub proof fn lemma_report(raised: Seq<RaisedText>, published: Seq<PublishedSkip>, i: int)
    requires
        0 <= i < published.len(),
    ensures
        ({
            let lines = report_lines(raised, published);
            let rest = unpublished_lines(raised, published, raised.len() as int);
            &&& lines.len() == 1 + published.len() + rest.len()
            &&& lines[0] == digits(published.len()) + " published record(s)"@
            &&& lines[i + 1] == published_line(raised, published, i)
            &&& lines.skip(1 + published.len() as int) == rest
        }),
{
    let lines = report_lines(raised, published);
    let rest = unpublished_lines(raised, published, raised.len() as int);
    assert(lines.skip(1 + published.len() as int) =~= rest);
}

/// A site is told with how often it raised a pair.
pub proof fn lemma_one_site(site: Text, count: u64)
    ensures
        sites_text(seq![(site, count)]) == site + " x"@ + digits(count as nat),
{
    let sites = seq![(site, count)];
    let lines = sites.map_values(|s: (Text, u64)| site_text(s));
    assert(lines =~= seq![site + " x"@ + digits(count as nat)]);
    assert(lines.drop_last() =~= Seq::empty());
    assert(sites_text(sites) =~= site + " x"@ + digits(count as nat));
}

} // verus!
