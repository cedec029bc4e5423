//! Attribution of published discovery skips: which site raised each, and how often before
//! repeated ones were dropped. It observes and never feeds what is published.

use crate::text::{
    debug_of, debug_text, decimal, digits, is_before, join, joined, lemma_precedes_total,
    lemma_precedes_transitive, precedes, push_text, same, texts, Text,
};
use vstd::prelude::*;
use vstd::string::*;

verus! {

/// Something that discovery left out, and why.
#[derive(Clone, Debug, PartialEq, Eq)]
pub struct Skipped {
    pub subject: String,
    pub reason: String,
}

/// Something left out that is published, with the reason that is made public.
#[derive(Clone, Debug, PartialEq, Eq)]
pub struct PublishedSkip {
    pub skip: Skipped,
    pub public_reason: String,
}

/// One subject with one reason: every site that raised it, with how often it did.
#[derive(Clone, Debug)]
pub struct Raised {
    pub subject: String,
    pub reason: String,
    pub sites: Vec<(String, u64)>,
}

/// One subject with one reason, by characters.
pub struct RaisedText {
    pub subject: Text,
    pub reason: Text,
    pub sites: Seq<(Text, u64)>,
}

/// Every pair that was raised, in the order of subject and reason, with its sites in order. A
/// ledger that is off stays empty and reports nothing.
#[derive(Clone, Debug)]
pub struct Ledger {
    pub enabled: bool,
    pub raised: Vec<Raised>,
}

/// Sites with their counts, by characters.
pub open spec fn site_texts(sites: Seq<(String, u64)>) -> Seq<(Text, u64)> {
    sites.map_values(|s: (String, u64)| (s.0@, s.1))
}

impl View for Raised {
    type V = RaisedText;

    open spec fn view(&self) -> RaisedText {
        RaisedText {
            subject: self.subject@,
            reason: self.reason@,
            sites: site_texts(self.sites@),
        }
    }
}

impl View for Ledger {
    type V = Seq<RaisedText>;

    open spec fn view(&self) -> Seq<RaisedText> {
        self.raised@.map_values(|r: Raised| r@)
    }
}

/// Whether a pair stands before another.
pub open spec fn pair_before(s1: Text, r1: Text, s2: Text, r2: Text) -> bool {
    precedes(s1, s2) || (s1 == s2 && precedes(r1, r2))
}

/// Whether sites are in order, each once.
pub open spec fn sites_ordered(sites: Seq<(Text, u64)>) -> bool {
    forall|i: int, j: int|
        0 <= i < j < sites.len() ==> precedes((#[trigger] sites[i]).0, (#[trigger] sites[j]).0)
}

/// Whether pairs are in order, each once, and so are the sites of each.
pub open spec fn ordered(raised: Seq<RaisedText>) -> bool {
    &&& forall|i: int, j: int|
        #![trigger raised[i], raised[j]]
        0 <= i < j < raised.len() ==> pair_before(
            raised[i].subject,
            raised[i].reason,
            raised[j].subject,
            raised[j].reason,
        )
    &&& forall|i: int| 0 <= i < raised.len() ==> sites_ordered((#[trigger] raised[i]).sites)
}

impl Ledger {
    /// Whether the ledger is in order.
    pub open spec fn well_formed(&self) -> bool {
        ordered(self@)
    }

    /// An empty ledger.
    pub fn new(enabled: bool) -> (ledger: Self)
        ensures
            ledger@ == Seq::<RaisedText>::empty(),
            ledger.enabled == enabled,
            ledger.well_formed(),
    {
        let ledger = Ledger { enabled, raised: Vec::new() };
        assert(ledger@ =~= Seq::<RaisedText>::empty());
        ledger
    }
}

/// The position of a site, or where it would stand.
pub open spec fn site_slot(sites: Seq<(Text, u64)>, site: Text, from: int) -> int
    decreases sites.len() - from,
{
    if from < 0 || from >= sites.len() {
        sites.len() as int
    } else if precedes(sites[from].0, site) {
        site_slot(sites, site, from + 1)
    } else {
        from
    }
}

/// How often a site is counted among sites.
pub open spec fn site_count(sites: Seq<(Text, u64)>, site: Text) -> u64 {
    let i = site_slot(sites, site, 0);
    if i < sites.len() && sites[i].0 == site {
        sites[i].1
    } else {
        0
    }
}

/// Sites with one more count for one of them.
pub open spec fn site_noted(sites: Seq<(Text, u64)>, site: Text) -> Seq<(Text, u64)> {
    let i = site_slot(sites, site, 0);
    if i < sites.len() && sites[i].0 == site {
        sites.update(i, (site, (sites[i].1 + 1) as u64))
    } else {
        sites.insert(i, (site, 1))
    }
}

/// The position of a pair, or where it would stand.
pub open spec fn pair_slot(raised: Seq<RaisedText>, subject: Text, reason: Text, from: int) -> int
    decreases raised.len() - from,
{
    if from < 0 || from >= raised.len() {
        raised.len() as int
    } else if pair_before(raised[from].subject, raised[from].reason, subject, reason) {
        pair_slot(raised, subject, reason, from + 1)
    } else {
        from
    }
}

/// Whether a pair stands at a position.
pub open spec fn pair_at(raised: Seq<RaisedText>, i: int, subject: Text, reason: Text) -> bool {
    0 <= i < raised.len() && raised[i].subject == subject && raised[i].reason == reason
}

/// The sites of a pair, where it was raised.
pub open spec fn pair_sites(raised: Seq<RaisedText>, subject: Text, reason: Text) -> Option<
    Seq<(Text, u64)>,
> {
    let i = pair_slot(raised, subject, reason, 0);
    if pair_at(raised, i, subject, reason) {
        Some(raised[i].sites)
    } else {
        None
    }
}

/// How often a site raised a pair.
pub open spec fn times_raised(
    raised: Seq<RaisedText>,
    subject: Text,
    reason: Text,
    site: Text,
) -> u64 {
    match pair_sites(raised, subject, reason) {
        Some(sites) => site_count(sites, site),
        None => 0,
    }
}

/// The pairs once a site has raised one of them.
pub open spec fn pair_noted(
    raised: Seq<RaisedText>,
    subject: Text,
    reason: Text,
    site: Text,
) -> Seq<RaisedText> {
    let i = pair_slot(raised, subject, reason, 0);
    if pair_at(raised, i, subject, reason) {
        raised.update(
            i,
            RaisedText { sites: site_noted(raised[i].sites, site), ..raised[i] },
        )
    } else {
        raised.insert(i, RaisedText { subject, reason, sites: seq![(site, 1u64)] })
    }
}

/// Where a site stands: everything before it precedes it, and nothing from there on does.
pub proof fn lemma_site_slot(sites: Seq<(Text, u64)>, site: Text, from: int)
    requires
        0 <= from <= sites.len(),
        sites_ordered(sites),
        forall|j: int| 0 <= j < from ==> precedes((#[trigger] sites[j]).0, site),
    ensures
        from <= site_slot(sites, site, from) <= sites.len(),
        forall|j: int|
            0 <= j < site_slot(sites, site, from) ==> precedes((#[trigger] sites[j]).0, site),
        forall|j: int|
            site_slot(sites, site, from) <= j < sites.len() ==> !precedes(
                (#[trigger] sites[j]).0,
                site,
            ),
    decreases sites.len() - from,
{
    if from < sites.len() {
        if precedes(sites[from].0, site) {
            lemma_site_slot(sites, site, from + 1);
        } else {
            assert forall|j: int| from <= j < sites.len() implies !precedes(
                (#[trigger] sites[j]).0,
                site,
            ) by {
                if precedes(sites[j].0, site) && j > from {
                    lemma_precedes_transitive(sites[from].0, sites[j].0, site, 0);
                }
            }
        }
    }
}

/// A site is counted once more, every other site as before, and the order stays.
pub proof fn lemma_site_noted(sites: Seq<(Text, u64)>, site: Text, other: Text)
    requires
        sites_ordered(sites),
        site_count(sites, site) < u64::MAX,
    ensures
        sites_ordered(site_noted(sites, site)),
        site_count(site_noted(sites, site), site) == site_count(sites, site) + 1,
        other != site ==> site_count(site_noted(sites, site), other) == site_count(sites, other),
{
    let i = site_slot(sites, site, 0);
    let after = site_noted(sites, site);
    lemma_site_slot(sites, site, 0);
    assert forall|j: int, k: int| 0 <= j < k < after.len() implies precedes(
        (#[trigger] after[j]).0,
        (#[trigger] after[k]).0,
    ) by {
        if i < sites.len() && sites[i].0 == site {
            assert(after[j].0 == sites[j].0 && after[k].0 == sites[k].0);
        } else {
            let sj = if j < i {
                j
            } else {
                j - 1
            };
            let sk = if k < i {
                k
            } else {
                k - 1
            };
            if j != i && k != i {
                assert(after[j] == sites[sj] && after[k] == sites[sk]);
            } else if k == i {
                assert(after[j] == sites[j]);
            } else {
                assert(after[k] == sites[sk]);
                lemma_precedes_total(site, sites[sk].0, 0);
                if sites[sk].0 == site && sk > i {
                    assert(precedes(sites[i].0, sites[sk].0));
                }
            }
        }
    }
    lemma_site_found(after, site, i);
    if other != site {
        lemma_site_slot(sites, other, 0);
        let o = site_slot(sites, other, 0);
        if o < sites.len() && sites[o].0 == other {
            if i < sites.len() && sites[i].0 == site {
                assert(after[o].0 == other);
                lemma_site_found(after, other, o);
            } else {
                let p = if o < i {
                    o
                } else {
                    o + 1
                };
                assert(after[p] == sites[o]);
                lemma_site_found(after, other, p);
            }
        } else {
            lemma_site_slot(after, other, 0);
            let p = site_slot(after, other, 0);
            if p < after.len() && after[p].0 == other {
                let q = if i < sites.len() && sites[i].0 == site {
                    p
                } else if p < i {
                    p
                } else {
                    p - 1
                };
                assert(sites[q].0 == other);
                lemma_site_found(sites, other, q);
            }
        }
    }
}

/// In ordered sites, a site is found where it stands.
pub proof fn lemma_site_found(sites: Seq<(Text, u64)>, site: Text, i: int)
    requires
        sites_ordered(sites),
        0 <= i < sites.len(),
        sites[i].0 == site,
    ensures
        site_slot(sites, site, 0) == i,
        site_count(sites, site) == sites[i].1,
{
    lemma_site_slot(sites, site, 0);
    let s = site_slot(sites, site, 0);
    lemma_precedes_total(site, site, 0);
    if s < i {
        assert(precedes(sites[s].0, sites[i].0));
    } else if s > i {
        assert(precedes(sites[i].0, site));
    }
}

/// Pairs are never before themselves, and are in order one way or the other.
pub proof fn lemma_pair_total(s1: Text, r1: Text, s2: Text, r2: Text)
    ensures
        !(pair_before(s1, r1, s2, r2) && pair_before(s2, r2, s1, r1)),
        pair_before(s1, r1, s2, r2) || pair_before(s2, r2, s1, r1) || (s1 == s2 && r1 == r2),
        s1 == s2 && r1 == r2 ==> !pair_before(s1, r1, s2, r2),
{
    lemma_precedes_total(s1, s2, 0);
    lemma_precedes_total(r1, r2, 0);
    lemma_precedes_total(s2, s1, 0);
}

/// The order of pairs is transitive.
pub proof fn lemma_pair_transitive(s1: Text, r1: Text, s2: Text, r2: Text, s3: Text, r3: Text)
    requires
        pair_before(s1, r1, s2, r2),
        pair_before(s2, r2, s3, r3),
    ensures
        pair_before(s1, r1, s3, r3),
{
    if precedes(s1, s2) && precedes(s2, s3) {
        lemma_precedes_transitive(s1, s2, s3, 0);
    } else if s1 == s2 && s2 == s3 {
        lemma_precedes_transitive(r1, r2, r3, 0);
    }
}

/// Where a pair stands: everything before it precedes it, and nothing from there on does.
pub proof fn lemma_pair_slot(raised: Seq<RaisedText>, subject: Text, reason: Text, from: int)
    requires
        0 <= from <= raised.len(),
        ordered(raised),
        forall|j: int|
            #![trigger raised[j]]
            0 <= j < from ==> pair_before(raised[j].subject, raised[j].reason, subject, reason),
    ensures
        from <= pair_slot(raised, subject, reason, from) <= raised.len(),
        forall|j: int|
            #![trigger raised[j]]
            0 <= j < pair_slot(raised, subject, reason, from) ==> pair_before(
                raised[j].subject,
                raised[j].reason,
                subject,
                reason,
            ),
        forall|j: int|
            #![trigger raised[j]]
            pair_slot(raised, subject, reason, from) <= j < raised.len() ==> !pair_before(
                raised[j].subject,
                raised[j].reason,
                subject,
                reason,
            ),
    decreases raised.len() - from,
{
    if from < raised.len() {
        if pair_before(raised[from].subject, raised[from].reason, subject, reason) {
            lemma_pair_slot(raised, subject, reason, from + 1);
        } else {
            assert forall|j: int|
                #![trigger raised[j]]
                from <= j < raised.len() implies !pair_before(
                raised[j].subject,
                raised[j].reason,
                subject,
                reason,
            ) by {
                if j > from && pair_before(
                    raised[j].subject,
                    raised[j].reason,
                    subject,
                    reason,
                ) {
                    lemma_pair_transitive(
                        raised[from].subject,
                        raised[from].reason,
                        raised[j].subject,
                        raised[j].reason,
                        subject,
                        reason,
                    );
                }
            }
        }
    }
}

/// In ordered pairs, a pair is found where it stands.
pub proof fn lemma_pair_found(raised: Seq<RaisedText>, subject: Text, reason: Text, i: int)
    requires
        ordered(raised),
        pair_at(raised, i, subject, reason),
    ensures
        pair_slot(raised, subject, reason, 0) == i,
        pair_sites(raised, subject, reason) == Some(raised[i].sites),
{
    lemma_pair_slot(raised, subject, reason, 0);
    let s = pair_slot(raised, subject, reason, 0);
    lemma_pair_total(subject, reason, subject, reason);
    if s < i {
        assert(pair_before(
            raised[s].subject,
            raised[s].reason,
            raised[i].subject,
            raised[i].reason,
        ));
    } else if s > i {
        assert(pair_before(raised[i].subject, raised[i].reason, subject, reason));
    }
}

/// A site that raises a pair is counted once more for it, everything else stays as it was, and so
/// does the order.
pub proof fn lemma_pair_noted(
    raised: Seq<RaisedText>,
    subject: Text,
    reason: Text,
    site: Text,
    s2: Text,
    r2: Text,
    site2: Text,
)
    requires
        ordered(raised),
        times_raised(raised, subject, reason, site) < u64::MAX,
    ensures
        ordered(pair_noted(raised, subject, reason, site)),
        times_raised(pair_noted(raised, subject, reason, site), subject, reason, site)
            == times_raised(raised, subject, reason, site) + 1,
        (s2 != subject || r2 != reason || site2 != site) ==> times_raised(
            pair_noted(raised, subject, reason, site),
            s2,
            r2,
            site2,
        ) == times_raised(raised, s2, r2, site2),
{
    let i = pair_slot(raised, subject, reason, 0);
    let after = pair_noted(raised, subject, reason, site);
    lemma_pair_slot(raised, subject, reason, 0);
    let known = pair_at(raised, i, subject, reason);
    let one = seq![(site, 1u64)];
    if known {
        lemma_site_noted(raised[i].sites, site, site2);
    } else {
        assert(sites_ordered(one));
        lemma_site_found(one, site, 0);
        if site2 != site {
            lemma_site_slot(one, site2, 0);
            assert(site_count(one, site2) == 0);
        }
    }
    assert forall|j: int, k: int|
        #![trigger after[j], after[k]]
        0 <= j < k < after.len() implies pair_before(
        after[j].subject,
        after[j].reason,
        after[k].subject,
        after[k].reason,
    ) by {
        if known {
            assert(after[j].subject == raised[j].subject && after[j].reason == raised[j].reason);
            assert(after[k].subject == raised[k].subject && after[k].reason == raised[k].reason);
            assert(pair_before(
                raised[j].subject,
                raised[j].reason,
                raised[k].subject,
                raised[k].reason,
            ));
        } else {
            let sj = if j < i {
                j
            } else {
                j - 1
            };
            let sk = if k < i {
                k
            } else {
                k - 1
            };
            if j != i && k != i {
                assert(after[j] == raised[sj] && after[k] == raised[sk]);
                assert(pair_before(
                    raised[sj].subject,
                    raised[sj].reason,
                    raised[sk].subject,
                    raised[sk].reason,
                ));
            } else if k == i {
                assert(after[j] == raised[j]);
            } else {
                assert(after[k] == raised[sk]);
                lemma_pair_total(subject, reason, raised[sk].subject, raised[sk].reason);
                if raised[sk].subject == subject && raised[sk].reason == reason && sk > i {
                    assert(pair_before(
                        raised[i].subject,
                        raised[i].reason,
                        raised[sk].subject,
                        raised[sk].reason,
                    ));
                }
            }
        }
    }
    assert forall|j: int| 0 <= j < after.len() implies sites_ordered((#[trigger] after[j]).sites) by {
        if known {
            if j != i {
                assert(after[j] == raised[j]);
            }
        } else if j < i {
            assert(after[j] == raised[j]);
        } else if j > i {
            assert(after[j] == raised[j - 1]);
        }
    }
    assert(pair_at(after, i, subject, reason));
    lemma_pair_found(after, subject, reason, i);
    if s2 != subject || r2 != reason {
        lemma_pair_slot(raised, s2, r2, 0);
        let o = pair_slot(raised, s2, r2, 0);
        if pair_at(raised, o, s2, r2) {
            let p = if known || o < i {
                o
            } else {
                o + 1
            };
            assert(after[p] == raised[o]);
            lemma_pair_found(after, s2, r2, p);
        } else {
            lemma_pair_slot(after, s2, r2, 0);
            let p = pair_slot(after, s2, r2, 0);
            if pair_at(after, p, s2, r2) {
                let q = if known || p < i {
                    p
                } else {
                    p - 1
                };
                assert(raised[q].subject == s2 && raised[q].reason == r2);
                lemma_pair_found(raised, s2, r2, q);
            }
        }
    }
}

/// Finds the position of a site, or where it would stand.
fn find_site(sites: &Vec<(String, u64)>, site: &str) -> (i: usize)
    ensures
        i == site_slot(site_texts(sites@), site@, 0),
        i <= sites@.len(),
{
    let mut i: usize = 0;
    while i < sites.len()
        invariant
            i <= sites@.len(),
            site_texts(sites@).len() == sites@.len(),
            site_slot(site_texts(sites@), site@, i as int) == site_slot(
                site_texts(sites@),
                site@,
                0,
            ),
        decreases sites@.len() - i,
    {
        assert(site_texts(sites@)[i as int].0 == sites@[i as int].0@);
        if !is_before(sites[i].0.as_str(), site) {
            return i;
        }
        i += 1;
    }
    i
}

/// Counts a site once more.
fn note_site(sites: &mut Vec<(String, u64)>, site: &str)
    requires
        sites_ordered(site_texts(old(sites)@)),
        site_count(site_texts(old(sites)@), site@) < u64::MAX,
    ensures
        site_texts(final(sites)@) == site_noted(site_texts(old(sites)@), site@),
{
    let i: usize = find_site(sites, site);
    assert(site_texts(sites@).len() == sites@.len());
    if i < sites.len() {
        assert(site_texts(sites@)[i as int] == (sites@[i as int].0@, sites@[i as int].1));
        if same(sites[i].0.as_str(), site) {
            let count: u64 = sites[i].1 + 1;
            sites.set(i, (site.to_owned(), count));
            assert(site_texts(sites@) =~= site_texts(old(sites)@).update(
                i as int,
                (site@, count),
            ));
            return;
        }
    }
    sites.insert(i, (site.to_owned(), 1));
    assert(site_texts(sites@) =~= site_texts(old(sites)@).insert(i as int, (site@, 1)));
}

/// Tells whether a pair stands before another.
fn is_pair_before(s1: &str, r1: &str, s2: &str, r2: &str) -> (r: bool)
    ensures
        r == pair_before(s1@, r1@, s2@, r2@),
{
    is_before(s1, s2) || (same(s1, s2) && is_before(r1, r2))
}

impl Ledger {
    /// Finds the position of a pair, or where it would stand.
    fn find(&self, skip: &Skipped) -> (i: usize)
        ensures
            i == pair_slot(self@, skip.subject@, skip.reason@, 0),
            i <= self.raised@.len(),
            self@.len() == self.raised@.len(),
    {
        let mut i: usize = 0;
        while i < self.raised.len()
            invariant
                i <= self.raised@.len(),
                self@.len() == self.raised@.len(),
                pair_slot(self@, skip.subject@, skip.reason@, i as int) == pair_slot(
                    self@,
                    skip.subject@,
                    skip.reason@,
                    0,
                ),
            decreases self.raised@.len() - i,
        {
            assert(self@[i as int] == self.raised@[i as int]@);
            let entry = &self.raised[i];
            if !is_pair_before(
                entry.subject.as_str(),
                entry.reason.as_str(),
                skip.subject.as_str(),
                skip.reason.as_str(),
            ) {
                return i;
            }
            i += 1;
        }
        i
    }

    /// Tells whether a pair stands at a position.
    fn holds(&self, i: usize, skip: &Skipped) -> (r: bool)
        ensures
            r == pair_at(self@, i as int, skip.subject@, skip.reason@),
    {
        if i < self.raised.len() {
            assert(self@[i as int] == self.raised@[i as int]@);
            let entry = &self.raised[i];
            same(entry.subject.as_str(), skip.subject.as_str()) && same(
                entry.reason.as_str(),
                skip.reason.as_str(),
            )
        } else {
            false
        }
    }
}

/// Records that a site raised a pair. A ledger that is off records nothing.
pub fn note(ledger: &mut Ledger, site: &str, skip: &Skipped)
    requires
        old(ledger).well_formed(),
        times_raised(old(ledger)@, skip.subject@, skip.reason@, site@) < u64::MAX,
    ensures
        final(ledger).well_formed(),
        final(ledger).enabled == old(ledger).enabled,
        old(ledger).enabled ==> final(ledger)@ == pair_noted(
            old(ledger)@,
            skip.subject@,
            skip.reason@,
            site@,
        ),
        !old(ledger).enabled ==> final(ledger)@ == old(ledger)@,
{
    if !ledger.enabled {
        return;
    }
    let i: usize = ledger.find(skip);
    proof {
        lemma_pair_noted(
            ledger@,
            skip.subject@,
            skip.reason@,
            site@,
            skip.subject@,
            skip.reason@,
            site@,
        );
    }
    if ledger.holds(i, skip) {
        let mut entry = ledger.raised.remove(i);
        assert(entry@ == old(ledger)@[i as int]);
        note_site(&mut entry.sites, site);
        ledger.raised.insert(i, entry);
        assert(ledger@ =~= old(ledger)@.update(i as int, entry@));
    } else {
        let mut sites: Vec<(String, u64)> = Vec::new();
        sites.push((site.to_owned(), 1));
        assert(site_texts(sites@) =~= seq![(site@, 1u64)]);
        let entry = Raised {
            subject: skip.subject.clone(),
            reason: skip.reason.clone(),
            sites,
        };
        ledger.raised.insert(i, entry);
        assert(ledger@ =~= old(ledger)@.insert(i as int, entry@));
    }
}

/// The pairs once a site has raised each of several, in order.
pub open spec fn all_noted(raised: Seq<RaisedText>, skips: Seq<Skipped>, site: Text) -> Seq<
    RaisedText,
>
    decreases skips.len(),
{
    if skips.len() == 0 {
        raised
    } else {
        pair_noted(
            all_noted(raised, skips.drop_last(), site),
            skips.last().subject@,
            skips.last().reason@,
            site,
        )
    }
}

/// Noting several pairs keeps the order and adds at most their number to any count.
pub proof fn lemma_all_noted(
    raised: Seq<RaisedText>,
    skips: Seq<Skipped>,
    site: Text,
    subject: Text,
    reason: Text,
)
    requires
        ordered(raised),
        forall|s: Text, r: Text|
            #[trigger] times_raised(raised, s, r, site) + skips.len() <= u64::MAX,
    ensures
        ordered(all_noted(raised, skips, site)),
        times_raised(raised, subject, reason, site) <= times_raised(
            all_noted(raised, skips, site),
            subject,
            reason,
            site,
        ) <= times_raised(raised, subject, reason, site) + skips.len(),
    decreases skips.len(),
{
    if skips.len() > 0 {
        let before = skips.drop_last();
        let last = skips.last();
        assert forall|s: Text, r: Text|
            #[trigger] times_raised(raised, s, r, site) + before.len() <= u64::MAX by {
            assert(times_raised(raised, s, r, site) + skips.len() <= u64::MAX);
        }
        lemma_all_noted(raised, before, site, subject, reason);
        lemma_all_noted(raised, before, site, last.subject@, last.reason@);
        assert(times_raised(raised, last.subject@, last.reason@, site) + skips.len() <= u64::MAX);
        lemma_pair_noted(
            all_noted(raised, before, site),
            last.subject@,
            last.reason@,
            site,
            subject,
            reason,
            site,
        );
    }
}

/// Records that a site raised each of several pairs.
pub fn note_all(ledger: &mut Ledger, site: &str, skips: &Vec<Skipped>)
    requires
        old(ledger).well_formed(),
        forall|s: Text, r: Text|
            #[trigger] times_raised(old(ledger)@, s, r, site@) + skips@.len() <= u64::MAX,
    ensures
        final(ledger).well_formed(),
        final(ledger).enabled == old(ledger).enabled,
        old(ledger).enabled ==> final(ledger)@ == all_noted(old(ledger)@, skips@, site@),
        !old(ledger).enabled ==> final(ledger)@ == old(ledger)@,
{
    let mut i: usize = 0;
    if !ledger.enabled {
        return;
    }
    assert(skips@.take(0) =~= Seq::<Skipped>::empty());
    while i < skips.len()
        invariant
            i <= skips@.len(),
            ledger.enabled,
            ledger.well_formed(),
            old(ledger).well_formed(),
            ledger@ == all_noted(old(ledger)@, skips@.take(i as int), site@),
            forall|s: Text, r: Text|
                #[trigger] times_raised(old(ledger)@, s, r, site@) + skips@.len() <= u64::MAX,
        decreases skips@.len() - i,
    {
        proof {
            let skip = skips@[i as int];
            assert forall|s: Text, r: Text|
                #[trigger] times_raised(old(ledger)@, s, r, site@) + skips@.take(i as int).len()
                    <= u64::MAX by {
                assert(times_raised(old(ledger)@, s, r, site@) + skips@.len() <= u64::MAX);
            }
            lemma_all_noted(
                old(ledger)@,
                skips@.take(i as int),
                site@,
                skip.subject@,
                skip.reason@,
            );
            assert(times_raised(old(ledger)@, skip.subject@, skip.reason@, site@) + skips@.len()
                <= u64::MAX);
            assert(skips@.take(i + 1).drop_last() =~= skips@.take(i as int));
            assert(skips@.take(i + 1).last() == skip);
        }
        note(ledger, site, &skips[i]);
        i += 1;
    }
    assert(skips@.take(i as int) =~= skips@);
}

/// One site with its count.
pub open spec fn site_text(site: (Text, u64)) -> Text {
    site.0 + " x"@ + digits(site.1 as nat)
}

/// Every site with its count.
pub open spec fn sites_text(sites: Seq<(Text, u64)>) -> Text {
    joined(sites.map_values(|s: (Text, u64)| site_text(s)), ", "@)
}

/// Writes every site with its count.
fn render_sites(sites: &Vec<(String, u64)>) -> (r: String)
    ensures
        r@ == sites_text(site_texts(sites@)),
{
    let mut parts: Vec<String> = Vec::new();
    let mut i: usize = 0;
    let ghost lines = site_texts(sites@).map_values(|s: (Text, u64)| site_text(s));
    while i < sites.len()
        invariant
            i <= sites@.len(),
            parts@.len() == i,
            lines == site_texts(sites@).map_values(|s: (Text, u64)| site_text(s)),
            forall|j: int| 0 <= j < i ==> (#[trigger] parts@[j])@ == lines[j],
        decreases sites@.len() - i,
    {
        let mut part = sites[i].0.clone();
        part.append(" x");
        part.append(decimal(sites[i].1).as_str());
        assert(part@ == lines[i as int]);
        parts.push(part);
        i += 1;
    }
    assert(texts(parts@) =~= lines);
    join(&parts, ", ")
}

/// The sites of a pair as they are reported.
pub open spec fn attributed(raised: Seq<RaisedText>, subject: Text, reason: Text) -> Text {
    match pair_sites(raised, subject, reason) {
        Some(sites) => sites_text(sites),
        None => "<unattributed>"@,
    }
}

/// The tail of a report line, which names the pair.
pub open spec fn pair_text(subject: Text, reason: Text) -> Text {
    " :: subject="@ + debug_text(subject) + " reason="@ + debug_text(reason)
}

/// The report line of a published record.
pub open spec fn published_line(
    raised: Seq<RaisedText>,
    published: Seq<PublishedSkip>,
    i: int,
) -> Text {
    let skip = published[i].skip;
    "["@ + digits(i as nat) + "] "@ + debug_text(published[i].public_reason@) + " <- "@
        + attributed(raised, skip.subject@, skip.reason@) + pair_text(skip.subject@, skip.reason@)
}

/// Whether a pair is among the published records.
pub open spec fn is_published(published: Seq<PublishedSkip>, subject: Text, reason: Text) -> bool {
    exists|i: int|
        0 <= i < published.len() && (#[trigger] published[i]).skip.subject@ == subject
            && published[i].skip.reason@ == reason
}

/// The report lines of the first `n` pairs that no published record names, in order.
pub open spec fn unpublished_lines(
    raised: Seq<RaisedText>,
    published: Seq<PublishedSkip>,
    n: int,
) -> Seq<Text>
    decreases n,
{
    if n <= 0 {
        Seq::empty()
    } else {
        let before = unpublished_lines(raised, published, n - 1);
        let entry = raised[n - 1];
        if is_published(published, entry.subject, entry.reason) {
            before
        } else {
            before.push(
                "[not published] "@ + sites_text(entry.sites) + pair_text(
                    entry.subject,
                    entry.reason,
                ),
            )
        }
    }
}

/// The report: the number of published records, one line for each of them, and one for each pair
/// that none of them names.
pub open spec fn report_lines(raised: Seq<RaisedText>, published: Seq<PublishedSkip>) -> Seq<
    Text,
> {
    seq![digits(published.len()) + " published record(s)"@] + Seq::new(
        published.len(),
        |i: int| published_line(raised, published, i),
    ) + unpublished_lines(raised, published, raised.len() as int)
}

/// Tells whether a pair is among the published records.
fn has_published(published: &Vec<PublishedSkip>, entry: &Raised) -> (r: bool)
    ensures
        r == is_published(published@, entry.subject@, entry.reason@),
{
    let mut i: usize = 0;
    while i < published.len()
        invariant
            i <= published@.len(),
            forall|j: int|
                0 <= j < i ==> (#[trigger] published@[j]).skip.subject@ != entry.subject@
                    || published@[j].skip.reason@ != entry.reason@,
        decreases published@.len() - i,
    {
        let skip = &published[i].skip;
        if same(skip.subject.as_str(), entry.subject.as_str()) && same(
            skip.reason.as_str(),
            entry.reason.as_str(),
        ) {
            return true;
        }
        i += 1;
    }
    false
}

/// Adds the tail of a report line.
fn append_pair(line: &mut String, subject: &str, reason: &str)
    ensures
        final(line)@ == old(line)@ + pair_text(subject@, reason@),
{
    line.append(" :: subject=");
    line.append(debug_of(subject).as_str());
    line.append(" reason=");
    line.append(debug_of(reason).as_str());
    assert(line@ =~= old(line)@ + pair_text(subject@, reason@));
}

impl Ledger {
    /// Writes the sites of a pair.
    fn sites_of(&self, skip: &Skipped) -> (r: String)
        ensures
            r@ == attributed(self@, skip.subject@, skip.reason@),
    {
        let i: usize = self.find(skip);
        if self.holds(i, skip) {
            assert(self@[i as int] == self.raised@[i as int]@);
            render_sites(&self.raised[i].sites)
        } else {
            "<unattributed>".to_owned()
        }
    }
}

/// The lines of the report. A ledger that is off has none.
pub fn lines(ledger: &Ledger, published: &Vec<PublishedSkip>) -> (out: Vec<String>)
    ensures
        ledger.enabled ==> texts(out@) == report_lines(ledger@, published@),
        !ledger.enabled ==> out@.len() == 0,
{
    let mut out: Vec<String> = Vec::new();
    if !ledger.enabled {
        return out;
    }
    let mut head = decimal(published.len() as u64);
    head.append(" published record(s)");
    out.push(head);
    let ghost first = seq![head@];
    assert(texts(out@) =~= first);
    let mut i: usize = 0;
    while i < published.len()
        invariant
            i <= published@.len(),
            texts(out@) == first + Seq::new(
                i as nat,
                |j: int| published_line(ledger@, published@, j),
            ),
        decreases published@.len() - i,
    {
        let entry = &published[i];
        let mut line = "[".to_owned();
        line.append(decimal(i as u64).as_str());
        line.append("] ");
        line.append(debug_of(entry.public_reason.as_str()).as_str());
        line.append(" <- ");
        line.append(ledger.sites_of(&entry.skip).as_str());
        append_pair(&mut line, entry.skip.subject.as_str(), entry.skip.reason.as_str());
        assert(line@ == published_line(ledger@, published@, i as int));
        let ghost before = texts(out@);
        push_text(&mut out, line);
        i += 1;
        assert(texts(out@) =~= first + Seq::new(
            i as nat,
            |j: int| published_line(ledger@, published@, j),
        ));
    }
    let ghost head_lines = texts(out@);
    assert(head_lines + Seq::<Text>::empty() =~= head_lines);
    let mut n: usize = 0;
    while n < ledger.raised.len()
        invariant
            n <= ledger.raised@.len(),
            ledger@.len() == ledger.raised@.len(),
            texts(out@) == head_lines + unpublished_lines(ledger@, published@, n as int),
        decreases ledger.raised@.len() - n,
    {
        let entry = &ledger.raised[n];
        assert(ledger@[n as int] == entry@);
        let ghost before = unpublished_lines(ledger@, published@, n as int);
        if !has_published(published, entry) {
            let mut line = "[not published] ".to_owned();
            line.append(render_sites(&entry.sites).as_str());
            append_pair(&mut line, entry.subject.as_str(), entry.reason.as_str());
            let ghost text = line@;
            push_text(&mut out, line);
            assert(texts(out@) =~= head_lines + before.push(text));
        }
        n += 1;
    }
    out
}

} // verus!
