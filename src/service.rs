use vstd::prelude::*;

use crate::config::LaunchdPlist;
use crate::enums::{domain_of, session_type_of, DomainType, LimitLoadToSessionType};

verus! {

/// How many domain numbers a lookup probes: 0 through 7.
pub const DOMAIN_COUNT: u64 = 8;

/// A value of the daemon's reply, as far as the resolver reads it.
#[derive(Debug, PartialEq, Eq)]
pub enum XpcValue {
    Int64(i64),
    String(String),
    Other,
}

/// The fields of a reply to a single-domain service query that the
/// resolver reads: the `service` record's `PID` and
/// `LimitLoadToSessionType`, and the reply's embedded `error`, if any.
#[derive(Debug, PartialEq, Eq)]
pub struct ServiceRecord {
    pub pid: Option<XpcValue>,
    pub limit_load_to_session_type: Option<XpcValue>,
    pub error: Option<String>,
}

/// What the resolver knows of one label, with the domain that answered.
#[derive(Debug, PartialEq, Eq)]
pub struct LaunchdEntryInfo {
    pub entry_config: Option<LaunchdPlist>,
    pub limit_load_to_session_type: LimitLoadToSessionType,
    pub pid: i64,
    pub domain: DomainType,
}

pub open spec fn default_entry_info() -> LaunchdEntryInfo {
    LaunchdEntryInfo {
        entry_config: None,
        limit_load_to_session_type: LimitLoadToSessionType::Unknown,
        pid: 0,
        domain: DomainType::Unknown,
    }
}

impl Default for LaunchdEntryInfo {
    /// Nothing known: no pid, session type `Unknown`, no configuration.
    fn default() -> (r: Self)
        ensures
            r == default_entry_info(),
    {
        LaunchdEntryInfo {
            limit_load_to_session_type: LimitLoadToSessionType::Unknown,
            entry_config: None,
            pid: 0,
            domain: DomainType::Unknown,
        }
    }
}

impl Clone for LaunchdEntryInfo {
    fn clone(&self) -> (r: Self)
        ensures
            r == *self,
    {
        let entry_config = match &self.entry_config {
            Some(c) => Some(c.clone()),
            None => None,
        };
        LaunchdEntryInfo {
            entry_config,
            limit_load_to_session_type: self.limit_load_to_session_type,
            pid: self.pid,
            domain: self.domain,
        }
    }
}

/// A probe's outcome is usable when the query got through and the reply
/// carries no embedded error.
pub open spec fn usable(outcome: Option<ServiceRecord>) -> bool {
    outcome is Some && outcome->0.error is None
}

/// The pid in a reply: an integer, else 0.
pub open spec fn pid_of(v: Option<XpcValue>) -> i64 {
    match v {
        Some(XpcValue::Int64(n)) => n,
        _ => 0,
    }
}

/// The session type in a reply: a string read by name, else `Unknown`.
pub open spec fn session_of(v: Option<XpcValue>) -> LimitLoadToSessionType {
    match v {
        Some(XpcValue::String(s)) => session_type_of(s@),
        _ => LimitLoadToSessionType::Unknown,
    }
}

/// The entry information that a usable reply from a domain and the
/// label's configuration give.
pub open spec fn entry_info_of(domain: u64, record: ServiceRecord, config: Option<LaunchdPlist>) -> LaunchdEntryInfo {
    LaunchdEntryInfo {
        entry_config: config,
        limit_load_to_session_type: session_of(record.limit_load_to_session_type),
        pid: pid_of(record.pid),
        domain: domain_of(domain),
    }
}

/// A lookup found a reply (with the number of the domain that gave it)
/// that carries no error.
pub open spec fn found_usable(found: Option<(u64, ServiceRecord)>) -> bool {
    match found {
        Some((_, record)) => record.error is None,
        None => false,
    }
}

/// What a lookup resolves to: the information of a usable reply, or the
/// default when there is none.
pub open spec fn resolved_info(found: Option<(u64, ServiceRecord)>, config: Option<LaunchdPlist>) -> LaunchdEntryInfo {
    match found {
        Some((domain, record)) => if record.error is None {
            entry_info_of(domain, record, config)
        } else {
            default_entry_info()
        },
        None => default_entry_info(),
    }
}

/// The position of the first usable reply of the probes, made in domain order.
pub open spec fn first_usable(outcomes: Seq<Option<ServiceRecord>>) -> Option<int>
    decreases outcomes.len(),
{
    if outcomes.len() == 0 {
        None
    } else if usable(outcomes[0]) {
        Some(0)
    } else {
        match first_usable(outcomes.drop_first()) {
            Some(k) => Some(k + 1),
            None => None,
        }
    }
}

/// The reply that a lookup settles on, with its domain number.
pub open spec fn settled(outcomes: Seq<Option<ServiceRecord>>) -> Option<(u64, ServiceRecord)> {
    match first_usable(outcomes) {
        Some(k) => Some((k as u64, outcomes[k]->0)),
        None => None,
    }
}

/// Whether a probe's outcome ends the search.
pub fn is_usable(outcome: &Option<ServiceRecord>) -> (r: bool)
    ensures
        r == usable(*outcome),
{
    match outcome {
        Some(record) => record.error.is_none(),
        None => false,
    }
}

/// The reply that a lookup across all domains settles on: the first usable
/// one of the probes, made in domain order from domain 0, with the number of
/// the domain that gave it.
pub fn find_in_all(outcomes: Vec<Option<ServiceRecord>>) -> (r: Option<(u64, ServiceRecord)>)
    requires
        outcomes@.len() <= DOMAIN_COUNT,
    ensures
        r == settled(outcomes@),
        found_usable(r) || r is None,
{
    let mut pending = outcomes;
    let ghost all = pending@;
    proof {
        lemma_first_usable_bounds(all);
    }
    let mut i: usize = 0;
    while i < pending.len()
        invariant
            pending@ == all,
            all == outcomes@,
            all.len() <= DOMAIN_COUNT,
            0 <= i <= all.len(),
            forall|j: int| 0 <= j < i ==> !usable(#[trigger] all[j]),
        decreases all.len() - i,
    {
        if is_usable(&pending[i]) {
            proof {
                lemma_first_usable_is_first(all, i as int);
            }
            let found = pending.remove(i);
            return match found {
                Some(record) => Some((i as u64, record)),
                None => None,
            };
        }
        i = i + 1;
    }
    proof {
        lemma_first_usable_none(all);
    }
    None
}

proof fn lemma_first_usable_bounds(outcomes: Seq<Option<ServiceRecord>>)
    ensures
        first_usable(outcomes) is Some ==> 0 <= first_usable(outcomes)->0 < outcomes.len()
            && usable(outcomes[first_usable(outcomes)->0]),
    decreases outcomes.len(),
{
    if outcomes.len() > 0 && !usable(outcomes[0]) {
        lemma_first_usable_bounds(outcomes.drop_first());
    }
}

proof fn lemma_first_usable_is_first(outcomes: Seq<Option<ServiceRecord>>, i: int)
    requires
        0 <= i < outcomes.len(),
        usable(outcomes[i]),
        forall|j: int| 0 <= j < i ==> !usable(#[trigger] outcomes[j]),
    ensures
        first_usable(outcomes) == Some(i),
    decreases i,
{
    if i > 0 {
        let rest = outcomes.drop_first();
        assert forall|j: int| 0 <= j < i - 1 implies !usable(#[trigger] rest[j]) by {
            assert(rest[j] == outcomes[j + 1]);
        }
        lemma_first_usable_is_first(rest, i - 1);
    }
}

proof fn lemma_first_usable_none(outcomes: Seq<Option<ServiceRecord>>)
    requires
        forall|j: int| 0 <= j < outcomes.len() ==> !usable(#[trigger] outcomes[j]),
    ensures
        first_usable(outcomes) is None,
    decreases outcomes.len(),
{
    if outcomes.len() > 0 {
        let rest = outcomes.drop_first();
        assert forall|j: int| 0 <= j < rest.len() implies !usable(#[trigger] rest[j]) by {
            assert(rest[j] == outcomes[j + 1]);
        }
        lemma_first_usable_none(rest);
    }
}

fn session_from_reply(v: Option<XpcValue>) -> (r: LimitLoadToSessionType)
    ensures
        r == session_of(v),
{
    match v {
        Some(XpcValue::String(s)) => LimitLoadToSessionType::from(s),
        _ => LimitLoadToSessionType::Unknown,
    }
}

/// Entry information from the reply a lookup settled on, with its domain
/// number, and the label's configuration; without a usable reply, the default.
pub fn build_entry_info(found: Option<(u64, ServiceRecord)>, config: Option<LaunchdPlist>) -> (r: LaunchdEntryInfo)
    ensures
        r == resolved_info(found, config),
{
    match found {
        Some((domain, record)) => {
            if record.error.is_some() {
                return LaunchdEntryInfo::default();
            }
            let pid: i64 = match record.pid {
                Some(XpcValue::Int64(n)) => n,
                _ => 0,
            };
            let limit_load_to_session_type = session_from_reply(record.limit_load_to_session_type);
            LaunchdEntryInfo {
                entry_config: config,
                limit_load_to_session_type,
                pid,
                domain: DomainType::from_raw(domain),
            }
        },
        None => LaunchdEntryInfo::default(),
    }
}

/// What a lookup with the cache gives: the cached information when the
/// label is there; otherwise the information that the probes resolved to,
/// which is cached only when a usable reply was found.
pub open spec fn resolve(
    cache: Map<Seq<char>, LaunchdEntryInfo>,
    label: Seq<char>,
    found: Option<(u64, ServiceRecord)>,
    config: Option<LaunchdPlist>,
) -> (Map<Seq<char>, LaunchdEntryInfo>, LaunchdEntryInfo) {
    if cache.contains_key(label) {
        (cache, cache[label])
    } else if found_usable(found) {
        (cache.insert(label, resolved_info(found, config)), resolved_info(found, config))
    } else {
        (cache, default_entry_info())
    }
}

/// The entry information cache: at most one entry per label, written only
/// once a lookup has completed.
pub struct EntryInfoCache {
    entries: Vec<(String, LaunchdEntryInfo)>,
    contents: Ghost<Map<Seq<char>, LaunchdEntryInfo>>,
}

impl View for EntryInfoCache {
    type V = Map<Seq<char>, LaunchdEntryInfo>;

    closed spec fn view(&self) -> Map<Seq<char>, LaunchdEntryInfo> {
        self.contents@
    }
}

impl EntryInfoCache {
    pub closed spec fn wf(&self) -> bool {
        &&& forall|i: int|
            0 <= i < self.entries@.len() ==> #[trigger] self.contents@.contains_key(
                self.entries@[i].0@,
            ) && self.contents@[self.entries@[i].0@] == self.entries@[i].1
        &&& forall|k: Seq<char>|
            #[trigger] self.contents@.contains_key(k) ==> exists|i: int|
                0 <= i < self.entries@.len() && #[trigger] self.entries@[i].0@ == k
        &&& forall|i: int, j: int|
            0 <= i < j < self.entries@.len() ==> self.entries@[i].0@ != self.entries@[j].0@
    }

    /// An empty cache.
    pub fn new() -> (r: EntryInfoCache)
        ensures
            r.wf(),
            r@ == Map::<Seq<char>, LaunchdEntryInfo>::empty(),
    {
        EntryInfoCache { entries: Vec::new(), contents: Ghost(Map::empty()) }
    }

    /// The cached information of a label.
    pub fn get(&self, label: &String) -> (r: Option<LaunchdEntryInfo>)
        requires
            self.wf(),
        ensures
            r is Some <==> self@.contains_key(label@),
            r is Some ==> r->0 == self@[label@],
    {
        let mut i: usize = 0;
        while i < self.entries.len()
            invariant
                self.wf(),
                0 <= i <= self.entries@.len(),
                forall|j: int| 0 <= j < i ==> self.entries@[j].0@ != label@,
            decreases self.entries@.len() - i,
        {
            if self.entries[i].0 == *label {
                assert(self.contents@.contains_key(self.entries@[i as int].0@));
                return Some(self.entries[i].1.clone());
            }
            i = i + 1;
        }
        None
    }

    /// Stores the information of a label that the cache does not hold yet.
    fn store(&mut self, label: String, info: LaunchdEntryInfo)
        requires
            old(self).wf(),
            !old(self)@.contains_key(label@),
        ensures
            final(self).wf(),
            final(self)@ == old(self)@.insert(label@, info),
    {
        let ghost k = label@;
        let ghost v = info;
        let ghost before = self.entries@;
        self.entries.push((label, info));
        self.contents = Ghost(self.contents@.insert(k, v));
        assert forall|key: Seq<char>| #[trigger] self.contents@.contains_key(key) implies exists|i: int|
            0 <= i < self.entries@.len() && #[trigger] self.entries@[i].0@ == key by {
            if key == k {
                assert(self.entries@[before.len() as int].0@ == key);
            } else {
                assert(old(self).contents@.contains_key(key));
                let i = choose|i: int| 0 <= i < before.len() && #[trigger] before[i].0@ == key;
                assert(self.entries@[i].0@ == key);
            }
        }
        assert forall|i: int, j: int|
            0 <= i < j < self.entries@.len() implies self.entries@[i].0@ != self.entries@[j].0@ by {
            if j == before.len() {
                assert(old(self).contents@.contains_key(before[i].0@));
            }
        }
    }
}

/// Resolves a label: the cached information when there is some; otherwise
/// the information of `found`, the reply that the lookup across all domains
/// settled on with its domain number (`None` when every domain failed), and
/// the label's configuration. Only a usable reply is written to the cache,
/// so a failed lookup can be retried later.
pub fn find_entry_info(
    cache: &mut EntryInfoCache,
    label: &String,
    found: Option<(u64, ServiceRecord)>,
    config: Option<LaunchdPlist>,
) -> (r: LaunchdEntryInfo)
    requires
        old(cache).wf(),
    ensures
        final(cache).wf(),
        (final(cache)@, r) == resolve(old(cache)@, label@, found, config),
{
    match cache.get(label) {
        Some(info) => info,
        None => {
            let usable_reply = match &found {
                Some((_, record)) => record.error.is_none(),
                None => false,
            };
            let info = build_entry_info(found, config);
            if usable_reply {
                cache.store(label.clone(), info.clone());
            }
            info
        },
    }
}

/// With no change on the daemon's side, resolving a label twice gives the
/// same information and leaves the cache as the first call left it; once a
/// usable reply has been cached, later lookups return it whatever they probe.
pub proof fn lemma_resolve_idempotent(
    cache: Map<Seq<char>, LaunchdEntryInfo>,
    label: Seq<char>,
    found: Option<(u64, ServiceRecord)>,
    config: Option<LaunchdPlist>,
    later: Option<(u64, ServiceRecord)>,
    later_config: Option<LaunchdPlist>,
)
    ensures
        resolve(resolve(cache, label, found, config).0, label, found, config) == resolve(
            cache,
            label,
            found,
            config,
        ),
        found_usable(found) ==> resolve(
            resolve(cache, label, found, config).0,
            label,
            later,
            later_config,
        ) == resolve(cache, label, found, config),
{
}

/// When exactly one domain gives a usable reply, the lookup resolves to the
/// information of that reply and that domain, whichever domain it is.
pub proof fn lemma_single_usable_reply(
    outcomes: Seq<Option<ServiceRecord>>,
    i: int,
    config: Option<LaunchdPlist>,
)
    requires
        outcomes.len() <= DOMAIN_COUNT,
        0 <= i < outcomes.len(),
        usable(outcomes[i]),
        forall|j: int| 0 <= j < outcomes.len() && j != i ==> !usable(#[trigger] outcomes[j]),
    ensures
        settled(outcomes) == Some((i as u64, outcomes[i]->0)),
        resolved_info(settled(outcomes), config) == entry_info_of(i as u64, outcomes[i]->0, config),
{
    lemma_first_usable_is_first(outcomes, i);
}

/// When no domain gives a usable reply, the lookup gives the default
/// information and leaves the cache as it was, so that a later lookup that
/// does find a reply resolves to it.
pub proof fn lemma_failed_lookup_not_cached(
    cache: Map<Seq<char>, LaunchdEntryInfo>,
    label: Seq<char>,
    outcomes: Seq<Option<ServiceRecord>>,
    config: Option<LaunchdPlist>,
    later: Option<(u64, ServiceRecord)>,
    later_config: Option<LaunchdPlist>,
)
    requires
        !cache.contains_key(label),
        forall|j: int| 0 <= j < outcomes.len() ==> !usable(#[trigger] outcomes[j]),
        found_usable(later),
    ensures
        resolve(cache, label, settled(outcomes), config) == (cache, default_entry_info()),
        resolve(resolve(cache, label, settled(outcomes), config).0, label, later, later_config).1
            == resolved_info(later, later_config),
{
    lemma_first_usable_none(outcomes);
}

/// Whether one of the domains' listings names the label; a domain whose
/// query failed lists nothing.
pub open spec fn listed_in(listings: Seq<Option<Vec<String>>>, label: Seq<char>) -> bool {
    exists|i: int, k: int|
        0 <= i < listings.len() && listings[i] is Some && 0 <= k < listings[i]->0@.len()
            && #[trigger] listings[i]->0@[k]@ == label
}

/// The roster: every label that some domain lists.
pub open spec fn roster_of(listings: Seq<Option<Vec<String>>>) -> Set<Seq<char>> {
    Set::new(|label: Seq<char>| listed_in(listings, label))
}

/// The labels of a sequence of strings.
pub open spec fn labels_of(v: Seq<String>) -> Seq<Seq<char>> {
    v.map_values(|s: String| s@)
}

pub(crate) fn contains_label(v: &Vec<String>, label: &String) -> (r: bool)
    ensures
        r == labels_of(v@).contains(label@),
{
    let mut i: usize = 0;
    while i < v.len()
        invariant
            0 <= i <= v@.len(),
            forall|j: int| 0 <= j < i ==> v@[j]@ != label@,
        decreases v@.len() - i,
    {
        if v[i] == *label {
            assert(labels_of(v@)[i as int] == label@);
            return true;
        }
        i = i + 1;
    }
    assert(!labels_of(v@).contains(label@)) by {
        if labels_of(v@).contains(label@) {
            let j = choose|j: int| 0 <= j < labels_of(v@).len() && labels_of(v@)[j] == label@;
            assert(v@[j]@ == label@);
        }
    }
    false
}

/// Whether one of the first `k` strings is the label.
pub open spec fn listed_before(listing: Seq<String>, k: int, label: Seq<char>) -> bool {
    exists|m: int| 0 <= m < k && #[trigger] listing[m]@ == label
}

/// Merges the listings of all domains (`None` for a domain whose query
/// failed) into the roster: each listed label once.
pub fn list_all(listings: &Vec<Option<Vec<String>>>) -> (r: Vec<String>)
    ensures
        labels_of(r@).no_duplicates(),
        labels_of(r@).to_set() == roster_of(listings@),
{
    let mut out: Vec<String> = Vec::new();
    let mut i: usize = 0;
    while i < listings.len()
        invariant
            0 <= i <= listings@.len(),
            labels_of(out@).no_duplicates(),
            forall|l: Seq<char>|
                labels_of(out@).contains(l) <==> listed_in(listings@.subrange(0, i as int), l),
        decreases listings@.len() - i,
    {
        let ghost done = listings@.subrange(0, i as int);
        let ghost upto = listings@.subrange(0, i + 1);
        if let Some(listing) = &listings[i] {
            let mut k: usize = 0;
            while k < listing.len()
                invariant
                    0 <= i < listings@.len(),
                    listings@[i as int] == Some(*listing),
                    done == listings@.subrange(0, i as int),
                    upto == listings@.subrange(0, i + 1),
                    0 <= k <= listing@.len(),
                    labels_of(out@).no_duplicates(),
                    forall|l: Seq<char>|
                        #[trigger] labels_of(out@).contains(l) <==> (listed_in(done, l)
                            || listed_before(listing@, k as int, l)),
                decreases listing@.len() - k,
            {
                let ghost before = out@;
                assert(forall|l: Seq<char>|
                    #[trigger] labels_of(before).contains(l) <==> (listed_in(done, l)
                        || listed_before(listing@, k as int, l)));
                if !contains_label(&out, &listing[k]) {
                    out.push(listing[k].clone());
                    assert(labels_of(out@) == labels_of(before).push(listing@[k as int]@));
                }
                assert forall|l: Seq<char>|
                    #[trigger] labels_of(out@).contains(l) <==> (listed_in(done, l)
                        || listed_before(listing@, k + 1, l)) by {
                    if labels_of(out@).contains(l) {
                        let j = choose|j: int| 0 <= j < labels_of(out@).len() && labels_of(out@)[j] == l;
                        if j < before.len() {
                            assert(labels_of(before)[j] == l);
                            assert(labels_of(before).contains(l));
                            if listed_before(listing@, k as int, l) {
                                let m = choose|m: int| 0 <= m < k && #[trigger] listing@[m]@ == l;
                                assert(listed_before(listing@, k + 1, l));
                            }
                        } else {
                            assert(listing@[k as int]@ == l);
                            assert(listed_before(listing@, k + 1, l));
                        }
                    }
                    if listed_before(listing@, k + 1, l) {
                        let m = choose|m: int| 0 <= m < k + 1 && #[trigger] listing@[m]@ == l;
                        if m < k {
                            assert(listed_before(listing@, k as int, l));
                            assert(labels_of(before).contains(l));
                            let j = choose|j: int| 0 <= j < labels_of(before).len() && labels_of(before)[j] == l;
                            assert(labels_of(out@)[j] == l);
                        } else if labels_of(before).contains(l) {
                            let j = choose|j: int| 0 <= j < labels_of(before).len() && labels_of(before)[j] == l;
                            assert(labels_of(out@)[j] == l);
                        } else {
                            assert(labels_of(out@)[before.len() as int] == l);
                        }
                    }
                    if listed_in(done, l) {
                        assert(labels_of(before).contains(l));
                        let j = choose|j: int| 0 <= j < labels_of(before).len() && labels_of(before)[j] == l;
                        assert(labels_of(out@)[j] == l);
                    }
                }
                k = k + 1;
            }
            assert forall|l: Seq<char>|
                labels_of(out@).contains(l) <==> listed_in(upto, l) by {
                if listed_in(upto, l) {
                    let (a, b) = choose|a: int, b: int|
                        0 <= a < upto.len() && upto[a] is Some && 0 <= b < upto[a]->0@.len()
                            && #[trigger] upto[a]->0@[b]@ == l;
                    if a < i {
                        assert(done[a] == upto[a]);
                        assert(listed_in(done, l));
                    } else {
                        assert(listing@[b]@ == l);
                    }
                }
                if listed_in(done, l) {
                    let (a, b) = choose|a: int, b: int|
                        0 <= a < done.len() && done[a] is Some && 0 <= b < done[a]->0@.len()
                            && #[trigger] done[a]->0@[b]@ == l;
                    assert(upto[a] == done[a]);
                    assert(listed_in(upto, l));
                }
                if listed_before(listing@, listing@.len() as int, l) {
                    let m = choose|m: int| 0 <= m < listing@.len() && #[trigger] listing@[m]@ == l;
                    assert(upto[i as int] == Some(*listing));
                    assert(upto[i as int]->0@[m]@ == l);
                    assert(listed_in(upto, l));
                }
            }
        } else {
            assert forall|l: Seq<char>| listed_in(upto, l) <==> listed_in(done, l) by {
                if listed_in(upto, l) {
                    let (a, b) = choose|a: int, b: int|
                        0 <= a < upto.len() && upto[a] is Some && 0 <= b < upto[a]->0@.len()
                            && #[trigger] upto[a]->0@[b]@ == l;
                    assert(done[a] == upto[a]);
                }
                if listed_in(done, l) {
                    let (a, b) = choose|a: int, b: int|
                        0 <= a < done.len() && done[a] is Some && 0 <= b < done[a]->0@.len()
                            && #[trigger] done[a]->0@[b]@ == l;
                    assert(upto[a] == done[a]);
                }
            }
        }
        i = i + 1;
    }
    assert(listings@.subrange(0, listings@.len() as int) == listings@);
    assert(labels_of(out@).to_set() =~= roster_of(listings@));
    out
}

proof fn lemma_listed_in_concat(a: Seq<Option<Vec<String>>>, b: Seq<Option<Vec<String>>>)
    ensures
        forall|l: Seq<char>| #[trigger] listed_in(a + b, l) <==> (listed_in(a, l) || listed_in(b, l)),
{
    let ab = a + b;
    assert forall|l: Seq<char>| #[trigger] listed_in(ab, l) <==> (listed_in(a, l) || listed_in(b, l)) by {
        if listed_in(ab, l) {
            let (i, k) = choose|i: int, k: int|
                0 <= i < ab.len() && ab[i] is Some && 0 <= k < ab[i]->0@.len()
                    && #[trigger] ab[i]->0@[k]@ == l;
            if i < a.len() {
                assert(a[i]->0@[k]@ == l);
            } else {
                assert(b[i - a.len()]->0@[k]@ == l);
            }
        }
        if listed_in(a, l) {
            let (i, k) = choose|i: int, k: int|
                0 <= i < a.len() && a[i] is Some && 0 <= k < a[i]->0@.len()
                    && #[trigger] a[i]->0@[k]@ == l;
            assert(ab[i]->0@[k]@ == l);
        }
        if listed_in(b, l) {
            let (i, k) = choose|i: int, k: int|
                0 <= i < b.len() && b[i] is Some && 0 <= k < b[i]->0@.len()
                    && #[trigger] b[i]->0@[k]@ == l;
            assert(ab[i + a.len()]->0@[k]@ == l);
        }
    }
}

/// The roster does not depend on the order in which the domains' listings
/// are merged.
pub proof fn lemma_roster_union_commutative(
    a: Seq<Option<Vec<String>>>,
    b: Seq<Option<Vec<String>>>,
)
    ensures
        roster_of(a + b) == roster_of(b + a),
        roster_of(a + b) == roster_of(a).union(roster_of(b)),
{
    lemma_listed_in_concat(a, b);
    lemma_listed_in_concat(b, a);
    assert forall|l: Seq<char>| #[trigger] roster_of(a + b).contains(l) == roster_of(b + a).contains(l)
        && roster_of(a + b).contains(l) == roster_of(a).union(roster_of(b)).contains(l) by {
        assert(roster_of(a + b).contains(l) == listed_in(a + b, l));
        assert(roster_of(b + a).contains(l) == listed_in(b + a, l));
        assert(roster_of(a).contains(l) == listed_in(a, l));
        assert(roster_of(b).contains(l) == listed_in(b, l));
    }
    assert(roster_of(a + b) =~= roster_of(b + a));
    assert(roster_of(a + b) =~= roster_of(a).union(roster_of(b)));
}

} // verus!
