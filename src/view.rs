use vstd::multiset::Multiset;
use vstd::prelude::*;

use crate::command::{OmniboxCommand, OmniboxError, OmniboxMode, OmniboxResult, OmniboxState, PromptContinuation};
use crate::config::{job_type_bits, JobTypeFilter, LaunchdPlist, LOADED_BIT};
use crate::enums::{DomainType, LimitLoadToSessionType};
use crate::service::{contains_label, labels_of, LaunchdEntryInfo};

verus! {

broadcast use vstd::seq_lib::group_to_multiset_ensures;

/// The resolved state of an entry that commands reason over: its
/// configuration, session type, domain and pid.
#[derive(Debug, PartialEq, Eq)]
pub struct LaunchdEntryStatus {
    pub plist: Option<LaunchdPlist>,
    pub limit_load_to_session_type: LimitLoadToSessionType,
    pub domain: DomainType,
    pub pid: i64,
}

impl LaunchdEntryStatus {
    /// The status of an entry from what its resolution found.
    pub fn from_info(info: LaunchdEntryInfo) -> (r: LaunchdEntryStatus)
        ensures
            r.plist == info.entry_config,
            r.limit_load_to_session_type == info.limit_load_to_session_type,
            r.domain == info.domain,
            r.pid == info.pid,
    {
        LaunchdEntryStatus {
            plist: info.entry_config,
            limit_load_to_session_type: info.limit_load_to_session_type,
            domain: info.domain,
            pid: info.pid,
        }
    }
}

/// A row of the service list.
#[derive(Debug, PartialEq, Eq)]
pub struct ServiceListItem {
    pub name: String,
    pub status: LaunchdEntryStatus,
    pub job_type_filter: JobTypeFilter,
}

/// A character's code with ASCII capitals folded to lower case.
pub open spec fn folded(c: char) -> u32 {
    let v = c as u32;
    if 65 <= v && v <= 90 {
        (v + 32) as u32
    } else {
        v
    }
}

/// Whether `needle` occurs in `haystack` at position `i`, ignoring ASCII case.
pub open spec fn occurs_at(haystack: Seq<char>, needle: Seq<char>, i: int) -> bool {
    0 <= i && i + needle.len() <= haystack.len() && forall|j: int|
        0 <= j < needle.len() ==> #[trigger] folded(haystack[i + j]) == folded(needle[j])
}

/// Whether `needle` occurs in `haystack`, ignoring ASCII case.
pub open spec fn contains_ignoring_case(haystack: Seq<char>, needle: Seq<char>) -> bool {
    exists|i: int| occurs_at(haystack, needle, i)
}

/// Whether a label passes the name filter: an empty filter passes all.
pub open spec fn name_matches(label: Seq<char>, filter: Seq<char>) -> bool {
    filter.len() == 0 || contains_ignoring_case(label, filter)
}

/// Lexicographic order of names by code point, which is the byte order of
/// their UTF-8 encodings.
pub open spec fn name_lt(a: Seq<char>, b: Seq<char>) -> bool
    decreases a.len(),
{
    if a.len() == 0 {
        b.len() > 0
    } else if b.len() == 0 {
        false
    } else if (a[0] as u32) < (b[0] as u32) {
        true
    } else if a[0] == b[0] {
        name_lt(a.drop_first(), b.drop_first())
    } else {
        false
    }
}

pub open spec fn is_loaded(item: ServiceListItem) -> bool {
    item.job_type_filter.bits & LOADED_BIT != 0
}

/// Display order: entries that are not loaded come first, then by name.
pub open spec fn item_lt(a: ServiceListItem, b: ServiceListItem) -> bool {
    (!is_loaded(a) && is_loaded(b)) || (is_loaded(a) == is_loaded(b) && name_lt(a.name@, b.name@))
}

/// No item comes after one that it should precede.
pub open spec fn sorted_for_display(s: Seq<ServiceListItem>) -> bool {
    forall|i: int, j: int| 0 <= i < j < s.len() ==> !item_lt(#[trigger] s[j], #[trigger] s[i])
}

/// The job type mask of an entry: its configuration's, or, without one,
/// the loaded bit alone when it runs and nothing when it does not.
pub open spec fn entry_job_type_bits(plist: Option<LaunchdPlist>, loaded: bool) -> u32 {
    match plist {
        Some(p) => job_type_bits(p.entry_location, p.entry_type, loaded),
        None => if loaded {
            LOADED_BIT
        } else {
            0
        },
    }
}

/// The row of an entry, if it passes the name filter and the job type
/// filter (an empty job type filter passes all).
pub open spec fn list_item_of(
    label: String,
    status: LaunchdEntryStatus,
    running: Seq<Seq<char>>,
    name_filter: Seq<char>,
    job_type_filter: JobTypeFilter,
) -> Option<ServiceListItem> {
    let bits = entry_job_type_bits(status.plist, running.contains(label@));
    if !name_matches(label@, name_filter) {
        None
    } else if job_type_filter.bits != 0 && bits & job_type_filter.bits != job_type_filter.bits {
        None
    } else {
        Some(ServiceListItem { name: label, status, job_type_filter: JobTypeFilter { bits } })
    }
}

pub open spec fn option_seq<A>(o: Option<A>) -> Seq<A> {
    match o {
        Some(a) => seq![a],
        None => Seq::empty(),
    }
}

/// The rows of the candidate entries that pass the filters, in candidate order.
pub open spec fn presented(
    entries: Seq<(String, LaunchdEntryStatus)>,
    running: Seq<Seq<char>>,
    name_filter: Seq<char>,
    job_type_filter: JobTypeFilter,
) -> Seq<ServiceListItem>
    decreases entries.len(),
{
    if entries.len() == 0 {
        Seq::empty()
    } else {
        presented(entries.drop_last(), running, name_filter, job_type_filter) + option_seq(
            list_item_of(
                entries.last().0,
                entries.last().1,
                running,
                name_filter,
                job_type_filter,
            ),
        )
    }
}

proof fn lemma_name_lt_asymmetric(a: Seq<char>, b: Seq<char>)
    ensures
        name_lt(a, b) ==> !name_lt(b, a),
    decreases a.len(),
{
    if a.len() > 0 && b.len() > 0 && a[0] == b[0] {
        lemma_name_lt_asymmetric(a.drop_first(), b.drop_first());
    }
}

proof fn lemma_name_lt_transitive(a: Seq<char>, b: Seq<char>, c: Seq<char>)
    ensures
        name_lt(a, b) && name_lt(b, c) ==> name_lt(a, c),
    decreases a.len(),
{
    if a.len() > 0 && b.len() > 0 && c.len() > 0 {
        lemma_name_lt_transitive(a.drop_first(), b.drop_first(), c.drop_first());
    }
}

proof fn lemma_item_lt_order(a: ServiceListItem, b: ServiceListItem, c: ServiceListItem)
    ensures
        item_lt(a, b) ==> !item_lt(b, a),
        item_lt(a, b) && item_lt(b, c) ==> item_lt(a, c),
{
    lemma_name_lt_asymmetric(a.name@, b.name@);
    lemma_name_lt_transitive(a.name@, b.name@, c.name@);
}

fn folded_code(c: char) -> (r: u32)
    ensures
        r == folded(c),
{
    let v = c as u32;
    if 65 <= v && v <= 90 {
        v + 32
    } else {
        v
    }
}

fn folded_codes(s: &String) -> (r: Vec<u32>)
    ensures
        r@.len() == s@.len(),
        forall|i: int| 0 <= i < s@.len() ==> r@[i] == folded(s@[i]),
{
    let n = s.as_str().unicode_len();
    let mut r: Vec<u32> = Vec::new();
    let mut i: usize = 0;
    while i < n
        invariant
            n == s@.len(),
            0 <= i <= n,
            r@.len() == i,
            forall|k: int| 0 <= k < i ==> r@[k] == folded(s@[k]),
        decreases n - i,
    {
        let c = s.as_str().get_char(i);
        r.push(folded_code(c));
        i = i + 1;
    }
    r
}

fn codes_match_at(h: &Vec<u32>, n: &Vec<u32>, at: usize) -> (r: bool)
    requires
        at + n@.len() <= h@.len(),
    ensures
        r == forall|j: int| 0 <= j < n@.len() ==> h@[at + j] == n@[j],
{
    let hl = h.len();
    let mut j: usize = 0;
    while j < n.len()
        invariant
            hl == h@.len(),
            at + n@.len() <= h@.len(),
            0 <= j <= n@.len(),
            forall|k: int| 0 <= k < j ==> h@[at + k] == n@[k],
        decreases n@.len() - j,
    {
        assert(at + j < h@.len());
        if h[at + j] != n[j] {
            return false;
        }
        j = j + 1;
    }
    true
}

/// Whether `needle` occurs in `haystack`, ignoring ASCII case.
pub fn contains_ignoring_ascii_case(haystack: &String, needle: &String) -> (r: bool)
    ensures
        r == contains_ignoring_case(haystack@, needle@),
{
    let h = folded_codes(haystack);
    let n = folded_codes(needle);
    if n.len() > h.len() {
        return false;
    }
    let last = h.len() - n.len();
    let mut i: usize = 0;
    while i <= last
        invariant
            last + n@.len() == h@.len(),
            h@.len() == haystack@.len(),
            n@.len() == needle@.len(),
            forall|k: int| 0 <= k < haystack@.len() ==> h@[k] == folded(haystack@[k]),
            forall|k: int| 0 <= k < needle@.len() ==> n@[k] == folded(needle@[k]),
            0 <= i <= last,
            forall|a: int| 0 <= a < i ==> !occurs_at(haystack@, needle@, a),
        ensures
            forall|a: int| 0 <= a <= last ==> !occurs_at(haystack@, needle@, a),
        decreases last - i,
    {
        if codes_match_at(&h, &n, i) {
            assert forall|j: int| 0 <= j < needle@.len() implies #[trigger] folded(
                haystack@[i + j],
            ) == folded(needle@[j]) by {
                assert(h@[i + j] == n@[j]);
            }
            assert(occurs_at(haystack@, needle@, i as int));
            return true;
        }
        proof {
            let j = choose|j: int| 0 <= j < n@.len() && !(h@[i + j] == n@[j]);
            assert(folded(haystack@[i + j]) != folded(needle@[j]));
        }
        if i == last {
            break;
        }
        i = i + 1;
    }
    assert(!contains_ignoring_case(haystack@, needle@)) by {
        if contains_ignoring_case(haystack@, needle@) {
            let a = choose|a: int| occurs_at(haystack@, needle@, a);
            assert(a <= last);
        }
    }
    false
}

/// Whether `a` sorts before `b` by name.
pub fn name_less(a: &String, b: &String) -> (r: bool)
    ensures
        r == name_lt(a@, b@),
{
    let la = a.as_str().unicode_len();
    let lb = b.as_str().unicode_len();
    let mut i: usize = 0;
    assert(a@.skip(0) =~= a@);
    assert(b@.skip(0) =~= b@);
    while i < la && i < lb
        invariant
            la == a@.len(),
            lb == b@.len(),
            0 <= i <= la,
            i <= lb,
            name_lt(a@, b@) == name_lt(a@.skip(i as int), b@.skip(i as int)),
        decreases la - i,
    {
        let ca = a.as_str().get_char(i);
        let cb = b.as_str().get_char(i);
        assert(a@.skip(i as int)[0] == ca);
        assert(b@.skip(i as int)[0] == cb);
        if (ca as u32) < (cb as u32) {
            return true;
        }
        if ca != cb {
            return false;
        }
        assert(a@.skip(i as int).drop_first() =~= a@.skip(i + 1));
        assert(b@.skip(i as int).drop_first() =~= b@.skip(i + 1));
        i = i + 1;
    }
    i == la && i < lb
}

fn item_less(a: &ServiceListItem, b: &ServiceListItem) -> (r: bool)
    ensures
        r == item_lt(*a, *b),
{
    let loaded_a = a.job_type_filter.intersects(JobTypeFilter::loaded());
    let loaded_b = b.job_type_filter.intersects(JobTypeFilter::loaded());
    if !loaded_a && loaded_b {
        true
    } else if loaded_a != loaded_b {
        false
    } else {
        name_less(&a.name, &b.name)
    }
}

/// Puts an item into a sorted list at the place the display order gives it.
fn insert_sorted(items: &mut Vec<ServiceListItem>, item: ServiceListItem)
    requires
        sorted_for_display(old(items)@),
    ensures
        sorted_for_display(final(items)@),
        final(items)@.to_multiset() == old(items)@.to_multiset().insert(item),
{
    let mut pos: usize = 0;
    while pos < items.len()
        invariant
            0 <= pos <= items@.len(),
            items@ == old(items)@,
            forall|k: int| 0 <= k < pos ==> !item_lt(item, #[trigger] items@[k]),
        ensures
            0 <= pos <= items@.len(),
            items@ == old(items)@,
            forall|k: int| 0 <= k < pos ==> !item_lt(item, #[trigger] items@[k]),
            pos < items@.len() ==> item_lt(item, items@[pos as int]),
        decreases items@.len() - pos,
    {
        if item_less(&item, &items[pos]) {
            break;
        }
        pos = pos + 1;
    }
    let ghost before = items@;
    let ghost x = item;
    items.insert(pos, item);
    proof {
        let after = items@;
        assert(after.remove(pos as int) =~= before);
        assert(after[pos as int] == x);
        assert(after.to_multiset() =~= before.to_multiset().insert(x));
        assert forall|i: int, j: int| 0 <= i < j < after.len() implies !item_lt(
            #[trigger] after[j],
            #[trigger] after[i],
        ) by {
            if j < pos {
                assert(after[i] == before[i] && after[j] == before[j]);
            } else if j == pos {
                assert(after[i] == before[i]);
                lemma_item_lt_order(x, before[i], x);
            } else if i < pos {
                assert(after[i] == before[i] && after[j] == before[j - 1]);
            } else if i == pos {
                assert(after[j] == before[j - 1]);
                lemma_item_lt_order(before[j - 1], x, before[pos as int]);
                lemma_item_lt_order(x, before[pos as int], x);
                if j - 1 > pos {
                    assert(!item_lt(before[j - 1], before[pos as int]));
                }
            } else {
                assert(after[i] == before[i - 1] && after[j] == before[j - 1]);
            }
        }
    }
}

/// The state of the service list: the roster of loaded labels, the
/// filters, and the rows on display with the highlighted one.
pub struct ServiceListView {
    pub running_jobs: Vec<String>,
    pub label_filter: String,
    pub job_type_filter: JobTypeFilter,
    pub items: Vec<ServiceListItem>,
    pub highlighted: Option<usize>,
}

/// The labels to list: every configured label, then every roster label
/// that has no configuration.
pub open spec fn candidates(configured: Seq<Seq<char>>, running: Seq<Seq<char>>) -> Seq<Seq<char>> {
    configured + unconfigured(configured, running)
}

/// The roster labels that have no configuration, in roster order.
pub open spec fn unconfigured(configured: Seq<Seq<char>>, running: Seq<Seq<char>>) -> Seq<Seq<char>>
    decreases running.len(),
{
    if running.len() == 0 {
        Seq::empty()
    } else if configured.contains(running.last()) {
        unconfigured(configured, running.drop_last())
    } else {
        unconfigured(configured, running.drop_last()).push(running.last())
    }
}

/// A primitive daemon operation or editor run that a command resolves to,
/// with what it needs; or the reply to hand back to the omnibox.
#[derive(Debug, PartialEq, Eq)]
pub enum CommandAction {
    Reply(Option<OmniboxCommand>),
    Edit { label: String, plist: LaunchdPlist },
    Load { label: String, plist_path: String, domain: DomainType, session: LimitLoadToSessionType },
    Unload { label: String, plist_path: String, domain: DomainType, session: LimitLoadToSessionType },
    Enable { label: String, domain: DomainType },
    Disable { label: String, domain: DomainType },
    ProcInfo { label: String, pid: i64 },
}

/// The commands that act on the highlighted entry and need its configuration.
pub open spec fn needs_selection(cmd: OmniboxCommand) -> bool {
    match cmd {
        OmniboxCommand::Reload | OmniboxCommand::LoadRequest | OmniboxCommand::UnloadRequest
        | OmniboxCommand::EnableRequest | OmniboxCommand::DisableRequest | OmniboxCommand::Edit
        | OmniboxCommand::Load(..) | OmniboxCommand::Unload(..) | OmniboxCommand::Enable(..)
        | OmniboxCommand::Disable(..) | OmniboxCommand::ProcInfo => true,
        _ => false,
    }
}

pub open spec fn is_reply(r: CommandAction, c: OmniboxCommand) -> bool {
    r == CommandAction::Reply(Some(c))
}

pub open spec fn is_chain_reply(r: CommandAction, cmds: Seq<OmniboxCommand>) -> bool {
    match r {
        CommandAction::Reply(Some(OmniboxCommand::Chain(v))) => v@ == cmds,
        _ => false,
    }
}

pub open spec fn error_says(r: OmniboxError, msg: Seq<char>) -> bool {
    match r {
        OmniboxError::CommandError(m) => m@ == msg,
    }
}

/// What a command on the highlighted entry resolves to. A request for which
/// the entry's status does not settle the domain (and, for a load or a
/// reload, the session type) becomes a prompt; one that it settles becomes
/// the primitive command; a primitive becomes the daemon operation.
pub open spec fn resolves_to(
    item: ServiceListItem,
    plist: LaunchdPlist,
    cmd: OmniboxCommand,
    r: Result<CommandAction, OmniboxError>,
) -> bool {
    let name = item.name;
    let domain = item.status.domain;
    let session = item.status.limit_load_to_session_type;
    match cmd {
        OmniboxCommand::Reload => if domain == DomainType::Unknown || session
            == LimitLoadToSessionType::Unknown {
            r is Ok && is_reply(
                r->Ok_0,
                OmniboxCommand::DomainSessionPrompt(name, false, PromptContinuation::Reload),
            )
        } else {
            r is Ok && is_chain_reply(
                r->Ok_0,
                seq![OmniboxCommand::Unload(domain, None), OmniboxCommand::Load(session, domain, None)],
            )
        },
        OmniboxCommand::LoadRequest => r is Ok && is_reply(
            r->Ok_0,
            OmniboxCommand::DomainSessionPrompt(name, false, PromptContinuation::Load),
        ),
        OmniboxCommand::UnloadRequest => if domain == DomainType::Unknown {
            r is Ok && is_reply(
                r->Ok_0,
                OmniboxCommand::DomainSessionPrompt(name, true, PromptContinuation::Unload),
            )
        } else {
            r is Ok && is_reply(r->Ok_0, OmniboxCommand::Unload(domain, None))
        },
        OmniboxCommand::EnableRequest => r is Ok && is_reply(
            r->Ok_0,
            OmniboxCommand::DomainSessionPrompt(name, true, PromptContinuation::Enable),
        ),
        OmniboxCommand::DisableRequest => r is Ok && is_reply(
            r->Ok_0,
            OmniboxCommand::DomainSessionPrompt(name, true, PromptContinuation::Disable),
        ),
        OmniboxCommand::Edit => r == Ok::<CommandAction, OmniboxError>(
            CommandAction::Edit { label: name, plist },
        ),
        OmniboxCommand::Load(st, dt, _) => r == Ok::<CommandAction, OmniboxError>(
            CommandAction::Load { label: name, plist_path: plist.plist_path, domain: dt, session: st },
        ),
        OmniboxCommand::Unload(dt, _) => r == Ok::<CommandAction, OmniboxError>(
            CommandAction::Unload {
                label: name,
                plist_path: plist.plist_path,
                domain: dt,
                session,
            },
        ),
        OmniboxCommand::Enable(dt) => r == Ok::<CommandAction, OmniboxError>(
            CommandAction::Enable { label: name, domain: dt },
        ),
        OmniboxCommand::Disable(dt) => r == Ok::<CommandAction, OmniboxError>(
            CommandAction::Disable { label: name, domain: dt },
        ),
        OmniboxCommand::ProcInfo => if item.status.pid == 0 {
            r is Err && error_says(r->Err_0, "No PID for "@ + name@)
        } else {
            r == Ok::<CommandAction, OmniboxError>(
                CommandAction::ProcInfo { label: name, pid: item.status.pid },
            )
        },
        _ => r == Ok::<CommandAction, OmniboxError>(CommandAction::Reply(None)),
    }
}

proof fn lemma_labels_of_push(s: Seq<String>, x: String)
    ensures
        labels_of(s.push(x)) == labels_of(s).push(x@),
{
    assert(labels_of(s.push(x)) =~= labels_of(s).push(x@));
}

impl ServiceListView {
    /// The highlighted row, if there is one.
    pub open spec fn active_item(&self) -> Option<ServiceListItem> {
        match self.highlighted {
            Some(i) => if i < self.items@.len() {
                Some(self.items@[i as int])
            } else {
                None
            },
            None => None,
        }
    }

    /// An empty list with no filter and no highlighted row.
    pub fn new() -> (r: ServiceListView)
        ensures
            r.running_jobs@.len() == 0,
            r.label_filter@.len() == 0,
            r.job_type_filter.bits == 0,
            r.items@.len() == 0,
            r.highlighted is None,
    {
        ServiceListView {
            running_jobs: Vec::new(),
            label_filter: String::new(),
            job_type_filter: JobTypeFilter::empty(),
            items: Vec::new(),
            highlighted: None,
        }
    }

    /// The candidate labels: every configured label, then every label of
    /// the roster that has no configuration.
    pub fn candidate_labels(&self, configured: &Vec<String>) -> (r: Vec<String>)
        ensures
            labels_of(r@) == candidates(labels_of(configured@), labels_of(self.running_jobs@)),
    {
        let ghost conf = labels_of(configured@);
        let ghost running = labels_of(self.running_jobs@);
        let mut out: Vec<String> = Vec::new();
        let mut i: usize = 0;
        while i < configured.len()
            invariant
                0 <= i <= configured@.len(),
                conf == labels_of(configured@),
                labels_of(out@) == conf.subrange(0, i as int),
            decreases configured@.len() - i,
        {
            let ghost before = out@;
            out.push(configured[i].clone());
            proof {
                lemma_labels_of_push(before, configured@[i as int]);
                assert(conf[i as int] == configured@[i as int]@);
                assert(labels_of(out@) =~= conf.subrange(0, i + 1));
            }
            i = i + 1;
        }
        assert(conf.subrange(0, configured@.len() as int) =~= conf);
        let mut k: usize = 0;
        while k < self.running_jobs.len()
            invariant
                0 <= k <= self.running_jobs@.len(),
                conf == labels_of(configured@),
                running == labels_of(self.running_jobs@),
                labels_of(out@) == conf + unconfigured(conf, running.subrange(0, k as int)),
            decreases self.running_jobs@.len() - k,
        {
            let ghost prefix = running.subrange(0, k + 1);
            assert(prefix.drop_last() =~= running.subrange(0, k as int));
            assert(prefix.last() == self.running_jobs@[k as int]@);
            if !contains_label(configured, &self.running_jobs[k]) {
                let ghost before = out@;
                out.push(self.running_jobs[k].clone());
                proof {
                    lemma_labels_of_push(before, self.running_jobs@[k as int]);
                    assert(!conf.contains(prefix.last()));
                    assert(labels_of(out@) =~= conf + unconfigured(conf, prefix));
                }
            }
            k = k + 1;
        }
        assert(running.subrange(0, running.len() as int) =~= running);
        out
    }

    /// Takes the filters from the omnibox's state: the label filter while
    /// it is edited, the job type filter while it is edited, both when the
    /// omnibox goes idle; nothing in any other mode.
    pub fn handle_state_update(&mut self, state: OmniboxState) -> (r: OmniboxResult)
        ensures
            r == Ok::<Option<OmniboxCommand>, OmniboxError>(None),
            final(self).running_jobs == old(self).running_jobs,
            final(self).items == old(self).items,
            final(self).highlighted == old(self).highlighted,
            final(self).label_filter == (match state.mode {
                OmniboxMode::LabelFilter | OmniboxMode::Idle => state.label_filter,
                _ => old(self).label_filter,
            }),
            final(self).job_type_filter == (match state.mode {
                OmniboxMode::JobTypeFilter | OmniboxMode::Idle => state.job_type_filter,
                _ => old(self).job_type_filter,
            }),
    {
        let OmniboxState { mode, label_filter, job_type_filter } = state;
        match mode {
            OmniboxMode::LabelFilter => {
                self.label_filter = label_filter;
            },
            OmniboxMode::JobTypeFilter => {
                self.job_type_filter = job_type_filter;
            },
            OmniboxMode::Idle => {
                self.label_filter = label_filter;
                self.job_type_filter = job_type_filter;
            },
            _ => {},
        }
        Ok(None)
    }

    /// Shows new rows, keeping the highlight on the row of the same name
    /// when there is one, else on the first row.
    pub fn replace_and_preserve_selection(&mut self, items: Vec<ServiceListItem>)
        ensures
            final(self).items == items,
            final(self).running_jobs == old(self).running_jobs,
            final(self).label_filter == old(self).label_filter,
            final(self).job_type_filter == old(self).job_type_filter,
            match old(self).active_item() {
                Some(prev) if (exists|i: int| 0 <= i < items@.len() && #[trigger] items@[i].name@ == prev.name@) =>
                    final(self).highlighted is Some && final(self).highlighted->0 < items@.len()
                    && items@[final(self).highlighted->0 as int].name@ == prev.name@
                    && forall|i: int| 0 <= i < final(self).highlighted->0 ==> #[trigger] items@[i].name@ != prev.name@,
                _ => final(self).highlighted == (if items@.len() == 0 {
                    None::<usize>
                } else {
                    Some(0usize)
                }),
            },
    {
        let mut next: Option<usize> = if items.len() == 0 {
            None
        } else {
            Some(0)
        };
        match self.get_active_list_item() {
            Ok(prev) => {
                let mut i: usize = 0;
                while i < items.len()
                    invariant
                        0 <= i <= items@.len(),
                        forall|k: int| 0 <= k < i ==> #[trigger] items@[k].name@ != prev.name@,
                    ensures
                        0 <= i <= items@.len(),
                        forall|k: int| 0 <= k < i ==> #[trigger] items@[k].name@ != prev.name@,
                        i < items@.len() ==> items@[i as int].name@ == prev.name@,
                    decreases items@.len() - i,
                {
                    if items[i].name == prev.name {
                        break;
                    }
                    i = i + 1;
                }
                if i < items.len() {
                    next = Some(i);
                }
            },
            Err(_) => {},
        }
        self.items = items;
        self.highlighted = next;
    }

    /// Highlights a row; a row past the end highlights none.
    pub fn set_highlighted(&mut self, row: Option<usize>)
        ensures
            final(self).highlighted == (match row {
                Some(i) => if i < old(self).items@.len() {
                    Some(i)
                } else {
                    None
                },
                None => None,
            }),
            final(self).items == old(self).items,
            final(self).running_jobs == old(self).running_jobs,
            final(self).label_filter == old(self).label_filter,
            final(self).job_type_filter == old(self).job_type_filter,
    {
        self.highlighted = match row {
            Some(i) => if i < self.items.len() {
                Some(i)
            } else {
                None
            },
            None => None,
        };
    }

    /// The highlighted row, or an error when no row is highlighted.
    pub fn get_active_list_item(&self) -> (r: Result<&ServiceListItem, OmniboxError>)
        ensures
            self.active_item() is Some ==> r is Ok && *r->Ok_0 == self.active_item()->0,
            self.active_item() is None ==> r is Err && error_says(
                r->Err_0,
                "Cannot get highlighted row"@,
            ),
    {
        match self.highlighted {
            Some(i) => {
                if i < self.items.len() {
                    return Ok(&self.items[i]);
                }
            },
            None => {},
        }
        Err(OmniboxError::CommandError(String::from_str("Cannot get highlighted row")))
    }

    /// The highlighted row with its configuration, or an error when no row
    /// is highlighted or its entry has no configuration.
    pub fn with_active_item_plist(&self) -> (r: Result<(&ServiceListItem, &LaunchdPlist), OmniboxError>)
        ensures
            self.active_item() is None ==> r is Err && error_says(
                r->Err_0,
                "Cannot get highlighted row"@,
            ),
            self.active_item() is Some && self.active_item()->0.status.plist is None ==> r is Err
                && error_says(r->Err_0, "Cannot find plist"@),
            self.active_item() is Some && self.active_item()->0.status.plist is Some ==> match r {
                Ok((item, plist)) => *item == self.active_item()->0 && *plist
                    == self.active_item()->0.status.plist->0,
                Err(_) => false,
            },
    {
        let item = match self.get_active_list_item() {
            Ok(item) => item,
            Err(e) => {
                return Err(e);
            },
        };
        match &item.status.plist {
            Some(plist) => Ok((item, plist)),
            None => Err(OmniboxError::CommandError(String::from_str("Cannot find plist"))),
        }
    }

    /// Resolves a command against the highlighted entry (see `resolves_to`).
    /// Commands that act on no entry need nothing more.
    pub fn handle_command(&self, cmd: OmniboxCommand) -> (r: Result<CommandAction, OmniboxError>)
        ensures
            !needs_selection(cmd) ==> r == Ok::<CommandAction, OmniboxError>(CommandAction::Reply(None)),
            needs_selection(cmd) && self.active_item() is None ==> r is Err && error_says(
                r->Err_0,
                "Cannot get highlighted row"@,
            ),
            needs_selection(cmd) && self.active_item() is Some
                && self.active_item()->0.status.plist is None ==> r is Err && error_says(
                r->Err_0,
                "Cannot find plist"@,
            ),
            needs_selection(cmd) && self.active_item() is Some
                && self.active_item()->0.status.plist is Some ==> resolves_to(
                self.active_item()->0,
                self.active_item()->0.status.plist->0,
                cmd,
                r,
            ),
    {
        if !self.command_needs_selection(&cmd) {
            return Ok(CommandAction::Reply(None));
        }
        let (item, plist) = match self.with_active_item_plist() {
            Ok(found) => found,
            Err(e) => {
                return Err(e);
            },
        };
        let name = item.name.clone();
        let domain = item.status.domain;
        let session = item.status.limit_load_to_session_type;
        match cmd {
            OmniboxCommand::Reload => {
                if domain == DomainType::Unknown || session == LimitLoadToSessionType::Unknown {
                    Ok(
                        CommandAction::Reply(
                            Some(
                                OmniboxCommand::DomainSessionPrompt(
                                    name,
                                    false,
                                    PromptContinuation::Reload,
                                ),
                            ),
                        ),
                    )
                } else {
                    let steps = vec![
                        OmniboxCommand::Unload(domain, None),
                        OmniboxCommand::Load(session, domain, None),
                    ];
                    assert(steps@ =~= seq![OmniboxCommand::Unload(domain, None), OmniboxCommand::Load(session, domain, None)]);
                    Ok(CommandAction::Reply(Some(OmniboxCommand::Chain(steps))))
                }
            },
            OmniboxCommand::LoadRequest => Ok(
                CommandAction::Reply(
                    Some(OmniboxCommand::DomainSessionPrompt(name, false, PromptContinuation::Load)),
                ),
            ),
            OmniboxCommand::UnloadRequest => {
                if domain == DomainType::Unknown {
                    Ok(
                        CommandAction::Reply(
                            Some(
                                OmniboxCommand::DomainSessionPrompt(
                                    name,
                                    true,
                                    PromptContinuation::Unload,
                                ),
                            ),
                        ),
                    )
                } else {
                    Ok(CommandAction::Reply(Some(OmniboxCommand::Unload(domain, None))))
                }
            },
            OmniboxCommand::EnableRequest => Ok(
                CommandAction::Reply(
                    Some(OmniboxCommand::DomainSessionPrompt(name, true, PromptContinuation::Enable)),
                ),
            ),
            OmniboxCommand::DisableRequest => Ok(
                CommandAction::Reply(
                    Some(OmniboxCommand::DomainSessionPrompt(name, true, PromptContinuation::Disable)),
                ),
            ),
            OmniboxCommand::Edit => Ok(CommandAction::Edit { label: name, plist: plist.clone() }),
            OmniboxCommand::Load(st, dt, _handle) => Ok(
                CommandAction::Load {
                    label: name,
                    plist_path: plist.plist_path.clone(),
                    domain: dt,
                    session: st,
                },
            ),
            OmniboxCommand::Unload(dt, _handle) => Ok(
                CommandAction::Unload {
                    label: name,
                    plist_path: plist.plist_path.clone(),
                    domain: dt,
                    session,
                },
            ),
            OmniboxCommand::Enable(dt) => Ok(CommandAction::Enable { label: name, domain: dt }),
            OmniboxCommand::Disable(dt) => Ok(CommandAction::Disable { label: name, domain: dt }),
            OmniboxCommand::ProcInfo => {
                if item.status.pid == 0 {
                    let message = String::from_str("No PID for ").concat(name.as_str());
                    Err(OmniboxError::CommandError(message))
                } else {
                    Ok(CommandAction::ProcInfo { label: name, pid: item.status.pid })
                }
            },
            _ => Ok(CommandAction::Reply(None)),
        }
    }

    fn command_needs_selection(&self, cmd: &OmniboxCommand) -> (r: bool)
        ensures
            r == needs_selection(*cmd),
    {
        match cmd {
            OmniboxCommand::Reload | OmniboxCommand::LoadRequest | OmniboxCommand::UnloadRequest
            | OmniboxCommand::EnableRequest | OmniboxCommand::DisableRequest | OmniboxCommand::Edit
            | OmniboxCommand::Load(..) | OmniboxCommand::Unload(..) | OmniboxCommand::Enable(..)
            | OmniboxCommand::Disable(..) | OmniboxCommand::ProcInfo => true,
            _ => false,
        }
    }

    /// The row of one candidate entry, if it passes the filters.
    fn list_item(&self, label: String, status: LaunchdEntryStatus) -> (r: Option<ServiceListItem>)
        ensures
            r == list_item_of(
                label,
                status,
                labels_of(self.running_jobs@),
                self.label_filter@,
                self.job_type_filter,
            ),
    {
        if self.label_filter.as_str().unicode_len() != 0 && !contains_ignoring_ascii_case(
            &label,
            &self.label_filter,
        ) {
            return None;
        }
        let loaded = contains_label(&self.running_jobs, &label);
        let entry_job_type_filter = match &status.plist {
            Some(plist) => plist.job_type_filter(loaded),
            None => if loaded {
                JobTypeFilter::loaded()
            } else {
                JobTypeFilter::empty()
            },
        };
        if !self.job_type_filter.is_empty() && !entry_job_type_filter.contains(self.job_type_filter) {
            return None;
        }
        Some(ServiceListItem { name: label, status, job_type_filter: entry_job_type_filter })
    }

    /// The rows to display: each candidate entry (a label with its resolved
    /// status) that passes the name filter, ignoring ASCII case, and the job
    /// type filter, with its job type mask; entries that are not loaded
    /// first, then by name.
    pub fn present_services(&self, entries: Vec<(String, LaunchdEntryStatus)>) -> (r: Vec<
        ServiceListItem,
    >)
        ensures
            r@.to_multiset() == presented(
                entries@,
                labels_of(self.running_jobs@),
                self.label_filter@,
                self.job_type_filter,
            ).to_multiset(),
            sorted_for_display(r@),
    {
        let ghost running = labels_of(self.running_jobs@);
        let ghost all = presented(entries@, running, self.label_filter@, self.job_type_filter);
        let mut pending = entries;
        let mut out: Vec<ServiceListItem> = Vec::new();
        while pending.len() > 0
            invariant
                running == labels_of(self.running_jobs@),
                out@.to_multiset().add(
                    presented(pending@, running, self.label_filter@, self.job_type_filter).to_multiset(),
                ) == all.to_multiset(),
                sorted_for_display(out@),
            decreases pending@.len(),
        {
            let ghost before = pending@;
            let ghost out_before = out@;
            let (label, status) = match pending.pop() {
                Some(e) => e,
                None => {
                    return out;
                },
            };
            let item = self.list_item(label, status);
            proof {
                assert(before.drop_last() == pending@);
                let rest = presented(pending@, running, self.label_filter@, self.job_type_filter);
                vstd::seq_lib::lemma_multiset_commutative(rest, option_seq(item));
            }
            match item {
                Some(it) => {
                    insert_sorted(&mut out, it);
                },
                None => {},
            }
            proof {
                assert(option_seq(item).to_multiset() =~= match item {
                    Some(it) => Multiset::<ServiceListItem>::empty().insert(it),
                    None => Multiset::<ServiceListItem>::empty(),
                }) by {
                    if item is Some {
                        assert(option_seq(item) =~= Seq::<ServiceListItem>::empty().push(item->0));
                    }
                }
                let rest = presented(pending@, running, self.label_filter@, self.job_type_filter);
                assert(out@.to_multiset().add(rest.to_multiset()) =~= all.to_multiset());
            }
        }
        assert(presented(pending@, running, self.label_filter@, self.job_type_filter) =~= Seq::<
            ServiceListItem,
        >::empty());
        assert(out@.to_multiset() =~= all.to_multiset());
        out
    }
}

/// What an edit gives once the editor has run: on success a request to
/// confirm reloading the label, on failure the editor's error.
pub fn finish_edit(label: &String, outcome: Result<(), String>) -> (r: OmniboxResult)
    ensures
        outcome is Ok <==> r is Ok,
        outcome is Ok ==> match r {
            Ok(Some(OmniboxCommand::Confirm(msg, then))) => msg@ == "Reload "@ + label@ + "?"@
                && then@ == seq![OmniboxCommand::Reload],
            _ => false,
        },
        outcome is Err ==> r is Err && error_says(r->Err_0, outcome->Err_0@),
{
    match outcome {
        Ok(()) => {
            let message = String::from_str("Reload ").concat(label.as_str()).concat("?");
            Ok(Some(OmniboxCommand::Confirm(message, vec![OmniboxCommand::Reload])))
        },
        Err(e) => Err(OmniboxError::CommandError(e)),
    }
}

/// What a daemon operation gives: nothing to follow on success, else its error.
pub fn finish_operation(outcome: Result<(), String>) -> (r: OmniboxResult)
    ensures
        outcome is Ok ==> r == Ok::<Option<OmniboxCommand>, OmniboxError>(None),
        outcome is Err ==> r is Err && error_says(r->Err_0, outcome->Err_0@),
{
    match outcome {
        Ok(()) => Ok(None),
        Err(e) => Err(OmniboxError::CommandError(e)),
    }
}

} // verus!
