//! The audit journal: what one entry holds, who it is attributed to, when
//! the journal is cut back, and what is shown of it.

use vstd::prelude::*;
use crate::order::{order_by_key, sorted_indices};
use vstd::string::StringExecFns;
use crate::text::{
    chars_of, concat2, join_texts, join_with, lines_of, push_str, same_str, same_text,
    split_lines, string_of, texts,
};
use crate::tools::{opt_text, AuditRecord};

verus! {

/// One entry of the audit journal.
#[derive(Debug, Clone)]
pub struct ActivityEntry {
    /// An identifier of the entry, unique among all entries.
    pub id: String,
    /// When the entry was made, in RFC 3339.
    pub timestamp: String,
    /// The tool that was used.
    pub tool: String,
    /// One of `read`, `write`, `delete`, `system`, `security`.
    pub category: String,
    /// The path that was acted on, where there is one.
    pub path: Option<String>,
    /// Who acted.
    pub agent: String,
    /// What was done, in words.
    pub summary: String,
}

/// An agent as the journal shows it.
#[derive(Debug, Clone)]
pub struct ConnectedAgent {
    pub name: String,
    /// The time of the agent's newest entry.
    pub last_seen: String,
    /// `connected` or `disconnected`.
    pub status: String,
}

/// Who the entries of the journal are attributed to. The name is found
/// once, before the first request.
pub struct Journal {
    pub agent: String,
}

/// The milliseconds from the time `earlier` to the time `later`, cut
/// towards zero; `None` where one of the two is no time. A time is what
/// chrono reads as a `DateTime<Utc>`: RFC 3339 and its relaxed forms, such
/// as a blank in place of the `T`.
pub uninterp spec fn elapsed_millis(later: Seq<char>, earlier: Seq<char>) -> Option<int>;

/// `uuid::Uuid::new_v4`, written out as text: a random identifier.
/// Nothing is claimed of it.
#[verifier::external_body]
fn fresh_id() -> (id: String) {
    uuid::Uuid::new_v4().to_string()
}

/// `std::time::SystemTime::now`, measured from the start of 1970 by
/// `duration_since`: the seconds and nanoseconds that have passed at the
/// time of the call, and none where the clock stands before 1970. Nothing
/// is claimed of them.
#[verifier::external_body]
fn clock() -> (now: Option<(u64, u32)>) {
    let since = std::time::SystemTime::now().duration_since(std::time::UNIX_EPOCH).ok()?;
    Some((since.as_secs(), since.subsec_nanos()))
}

/// The time that lies `secs` seconds and `nanos` nanoseconds after the
/// start of 1970, in RFC 3339; `None` where chrono holds no such time.
pub uninterp spec fn rfc3339_text(secs: int, nanos: int) -> Option<Seq<char>>;

/// `chrono::DateTime::from_timestamp`, written out by `to_rfc3339`.
#[verifier::external_body]
fn rfc3339_of(secs: i64, nanos: u32) -> (text: Option<String>)
    ensures
        match text {
            Some(t) => rfc3339_text(secs as int, nanos as int) == Some(t@),
            None => rfc3339_text(secs as int, nanos as int) is None,
        },
{
    chrono::DateTime::<chrono::Utc>::from_timestamp(secs, nanos).map(|t| t.to_rfc3339())
}

/// What an entry is dated to where the clock tells no time.
pub open spec fn undated() -> Seq<char> {
    "1970-01-01T00:00:00+00:00"@
}

/// How an entry made at `now` is dated: `now` gives the seconds and
/// nanoseconds since the start of 1970 as the clock tells them.
pub open spec fn dated(now: Option<(u64, u32)>) -> Seq<char> {
    match now {
        Some((secs, nanos)) => if secs <= i64::MAX {
            match rfc3339_text(secs as int, nanos as int) {
                Some(t) => t,
                None => undated(),
            }
        } else {
            undated()
        },
        None => undated(),
    }
}

/// The date of an entry made at `now`.
pub fn timestamp_of(now: Option<(u64, u32)>) -> (text: String)
    ensures
        text@ == dated(now),
{
    match now {
        Some((secs, nanos)) => {
            if secs <= 0x7FFF_FFFF_FFFF_FFFF {
                match rfc3339_of(secs as i64, nanos) {
                    Some(t) => t,
                    None => "1970-01-01T00:00:00+00:00".to_owned(),
                }
            } else {
                "1970-01-01T00:00:00+00:00".to_owned()
            }
        },
        None => "1970-01-01T00:00:00+00:00".to_owned(),
    }
}

/// Both texts parsed as `chrono::DateTime<Utc>`, whose parser takes a
/// relaxed form of RFC 3339, and of the two times `signed_duration_since`
/// in `num_milliseconds`: the whole milliseconds between them, cut towards
/// zero.
#[verifier::external_body]
fn millis_between(later: &str, earlier: &str) -> (r: Option<i64>)
    ensures
        match r {
            Some(ms) => elapsed_millis(later@, earlier@) == Some(ms as int),
            None => elapsed_millis(later@, earlier@) is None,
        },
{
    let a = later.parse::<chrono::DateTime<chrono::Utc>>().ok()?;
    let b = earlier.parse::<chrono::DateTime<chrono::Utc>>().ok()?;
    Some(a.signed_duration_since(b).num_milliseconds())
}

/// The size in bytes above which the journal is cut back.
pub open spec fn max_log_size() -> int {
    2097152
}

/// The number of lines that a journal keeps when it is cut back.
pub open spec fn kept_lines() -> int {
    500
}

/// The name that entries are attributed to where none was found.
pub fn default_agent_name() -> (name: String)
    ensures
        name@ == "Generic MCP Client"@,
{
    "Generic MCP Client".to_owned()
}

/// A journal whose entries are attributed to the default name.
pub fn new_journal() -> (journal: Journal)
    ensures
        journal.agent@ == "Generic MCP Client"@,
{
    Journal { agent: default_agent_name() }
}

/// Sets the name that entries are attributed to.
pub fn set_agent_name(journal: &mut Journal, name: String)
    ensures
        final(journal).agent == name,
{
    journal.agent = name;
}

/// The name that entries are attributed to.
pub fn get_agent_name(journal: &Journal) -> (name: String)
    ensures
        name == journal.agent,
{
    journal.agent.clone()
}

/// `entry` tells of this action by this agent.
pub open spec fn tells(
    entry: ActivityEntry,
    agent: Seq<char>,
    tool: Seq<char>,
    category: Seq<char>,
    path: Option<Seq<char>>,
    summary: Seq<char>,
) -> bool {
    entry.agent@ == agent && entry.tool@ == tool && entry.category@ == category && opt_text(
        entry.path,
    ) == path && entry.summary@ == summary
}

/// The entry with this identifier and this time that tells of an action.
pub fn make_entry(
    journal: &Journal,
    id: String,
    timestamp: String,
    tool: &str,
    category: &str,
    path: Option<&str>,
    summary: &str,
) -> (entry: ActivityEntry)
    ensures
        entry.id == id,
        entry.timestamp == timestamp,
        tells(
            entry,
            journal.agent@,
            tool@,
            category@,
            match path {
                Some(p) => Some(p@),
                None => None,
            },
            summary@,
        ),
{
    let path = match path {
        Some(p) => Some(p.to_owned()),
        None => None,
    };
    ActivityEntry {
        id,
        timestamp,
        tool: tool.to_owned(),
        category: category.to_owned(),
        path,
        agent: journal.agent.clone(),
        summary: summary.to_owned(),
    }
}

/// The entry for an action that was just taken: with a fresh identifier
/// and the time of the call, attributed to the agent of the journal. Where
/// the clock tells no time, the entry is dated to the start of 1970.
pub fn log_activity(
    journal: &Journal,
    tool: &str,
    category: &str,
    path: Option<&str>,
    summary: &str,
) -> (entry: ActivityEntry)
    ensures
        tells(
            entry,
            journal.agent@,
            tool@,
            category@,
            match path {
                Some(p) => Some(p@),
                None => None,
            },
            summary@,
        ),
{
    make_entry(journal, fresh_id(), timestamp_of(clock()), tool, category, path, summary)
}

/// The entry for what a tool asked to be recorded.
pub fn log_record(journal: &Journal, record: &AuditRecord) -> (entry: ActivityEntry)
    ensures
        tells(
            entry,
            journal.agent@,
            record.tool@,
            record.category@,
            opt_text(record.path),
            record.summary@,
        ),
{
    let path: Option<&str> = match &record.path {
        Some(p) => Some(p.as_str()),
        None => None,
    };
    log_activity(
        journal,
        record.tool.as_str(),
        record.category.as_str(),
        path,
        record.summary.as_str(),
    )
}

/// The entry that tells that the agent has connected.
pub fn log_connect(journal: &Journal) -> (entry: ActivityEntry)
    ensures
        tells(
            entry,
            journal.agent@,
            "system"@,
            "system"@,
            None,
            journal.agent@ + " linked via MCP"@,
        ),
{
    let summary = concat2(journal.agent.as_str(), " linked via MCP");
    log_activity(journal, "system", "system", None, summary.as_str())
}

/// Whether a journal of `size` bytes is cut back before the next entry.
pub fn needs_rotation(size: u64) -> (r: bool)
    ensures
        r == (size > max_log_size()),
{
    size > 2 * 1024 * 1024
}

/// What a journal that holds `content` is cut back to: its last 500 lines,
/// each ended by a line feed. `None` where it holds no more than that, and
/// is left as it is.
pub open spec fn rotated(content: Seq<char>) -> Option<Seq<char>> {
    let lines = lines_of(content);
    if lines.len() > kept_lines() {
        Some(
            join_with(lines.subrange(lines.len() - kept_lines(), lines.len() as int), "\n"@)
                + "\n"@,
        )
    } else {
        None
    }
}

/// Cuts a journal back to its newest lines.
pub fn rotate_log(content: &str) -> (r: Option<String>)
    ensures
        match rotated(content@) {
            Some(text) => r matches Some(t) && t@ == text,
            None => r is None,
        },
{
    let mut lines = split_lines(&chars_of(content));
    if lines.len() > 500 {
        let ghost all = lines@;
        let kept = lines.split_off(lines.len() - 500);
        assert(texts(kept@) =~= texts(all).subrange(all.len() - 500, all.len() as int));
        let mut text = join_texts(&kept, "\n");
        push_str(&mut text, "\n");
        Some(string_of(&text))
    } else {
        None
    }
}


/// A copy of `entry`.
pub fn copy_entry(entry: &ActivityEntry) -> (copy: ActivityEntry)
    ensures
        copy == *entry,
{
    let path = match &entry.path {
        Some(p) => Some(p.clone()),
        None => None,
    };
    ActivityEntry {
        id: entry.id.clone(),
        timestamp: entry.timestamp.clone(),
        tool: entry.tool.clone(),
        category: entry.category.clone(),
        path,
        agent: entry.agent.clone(),
        summary: entry.summary.clone(),
    }
}

/// The times of the entries.
pub open spec fn timestamps(entries: Seq<ActivityEntry>) -> Seq<Seq<char>> {
    Seq::new(entries.len(), |i: int| entries[i].timestamp@)
}

/// The indices of the entries from the newest to the oldest: by their
/// times in the order of strings, and in the order of the journal where
/// times are the same.
pub open spec fn newest_first(entries: Seq<ActivityEntry>) -> Seq<usize> {
    sorted_indices(timestamps(entries), entries.len() as int, true)
}

/// Whether an entry is shown under the category asked for: each entry
/// where none is asked for, or `all`, or the empty text.
pub open spec fn in_category(entry: ActivityEntry, category: Option<Seq<char>>) -> bool {
    match category {
        None => true,
        Some(c) => c == "all"@ || c.len() == 0 || entry.category@ == c,
    }
}

/// Those of the first `n` indices of `order` whose entries are in the
/// category.
pub open spec fn selected(
    entries: Seq<ActivityEntry>,
    order: Seq<usize>,
    category: Option<Seq<char>>,
    n: int,
) -> Seq<ActivityEntry>
    decreases n,
{
    if n <= 0 {
        Seq::empty()
    } else if in_category(entries[order[n - 1] as int], category) {
        selected(entries, order, category, n - 1).push(entries[order[n - 1] as int])
    } else {
        selected(entries, order, category, n - 1)
    }
}

/// The part of `items` that starts at `offset` and holds `limit` items at
/// most.
pub open spec fn window<T>(items: Seq<T>, offset: int, limit: int) -> Seq<T> {
    let start = if offset > items.len() {
        items.len() as int
    } else {
        offset
    };
    let end = if start + limit > items.len() {
        items.len() as int
    } else {
        start + limit
    };
    items.subrange(start, end)
}

/// The entries at the indices `at`.
pub open spec fn entries_at(entries: Seq<ActivityEntry>, at: Seq<usize>) -> Seq<ActivityEntry> {
    Seq::new(at.len(), |k: int| entries[at[k] as int])
}

fn times_of(entries: &Vec<ActivityEntry>) -> (keys: Vec<Vec<char>>)
    ensures
        keys.len() == entries.len(),
        texts(keys@) == timestamps(entries@),
{
    let mut keys: Vec<Vec<char>> = Vec::new();
    let mut i: usize = 0;
    while i < entries.len()
        invariant
            i <= entries.len(),
            keys.len() == i,
            forall|j: int| 0 <= j < i ==> (#[trigger] keys[j])@ == entries[j].timestamp@,
        decreases entries.len() - i,
    {
        keys.push(chars_of(entries[i].timestamp.as_str()));
        i += 1;
    }
    assert(texts(keys@) =~= timestamps(entries@));
    keys
}

/// The entries of the journal as they are shown: from the newest to the
/// oldest, those in the category asked for, from `offset` on and `limit`
/// at most.
pub fn get_activity_log(
    entries: &Vec<ActivityEntry>,
    limit: usize,
    offset: usize,
    category: Option<&str>,
) -> (shown: Vec<ActivityEntry>)
    ensures
        shown@ == window(
            selected(
                entries@,
                newest_first(entries@),
                match category {
                    Some(c) => Some(c@),
                    None => None,
                },
                entries.len() as int,
            ),
            offset as int,
            limit as int,
        ),
{
    let ghost wanted: Option<Seq<char>> = match category {
        Some(c) => Some(c@),
        None => None,
    };
    let every: bool = match category {
        None => true,
        Some(c) => {
            let c = chars_of(c);
            c.len() == 0 || same_str(&c, "all")
        },
    };
    let keys = times_of(entries);
    let order = order_by_key(&keys, true);
    let mut chosen: Vec<usize> = Vec::new();
    let mut i: usize = 0;
    assert(entries_at(entries@, chosen@) =~= selected(entries@, order@, wanted, 0));
    while i < order.len()
        invariant
            i <= order.len(),
            order.len() == entries.len(),
            order@ == newest_first(entries@),
            forall|k: int| 0 <= k < order.len() ==> order[k] < entries.len(),
            forall|k: int| 0 <= k < chosen.len() ==> chosen[k] < entries.len(),
            wanted == (match category {
                Some(c) => Some(c@),
                None => None,
            }),
            every == (match wanted {
                None => true,
                Some(c) => c.len() == 0 || c == "all"@,
            }),
            entries_at(entries@, chosen@) == selected(entries@, order@, wanted, i as int),
        decreases order.len() - i,
    {
        let e = &entries[order[i]];
        let take = every || match category {
            Some(c) => same_str(&chars_of(e.category.as_str()), c),
            None => true,
        };
        if take {
            let ghost before = entries_at(entries@, chosen@);
            chosen.push(order[i]);
            assert(entries_at(entries@, chosen@) =~= before.push(
                entries@[order@[i as int] as int],
            ));
        }
        i += 1;
    }
    let start: usize = if offset > chosen.len() {
        chosen.len()
    } else {
        offset
    };
    let end: usize = if limit > chosen.len() - start {
        chosen.len()
    } else {
        start + limit
    };
    let mut shown: Vec<ActivityEntry> = Vec::new();
    let mut k: usize = start;
    while k < end
        invariant
            start <= k <= end <= chosen.len(),
            forall|j: int| 0 <= j < chosen.len() ==> chosen[j] < entries.len(),
            shown@ == entries_at(entries@, chosen@).subrange(start as int, k as int),
        decreases end - k,
    {
        let ghost before = shown@;
        shown.push(copy_entry(&entries[chosen[k]]));
        assert(shown@ =~= entries_at(entries@, chosen@).subrange(start as int, k + 1));
        k += 1;
    }
    shown
}


/// Whether one of the entries at the indices `seen` is of the same agent
/// as the entry at `x`.
pub open spec fn agent_seen(entries: Seq<ActivityEntry>, seen: Seq<usize>, x: usize) -> bool {
    exists|j: int|
        0 <= j < seen.len() && entries[#[trigger] seen[j] as int].agent@ == entries[x as int].agent@
}

/// For each agent that the first `n` indices of `order` come upon, the
/// index of its first entry, in the order in which the agents are come
/// upon.
pub open spec fn first_of_agents(entries: Seq<ActivityEntry>, order: Seq<usize>, n: int) -> Seq<
    usize,
>
    decreases n,
{
    if n <= 0 {
        Seq::empty()
    } else {
        let before = first_of_agents(entries, order, n - 1);
        if agent_seen(entries, before, order[n - 1]) {
            before
        } else {
            before.push(order[n - 1])
        }
    }
}

/// The names of the agents of the entries at the indices `at`.
pub open spec fn agent_names(entries: Seq<ActivityEntry>, at: Seq<usize>) -> Seq<Seq<char>> {
    Seq::new(at.len(), |k: int| entries[at[k] as int].agent@)
}

/// The most milliseconds since the newest entry of an agent that counts
/// as connected: five minutes less one.
pub open spec fn connected_within() -> int {
    300000
}

/// Whether an agent that was last seen at `last_seen` counts as connected
/// at `now`: less than five minutes lie between the two.
pub open spec fn is_connected(now: Seq<char>, last_seen: Seq<char>) -> bool {
    match elapsed_millis(now, last_seen) {
        Some(ms) => ms < connected_within(),
        None => false,
    }
}

/// The agents of the journal with their newest entries' times, in the
/// order of their names.
pub open spec fn agents_shown(entries: Seq<ActivityEntry>) -> Seq<usize> {
    let first = first_of_agents(entries, newest_first(entries), entries.len() as int);
    let by_name = sorted_indices(agent_names(entries, first), first.len() as int, false);
    Seq::new(by_name.len(), |k: int| first[by_name[k] as int])
}

/// The agents that the journal knows, in the order of their names, each
/// with the time of its newest entry and with whether it counts as
/// connected at the time `now`: it does where less than five minutes have
/// passed since that entry.
pub fn get_connected_agents(entries: &Vec<ActivityEntry>, now: &str) -> (agents: Vec<
    ConnectedAgent,
>)
    ensures
        agents.len() == agents_shown(entries@).len(),
        forall|k: int|
            0 <= k < agents.len() ==> {
                let e = entries@[agents_shown(entries@)[k] as int];
                &&& (#[trigger] agents[k]).name@ == e.agent@
                &&& agents[k].last_seen@ == e.timestamp@
                &&& agents[k].status@ == if is_connected(now@, e.timestamp@) {
                    "connected"@
                } else {
                    "disconnected"@
                }
            },
{
    let keys = times_of(entries);
    let order = order_by_key(&keys, true);
    let mut first: Vec<usize> = Vec::new();
    let mut i: usize = 0;
    while i < order.len()
        invariant
            i <= order.len(),
            order.len() == entries.len(),
            order@ == newest_first(entries@),
            forall|k: int| 0 <= k < order.len() ==> order[k] < entries.len(),
            forall|k: int| 0 <= k < first.len() ==> first[k] < entries.len(),
            first@ == first_of_agents(entries@, order@, i as int),
        decreases order.len() - i,
    {
        let x: usize = order[i];
        let name = chars_of(entries[x].agent.as_str());
        let mut seen = false;
        let mut j: usize = 0;
        while j < first.len() && !seen
            invariant
                j <= first.len(),
                x < entries.len(),
                name@ == entries@[x as int].agent@,
                forall|k: int| 0 <= k < first.len() ==> first[k] < entries.len(),
                seen ==> agent_seen(entries@, first@, x),
                !seen ==> forall|k: int|
                    0 <= k < j ==> entries@[#[trigger] first@[k] as int].agent@ != name@,
            decreases first.len() - j,
        {
            if same_text(&chars_of(entries[first[j]].agent.as_str()), &name) {
                seen = true;
                assert(entries@[first@[j as int] as int].agent@ == entries@[x as int].agent@);
            }
            j += 1;
        }
        if !seen {
            first.push(x);
        }
        i += 1;
    }
    let mut names: Vec<Vec<char>> = Vec::new();
    let mut n: usize = 0;
    while n < first.len()
        invariant
            n <= first.len(),
            names.len() == n,
            forall|k: int| 0 <= k < first.len() ==> first[k] < entries.len(),
            forall|k: int|
                0 <= k < n ==> (#[trigger] names[k])@ == entries@[first@[k] as int].agent@,
        decreases first.len() - n,
    {
        names.push(chars_of(entries[first[n]].agent.as_str()));
        n += 1;
    }
    assert(texts(names@) =~= agent_names(entries@, first@));
    let by_name = order_by_key(&names, false);
    let mut agents: Vec<ConnectedAgent> = Vec::new();
    let mut k: usize = 0;
    while k < by_name.len()
        invariant
            k <= by_name.len(),
            agents.len() == k,
            by_name.len() == first.len(),
            first@ == first_of_agents(entries@, newest_first(entries@), entries.len() as int),
            by_name@ == sorted_indices(agent_names(entries@, first@), first.len() as int, false),
            forall|j: int| 0 <= j < first.len() ==> first[j] < entries.len(),
            forall|j: int| 0 <= j < by_name.len() ==> by_name[j] < first.len(),
            forall|j: int|
                0 <= j < k ==> {
                    let e = entries@[first@[by_name@[j] as int] as int];
                    &&& (#[trigger] agents[j]).name@ == e.agent@
                    &&& agents[j].last_seen@ == e.timestamp@
                    &&& agents[j].status@ == if is_connected(now@, e.timestamp@) {
                        "connected"@
                    } else {
                        "disconnected"@
                    }
                },
        decreases by_name.len() - k,
    {
        let e = &entries[first[by_name[k]]];
        let connected = match millis_between(now, e.timestamp.as_str()) {
            Some(ms) => ms < 300000,
            None => false,
        };
        let status = if connected {
            "connected".to_owned()
        } else {
            "disconnected".to_owned()
        };
        agents.push(
            ConnectedAgent { name: e.agent.clone(), last_seen: e.timestamp.clone(), status },
        );
        k += 1;
    }
    agents
}

} // verus!
