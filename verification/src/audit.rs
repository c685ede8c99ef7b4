//! The audit timeline of one incident run.

use vstd::prelude::*;
use crate::domain::AgentState;
use crate::text::{decimal, push_decimal};

verus! {

#[verifier::external_type_specification]
#[verifier::external_body]
pub struct ExSystemTime(std::time::SystemTime);

#[verifier::external_type_specification]
#[verifier::external_body]
pub struct ExSystemTimeError(std::time::SystemTimeError);

/// The system clock's current reading (`SystemTime::now`). Nothing is
/// stated of it: it is the time.
#[verifier::external_body]
fn system_now() -> std::time::SystemTime {
    std::time::SystemTime::now()
}

/// The time from the Unix epoch to `t` (`SystemTime::duration_since`
/// with `UNIX_EPOCH`), or an error when `t` is before the epoch. Nothing
/// is stated of the value.
#[verifier::external_body]
fn since_unix_epoch(t: &std::time::SystemTime) -> Result<std::time::Duration, std::time::SystemTimeError> {
    t.duration_since(std::time::UNIX_EPOCH)
}

/// The whole seconds of a duration (`Duration::as_secs`). Nothing is
/// stated of the value, as durations here come from the clock.
#[verifier::external_body]
fn whole_seconds(d: &std::time::Duration) -> u64 {
    d.as_secs()
}

/// Seconds since the Unix epoch by the system clock, zero when the clock
/// reads a time before the epoch.
fn system_unix_seconds() -> u64 {
    let now = system_now();
    match since_unix_epoch(&now) {
        Ok(d) => whole_seconds(&d),
        Err(_) => 0,
    }
}

/// A timestamp as the timeline writes it: the decimal seconds of some instant.
pub open spec fn is_timestamp(s: Seq<char>) -> bool {
    exists|t: nat| s == decimal(t)
}

/// The current Unix time in seconds, in decimal.
pub fn unix_seconds_now() -> (s: String)
    ensures
        is_timestamp(s@),
{
    let t = system_unix_seconds();
    let mut s = String::new();
    push_decimal(&mut s, t);
    assert(s@ =~= decimal(t as nat));
    s
}

#[derive(Debug, Clone)]
pub struct AuditEntry {
    pub timestamp: String,
    pub state: AgentState,
    pub message: String,
}

/// The timeline line of an entry: `[timestamp][State] message`.
pub open spec fn entry_line(e: AuditEntry) -> Seq<char> {
    "["@ + e.timestamp@ + "]["@ + e.state.spec_name() + "] "@ + e.message@
}

/// Every entry carries a timestamp.
pub open spec fn all_stamped(entries: Seq<AuditEntry>) -> bool {
    forall|i: int| 0 <= i < entries.len() ==> is_timestamp(#[trigger] entries[i].timestamp@)
}

/// `lines` is the timeline of the audit entries `log`.
pub open spec fn timeline_of(lines: Seq<String>, log: Seq<AuditEntry>) -> bool {
    &&& lines.len() == log.len()
    &&& forall|i: int| 0 <= i < lines.len() ==> #[trigger] lines[i]@ == entry_line(log[i])
}

/// The states and messages of a sequence of entries, without their times.
pub open spec fn trail(entries: Seq<AuditEntry>) -> Seq<(AgentState, Seq<char>)> {
    entries.map_values(|e: AuditEntry| (e.state, e.message@))
}

/// `after` is `before` with one more entry, for `e`, stamped with a time.
pub open spec fn appends(before: Seq<AuditEntry>, after: Seq<AuditEntry>, e: (AgentState, Seq<char>)) -> bool {
    &&& after.len() == before.len() + 1
    &&& after.subrange(0, before.len() as int) == before
    &&& after.last().state == e.0
    &&& after.last().message@ == e.1
    &&& is_timestamp(after.last().timestamp@)
}

#[derive(Debug, Default)]
pub struct AuditLog {
    entries: Vec<AuditEntry>,
}

impl View for AuditLog {
    type V = Seq<AuditEntry>;

    closed spec fn view(&self) -> Seq<AuditEntry> {
        self.entries@
    }
}

impl AuditLog {
    pub fn new() -> (log: Self)
        ensures
            log@ == Seq::<AuditEntry>::empty(),
            all_stamped(log@),
    {
        AuditLog { entries: Vec::new() }
    }

    /// Appends an entry stamped with the given Unix time.
    pub fn record_at(&mut self, state: AgentState, message: String, seconds: u64)
        ensures
            final(self)@.len() == old(self)@.len() + 1,
            final(self)@.subrange(0, old(self)@.len() as int) == old(self)@,
            final(self)@.last().state == state,
            final(self)@.last().message@ == message@,
            final(self)@.last().timestamp@ == decimal(seconds as nat),
            appends(old(self)@, final(self)@, (state, message@)),
            trail(final(self)@) == trail(old(self)@).push((state, message@)),
            all_stamped(old(self)@) ==> all_stamped(final(self)@),
    {
        let mut timestamp = String::new();
        push_decimal(&mut timestamp, seconds);
        assert(timestamp@ =~= decimal(seconds as nat));
        let ghost before = self.entries@;
        self.entries.push(AuditEntry { timestamp, state, message });
        assert(self.entries@.subrange(0, before.len() as int) =~= before);
        assert(trail(self.entries@) =~= trail(before).push((state, message@)));
        assert(self.entries@.last().timestamp@ == decimal(seconds as nat));
        assert(is_timestamp(self.entries@.last().timestamp@));
        assert forall|i: int| 0 <= i < self.entries@.len() && all_stamped(before) implies is_timestamp(
            #[trigger] self.entries@[i].timestamp@,
        ) by {
            if i < before.len() {
                assert(self.entries@[i] == before[i]);
            }
        }
    }

    /// Appends an entry stamped with the current time.
    pub fn record(&mut self, state: AgentState, message: String)
        ensures
            final(self)@.len() == old(self)@.len() + 1,
            final(self)@.subrange(0, old(self)@.len() as int) == old(self)@,
            final(self)@.last().state == state,
            final(self)@.last().message@ == message@,
            is_timestamp(final(self)@.last().timestamp@),
            appends(old(self)@, final(self)@, (state, message@)),
            trail(final(self)@) == trail(old(self)@).push((state, message@)),
            all_stamped(old(self)@) ==> all_stamped(final(self)@),
    {
        let seconds = system_unix_seconds();
        self.record_at(state, message, seconds);
    }

    /// One line per entry, in the order they were recorded.
    pub fn timeline(&self) -> (lines: Vec<String>)
        ensures
            timeline_of(lines@, self@),
    {
        let mut lines: Vec<String> = Vec::new();
        let mut i: usize = 0;
        while i < self.entries.len()
            invariant
                i <= self.entries@.len(),
                lines@.len() == i,
                forall|j: int| 0 <= j < i ==> #[trigger] lines@[j]@ == entry_line(self.entries@[j]),
            decreases self.entries@.len() - i,
        {
            let e = &self.entries[i];
            let mut line = String::from_str("[");
            line.append(e.timestamp.as_str());
            line.append("][");
            line.append(e.state.name());
            line.append("] ");
            line.append(e.message.as_str());
            lines.push(line);
            i = i + 1;
        }
        lines
    }
}

/// `line` shows the entry `e` (state and message) stamped with some time.
pub open spec fn shows_entry(line: Seq<char>, e: (AgentState, Seq<char>)) -> bool {
    exists|t: Seq<char>| is_timestamp(t) && line == "["@ + t + "]["@ + e.0.spec_name() + "] "@ + e.1
}

/// A timeline shows every recorded entry, in recording order, as
/// `[time][State] message`, the time being the entry's decimal seconds.
pub proof fn lemma_timeline_shows_records(log: Seq<AuditEntry>, lines: Seq<String>)
    requires
        all_stamped(log),
        timeline_of(lines, log),
    ensures
        lines.len() == trail(log).len(),
        forall|i: int| 0 <= i < lines.len() ==> shows_entry(#[trigger] lines[i]@, trail(log)[i]),
{
    assert forall|i: int| 0 <= i < lines.len() implies shows_entry(#[trigger] lines[i]@, trail(log)[i]) by {
        assert(lines[i]@ == entry_line(log[i]));
        let t = log[i].timestamp@;
        assert(is_timestamp(t));
        assert(lines[i]@ == "["@ + t + "]["@ + trail(log)[i].0.spec_name() + "] "@ + trail(log)[i].1);
    }
}

/// Recording an entry adds exactly one line to the timeline, at its end,
/// showing that entry, and leaves the earlier lines as they were.
pub proof fn lemma_record_extends_timeline(
    before: Seq<AuditEntry>,
    after: Seq<AuditEntry>,
    before_lines: Seq<String>,
    after_lines: Seq<String>,
    state: AgentState,
    message: Seq<char>,
)
    requires
        all_stamped(after),
        trail(after) == trail(before).push((state, message)),
        after.subrange(0, before.len() as int) == before,
        timeline_of(before_lines, before),
        timeline_of(after_lines, after),
    ensures
        after_lines.len() == before_lines.len() + 1,
        forall|i: int| 0 <= i < before_lines.len() ==> #[trigger] after_lines[i]@ == before_lines[i]@,
        shows_entry(after_lines.last()@, (state, message)),
{
    assert(trail(after).len() == after.len());
    assert forall|i: int| 0 <= i < before_lines.len() implies #[trigger] after_lines[i]@ == before_lines[i]@ by {
        assert(after[i] == after.subrange(0, before.len() as int)[i]);
    }
    lemma_timeline_shows_records(after, after_lines);
    assert(trail(after)[after.len() - 1] == (state, message));
}

/// The logs `logs` are those of a log made empty and then given the
/// records `entries`, one after the other.
pub open spec fn recorded_in_turn(logs: Seq<Seq<AuditEntry>>, entries: Seq<(AgentState, Seq<char>)>) -> bool {
    &&& logs.len() == entries.len() + 1
    &&& logs[0].len() == 0
    &&& forall|k: int| 0 <= k < entries.len() ==> appends(logs[k], logs[k + 1], #[trigger] entries[k])
}

proof fn lemma_records_so_far(logs: Seq<Seq<AuditEntry>>, entries: Seq<(AgentState, Seq<char>)>, k: int)
    requires
        recorded_in_turn(logs, entries),
        0 <= k <= entries.len(),
    ensures
        trail(logs[k]) == entries.take(k),
        all_stamped(logs[k]),
    decreases k,
{
    if k == 0 {
        assert(trail(logs[0]) =~= entries.take(0));
    } else {
        lemma_records_so_far(logs, entries, k - 1);
        let before = logs[k - 1];
        let after = logs[k];
        let e = entries[k - 1];
        assert(appends(before, after, e));
        assert(trail(after) == trail(before).push(e)) by {
            assert forall|i: int| 0 <= i < before.len() implies after[i] == before[i] by {
                assert(after[i] == after.subrange(0, before.len() as int)[i]);
            }
            assert(trail(after) =~= trail(before).push(e));
        }
        assert(entries.take(k) =~= entries.take(k - 1).push(e));
        assert forall|i: int| 0 <= i < after.len() implies is_timestamp(#[trigger] after[i].timestamp@) by {
            if i < before.len() {
                assert(after[i] == after.subrange(0, before.len() as int)[i]);
            }
        }
    }
}

/// A log made empty and then given the records `entries` in turn has a
/// timeline of one line per record, in recording order, each showing its
/// record as `[time][State] message` with the time in decimal seconds.
pub proof fn lemma_timeline_of_records(
    logs: Seq<Seq<AuditEntry>>,
    entries: Seq<(AgentState, Seq<char>)>,
    lines: Seq<String>,
)
    requires
        recorded_in_turn(logs, entries),
        timeline_of(lines, logs.last()),
    ensures
        lines.len() == entries.len(),
        forall|i: int| 0 <= i < lines.len() ==> shows_entry(#[trigger] lines[i]@, entries[i]),
{
    lemma_records_so_far(logs, entries, entries.len() as int);
    assert(entries.take(entries.len() as int) =~= entries);
    lemma_timeline_shows_records(logs.last(), lines);
}

/// The timeline depends on the recorded entries alone: two timelines of
/// the same log are the same lines.
pub proof fn lemma_timeline_is_determined(log: Seq<AuditEntry>, first: Seq<String>, second: Seq<String>)
    requires
        timeline_of(first, log),
        timeline_of(second, log),
    ensures
        first.map_values(|l: String| l@) == second.map_values(|l: String| l@),
{
    assert(first.map_values(|l: String| l@) =~= second.map_values(|l: String| l@));
}

} // verus!
