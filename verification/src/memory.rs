//! What one run has looked at (session memory) and what the team knows
//! about its services (knowledge memory).

use vstd::prelude::*;
use crate::text::{
    chars_of, lemma_text_before_strict, lemma_text_before_transitive, same_chars, text_before, text_before_exec,
    text_equals,
};

verus! {

#[derive(Debug, Default)]
pub struct SessionMemory {
    pub checked_sources: Vec<String>,
    pub attempted_hypotheses: Vec<String>,
    pub notes: Vec<String>,
}

impl SessionMemory {
    pub fn new() -> (m: Self)
        ensures
            m.checked_sources@.len() == 0,
            m.attempted_hypotheses@.len() == 0,
            m.notes@.len() == 0,
    {
        SessionMemory { checked_sources: Vec::new(), attempted_hypotheses: Vec::new(), notes: Vec::new() }
    }

    pub fn note_source(&mut self, source: String)
        ensures
            final(self).checked_sources@ == old(self).checked_sources@.push(source),
            final(self).attempted_hypotheses@ == old(self).attempted_hypotheses@,
            final(self).notes@ == old(self).notes@,
    {
        self.checked_sources.push(source);
    }

    pub fn note_hypothesis(&mut self, hypothesis: String)
        ensures
            final(self).attempted_hypotheses@ == old(self).attempted_hypotheses@.push(hypothesis),
            final(self).checked_sources@ == old(self).checked_sources@,
            final(self).notes@ == old(self).notes@,
    {
        self.attempted_hypotheses.push(hypothesis);
    }

    pub fn note(&mut self, message: String)
        ensures
            final(self).notes@ == old(self).notes@.push(message),
            final(self).checked_sources@ == old(self).checked_sources@,
            final(self).attempted_hypotheses@ == old(self).attempted_hypotheses@,
    {
        self.notes.push(message);
    }
}

/// The value recorded for `key`: that of the first entry with that key.
pub open spec fn lookup(entries: Seq<(String, String)>, key: Seq<char>) -> Option<Seq<char>>
    decreases entries.len(),
{
    if entries.len() == 0 {
        None
    } else if entries[0].0@ == key {
        Some(entries[0].1@)
    } else {
        lookup(entries.drop_first(), key)
    }
}

/// When no entry before `i` has `key`, the lookup is decided from `i` on.
pub proof fn lemma_lookup_skip(entries: Seq<(String, String)>, key: Seq<char>, i: int)
    requires
        0 <= i <= entries.len(),
        forall|j: int| 0 <= j < i ==> entries[j].0@ != key,
    ensures
        lookup(entries, key) == lookup(entries.subrange(i, entries.len() as int), key),
    decreases i,
{
    if i > 0 {
        let rest = entries.drop_first();
        assert forall|j: int| 0 <= j < i - 1 implies rest[j].0@ != key by {
            assert(rest[j] == entries[j + 1]);
        }
        lemma_lookup_skip(rest, key, i - 1);
        assert(rest.subrange(i - 1, rest.len() as int) =~= entries.subrange(i, entries.len() as int));
    } else {
        assert(entries.subrange(0, entries.len() as int) =~= entries);
    }
}

/// No service has two entries: the list is a map from service to value.
pub open spec fn distinct_keys(entries: Seq<(String, String)>) -> bool {
    forall|i: int, j: int| 0 <= i < j < entries.len() ==> (#[trigger] entries[i]).0@ != (#[trigger] entries[j]).0@
}

/// The entries are in increasing order of service, as a sorted map keeps
/// them.
pub open spec fn sorted_keys(entries: Seq<(String, String)>) -> bool {
    forall|i: int, j: int| 0 <= i < j < entries.len() ==> text_before(
        (#[trigger] entries[i]).0@,
        (#[trigger] entries[j]).0@,
    )
}

/// Sorted entries have no repeated service.
pub proof fn lemma_sorted_distinct(entries: Seq<(String, String)>)
    requires
        sorted_keys(entries),
    ensures
        distinct_keys(entries),
{
    assert forall|i: int, j: int| 0 <= i < j < entries.len() implies (#[trigger] entries[i]).0@ != (
    #[trigger] entries[j]).0@ by {
        lemma_text_before_strict(entries[i].0@, entries[j].0@);
    }
}

/// In a list without repeated services, looking a service up gives the
/// value of its entry, as a map would.
pub proof fn lemma_lookup_finds_entry(entries: Seq<(String, String)>, i: int)
    requires
        distinct_keys(entries),
        0 <= i < entries.len(),
    ensures
        lookup(entries, entries[i].0@) == Some(entries[i].1@),
{
    let key = entries[i].0@;
    assert forall|j: int| 0 <= j < i implies entries[j].0@ != key by {
        assert(entries[j].0@ != entries[i].0@);
    }
    lemma_lookup_skip(entries, key, i);
    let rest = entries.subrange(i, entries.len() as int);
    assert(rest[0] == entries[i]);
}

/// A service with no entry is not found.
pub proof fn lemma_lookup_absent(entries: Seq<(String, String)>, key: Seq<char>)
    requires
        forall|j: int| 0 <= j < entries.len() ==> (#[trigger] entries[j]).0@ != key,
    ensures
        lookup(entries, key) is None,
{
    lemma_lookup_skip(entries, key, entries.len() as int);
    assert(entries.subrange(entries.len() as int, entries.len() as int).len() == 0);
}

/// What a sorted map answers for `key` after `key` was set to `value`.
pub open spec fn lookup_after_set(
    entries: Seq<(String, String)>,
    key: Seq<char>,
    value: Seq<char>,
    k: Seq<char>,
) -> Option<Seq<char>> {
    if k == key {
        Some(value)
    } else {
        lookup(entries, k)
    }
}

/// Where two sorted lists hold the same entries by service, lookups agree.
proof fn lemma_lookup_same_entries(old_entries: Seq<(String, String)>, new_entries: Seq<(String, String)>, k: Seq<char>)
    requires
        sorted_keys(old_entries),
        sorted_keys(new_entries),
        forall|j: int| 0 <= j < old_entries.len() && (#[trigger] old_entries[j]).0@ == k ==> exists|m: int|
            0 <= m < new_entries.len() && new_entries[m].0@ == k && new_entries[m].1@ == old_entries[j].1@,
        forall|m: int| 0 <= m < new_entries.len() && (#[trigger] new_entries[m]).0@ == k ==> exists|j: int|
            0 <= j < old_entries.len() && old_entries[j].0@ == k,
    ensures
        lookup(new_entries, k) == lookup(old_entries, k),
{
    lemma_sorted_distinct(old_entries);
    lemma_sorted_distinct(new_entries);
    if exists|j: int| 0 <= j < old_entries.len() && old_entries[j].0@ == k {
        let j = choose|j: int| 0 <= j < old_entries.len() && old_entries[j].0@ == k;
        assert(old_entries[j].0@ == k);
        let m = choose|m: int| 0 <= m < new_entries.len() && new_entries[m].0@ == k && new_entries[m].1@ == old_entries[j].1@;
        lemma_lookup_finds_entry(old_entries, j);
        lemma_lookup_finds_entry(new_entries, m);
    } else {
        lemma_lookup_absent(old_entries, k);
        assert forall|m: int| 0 <= m < new_entries.len() implies (#[trigger] new_entries[m]).0@ != k by {
            if new_entries[m].0@ == k {
                let j = choose|j: int| 0 <= j < old_entries.len() && old_entries[j].0@ == k;
            }
        }
        lemma_lookup_absent(new_entries, k);
    }
}

/// Sets `key` to `value` in a sorted list of entries, as a sorted map's
/// insert does: the entry for `key` is replaced, or a new one is put in
/// its place in the order.
pub fn set_entry(entries: &mut Vec<(String, String)>, key: String, value: String)
    requires
        sorted_keys(old(entries)@),
    ensures
        sorted_keys(final(entries)@),
        forall|k: Seq<char>| #[trigger] lookup(final(entries)@, k) == lookup_after_set(
            old(entries)@,
            key@,
            value@,
            k,
        ),
{
    let ghost before = entries@;
    let mut i: usize = 0;
    while i < entries.len() && text_before_exec(entries[i].0.as_str(), key.as_str())
        invariant
            entries@ == before,
            i <= entries@.len(),
            forall|j: int| 0 <= j < i ==> text_before(#[trigger] entries@[j].0@, key@),
        decreases entries@.len() - i,
    {
        i = i + 1;
    }
    let ghost kv = key@;
    let ghost vv = value@;
    if i < entries.len() && text_equals(entries[i].0.as_str(), key.as_str()) {
        entries.set(i, (key, value));
        proof {
            let after = entries@;
            assert forall|p: int, q: int| 0 <= p < q < after.len() implies text_before(
                (#[trigger] after[p]).0@,
                (#[trigger] after[q]).0@,
            ) by {
                assert(before[p].0@ == after[p].0@ || p == i);
                assert(before[q].0@ == after[q].0@ || q == i);
                assert(text_before(before[p].0@, before[q].0@));
            }
            assert forall|k: Seq<char>| #[trigger] lookup(after, k) == lookup_after_set(before, kv, vv, k) by {
                lemma_sorted_distinct(after);
                if k == kv {
                    lemma_lookup_finds_entry(after, i as int);
                } else {
                    assert forall|j: int| 0 <= j < before.len() && (#[trigger] before[j]).0@ == k implies exists|m: int|
                        0 <= m < after.len() && after[m].0@ == k && after[m].1@ == before[j].1@ by {
                        assert(j != i);
                        assert(after[j] == before[j]);
                    }
                    assert forall|m: int| 0 <= m < after.len() && (#[trigger] after[m]).0@ == k implies exists|j: int|
                        0 <= j < before.len() && before[j].0@ == k by {
                        assert(m != i);
                        assert(after[m] == before[m]);
                    }
                    lemma_lookup_same_entries(before, after, k);
                }
            }
        }
    } else {
        proof {
            if i < before.len() {
                lemma_text_before_strict(before[i as int].0@, kv);
            }
        }
        entries.insert(i, (key, value));
        proof {
            let after = entries@;
            assert(after == before.insert(i as int, after[i as int]));
            assert forall|j: int| i < j < after.len() implies text_before(kv, (#[trigger] after[j]).0@) by {
                assert(after[j] == before[j - 1]);
                if j - 1 > i {
                    assert(text_before(before[i as int].0@, before[j - 1].0@));
                    lemma_text_before_transitive(kv, before[i as int].0@, before[j - 1].0@);
                }
            }
            assert forall|p: int, q: int| 0 <= p < q < after.len() implies text_before(
                (#[trigger] after[p]).0@,
                (#[trigger] after[q]).0@,
            ) by {
                if q < i {
                    assert(after[p] == before[p] && after[q] == before[q]);
                } else if q == i {
                    assert(after[p] == before[p]);
                } else if p == i {
                } else if p < i {
                    assert(after[p] == before[p] && after[q] == before[q - 1]);
                    lemma_text_before_transitive(before[p].0@, kv, after[q].0@);
                } else {
                    assert(after[p] == before[p - 1] && after[q] == before[q - 1]);
                }
            }
            assert forall|k: Seq<char>| #[trigger] lookup(after, k) == lookup_after_set(before, kv, vv, k) by {
                lemma_sorted_distinct(after);
                if k == kv {
                    lemma_lookup_finds_entry(after, i as int);
                } else {
                    assert forall|j: int| 0 <= j < before.len() && (#[trigger] before[j]).0@ == k implies exists|m: int|
                        0 <= m < after.len() && after[m].0@ == k && after[m].1@ == before[j].1@ by {
                        if j < i {
                            assert(after[j] == before[j]);
                        } else {
                            assert(after[j + 1] == before[j]);
                        }
                    }
                    assert forall|m: int| 0 <= m < after.len() && (#[trigger] after[m]).0@ == k implies exists|j: int|
                        0 <= j < before.len() && before[j].0@ == k by {
                        if m < i {
                            assert(after[m] == before[m]);
                        } else if m > i {
                            assert(after[m] == before[m - 1]);
                        }
                    }
                    lemma_lookup_same_entries(before, after, k);
                }
            }
        }
    }
}

/// The built-in runbooks, in order of service: the gateway's error-budget
/// runbook and the payments API's latency runbook.
pub open spec fn default_runbooks(rb: Seq<(String, String)>) -> bool {
    &&& rb.len() == 2
    &&& rb[0].0@ == "gateway"@
    &&& rb[0].1@ == "gateway-error-budget-runbook:v2"@
    &&& rb[1].0@ == "payments-api"@
    &&& rb[1].1@ == "payments-api-latency-runbook:v3"@
}

/// The built-in owners, in order of service: the platform on-call for the
/// gateway and the payments on-call for the payments API.
pub open spec fn default_owners(ow: Seq<(String, String)>) -> bool {
    &&& ow.len() == 2
    &&& ow[0].0@ == "gateway"@
    &&& ow[0].1@ == "sre-platform-oncall"@
    &&& ow[1].0@ == "payments-api"@
    &&& ow[1].1@ == "sre-payments-oncall"@
}

/// Runbooks and owners, each a list of (service, value) pairs kept in
/// increasing order of service, so that no service occurs twice.
#[derive(Debug, Default)]
pub struct KnowledgeMemory {
    pub runbooks: Vec<(String, String)>,
    pub owners: Vec<(String, String)>,
}

fn pair(key: &str, value: &str) -> (p: (String, String))
    ensures
        p.0@ == key@,
        p.1@ == value@,
{
    (String::from_str(key), String::from_str(value))
}

impl KnowledgeMemory {
    /// The built-in knowledge for the gateway and the payments API.
    pub fn with_defaults() -> (k: Self)
        ensures
            default_runbooks(k.runbooks@),
            default_owners(k.owners@),
            sorted_keys(k.runbooks@),
            sorted_keys(k.owners@),
    {
        proof {
            reveal_strlit("payments-api");
            reveal_strlit("gateway");
            let g = "gateway"@;
            let p = "payments-api"@;
            assert(g[0] == 'g' && p[0] == 'p');
            assert(text_before(g, p));
        }
        let mut runbooks: Vec<(String, String)> = Vec::new();
        runbooks.push(pair("gateway", "gateway-error-budget-runbook:v2"));
        runbooks.push(pair("payments-api", "payments-api-latency-runbook:v3"));
        let mut owners: Vec<(String, String)> = Vec::new();
        owners.push(pair("gateway", "sre-platform-oncall"));
        owners.push(pair("payments-api", "sre-payments-oncall"));
        KnowledgeMemory { runbooks, owners }
    }

    /// Records `runbook` as the runbook of `service`, replacing any
    /// earlier one.
    pub fn insert_runbook(&mut self, service: String, runbook: String)
        requires
            sorted_keys(old(self).runbooks@),
        ensures
            sorted_keys(final(self).runbooks@),
            forall|k: Seq<char>| #[trigger] lookup(final(self).runbooks@, k) == lookup_after_set(
                old(self).runbooks@,
                service@,
                runbook@,
                k,
            ),
            final(self).owners@ == old(self).owners@,
    {
        set_entry(&mut self.runbooks, service, runbook);
    }

    /// Records `owner` as the owner of `service`, replacing any earlier one.
    pub fn insert_owner(&mut self, service: String, owner: String)
        requires
            sorted_keys(old(self).owners@),
        ensures
            sorted_keys(final(self).owners@),
            forall|k: Seq<char>| #[trigger] lookup(final(self).owners@, k) == lookup_after_set(
                old(self).owners@,
                service@,
                owner@,
                k,
            ),
            final(self).runbooks@ == old(self).runbooks@,
    {
        set_entry(&mut self.owners, service, owner);
    }

    /// The runbook recorded for `service`, if any.
    pub fn runbook_for(&self, service: &str) -> (r: Option<&String>)
        ensures
            match r {
                Some(v) => lookup(self.runbooks@, service@) == Some(v@),
                None => lookup(self.runbooks@, service@) is None,
            },
    {
        let key = chars_of(service);
        let mut i: usize = 0;
        while i < self.runbooks.len()
            invariant
                i <= self.runbooks@.len(),
                key@ == service@,
                forall|j: int| 0 <= j < i ==> self.runbooks@[j].0@ != service@,
            decreases self.runbooks@.len() - i,
        {
            let k = chars_of(self.runbooks[i].0.as_str());
            if same_chars(&k, &key) {
                proof {
                    lemma_lookup_skip(self.runbooks@, service@, i as int);
                }
                return Some(&self.runbooks[i].1);
            }
            i = i + 1;
        }
        proof {
            lemma_lookup_skip(self.runbooks@, service@, i as int);
        }
        None
    }
}

} // verus!
