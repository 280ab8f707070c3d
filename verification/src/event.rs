//! The event model: events, their typed or JSON payloads, and the wildcard
//! filters subscribers match them with.

use vstd::prelude::*;

use crate::strings::str_eq;

verus! {

#[verifier::external_type_specification]
#[verifier::external_body]
pub struct ExJsonValue(serde_json::Value);

/// `serde_json::Value::clone`: a deep copy of the JSON value (nothing is
/// stated of it; JSON payloads are carried, never read, by the library).
pub assume_specification[ <serde_json::Value as Clone>::clone ](v: &serde_json::Value) -> serde_json::Value;

/// A single event flowing through the bus: `from` is the emitting module id
/// (or `"core"` for framework events), `kind` the event name.
#[derive(Clone, Debug)]
pub struct Event {
    pub from: &'static str,
    pub kind: &'static str,
    pub payload: EventPayload,
}

/// Event payload: typed for the framework, JSON for modules.
#[derive(Clone, Debug)]
pub enum EventPayload {
    /// Typed framework events (window lifecycle, hotkey, module lifecycle).
    Framework(FrameworkEvent),
    /// Module-defined events as freeform JSON.
    Module(serde_json::Value),
}

/// Typed framework events emitted by the core.
#[derive(Clone, Debug)]
pub enum FrameworkEvent {
    WindowCreated(u64),
    WindowDestroyed(u64),
    /// A global hotkey fired: `id` is the hotkey's id, `action` the configured
    /// action name.
    HotkeyTriggered { id: u32, action: String },
    ModuleLoaded(&'static str),
    AppReady,
    AppExit,
}

/// Subscription filter: a field of `"*"` matches any value, any other value
/// must equal the event's field exactly.
#[derive(Clone, Copy, Debug, PartialEq, Eq)]
pub struct EventFilter {
    pub from: &'static str,
    pub kind: &'static str,
}

/// Whether a filter field accepts an event field.
pub open spec fn field_matches(filter: Seq<char>, value: Seq<char>) -> bool {
    filter == "*"@ || filter == value
}

/// Whether `f` matches an event from `from` of kind `kind`.
pub open spec fn filter_matches(f: EventFilter, from: Seq<char>, kind: Seq<char>) -> bool {
    field_matches(f.from@, from) && field_matches(f.kind@, kind)
}

impl EventFilter {
    /// Matches every event.
    pub fn all() -> (r: Self)
        ensures
            r.from@ == "*"@,
            r.kind@ == "*"@,
    {
        EventFilter { from: "*", kind: "*" }
    }

    /// Matches events with the given `from` and `kind` (either may be `"*"`).
    pub fn kind(from: &'static str, kind: &'static str) -> (r: Self)
        ensures
            r.from == from,
            r.kind == kind,
    {
        EventFilter { from, kind }
    }

    /// True when this filter matches `e`.
    pub fn matches(&self, e: &Event) -> (r: bool)
        ensures
            r == filter_matches(*self, e.from@, e.kind@),
    {
        (str_eq(self.from, "*") || str_eq(self.from, e.from)) && (str_eq(self.kind, "*") || str_eq(self.kind, e.kind))
    }
}

/// The filter matching everything matches every event, and a filter with
/// both fields given matches exactly the events with those fields.
pub proof fn lemma_filter_wildcards(from: Seq<char>, kind: Seq<char>, f: EventFilter)
    ensures
        f.from@ == "*"@ && f.kind@ == "*"@ ==> filter_matches(f, from, kind),
        f.from@ != "*"@ && f.kind@ != "*"@ ==> (filter_matches(f, from, kind) <==> (f.from@ == from && f.kind@ == kind)),
        f.kind@ == "*"@ ==> (filter_matches(f, from, kind) <==> field_matches(f.from@, from)),
{
}

/// Opaque subscription handle returned by a subscription.
#[derive(Clone, Copy, Debug, PartialEq, Eq)]
pub struct SubscriptionId(pub u64);

/// The indices `0..n` of the filters in `filters` that match an event from
/// `from` of kind `kind`, in ascending order.
pub open spec fn matching_upto(filters: Seq<EventFilter>, from: Seq<char>, kind: Seq<char>, n: int) -> Seq<usize>
    decreases n,
{
    if n <= 0 {
        Seq::empty()
    } else {
        let rest = matching_upto(filters, from, kind, n - 1);
        if filter_matches(filters[n - 1], from, kind) {
            rest.push((n - 1) as usize)
        } else {
            rest
        }
    }
}

/// The bus's subscriber list: each subscription's id, filter and handler in
/// subscription order. Ids count up from 1, one per subscription.
pub struct Subscriptions<H> {
    entries: Vec<(SubscriptionId, EventFilter, H)>,
    next_id: u64,
}

impl<H> Subscriptions<H> {
    /// The subscriptions in order.
    pub closed spec fn spec_entries(&self) -> Seq<(SubscriptionId, EventFilter, H)> {
        self.entries@
    }

    /// The id the next subscription gets.
    pub closed spec fn spec_next_id(&self) -> u64 {
        self.next_id
    }

    /// The filters in subscription order.
    pub open spec fn filters(&self) -> Seq<EventFilter> {
        self.spec_entries().map_values(|e: (SubscriptionId, EventFilter, H)| e.1)
    }

    /// Ids strictly increase in subscription order, are at least 1 and stay
    /// below the next id.
    pub open spec fn wf(&self) -> bool {
        &&& 1 <= self.spec_next_id()
        &&& forall|i: int| 0 <= i < self.spec_entries().len() ==>
            1 <= (#[trigger] self.spec_entries()[i]).0.0 < self.spec_next_id()
        &&& forall|i: int, j: int| 0 <= i < j < self.spec_entries().len() ==>
            (#[trigger] self.spec_entries()[i]).0.0 < (#[trigger] self.spec_entries()[j]).0.0
    }

    /// No subscriptions; the first id is 1.
    pub fn new() -> (r: Self)
        ensures
            r.wf(),
            r.spec_entries().len() == 0,
            r.spec_next_id() == 1,
    {
        Subscriptions { entries: Vec::new(), next_id: 1 }
    }

    /// The id the next subscription gets.
    pub fn next_id(&self) -> (r: u64)
        ensures
            r == self.spec_next_id(),
    {
        self.next_id
    }

    /// Subscribe `handler` to the events `filter` matches; the subscription
    /// gets the next id.
    pub fn on(&mut self, filter: EventFilter, handler: H) -> (id: SubscriptionId)
        requires
            old(self).wf(),
            old(self).spec_next_id() < u64::MAX,
        ensures
            final(self).wf(),
            id.0 == old(self).spec_next_id(),
            final(self).spec_next_id() == old(self).spec_next_id() + 1,
            final(self).spec_entries() == old(self).spec_entries().push((id, filter, handler)),
    {
        let id = SubscriptionId(self.next_id);
        let ghost before = self.entries@;
        self.entries.push((id, filter, handler));
        self.next_id = self.next_id + 1;
        proof {
            assert forall|i: int| 0 <= i < self.entries@.len() implies
                1 <= (#[trigger] self.entries@[i]).0.0 < self.next_id by {
                if i < before.len() {
                    assert(self.entries@[i] == before[i]);
                    assert(before[i] == old(self).spec_entries()[i]);
                }
            }
            assert forall|i: int, j: int| 0 <= i < j < self.entries@.len() implies
                (#[trigger] self.entries@[i]).0.0 < (#[trigger] self.entries@[j]).0.0 by {
                assert(self.entries@[i] == before[i]);
                assert(before[i] == old(self).spec_entries()[i]);
                assert(old(self).spec_entries()[i].0.0 < old(self).spec_next_id());
                if j < before.len() {
                    assert(self.entries@[j] == before[j]);
                    assert(before[j] == old(self).spec_entries()[j]);
                }
            }
        }
        id
    }

    /// The number of subscriptions.
    pub fn len(&self) -> (r: usize)
        ensures
            r == self.spec_entries().len(),
    {
        self.entries.len()
    }

    /// The handler of subscription `i`.
    pub fn handler(&self, i: usize) -> (r: &H)
        requires
            i < self.spec_entries().len(),
        ensures
            *r == self.spec_entries()[i as int].2,
    {
        &self.entries[i].2
    }

    /// The subscriptions an event goes to: the indices of those whose
    /// filter matches it, in subscription order.
    pub fn matching(&self, e: &Event) -> (r: Vec<usize>)
        ensures
            r@ == matching_upto(self.filters(), e.from@, e.kind@, self.spec_entries().len() as int),
    {
        let mut out: Vec<usize> = Vec::new();
        let mut i: usize = 0;
        while i < self.entries.len()
            invariant
                i <= self.entries@.len(),
                self.entries@ == self.spec_entries(),
                out@ == matching_upto(self.filters(), e.from@, e.kind@, i as int),
            decreases self.entries@.len() - i,
        {
            if self.entries[i].1.matches(e) {
                out.push(i);
            }
            i = i + 1;
        }
        out
    }
}

/// Dispatch goes to exactly the matching subscriptions, each once, in
/// subscription order.
pub proof fn lemma_matching_exact(filters: Seq<EventFilter>, from: Seq<char>, kind: Seq<char>, n: int)
    requires
        0 <= n <= filters.len(),
        n <= usize::MAX,
    ensures
        forall|k: int| 0 <= k < matching_upto(filters, from, kind, n).len() ==>
            0 <= #[trigger] matching_upto(filters, from, kind, n)[k] < n
            && filter_matches(filters[matching_upto(filters, from, kind, n)[k] as int], from, kind),
        forall|a: int, b: int| 0 <= a < b < matching_upto(filters, from, kind, n).len() ==>
            #[trigger] matching_upto(filters, from, kind, n)[a] < #[trigger] matching_upto(filters, from, kind, n)[b],
        forall|i: int| 0 <= i < n && filter_matches(#[trigger] filters[i], from, kind) ==>
            matching_upto(filters, from, kind, n).contains(i as usize),
    decreases n,
{
    if n > 0 {
        lemma_matching_exact(filters, from, kind, n - 1);
        let rest = matching_upto(filters, from, kind, n - 1);
        let last = (n - 1) as usize;
        assert(last == n - 1);
        if filter_matches(filters[n - 1], from, kind) {
            let all = rest.push(last);
            assert(all == matching_upto(filters, from, kind, n));
            assert forall|k: int| 0 <= k < all.len() implies
                0 <= #[trigger] all[k] < n && filter_matches(filters[all[k] as int], from, kind) by {
                if k < rest.len() {
                    assert(all[k] == rest[k]);
                }
            }
            assert forall|a: int, b: int| 0 <= a < b < all.len() implies #[trigger] all[a] < #[trigger] all[b] by {
                assert(all[a] == rest[a]);
                if b < rest.len() {
                    assert(all[b] == rest[b]);
                }
            }
            assert forall|i: int| 0 <= i < n && filter_matches(#[trigger] filters[i], from, kind)
                implies all.contains(i as usize) by {
                if i < n - 1 {
                    let k = choose|k: int| 0 <= k < rest.len() && rest[k] == i as usize;
                    assert(all[k] == i as usize);
                } else {
                    assert(all[rest.len() as int] == i as usize);
                }
            }
        }
    }
}

/// Every subscription has its own id.
pub proof fn lemma_subscription_ids_distinct<H>(s: &Subscriptions<H>, i: int, j: int)
    requires
        s.wf(),
        0 <= i < j < s.spec_entries().len(),
    ensures
        s.spec_entries()[i].0 != s.spec_entries()[j].0,
{
}

} // verus!
