//! The correlation registry: the table of pending requests, each under its
//! correlation id, with a single-use slot for the inbound callback that
//! answers it.

use crate::text::{str_eq, string_push};
use crate::x_callback_url::{XCallbackError, XCallbackUrl, XCallbackUrlView};
use vstd::prelude::*;

verus! {

/// Length of a generated correlation id.
pub const CORRELATION_ID_LEN: usize = 32;

/// `A`–`Z`, `a`–`z` or `0`–`9`.
pub open spec fn is_ascii_alphanumeric(c: char) -> bool {
    ('A' <= c && c <= 'Z') || ('a' <= c && c <= 'z') || ('0' <= c && c <= '9')
}

/// Relies on `rand::thread_rng` sampled with `rand::distributions::Alphanumeric`,
/// which draws from `A`–`Z`, `a`–`z` and `0`–`9`.
#[verifier::external_body]
fn random_alphanumeric() -> (c: char)
    ensures
        is_ascii_alphanumeric(c),
{
    rand::Rng::sample(&mut rand::thread_rng(), rand::distributions::Alphanumeric)
}

/// A fresh random correlation id of 32 alphanumeric characters.
pub fn generate_callback_id() -> (r: String)
    ensures
        r@.len() == CORRELATION_ID_LEN,
        forall|i: int| 0 <= i < r@.len() ==> is_ascii_alphanumeric(#[trigger] r@[i]),
{
    let mut r = String::new();
    let mut i: usize = 0;
    while i < CORRELATION_ID_LEN
        invariant
            i <= CORRELATION_ID_LEN,
            r@.len() == i,
            forall|j: int| 0 <= j < r@.len() ==> is_ascii_alphanumeric(#[trigger] r@[j]),
        decreases CORRELATION_ID_LEN - i,
    {
        let c = random_alphanumeric();
        string_push(&mut r, c);
        i = i + 1;
    }
    r
}

/// The map that a sequence of key/value pairs denotes, later pairs winning.
pub open spec fn map_of<K, V>(s: Seq<(K, V)>) -> Map<K, V>
    decreases s.len(),
{
    if s.len() == 0 {
        Map::empty()
    } else {
        map_of(s.drop_last()).insert(s.last().0, s.last().1)
    }
}

/// No two pairs share a key.
pub open spec fn keys_unique<K, V>(s: Seq<(K, V)>) -> bool {
    forall|i: int, j: int| 0 <= i < j < s.len() ==> s[i].0 != s[j].0
}

proof fn lemma_keys_unique_drop_last<K, V>(s: Seq<(K, V)>)
    requires
        s.len() > 0,
        keys_unique(s),
    ensures
        keys_unique(s.drop_last()),
        forall|i: int| 0 <= i < s.len() - 1 ==> s.drop_last()[i].0 != s.last().0,
{
    assert forall|i: int| 0 <= i < s.len() - 1 implies s.drop_last()[i].0 != s.last().0 by {
        assert(s[i].0 != s[s.len() - 1].0);
    }
}

proof fn lemma_map_of_key<K, V>(s: Seq<(K, V)>, k: K)
    requires
        keys_unique(s),
    ensures
        map_of(s).contains_key(k) <==> exists|i: int| 0 <= i < s.len() && s[i].0 == k,
        forall|i: int| 0 <= i < s.len() && s[i].0 == k ==> map_of(s)[k] == s[i].1,
    decreases s.len(),
{
    if s.len() > 0 {
        lemma_keys_unique_drop_last(s);
        lemma_map_of_key(s.drop_last(), k);
        if map_of(s).contains_key(k) && s.last().0 != k {
            let i = choose|i: int| 0 <= i < s.drop_last().len() && s.drop_last()[i].0 == k;
            assert(s[i].0 == k);
        }
        if exists|i: int| 0 <= i < s.len() && s[i].0 == k {
            let i = choose|i: int| 0 <= i < s.len() && s[i].0 == k;
            if i < s.len() - 1 {
                assert(s.drop_last()[i].0 == k);
            }
        }
        assert forall|i: int| 0 <= i < s.len() && s[i].0 == k implies map_of(s)[k] == s[i].1 by {
            if i < s.len() - 1 {
                assert(s.drop_last()[i] == s[i]);
                assert(s[i].0 != s[s.len() - 1].0);
            }
        }
    }
}

proof fn lemma_map_of_update<K, V>(s: Seq<(K, V)>, i: int, v: V)
    requires
        keys_unique(s),
        0 <= i < s.len(),
    ensures
        keys_unique(s.update(i, (s[i].0, v))),
        map_of(s.update(i, (s[i].0, v))) == map_of(s).insert(s[i].0, v),
    decreases s.len(),
{
    let t = s.update(i, (s[i].0, v));
    assert(keys_unique(t)) by {
        assert forall|a: int, b: int| 0 <= a < b < t.len() implies t[a].0 != t[b].0 by {
            assert(s[a].0 != s[b].0);
        }
    }
    lemma_keys_unique_drop_last(s);
    if i == s.len() - 1 {
        assert(t.drop_last() =~= s.drop_last());
        assert(map_of(t) =~= map_of(s).insert(s[i].0, v));
    } else {
        lemma_map_of_update(s.drop_last(), i, v);
        assert(t.drop_last() =~= s.drop_last().update(i, (s[i].0, v)));
        assert(s.drop_last()[i].0 != s.last().0);
        assert(map_of(t) =~= map_of(s).insert(s[i].0, v));
    }
}

proof fn lemma_map_of_remove<K, V>(s: Seq<(K, V)>, i: int)
    requires
        keys_unique(s),
        0 <= i < s.len(),
    ensures
        keys_unique(s.remove(i)),
        map_of(s.remove(i)) == map_of(s).remove(s[i].0),
    decreases s.len(),
{
    let t = s.remove(i);
    assert(keys_unique(t)) by {
        assert forall|a: int, b: int| 0 <= a < b < t.len() implies t[a].0 != t[b].0 by {
            let a2 = if a < i { a } else { a + 1 };
            let b2 = if b < i { b } else { b + 1 };
            assert(t[a] == s[a2]);
            assert(t[b] == s[b2]);
            assert(s[a2].0 != s[b2].0);
        }
    }
    lemma_keys_unique_drop_last(s);
    if i == s.len() - 1 {
        assert(t =~= s.drop_last());
        lemma_map_of_key(s.drop_last(), s[i].0);
        assert(!map_of(s.drop_last()).contains_key(s[i].0));
        assert(map_of(t) =~= map_of(s).remove(s[i].0));
    } else {
        lemma_map_of_remove(s.drop_last(), i);
        assert(t.drop_last() =~= s.drop_last().remove(i));
        assert(t.last() == s.last());
        assert(s.drop_last()[i].0 != s.last().0);
        assert(map_of(t) =~= map_of(s).remove(s[i].0));
    }
}

/// One pending request: its correlation id and the callback delivered to it,
/// once one is.
pub struct CorrelationEntry {
    id: String,
    slot: Option<XCallbackUrl>,
}

pub open spec fn slot_view(slot: Option<XCallbackUrl>) -> Option<XCallbackUrlView> {
    match slot {
        Some(u) => Some(u@),
        None => None,
    }
}

/// The pending requests by correlation id, each with its delivered callback
/// if any, and whether delivery has stopped.
pub struct RegistryView {
    pub entries: Map<Seq<char>, Option<XCallbackUrlView>>,
    pub closed: bool,
}

/// The table of pending requests. Ids are unique among live entries.
pub struct CorrelationRegistry {
    entries: Vec<CorrelationEntry>,
    closed: bool,
}

impl CorrelationRegistry {
    pub closed spec fn entry_pairs(&self) -> Seq<(Seq<char>, Option<XCallbackUrlView>)> {
        self.entries@.map_values(|e: CorrelationEntry| (e.id@, slot_view(e.slot)))
    }

    /// The live entries carry pairwise distinct ids.
    pub closed spec fn wf(&self) -> bool {
        keys_unique(self.entry_pairs())
    }
}

impl View for CorrelationRegistry {
    type V = RegistryView;

    closed spec fn view(&self) -> RegistryView {
        RegistryView { entries: map_of(self.entry_pairs()), closed: self.closed }
    }
}

impl CorrelationRegistry {
    /// No pending request; delivery open.
    pub fn new() -> (r: CorrelationRegistry)
        ensures
            r.wf(),
            r@.entries == Map::<Seq<char>, Option<XCallbackUrlView>>::empty(),
            !r@.closed,
    {
        let r = CorrelationRegistry { entries: Vec::new(), closed: false };
        assert(r.entry_pairs() =~= Seq::<(Seq<char>, Option<XCallbackUrlView>)>::empty());
        r
    }

    /// The position of the entry under `id`, if any.
    fn find(&self, id: &str) -> (r: Option<usize>)
        requires
            self.wf(),
        ensures
            r matches Some(i) ==> i < self.entries@.len() && self.entries@[i as int].id@ == id@,
            r is Some <==> self@.entries.contains_key(id@),
            r matches Some(i) ==> self@.entries[id@] == slot_view(self.entries@[i as int].slot),
    {
        let ghost pairs = self.entry_pairs();
        proof {
            lemma_map_of_key(pairs, id@);
        }
        let n = self.entries.len();
        let mut i: usize = 0;
        while i < n
            invariant
                n == self.entries@.len(),
                pairs == self.entry_pairs(),
                i <= n,
                forall|j: int| 0 <= j < i ==> pairs[j].0 != id@,
                keys_unique(pairs),
            decreases n - i,
        {
            assert(pairs[i as int] == (self.entries@[i as int].id@, slot_view(
                self.entries@[i as int].slot,
            )));
            if str_eq(self.entries[i].id.as_str(), id) {
                proof {
                    lemma_map_of_key(pairs, id@);
                }
                return Some(i);
            }
            i = i + 1;
        }
        None
    }

    /// Whether a request is pending under `id`.
    pub fn contains(&self, id: &str) -> (r: bool)
        requires
            self.wf(),
        ensures
            r == self@.entries.contains_key(id@),
    {
        self.find(id).is_some()
    }

    /// Whether delivery has stopped.
    pub fn is_closed(&self) -> (r: bool)
        ensures
            r == self@.closed,
    {
        self.closed
    }

    /// Adds a pending request under `id` with an empty slot. Fails with
    /// `DuplicateId`, changing nothing, where a request is already pending
    /// under `id`: live requests never share an id.
    pub fn register(&mut self, id: &str) -> (r: Result<(), XCallbackError>)
        requires
            old(self).wf(),
        ensures
            final(self).wf(),
            old(self)@.entries.contains_key(id@) ==> (r matches Err(XCallbackError::DuplicateId(
                d,
            )) && d@ == id@ && final(self)@ == old(self)@),
            !old(self)@.entries.contains_key(id@) ==> (r is Ok && final(self)@ == (RegistryView {
                entries: old(self)@.entries.insert(id@, None),
                ..old(self)@
            })),
    {
        if self.find(id).is_some() {
            return Err(XCallbackError::DuplicateId(id.to_string()));
        }
        let ghost before = self.entry_pairs();
        proof {
            lemma_map_of_key(before, id@);
        }
        self.entries.push(CorrelationEntry { id: id.to_string(), slot: None });
        proof {
            assert(self.entry_pairs() =~= before.push((id@, None)));
            assert(self.entry_pairs().drop_last() =~= before);
            assert forall|a: int, b: int|
                0 <= a < b < self.entry_pairs().len() implies self.entry_pairs()[a].0
                != self.entry_pairs()[b].0 by {
                if b == before.len() {
                    assert(self.entry_pairs()[a] == before[a]);
                }
            }
        }
        Ok(())
    }

    /// Delivers `url` to the request pending under `id`, once. Fails with
    /// `RoutingMiss` where no request is pending under `id`, and with
    /// `AlreadyResolved` where that request already has its callback; either
    /// way nothing changes.
    pub fn resolve(&mut self, id: &str, url: XCallbackUrl) -> (r: Result<(), XCallbackError>)
        requires
            old(self).wf(),
        ensures
            final(self).wf(),
            !old(self)@.entries.contains_key(id@) ==> (r matches Err(XCallbackError::RoutingMiss(d))
                && d@ == id@ && final(self)@ == old(self)@),
            old(self)@.entries.contains_key(id@) && old(self)@.entries[id@] is Some ==> (r matches Err(
                XCallbackError::AlreadyResolved(d),
            ) && d@ == id@ && final(self)@ == old(self)@),
            old(self)@.entries.contains_key(id@) && old(self)@.entries[id@] is None ==> (r is Ok
                && final(self)@ == (RegistryView {
                entries: old(self)@.entries.insert(id@, Some(url@)),
                ..old(self)@
            })),
    {
        match self.find(id) {
            None => Err(XCallbackError::RoutingMiss(id.to_string())),
            Some(i) => {
                if self.entries[i].slot.is_some() {
                    return Err(XCallbackError::AlreadyResolved(id.to_string()));
                }
                let ghost before = self.entry_pairs();
                let entry_id = self.entries[i].id.clone();
                self.entries.set(i, CorrelationEntry { id: entry_id, slot: Some(url) });
                proof {
                    lemma_map_of_update(before, i as int, Some(url@));
                    assert(self.entry_pairs() =~= before.update(i as int, (before[i as int].0, Some(url@))));
                }
                Ok(())
            },
        }
    }

    /// Removes the entry under `id` and hands out its callback, where one was
    /// delivered; otherwise returns `None` and changes nothing.
    pub fn take_response(&mut self, id: &str) -> (r: Option<XCallbackUrl>)
        requires
            old(self).wf(),
        ensures
            final(self).wf(),
            old(self)@.entries.contains_key(id@) && old(self)@.entries[id@] is Some ==> (r matches Some(
                u,
            ) && old(self)@.entries[id@] == Some(u@) && final(self)@ == (RegistryView {
                entries: old(self)@.entries.remove(id@),
                ..old(self)@
            })),
            !(old(self)@.entries.contains_key(id@) && old(self)@.entries[id@] is Some) ==> (r is None
                && final(self)@ == old(self)@),
    {
        match self.find(id) {
            None => None,
            Some(i) => {
                if self.entries[i].slot.is_none() {
                    return None;
                }
                let ghost before = self.entry_pairs();
                let entry = self.entries.remove(i);
                proof {
                    lemma_map_of_remove(before, i as int);
                    assert(self.entry_pairs() =~= before.remove(i as int));
                }
                entry.slot
            },
        }
    }

    /// Removes the entry under `id` without delivering anything; returns
    /// whether there was one.
    pub fn unregister(&mut self, id: &str) -> (r: bool)
        requires
            old(self).wf(),
        ensures
            final(self).wf(),
            r == old(self)@.entries.contains_key(id@),
            final(self)@ == (RegistryView { entries: old(self)@.entries.remove(id@), ..old(self)@ }),
    {
        match self.find(id) {
            None => {
                assert(self@.entries =~= self@.entries.remove(id@));
                false
            },
            Some(i) => {
                let ghost before = self.entry_pairs();
                self.entries.remove(i);
                proof {
                    lemma_map_of_remove(before, i as int);
                    assert(self.entry_pairs() =~= before.remove(i as int));
                }
                true
            },
        }
    }

    /// Stops delivery: requests still waiting learn that no callback will come.
    pub fn close(&mut self)
        requires
            old(self).wf(),
        ensures
            final(self).wf(),
            final(self)@ == (RegistryView { closed: true, ..old(self)@ }),
    {
        self.closed = true;
    }
}

impl CorrelationRegistry {
    /// The ids of the live entries, in the order they were registered.
    pub closed spec fn live_ids(&self) -> Seq<Seq<char>> {
        self.entry_pairs().map_values(|p: (Seq<char>, Option<XCallbackUrlView>)| p.0)
    }
}

/// Live requests never share a correlation id: in a well-formed registry, the
/// one that every operation keeps, the ids of the live entries are pairwise
/// distinct and are exactly the keys of its view.
pub proof fn lemma_live_ids_distinct(reg: &CorrelationRegistry)
    requires
        reg.wf(),
    ensures
        reg.live_ids().no_duplicates(),
        reg.live_ids().to_set() == reg@.entries.dom(),
{
    let pairs = reg.entry_pairs();
    let ids = reg.live_ids();
    assert forall|i: int, j: int| 0 <= i < ids.len() && 0 <= j < ids.len() && i != j implies ids[i]
        != ids[j] by {
        if i < j {
            assert(pairs[i].0 != pairs[j].0);
        } else {
            assert(pairs[j].0 != pairs[i].0);
        }
    }
    assert forall|k: Seq<char>| ids.to_set().contains(k) <==> reg@.entries.dom().contains(k) by {
        lemma_map_of_key(pairs, k);
        if ids.to_set().contains(k) {
            let i = choose|i: int| 0 <= i < ids.len() && ids[i] == k;
            assert(pairs[i].0 == k);
        }
        if reg@.entries.dom().contains(k) {
            let i = choose|i: int| 0 <= i < pairs.len() && pairs[i].0 == k;
            assert(ids[i] == k);
        }
    }
    assert(ids.to_set() =~= reg@.entries.dom());
}

} // verus!
