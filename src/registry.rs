//! The author registry: from author id to resolved account, where none
//! stands for an id seen but not yet resolved.

use crate::model::{TwitLikeDatum, TwitUserDatum};
use crate::text::string_views;
use vstd::prelude::*;

verus! {

/// One registry entry: an author id and what it resolved to, if anything.
pub type RegistryEntry = (String, Option<TwitUserDatum>);

/// The ids of a sequence of entries.
pub open spec fn entry_keys(es: Seq<RegistryEntry>) -> Seq<Seq<char>> {
    es.map_values(|e: RegistryEntry| e.0@)
}

/// The position of an entry with id `k`, where there is one.
pub open spec fn entry_index(es: Seq<RegistryEntry>, k: Seq<char>) -> int {
    choose|i: int| 0 <= i < es.len() && es[i].0@ == k
}

/// The map that a sequence of entries with distinct ids stands for.
pub open spec fn entries_map(es: Seq<RegistryEntry>) -> Map<Seq<char>, Option<TwitUserDatum>> {
    Map::new(
        |k: Seq<char>| exists|i: int| 0 <= i < es.len() && es[i].0@ == k,
        |k: Seq<char>| es[entry_index(es, k)].1,
    )
}

/// The registry after noting the author ids `ids`: each id not yet present
/// comes in unresolved; the others keep their value.
pub open spec fn note_spec(m: Map<Seq<char>, Option<TwitUserDatum>>, ids: Seq<Seq<char>>) -> Map<
    Seq<char>,
    Option<TwitUserDatum>,
> {
    Map::new(
        |k: Seq<char>| m.contains_key(k) || ids.contains(k),
        |k: Seq<char>|
            if m.contains_key(k) {
                m[k]
            } else {
                None
            },
    )
}

/// The registry after taking in one resolved account: it fills its id's
/// entry unless that entry is already resolved.
pub open spec fn merge_one(m: Map<Seq<char>, Option<TwitUserDatum>>, u: TwitUserDatum) -> Map<
    Seq<char>,
    Option<TwitUserDatum>,
> {
    if m.contains_key(u.id@) && m[u.id@] is Some {
        m
    } else {
        m.insert(u.id@, Some(u))
    }
}

/// The registry after taking in resolved accounts, in order.
pub open spec fn merge_spec(m: Map<Seq<char>, Option<TwitUserDatum>>, us: Seq<TwitUserDatum>) -> Map<
    Seq<char>,
    Option<TwitUserDatum>,
>
    decreases us.len(),
{
    if us.len() == 0 {
        m
    } else {
        merge_one(merge_spec(m, us.drop_last()), us.last())
    }
}

/// The author ids of a sequence of items.
pub open spec fn author_ids(items: Seq<TwitLikeDatum>) -> Seq<Seq<char>> {
    items.map_values(|d: TwitLikeDatum| d.author_id@)
}

/// Mapping of author ids to the accounts they resolved to.
#[derive(Debug)]
pub struct UserIdLookup {
    users_by_id: Vec<RegistryEntry>,
}

impl View for UserIdLookup {
    type V = Map<Seq<char>, Option<TwitUserDatum>>;

    closed spec fn view(&self) -> Map<Seq<char>, Option<TwitUserDatum>> {
        entries_map(self.users_by_id@)
    }
}

proof fn lemma_entry_at(es: Seq<RegistryEntry>, i: int)
    requires
        entry_keys(es).no_duplicates(),
        0 <= i < es.len(),
    ensures
        entries_map(es).contains_key(es[i].0@),
        entries_map(es)[es[i].0@] == es[i].1,
{
    let k = es[i].0@;
    assert(exists|j: int| 0 <= j < es.len() && es[j].0@ == k);
    let j = entry_index(es, k);
    assert(entry_keys(es)[j] == es[j].0@);
    assert(entry_keys(es)[i] == es[i].0@);
    assert(i == j);
}

impl Default for UserIdLookup {
    fn default() -> (r: UserIdLookup)
        ensures
            r.wf(),
            r@ == Map::<Seq<char>, Option<TwitUserDatum>>::empty(),
    {
        UserIdLookup::new()
    }
}

impl UserIdLookup {
    /// The entries hold distinct ids.
    pub closed spec fn wf(&self) -> bool {
        entry_keys(self.users_by_id@).no_duplicates()
    }

    /// The entries, in the order their ids were first seen.
    pub closed spec fn spec_entries(&self) -> Seq<RegistryEntry> {
        self.users_by_id@
    }

    /// An empty registry.
    pub fn new() -> (r: UserIdLookup)
        ensures
            r.wf(),
            r@ == Map::<Seq<char>, Option<TwitUserDatum>>::empty(),
    {
        let r = UserIdLookup { users_by_id: Vec::new() };
        assert(r@ =~= Map::<Seq<char>, Option<TwitUserDatum>>::empty());
        r
    }

    /// The entries, in the order their ids were first seen.
    pub fn entries(&self) -> (r: &Vec<RegistryEntry>)
        ensures
            r@ == self.spec_entries(),
    {
        &self.users_by_id
    }

    /// The position of `key` among the entries, if it is there.
    fn position(&self, key: &str) -> (r: Option<usize>)
        requires
            self.wf(),
        ensures
            r is None <==> !self@.contains_key(key@),
            r is Some ==> r->0 < self.users_by_id@.len() && self.users_by_id@[r->0 as int].0@
                == key@,
    {
        let k = key.to_owned();
        let mut i: usize = 0;
        while i < self.users_by_id.len()
            invariant
                i <= self.users_by_id@.len(),
                k@ == key@,
                forall|j: int| 0 <= j < i ==> self.users_by_id@[j].0@ != key@,
            decreases self.users_by_id@.len() - i,
        {
            if self.users_by_id[i].0 == k {
                return Some(i);
            }
            i = i + 1;
        }
        None
    }

    /// Whether `key` has been seen, resolved or not.
    pub fn has(&self, key: &str) -> (r: bool)
        requires
            self.wf(),
        ensures
            r == self@.contains_key(key@),
    {
        self.position(key).is_some()
    }

    /// What `key` resolved to: none where it is absent or unresolved.
    pub fn resolved(&self, key: &str) -> (r: Option<TwitUserDatum>)
        requires
            self.wf(),
        ensures
            r is Some <==> self@.contains_key(key@) && self@[key@] is Some,
            r is Some ==> self@[key@] == r,
    {
        match self.position(key) {
            Some(i) => {
                proof {
                    lemma_entry_at(self.users_by_id@, i as int);
                }
                match &self.users_by_id[i].1 {
                    Some(u) => Some(u.clone()),
                    None => None,
                }
            },
            None => None,
        }
    }

    /// Sets the value of `key`, adding it after the others if it is new.
    pub fn insert(&mut self, key: String, value: Option<TwitUserDatum>) -> (r: &Self)
        requires
            old(self).wf(),
        ensures
            final(self).wf(),
            final(self)@ == old(self)@.insert(key@, value),
            *r == *final(self),
    {
        let ghost old_es = self.users_by_id@;
        match self.position(key.as_str()) {
            Some(i) => {
                let ghost k = key@;
                self.users_by_id.set(i, (key, value));
                let ghost es = self.users_by_id@;
                assert(entry_keys(es) =~= entry_keys(old_es));
                assert forall|k2: Seq<char>| #[trigger] self@.contains_key(k2)
                    == old(self)@.insert(k, value).contains_key(k2) by {
                    if exists|j: int| 0 <= j < old_es.len() && old_es[j].0@ == k2 {
                        let j = choose|j: int| 0 <= j < old_es.len() && old_es[j].0@ == k2;
                        assert(es[j].0@ == k2);
                    }
                    if exists|j: int| 0 <= j < es.len() && es[j].0@ == k2 {
                        let j = choose|j: int| 0 <= j < es.len() && es[j].0@ == k2;
                        assert(old_es[j].0@ == k2);
                    }
                }
                assert forall|k2: Seq<char>| #[trigger] self@.contains_key(k2) implies self@[k2]
                    == old(self)@.insert(k, value)[k2] by {
                    let j = choose|j: int| 0 <= j < es.len() && es[j].0@ == k2;
                    lemma_entry_at(es, j);
                    if j != i {
                        lemma_entry_at(old_es, j);
                        assert(entry_keys(old_es)[j] == k2);
                        assert(entry_keys(old_es)[i as int] == k);
                        assert(k2 != k);
                    }
                }
                assert(self@ =~= old(self)@.insert(k, value));
            },
            None => {
                let ghost k = key@;
                self.users_by_id.push((key, value));
                let ghost es = self.users_by_id@;
                assert(entry_keys(es) =~= entry_keys(old_es).push(k));
                assert forall|k2: Seq<char>| #[trigger] self@.contains_key(k2)
                    == old(self)@.insert(k, value).contains_key(k2) by {
                    if exists|j: int| 0 <= j < old_es.len() && old_es[j].0@ == k2 {
                        let j = choose|j: int| 0 <= j < old_es.len() && old_es[j].0@ == k2;
                        assert(es[j].0@ == k2);
                    }
                    if k2 == k {
                        assert(es[old_es.len() as int].0@ == k2);
                    }
                }
                assert forall|k2: Seq<char>| #[trigger] self@.contains_key(k2) implies self@[k2]
                    == old(self)@.insert(k, value)[k2] by {
                    let j = choose|j: int| 0 <= j < es.len() && es[j].0@ == k2;
                    lemma_entry_at(es, j);
                    if j != old_es.len() {
                        lemma_entry_at(old_es, j);
                        assert(old_es[j].0@ == k2);
                        assert(old(self)@.contains_key(k2));
                    }
                }
                assert(self@ =~= old(self)@.insert(k, value));
            },
        }
        self
    }
}



impl UserIdLookup {
    /// Whether `key` is present and resolved.
    pub fn is_resolved(&self, key: &str) -> (r: bool)
        requires
            self.wf(),
        ensures
            r == (self@.contains_key(key@) && self@[key@] is Some),
    {
        match self.position(key) {
            Some(i) => {
                proof {
                    lemma_entry_at(self.users_by_id@, i as int);
                }
                self.users_by_id[i].1.is_some()
            },
            None => false,
        }
    }

    /// Notes the author of every item: an id not seen before comes in
    /// unresolved, the others are left as they are.
    pub fn note_authors(&mut self, items: &[TwitLikeDatum])
        requires
            old(self).wf(),
        ensures
            final(self).wf(),
            final(self)@ == note_spec(old(self)@, author_ids(items@)),
    {
        let ghost m0 = self@;
        let mut i: usize = 0;
        assert(note_spec(m0, author_ids(items@.subrange(0, 0))) =~= m0);
        while i < items.len()
            invariant
                i <= items@.len(),
                self.wf(),
                self@ == note_spec(m0, author_ids(items@.subrange(0, i as int))),
            decreases items@.len() - i,
        {
            let ghost before = author_ids(items@.subrange(0, i as int));
            let ghost after = author_ids(items@.subrange(0, i + 1));
            let ghost id = items@[i as int].author_id@;
            assert(after =~= before.push(id));
            assert forall|k: Seq<char>| after.contains(k) <==> (before.contains(k) || k == id) by {
                if before.contains(k) {
                    let j = before.index_of(k);
                    assert(after[j] == k);
                }
                if k == id {
                    assert(after[after.len() - 1] == k);
                }
                if after.contains(k) {
                    let j = after.index_of(k);
                    if j < before.len() {
                        assert(before[j] == k);
                    }
                }
            }
            let id_str = items[i].author_id.as_str();
            if !self.has(id_str) {
                self.insert(items[i].author_id.clone(), None);
                assert(self@ =~= note_spec(m0, after));
            } else {
                assert(self@ =~= note_spec(m0, after));
            }
            i = i + 1;
        }
        assert(items@.subrange(0, items@.len() as int) =~= items@);
    }

    /// The ids seen but not resolved, each once, in the order they were
    /// first seen.
    pub fn missing_ids(&self) -> (r: Vec<String>)
        requires
            self.wf(),
        ensures
            string_views(r@).no_duplicates(),
            forall|k: Seq<char>|
                string_views(r@).contains(k) <==> (self@.contains_key(k) && self@[k] is None),
    {
        let ghost es = self.users_by_id@;
        let mut out: Vec<String> = Vec::new();
        let mut i: usize = 0;
        while i < self.users_by_id.len()
            invariant
                i <= es.len(),
                es == self.users_by_id@,
                self.wf(),
                string_views(out@).no_duplicates(),
                forall|k: Seq<char>|
                    string_views(out@).contains(k) <==> exists|j: int|
                        0 <= j < i && es[j].0@ == k && es[j].1 is None,
            decreases es.len() - i,
        {
            if self.users_by_id[i].1.is_none() {
                let ghost prev = string_views(out@);
                let ghost k = es[i as int].0@;
                proof {
                    if prev.contains(k) {
                        let j = choose|j: int| 0 <= j < i && es[j].0@ == k && es[j].1 is None;
                        assert(entry_keys(es)[j] == entry_keys(es)[i as int]);
                    }
                }
                out.push(self.users_by_id[i].0.clone());
                assert(string_views(out@) =~= prev.push(k));
                assert forall|k2: Seq<char>|
                    string_views(out@).contains(k2) <==> exists|j: int|
                        0 <= j < i + 1 && es[j].0@ == k2 && es[j].1 is None by {
                    if string_views(out@).contains(k2) && k2 != k {
                        assert(prev.contains(k2));
                    }
                    if exists|j: int| 0 <= j < i + 1 && es[j].0@ == k2 && es[j].1 is None {
                        let j = choose|j: int| 0 <= j < i + 1 && es[j].0@ == k2 && es[j].1 is None;
                        if j < i {
                            assert(prev.contains(k2));
                            assert(string_views(out@)[prev.index_of(k2)] == k2);
                        } else {
                            assert(string_views(out@)[prev.len() as int] == k2);
                        }
                    }
                }
            } else {
                assert forall|k2: Seq<char>|
                    string_views(out@).contains(k2) <==> exists|j: int|
                        0 <= j < i + 1 && es[j].0@ == k2 && es[j].1 is None by {
                    if exists|j: int| 0 <= j < i + 1 && es[j].0@ == k2 && es[j].1 is None {
                        let j = choose|j: int| 0 <= j < i + 1 && es[j].0@ == k2 && es[j].1 is None;
                        assert(j != i);
                    }
                }
            }
            i = i + 1;
        }
        assert forall|k: Seq<char>|
            string_views(out@).contains(k) <==> (self@.contains_key(k) && self@[k] is None) by {
            if self@.contains_key(k) {
                let j = entry_index(es, k);
                lemma_entry_at(es, j);
            }
            if string_views(out@).contains(k) {
                let j = choose|j: int| 0 <= j < es.len() && es[j].0@ == k && es[j].1 is None;
                lemma_entry_at(es, j);
            }
        }
        out
    }

    /// Takes in resolved accounts, in order: each fills the entry of its own
    /// id unless that entry is already resolved.
    pub fn merge_resolved(&mut self, users: &[TwitUserDatum])
        requires
            old(self).wf(),
        ensures
            final(self).wf(),
            final(self)@ == merge_spec(old(self)@, users@),
    {
        let ghost m0 = self@;
        let mut i: usize = 0;
        while i < users.len()
            invariant
                i <= users@.len(),
                self.wf(),
                self@ == merge_spec(m0, users@.subrange(0, i as int)),
            decreases users@.len() - i,
        {
            let ghost prefix = users@.subrange(0, i + 1);
            assert(prefix.drop_last() =~= users@.subrange(0, i as int));
            if !self.is_resolved(users[i].id.as_str()) {
                self.insert(users[i].id.clone(), Some(users[i].clone()));
            }
            i = i + 1;
        }
        assert(users@.subrange(0, users@.len() as int) =~= users@);
    }
}

/// Taking in accounts never changes an entry that is already resolved, and
/// never drops an id.
pub proof fn lemma_merge_keeps_resolved(m: Map<Seq<char>, Option<TwitUserDatum>>, us: Seq<TwitUserDatum>)
    ensures
        forall|k: Seq<char>| m.contains_key(k) ==> #[trigger] merge_spec(m, us).contains_key(k),
        forall|k: Seq<char>|
            m.contains_key(k) && m[k] is Some ==> #[trigger] merge_spec(m, us)[k] == m[k],
    decreases us.len(),
{
    if us.len() > 0 {
        let prev = merge_spec(m, us.drop_last());
        lemma_merge_keeps_resolved(m, us.drop_last());
        assert forall|k: Seq<char>| m.contains_key(k) implies #[trigger] merge_spec(
            m,
            us,
        ).contains_key(k) && (m[k] is Some ==> merge_spec(m, us)[k] == m[k]) by {
            assert(prev.contains_key(k));
        }
    }
}

/// After taking in accounts, the id of each of them is resolved.
pub proof fn lemma_merge_resolves(m: Map<Seq<char>, Option<TwitUserDatum>>, us: Seq<TwitUserDatum>)
    ensures
        forall|i: int|
            0 <= i < us.len() ==> merge_spec(m, us).contains_key(#[trigger] us[i].id@) && merge_spec(
                m,
                us,
            )[us[i].id@] is Some,
    decreases us.len(),
{
    if us.len() > 0 {
        let prev = merge_spec(m, us.drop_last());
        lemma_merge_resolves(m, us.drop_last());
        assert forall|i: int| 0 <= i < us.len() implies merge_spec(m, us).contains_key(
            #[trigger] us[i].id@,
        ) && merge_spec(m, us)[us[i].id@] is Some by {
            if i < us.len() - 1 {
                assert(us.drop_last()[i] == us[i]);
                lemma_merge_keeps_resolved(prev, seq![us.last()]);
                assert(seq![us.last()].drop_last() =~= Seq::<TwitUserDatum>::empty());
            }
        }
    }
}

proof fn lemma_merge_stable(r: Map<Seq<char>, Option<TwitUserDatum>>, us: Seq<TwitUserDatum>)
    requires
        forall|i: int| 0 <= i < us.len() ==> r.contains_key(#[trigger] us[i].id@) && r[us[i].id@] is Some,
    ensures
        merge_spec(r, us) == r,
    decreases us.len(),
{
    if us.len() > 0 {
        assert forall|i: int| 0 <= i < us.drop_last().len() implies r.contains_key(
            #[trigger] us.drop_last()[i].id@,
        ) && r[us.drop_last()[i].id@] is Some by {
            assert(us.drop_last()[i] == us[i]);
        }
        lemma_merge_stable(r, us.drop_last());
        assert(r.contains_key(us[us.len() - 1].id@));
    }
}

/// Resolution is idempotent: taking in the same resolved accounts a second
/// time leaves the registry as the first time left it; and whatever a later
/// round takes in, the entries resolved so far keep their account.
pub proof fn lemma_resolution_idempotent(
    m: Map<Seq<char>, Option<TwitUserDatum>>,
    us: Seq<TwitUserDatum>,
    later: Seq<TwitUserDatum>,
)
    ensures
        merge_spec(merge_spec(m, us), us) == merge_spec(m, us),
        forall|k: Seq<char>|
            merge_spec(m, us).contains_key(k) && merge_spec(m, us)[k] is Some ==> #[trigger] merge_spec(
                merge_spec(m, us),
                later,
            )[k] == merge_spec(m, us)[k],
{
    lemma_merge_resolves(m, us);
    lemma_merge_stable(merge_spec(m, us), us);
    lemma_merge_keeps_resolved(merge_spec(m, us), later);
}

/// Every id noted from a page stays in the registry, resolved or not,
/// whatever accounts the lookups then return.
pub proof fn lemma_noted_ids_stay(
    m: Map<Seq<char>, Option<TwitUserDatum>>,
    ids: Seq<Seq<char>>,
    us: Seq<TwitUserDatum>,
)
    ensures
        forall|i: int|
            0 <= i < ids.len() ==> #[trigger] merge_spec(note_spec(m, ids), us).contains_key(ids[i]),
{
    lemma_merge_keeps_resolved(note_spec(m, ids), us);
    assert forall|i: int| 0 <= i < ids.len() implies #[trigger] merge_spec(
        note_spec(m, ids),
        us,
    ).contains_key(ids[i]) by {
        assert(ids.contains(ids[i]));
        assert(note_spec(m, ids).contains_key(ids[i]));
    }
}

/// Noting the same authors twice leaves the registry as noting them once.
pub proof fn lemma_note_idempotent(m: Map<Seq<char>, Option<TwitUserDatum>>, ids: Seq<Seq<char>>)
    ensures
        note_spec(note_spec(m, ids), ids) == note_spec(m, ids),
{
    assert(note_spec(note_spec(m, ids), ids) =~= note_spec(m, ids));
}

} // verus!
