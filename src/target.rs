use vstd::prelude::*;
use crate::ids::{contains_id, distinct_ids, id_set, push_distinct};

verus! {

/// A named list on the destination account and the ids it already holds.
#[derive(Debug, Clone)]
pub struct TargetList {
    pub name: String,
    pub item_ids: Vec<String>,
}

/// What the destination account already holds, queried fresh for each diff
/// or import.
#[derive(Debug, Clone)]
pub struct TargetState {
    pub watchlist_ids: Vec<String>,
    pub history_ids: Vec<String>,
    /// The destination's named lists, each with the ids already in it.
    pub crunchylists: Vec<TargetList>,
}

pub open spec fn list_names(ls: Seq<TargetList>) -> Seq<Seq<char>> {
    ls.map_values(|l: TargetList| l.name@)
}

/// Whether the destination has a list called `name`.
pub open spec fn has_list(ls: Seq<TargetList>, name: Seq<char>) -> bool {
    exists|i: int| 0 <= i < ls.len() && #[trigger] ls[i].name@ == name
}

/// The ids in the destination list called `name`; `None` when there is no
/// such list.
pub open spec fn lookup_list(ls: Seq<TargetList>, name: Seq<char>) -> Option<Set<Seq<char>>>
    decreases ls.len(),
{
    if ls.len() == 0 {
        None
    } else if ls.last().name@ == name {
        Some(id_set(ls.last().item_ids@))
    } else {
        lookup_list(ls.drop_last(), name)
    }
}

/// Sum of the sizes of the destination lists.
pub open spec fn target_list_total(ls: Seq<TargetList>) -> nat
    decreases ls.len(),
{
    if ls.len() == 0 {
        0
    } else {
        target_list_total(ls.drop_last()) + ls.last().item_ids@.len()
    }
}

/// With distinct names, the list found under a list's own name is that list.
proof fn lemma_lookup_at(ls: Seq<TargetList>, idx: int, name: Seq<char>)
    requires
        list_names(ls).no_duplicates(),
        0 <= idx < ls.len(),
        ls[idx].name@ == name,
    ensures
        lookup_list(ls, name) == Some(id_set(ls[idx].item_ids@)),
    decreases ls.len(),
{
    if idx != ls.len() - 1 {
        assert(list_names(ls)[idx] != list_names(ls)[ls.len() - 1]);
        let rest = ls.drop_last();
        assert(list_names(rest) =~= list_names(ls).drop_last());
        assert(rest[idx] == ls[idx]);
        lemma_lookup_at(rest, idx, name);
    }
}

proof fn lemma_lookup_absent(ls: Seq<TargetList>, name: Seq<char>)
    requires
        !has_list(ls, name),
    ensures
        lookup_list(ls, name) is None,
    decreases ls.len(),
{
    if ls.len() > 0 {
        assert(ls[ls.len() - 1].name@ != name);
        let rest = ls.drop_last();
        assert forall|i: int| 0 <= i < rest.len() implies #[trigger] rest[i].name@ != name by {
            assert(rest[i] == ls[i]);
        }
        lemma_lookup_absent(rest, name);
    }
}

impl TargetState {
    pub open spec fn watchlist_set(self) -> Set<Seq<char>> {
        id_set(self.watchlist_ids@)
    }

    pub open spec fn history_set(self) -> Set<Seq<char>> {
        id_set(self.history_ids@)
    }

    pub open spec fn list(self, name: Seq<char>) -> Option<Set<Seq<char>>> {
        lookup_list(self.crunchylists@, name)
    }

    /// Ids are distinct within each collection and list names are distinct.
    pub open spec fn wf(self) -> bool {
        &&& distinct_ids(self.watchlist_ids@)
        &&& distinct_ids(self.history_ids@)
        &&& list_names(self.crunchylists@).no_duplicates()
        &&& forall|i: int|
            0 <= i < self.crunchylists@.len() ==> distinct_ids(#[trigger] self.crunchylists@[i].item_ids@)
    }

    pub fn new() -> (r: TargetState)
        ensures
            r.wf(),
            r.watchlist_set() == Set::<Seq<char>>::empty(),
            r.history_set() == Set::<Seq<char>>::empty(),
            r.crunchylists@.len() == 0,
    {
        let r = TargetState { watchlist_ids: Vec::new(), history_ids: Vec::new(), crunchylists: Vec::new() };
        assert(r.watchlist_set() =~= Set::<Seq<char>>::empty());
        assert(r.history_set() =~= Set::<Seq<char>>::empty());
        r
    }

    pub fn add_watchlist_id(&mut self, id: String)
        requires
            old(self).wf(),
        ensures
            final(self).wf(),
            final(self).watchlist_set() == old(self).watchlist_set().insert(id@),
            final(self).history_ids == old(self).history_ids,
            final(self).crunchylists == old(self).crunchylists,
    {
        push_distinct(&mut self.watchlist_ids, id);
    }

    pub fn add_history_id(&mut self, id: String)
        requires
            old(self).wf(),
        ensures
            final(self).wf(),
            final(self).history_set() == old(self).history_set().insert(id@),
            final(self).watchlist_ids == old(self).watchlist_ids,
            final(self).crunchylists == old(self).crunchylists,
    {
        push_distinct(&mut self.history_ids, id);
    }

    /// Index of the list called `name`, if the destination has one.
    pub fn find_list(&self, name: &String) -> (r: Option<usize>)
        requires
            self.wf(),
        ensures
            r is None <==> self.list(name@) is None,
            r matches Some(i) ==> i < self.crunchylists@.len() && self.crunchylists@[i as int].name@ == name@
                && self.list(name@) == Some(id_set(self.crunchylists@[i as int].item_ids@)),
    {
        let mut i: usize = 0;
        while i < self.crunchylists.len()
            invariant
                self.wf(),
                i <= self.crunchylists@.len(),
                forall|j: int| 0 <= j < i ==> self.crunchylists@[j].name@ != name@,
            decreases self.crunchylists@.len() - i,
        {
            if self.crunchylists[i].name == *name {
                proof {
                    lemma_lookup_at(self.crunchylists@, i as int, name@);
                }
                return Some(i);
            }
            i = i + 1;
        }
        proof {
            lemma_lookup_absent(self.crunchylists@, name@);
        }
        None
    }

    /// Whether the list at `index` already holds `id`.
    pub fn list_contains(&self, index: usize, id: &String) -> (r: bool)
        requires
            index < self.crunchylists@.len(),
        ensures
            r == id_set(self.crunchylists@[index as int].item_ids@).contains(id@),
    {
        contains_id(&self.crunchylists[index].item_ids, id)
    }

    pub fn has_watchlist_id(&self, id: &String) -> (r: bool)
        ensures
            r == self.watchlist_set().contains(id@),
    {
        contains_id(&self.watchlist_ids, id)
    }

    pub fn has_history_id(&self, id: &String) -> (r: bool)
        ensures
            r == self.history_set().contains(id@),
    {
        contains_id(&self.history_ids, id)
    }

    /// Records the destination list `name` with the ids `ids` (repeats
    /// dropped), replacing what was recorded under that name before.
    pub fn add_list(&mut self, name: String, ids: Vec<String>)
        requires
            old(self).wf(),
        ensures
            final(self).wf(),
            final(self).list(name@) == Some(id_set(ids@)),
            forall|other: Seq<char>| other != name@ ==> final(self).list(other) == old(self).list(other),
            final(self).watchlist_ids == old(self).watchlist_ids,
            final(self).history_ids == old(self).history_ids,
    {
        let mut distinct: Vec<String> = Vec::new();
        let mut k: usize = 0;
        assert(id_set(ids@.subrange(0, 0)) =~= id_set(distinct@));
        while k < ids.len()
            invariant
                k <= ids@.len(),
                distinct_ids(distinct@),
                id_set(distinct@) == id_set(ids@.subrange(0, k as int)),
            decreases ids@.len() - k,
        {
            proof {
                assert(ids@.subrange(0, k + 1) =~= ids@.subrange(0, k as int).push(ids@[k as int]));
                crate::ids::lemma_id_set_push(ids@.subrange(0, k as int), ids@[k as int]);
            }
            push_distinct(&mut distinct, ids[k].clone());
            k = k + 1;
        }
        assert(ids@.subrange(0, ids@.len() as int) =~= ids@);
        let ghost old_ls = self.crunchylists@;
        let found = self.find_list(&name);
        let entry = TargetList { name, item_ids: distinct };
        match found {
            Some(i) => {
                self.crunchylists[i] = entry;
                proof {
                    let ls = self.crunchylists@;
                    assert(ls == old_ls.update(i as int, entry));
                    assert(list_names(ls) =~= list_names(old_ls).update(i as int, entry.name@));
                    assert(list_names(old_ls)[i as int] == entry.name@);
                    assert forall|a: int, b: int|
                        0 <= a < ls.len() && 0 <= b < ls.len() && a != b implies list_names(ls)[a]
                        != list_names(ls)[b] by {
                        assert(list_names(old_ls)[a] != list_names(old_ls)[b]);
                    }
                    lemma_lookup_at(ls, i as int, entry.name@);
                    assert forall|other: Seq<char>| other != entry.name@ implies lookup_list(ls, other)
                        == lookup_list(old_ls, other) by {
                        if has_list(ls, other) {
                            let a = choose|a: int| 0 <= a < ls.len() && #[trigger] ls[a].name@ == other;
                            assert(old_ls[a] == ls[a]);
                            lemma_lookup_at(ls, a, other);
                            lemma_lookup_at(old_ls, a, other);
                        } else {
                            if has_list(old_ls, other) {
                                let a = choose|a: int| 0 <= a < old_ls.len() && #[trigger] old_ls[a].name@ == other;
                                assert(ls[a].name@ == other);
                            }
                            lemma_lookup_absent(ls, other);
                            lemma_lookup_absent(old_ls, other);
                        }
                    }
                }
            },
            None => {
                self.crunchylists.push(entry);
                proof {
                    let ls = self.crunchylists@;
                    assert(ls == old_ls.push(entry));
                    assert(list_names(ls) =~= list_names(old_ls).push(entry.name@));
                    if has_list(old_ls, entry.name@) {
                        let a = choose|a: int| 0 <= a < old_ls.len() && #[trigger] old_ls[a].name@ == entry.name@;
                        lemma_lookup_at(old_ls, a, entry.name@);
                    }
                    assert forall|a: int, b: int|
                        0 <= a < ls.len() && 0 <= b < ls.len() && a != b implies list_names(ls)[a]
                        != list_names(ls)[b] by {
                        if a == old_ls.len() {
                            assert(old_ls[b].name@ != entry.name@);
                        } else if b == old_ls.len() {
                            assert(old_ls[a].name@ != entry.name@);
                        } else {
                            assert(list_names(old_ls)[a] != list_names(old_ls)[b]);
                        }
                    }
                    assert(ls.drop_last() =~= old_ls);
                    assert forall|other: Seq<char>| other != entry.name@ implies lookup_list(ls, other)
                        == lookup_list(old_ls, other) by {
                    }
                    assert(lookup_list(ls, entry.name@) == Some(id_set(entry.item_ids@)));
                }
            },
        }
    }
}

} // verus!
