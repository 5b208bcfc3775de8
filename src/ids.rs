use vstd::prelude::*;

verus! {

/// The character sequences of a list of ids.
pub open spec fn id_views(s: Seq<String>) -> Seq<Seq<char>> {
    s.map_values(|x: String| x@)
}

/// The set of ids in a list.
pub open spec fn id_set(s: Seq<String>) -> Set<Seq<char>> {
    id_views(s).to_set()
}

/// No id occurs twice in the list.
pub open spec fn distinct_ids(s: Seq<String>) -> bool {
    id_views(s).no_duplicates()
}

/// Whether `id` occurs in `ids`.
pub fn contains_id(ids: &Vec<String>, id: &String) -> (r: bool)
    ensures
        r == id_set(ids@).contains(id@),
{
    let mut i: usize = 0;
    while i < ids.len()
        invariant
            i <= ids@.len(),
            forall|j: int| 0 <= j < i ==> ids@[j]@ != id@,
        decreases ids@.len() - i,
    {
        if ids[i] == *id {
            assert(id_views(ids@)[i as int] == id@);
            return true;
        }
        i = i + 1;
    }
    assert(!id_views(ids@).contains(id@)) by {
        if id_views(ids@).contains(id@) {
            let k = choose|k: int| 0 <= k < id_views(ids@).len() && id_views(ids@)[k] == id@;
            assert(ids@[k]@ == id@);
        }
    }
    false
}

pub proof fn lemma_id_set_push(s: Seq<String>, x: String)
    ensures
        id_set(s.push(x)) == id_set(s).insert(x@),
        id_views(s.push(x)) == id_views(s).push(x@),
{
    assert(id_views(s.push(x)) =~= id_views(s).push(x@));
    assert(id_set(s.push(x)) =~= id_set(s).insert(x@)) by {
        assert forall|a: Seq<char>| id_set(s.push(x)).contains(a) <==> id_set(s).insert(x@).contains(a) by {
            if id_set(s.push(x)).contains(a) {
                let k = choose|k: int| 0 <= k < id_views(s.push(x)).len() && id_views(s.push(x))[k] == a;
                if k < s.len() {
                    assert(id_views(s)[k] == a);
                }
            }
            if id_set(s).contains(a) {
                let k = choose|k: int| 0 <= k < id_views(s).len() && id_views(s)[k] == a;
                assert(id_views(s.push(x))[k] == a);
            }
            if a == x@ {
                assert(id_views(s.push(x))[s.len() as int] == a);
            }
        }
    }
}

/// A list of distinct ids has as many ids as its set.
pub proof fn lemma_distinct_len(s: Seq<String>)
    requires
        distinct_ids(s),
    ensures
        id_set(s).len() == s.len(),
        id_set(s).finite(),
{
    id_views(s).unique_seq_to_set();
    vstd::seq_lib::seq_to_set_is_finite(id_views(s));
}

/// Appends `id` unless it is already there.
pub fn push_distinct(ids: &mut Vec<String>, id: String)
    requires
        distinct_ids(old(ids)@),
    ensures
        distinct_ids(final(ids)@),
        id_set(final(ids)@) == id_set(old(ids)@).insert(id@),
        id_set(old(ids)@).contains(id@) ==> final(ids)@ == old(ids)@,
        !id_set(old(ids)@).contains(id@) ==> final(ids)@ == old(ids)@.push(id),
{
    if !contains_id(ids, &id) {
        proof {
            lemma_id_set_push(ids@, id);
            assert forall|i: int, j: int|
                0 <= i < ids@.len() + 1 && 0 <= j < ids@.len() + 1 && i != j implies id_views(
                ids@.push(id),
            )[i] != id_views(ids@.push(id))[j] by {
                if i == ids@.len() {
                    assert(id_views(ids@)[j] == id_views(ids@.push(id))[j]);
                } else if j == ids@.len() {
                    assert(id_views(ids@)[i] == id_views(ids@.push(id))[i]);
                }
            }
        }
        ids.push(id);
    } else {
        assert(id_set(ids@).insert(id@) =~= id_set(ids@));
    }
}

} // verus!
