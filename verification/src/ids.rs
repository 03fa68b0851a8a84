//! Lists of item ids: membership, copying, appending and de-duplication.
use vstd::prelude::*;

verus! {

broadcast use vstd::seq_lib::group_seq_properties;

/// Whether `id` is in the list.
pub fn contains_id(ids: &Vec<String>, id: &String) -> (r: bool)
    ensures
        r == ids.deep_view().contains(id@),
{
    let mut i: usize = 0;
    while i < ids.len()
        invariant
            i <= ids@.len(),
            forall|j: int| 0 <= j < i ==> ids.deep_view()[j] != id@,
        decreases ids@.len() - i,
    {
        if ids[i] == *id {
            assert(ids.deep_view()[i as int] == id@);
            return true;
        }
        i = i + 1;
    }
    false
}

/// A copy of the list.
pub fn copy_ids(ids: &[String]) -> (r: Vec<String>)
    ensures
        r.deep_view() == ids.deep_view(),
{
    let mut r: Vec<String> = Vec::new();
    let mut i: usize = 0;
    while i < ids.len()
        invariant
            i <= ids@.len(),
            r.deep_view() == ids.deep_view().take(i as int),
        decreases ids@.len() - i,
    {
        let c = ids[i].clone();
        let ghost before = r.deep_view();
        r.push(c);
        assert(r.deep_view() =~= before.push(ids.deep_view()[i as int]));
        i = i + 1;
        assert(r.deep_view() =~= ids.deep_view().take(i as int));
    }
    assert(ids.deep_view().take(i as int) =~= ids.deep_view());
    r
}

/// A copy of the ids at positions `lo` up to `hi`.
pub fn copy_range(ids: &[String], lo: usize, hi: usize) -> (r: Vec<String>)
    requires
        lo <= hi <= ids@.len(),
    ensures
        r.deep_view() == ids.deep_view().subrange(lo as int, hi as int),
{
    let mut r: Vec<String> = Vec::new();
    let mut i: usize = lo;
    while i < hi
        invariant
            lo <= i <= hi,
            hi <= ids@.len(),
            r.deep_view() == ids.deep_view().subrange(lo as int, i as int),
        decreases hi - i,
    {
        let c = ids[i].clone();
        let ghost before = r.deep_view();
        r.push(c);
        assert(r.deep_view() =~= before.push(ids.deep_view()[i as int]));
        i = i + 1;
        assert(r.deep_view() =~= ids.deep_view().subrange(lo as int, i as int));
    }
    r
}

/// Appends copies of `more` to `ids`.
pub fn extend_ids(ids: &mut Vec<String>, more: &[String])
    ensures
        final(ids).deep_view() == old(ids).deep_view() + more.deep_view(),
{
    let ghost start = ids.deep_view();
    let mut i: usize = 0;
    while i < more.len()
        invariant
            i <= more@.len(),
            ids.deep_view() == start + more.deep_view().take(i as int),
        decreases more@.len() - i,
    {
        let c = more[i].clone();
        let ghost before = ids.deep_view();
        ids.push(c);
        assert(ids.deep_view() =~= before.push(more.deep_view()[i as int]));
        i = i + 1;
        assert(ids.deep_view() =~= start + more.deep_view().take(i as int));
    }
    assert(more.deep_view().take(i as int) =~= more.deep_view());
}

/// Removing duplicates keeps each element that was not seen yet, in order; with nothing
/// seen yet, it keeps the first occurrence of each element.
pub open spec fn dedup(s: Seq<Seq<char>>) -> Seq<Seq<char>> {
    s.remove_duplicates(Seq::empty())
}

/// Removing duplicates from a list whose elements are all new appends the list unchanged.
pub proof fn lemma_remove_duplicates_fresh(s: Seq<Seq<char>>, seen: Seq<Seq<char>>)
    requires
        s.no_duplicates(),
        forall|x: Seq<char>| s.contains(x) ==> !seen.contains(x),
    ensures
        s.remove_duplicates(seen) == seen + s,
    decreases s.len(),
{
    if s.len() == 0 {
        assert(seen + s =~= seen);
    } else {
        let rest = s.skip(1);
        assert(s.contains(s[0]));
        assert forall|x: Seq<char>| rest.contains(x) implies !(seen + seq![s[0]]).contains(x) by {
            let k = choose|k: int| 0 <= k < rest.len() && rest[k] == x;
            assert(s[k + 1] == x);
            assert(s.contains(x));
            if (seen + seq![s[0]]).contains(x) {
                let m = choose|m: int| 0 <= m < seen.len() + 1 && (seen + seq![s[0]])[m] == x;
                if m == seen.len() {
                    assert(s[0] == s[k + 1]);
                } else {
                    assert(seen[m] == x);
                }
            }
        }
        assert(rest.no_duplicates()) by {
            assert forall|a: int, b: int| 0 <= a < rest.len() && 0 <= b < rest.len() && a != b
                implies rest[a] != rest[b] by {
                assert(rest[a] == s[a + 1] && rest[b] == s[b + 1]);
            }
        }
        lemma_remove_duplicates_fresh(rest, seen + seq![s[0]]);
        assert(seen + seq![s[0]] + rest =~= seen + s);
    }
}

/// Removing duplicates after an already duplicate-free prefix leaves no duplicates.
pub proof fn lemma_remove_duplicates_distinct(s: Seq<Seq<char>>, seen: Seq<Seq<char>>)
    requires
        seen.no_duplicates(),
    ensures
        s.remove_duplicates(seen).no_duplicates(),
    decreases s.len(),
{
    if s.len() == 0 {
    } else if seen.contains(s[0]) {
        lemma_remove_duplicates_distinct(s.skip(1), seen);
    } else {
        let seen2 = seen + seq![s[0]];
        assert(seen2.no_duplicates()) by {
            assert forall|a: int, b: int| 0 <= a < seen2.len() && 0 <= b < seen2.len() && a != b
                implies seen2[a] != seen2[b] by {
                if a == seen.len() {
                    assert(seen2[b] == seen[b]);
                } else if b == seen.len() {
                    assert(seen2[a] == seen[a]);
                }
            }
        }
        lemma_remove_duplicates_distinct(s.skip(1), seen2);
    }
}

/// De-duplication leaves no element twice, keeps exactly the elements of its input,
/// and changes nothing in a list that had no duplicates.
pub proof fn law_dedup(s: Seq<Seq<char>>)
    ensures
        dedup(s).no_duplicates(),
        forall|x: Seq<char>| #[trigger] dedup(s).contains(x) <==> s.contains(x),
        dedup(s).len() <= s.len(),
        s.no_duplicates() ==> dedup(s) == s,
{
    lemma_remove_duplicates_distinct(s, Seq::empty());
    s.lemma_remove_duplicates_properties(Seq::empty());
    assert(s + Seq::<Seq<char>>::empty() =~= s);
    if s.no_duplicates() {
        lemma_remove_duplicates_fresh(s, Seq::empty());
        assert(Seq::<Seq<char>>::empty() + s =~= s);
    }
}

/// De-duplicating twice gives what de-duplicating once gives.
pub proof fn law_dedup_idempotent(s: Seq<Seq<char>>)
    ensures
        dedup(dedup(s)) == dedup(s),
{
    law_dedup(s);
    law_dedup(dedup(s));
}

/// Removes repeated ids, keeping the first occurrence of each.
pub fn dedupe(ids: &mut Vec<String>)
    ensures
        final(ids).deep_view() == dedup(old(ids).deep_view()),
{
    let ghost src = ids.deep_view();
    let mut kept: Vec<String> = Vec::new();
    let mut i: usize = 0;
    while i < ids.len()
        invariant
            i <= ids@.len(),
            ids.deep_view() == src,
            kept.deep_view() == dedup(src.take(i as int)),
        decreases ids@.len() - i,
    {
        let present = contains_id(&kept, &ids[i]);
        proof {
            let pre = src.take(i as int);
            pre.lemma_remove_duplicates_properties(Seq::empty());
            assert(pre + Seq::<Seq<char>>::empty() =~= pre);
            pre.lemma_remove_duplicates_append(src[i as int], Seq::empty());
            assert(src.take(i + 1) =~= pre + seq![src[i as int]]);
        }
        if !present {
            let ghost before = kept.deep_view();
            kept.push(ids[i].clone());
            assert(kept.deep_view() =~= before + seq![src[i as int]]);
        }
        i = i + 1;
    }
    assert(src.take(i as int) =~= src);
    *ids = kept;
}

/// The elements of `s`, in order, that are not in `drop`.
pub open spec fn without(s: Seq<Seq<char>>, drop: Seq<Seq<char>>) -> Seq<Seq<char>> {
    s.filter(|x: Seq<char>| !drop.contains(x))
}

/// Leaving out the elements of `drop` keeps exactly the elements that are not in `drop`,
/// never lengthens the list, and adds no duplicate.
pub proof fn law_without(s: Seq<Seq<char>>, drop: Seq<Seq<char>>)
    ensures
        forall|x: Seq<char>| #[trigger] without(s, drop).contains(x) <==> s.contains(x) && !drop.contains(x),
        without(s, drop).len() <= s.len(),
        s.no_duplicates() ==> without(s, drop).no_duplicates(),
    decreases s.len(),
{
    let pred = |x: Seq<char>| !drop.contains(x);
    let f = s.filter(pred);
    s.lemma_filter_len(pred);
    assert forall|x: Seq<char>| #[trigger] f.contains(x) implies s.contains(x) && !drop.contains(x) by {
        let k = choose|k: int| 0 <= k < f.len() && f[k] == x;
        s.lemma_filter_pred(pred, k);
        s.lemma_filter_contains_rev(pred, x);
    }
    assert forall|x: Seq<char>| s.contains(x) && !drop.contains(x) implies #[trigger] f.contains(x) by {
        let k = choose|k: int| 0 <= k < s.len() && s[k] == x;
        s.lemma_filter_contains(pred, k);
    }
    if s.len() > 0 && s.no_duplicates() {
        let init = s.drop_last();
        law_without(init, drop);
        init.lemma_filter_push(s.last(), pred);
        assert(init.push(s.last()) =~= s);
        assert(init.no_duplicates()) by {
            assert forall|a: int, b: int| 0 <= a < init.len() && 0 <= b < init.len() && a != b
                implies init[a] != init[b] by {
                assert(init[a] == s[a] && init[b] == s[b]);
            }
        }
        if init.contains(s.last()) {
            let k = choose|k: int| 0 <= k < init.len() && init[k] == s.last();
            assert(s[k] == s[s.len() - 1]);
        }
        assert(!without(init, drop).contains(s.last()));
    }
}

/// The ids of `ids`, in order, that are not in `drop`.
pub fn ids_without(ids: &[String], drop: &Vec<String>) -> (r: Vec<String>)
    ensures
        r.deep_view() == without(ids.deep_view(), drop.deep_view()),
{
    let ghost s = ids.deep_view();
    let ghost d = drop.deep_view();
    let ghost pred = |x: Seq<char>| !d.contains(x);
    let mut r: Vec<String> = Vec::new();
    let mut i: usize = 0;
    while i < ids.len()
        invariant
            i <= ids@.len(),
            s == ids.deep_view(),
            d == drop.deep_view(),
            pred == (|x: Seq<char>| !d.contains(x)),
            r.deep_view() == s.take(i as int).filter(pred),
        decreases ids@.len() - i,
    {
        proof {
            s.take(i as int).lemma_filter_push(s[i as int], pred);
            assert(s.take(i + 1) =~= s.take(i as int).push(s[i as int]));
        }
        if !contains_id(drop, &ids[i]) {
            let c = ids[i].clone();
            let ghost before = r.deep_view();
            r.push(c);
            assert(r.deep_view() =~= before.push(s[i as int]));
        }
        i = i + 1;
    }
    assert(s.take(i as int) =~= s);
    r
}

} // verus!
