//! Ordered lists of window identifiers: removal of an identifier, search from
//! the back, and the facts about them that the window manager relies on.

use vstd::prelude::*;

verus! {

/// `s` with every occurrence of `w` taken out, the rest in order.
pub open spec fn without(s: Seq<usize>, w: usize) -> Seq<usize>
    decreases s.len(),
{
    if s.len() == 0 {
        s
    } else if s.last() == w {
        without(s.drop_last(), w)
    } else {
        without(s.drop_last(), w).push(s.last())
    }
}

/// The last element of `s` that is not `excluding`.
pub open spec fn last_other(s: Seq<usize>, excluding: usize) -> Option<usize>
    decreases s.len(),
{
    if s.len() == 0 {
        None
    } else if s.last() != excluding {
        Some(s.last())
    } else {
        last_other(s.drop_last(), excluding)
    }
}

pub proof fn lemma_push_contains(s: Seq<usize>, x: usize)
    ensures
        forall|y: usize| #[trigger] s.push(x).contains(y) <==> (s.contains(y) || y == x),
{
    assert forall|y: usize| #[trigger] s.push(x).contains(y) implies (s.contains(y) || y == x) by {
        let i = choose|i: int| 0 <= i < s.push(x).len() && s.push(x)[i] == y;
        if i < s.len() {
            assert(s[i] == y);
        }
    }
    assert forall|y: usize| (s.contains(y) || y == x) implies #[trigger] s.push(x).contains(y) by {
        if y == x {
            assert(s.push(x)[s.len() as int] == y);
        } else {
            let i = choose|i: int| 0 <= i < s.len() && s[i] == y;
            assert(s.push(x)[i] == y);
        }
    }
}

pub proof fn lemma_drop_last_contains(s: Seq<usize>)
    requires
        s.len() > 0,
    ensures
        forall|y: usize| #[trigger] s.contains(y) <==> (s.drop_last().contains(y) || y == s.last()),
{
    lemma_push_contains(s.drop_last(), s.last());
    assert(s.drop_last().push(s.last()) =~= s);
}

/// What removing `w` keeps and drops.
pub proof fn lemma_without(s: Seq<usize>, w: usize)
    ensures
        forall|x: usize| #[trigger] without(s, w).contains(x) <==> (s.contains(x) && x != w),
        s.no_duplicates() ==> without(s, w).no_duplicates(),
        !s.contains(w) ==> without(s, w) == s,
        without(s, w).len() <= s.len(),
        s.contains(w) ==> without(s, w).len() < s.len(),
    decreases s.len(),
{
    if s.len() > 0 {
        let d = s.drop_last();
        lemma_without(d, w);
        lemma_drop_last_contains(s);
        if s.last() != w {
            lemma_push_contains(without(d, w), s.last());
            if s.no_duplicates() {
                assert(d.no_duplicates());
                assert(!d.contains(s.last()));
                assert(!without(d, w).contains(s.last()));
                let r = without(d, w).push(s.last());
                assert forall|i: int, j: int| 0 <= i < r.len() && 0 <= j < r.len() && i != j implies r[i] != r[j] by {
                    if i < r.len() - 1 && j < r.len() - 1 {
                    } else if i == r.len() - 1 {
                        assert(without(d, w).contains(r[j]));
                    } else {
                        assert(without(d, w).contains(r[i]));
                    }
                }
            }
            if !s.contains(w) {
                assert(d.push(s.last()) =~= s);
            }
        } else {
            assert(s.contains(w));
        }
    }
}

/// Removing an element other than the last keeps the last in place.
pub proof fn lemma_without_keeps_last(s: Seq<usize>, w: usize)
    requires
        s.len() > 0,
        s.last() != w,
    ensures
        without(s, w).len() > 0,
        without(s, w).last() == s.last(),
{
}

/// Where `last_other` finds its element.
pub proof fn lemma_last_other(s: Seq<usize>, excluding: usize)
    ensures
        match last_other(s, excluding) {
            Some(x) => s.contains(x) && x != excluding,
            None => forall|i: int| 0 <= i < s.len() ==> s[i] == excluding,
        },
    decreases s.len(),
{
    if s.len() > 0 {
        lemma_last_other(s.drop_last(), excluding);
        lemma_drop_last_contains(s);
        if s.last() == excluding {
            assert forall|i: int| 0 <= i < s.len() && last_other(s, excluding) is None implies s[i] == excluding by {
                if i < s.len() - 1 {
                    assert(s.drop_last()[i] == s[i]);
                }
            }
        }
    }
}

/// `v` without any occurrence of `w`.
pub fn remove_all(v: &Vec<usize>, w: usize) -> (r: Vec<usize>)
    ensures
        r@ == without(v@, w),
{
    let mut r: Vec<usize> = Vec::new();
    let mut i: usize = 0;
    while i < v.len()
        invariant
            i <= v.len(),
            r@ == without(v@.subrange(0, i as int), w),
        decreases v.len() - i,
    {
        assert(v@.subrange(0, i + 1).drop_last() =~= v@.subrange(0, i as int));
        if v[i] != w {
            r.push(v[i]);
        }
        i += 1;
    }
    assert(v@.subrange(0, v.len() as int) =~= v@);
    r
}

/// The last element of `v` that is not `excluding`, if any.
pub fn find_last_other(v: &Vec<usize>, excluding: usize) -> (r: Option<usize>)
    ensures
        r == last_other(v@, excluding),
{
    let mut i: usize = v.len();
    assert(v@.subrange(0, i as int) =~= v@);
    while i > 0
        invariant
            i <= v.len(),
            last_other(v@, excluding) == last_other(v@.subrange(0, i as int), excluding),
        decreases i,
    {
        assert(v@.subrange(0, i as int).drop_last() =~= v@.subrange(0, i - 1));
        if v[i - 1] != excluding {
            return Some(v[i - 1]);
        }
        i -= 1;
    }
    None
}

/// The position of the first occurrence of `w` in `v`, if any.
pub fn position(v: &Vec<usize>, w: usize) -> (r: Option<usize>)
    ensures
        r matches Some(i) ==> v@.index_of_first(w) == Some(i as int),
        r is None ==> v@.index_of_first(w) is None,
{
    proof { v@.index_of_first_ensures(w); }
    let mut i: usize = 0;
    while i < v.len()
        invariant
            i <= v.len(),
            forall|j: int| 0 <= j < i ==> v@[j] != w,
            match v@.index_of_first(w) {
                Some(index) => {
                    &&& v@.contains(w)
                    &&& 0 <= index < v@.len()
                    &&& v@[index] == w
                    &&& forall|j: int| 0 <= j < index < v@.len() ==> v@[j] != w
                },
                None => { !v@.contains(w) },
            },
        decreases v.len() - i,
    {
        if v[i] == w {
            return Some(i);
        }
        i += 1;
    }
    None
}

} // verus!
