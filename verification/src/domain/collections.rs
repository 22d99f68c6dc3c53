//! The lists of ids that entities hold (roles of a membership, members of a
//! team): what taking an id out leaves, and the laws of adding and removing.

use vstd::prelude::*;

verus! {

/// `s` with every copy of `x` taken out, the rest in order.
pub open spec fn without<T>(s: Seq<T>, x: T) -> Seq<T>
    decreases s.len(),
{
    if s.len() == 0 {
        s
    } else if s.last() != x {
        without(s.drop_last(), x).push(s.last())
    } else {
        without(s.drop_last(), x)
    }
}

/// After taking `x` out, `x` is gone and every other element is there
/// exactly when it was there before.
pub proof fn lemma_without_contains<T>(s: Seq<T>, x: T)
    ensures
        !without(s, x).contains(x),
        forall|y: T| y != x ==> (#[trigger] without(s, x).contains(y) == s.contains(y)),
    decreases s.len(),
{
    if s.len() > 0 {
        let rest = s.drop_last();
        lemma_without_contains(rest, x);
        let w = without(s, x);
        let wr = without(rest, x);
        assert forall|k: int| 0 <= k < wr.len() implies #[trigger] w[k] == wr[k] by {}
        assert forall|y: T| y != x implies (#[trigger] without(s, x).contains(y) == s.contains(y)) by {
            if s.contains(y) {
                let i = choose|i: int| 0 <= i < s.len() && s[i] == y;
                if i < s.len() - 1 {
                    assert(rest[i] == y);
                    assert(rest.contains(y));
                    assert(wr.contains(y));
                    let k = choose|k: int| 0 <= k < wr.len() && wr[k] == y;
                    assert(w[k] == y);
                } else {
                    assert(w[w.len() - 1] == y);
                }
            }
            if w.contains(y) {
                let i = choose|i: int| 0 <= i < w.len() && w[i] == y;
                if s.last() != x && i == w.len() - 1 {
                    assert(s[s.len() - 1] == y);
                } else {
                    assert(wr[i] == y);
                    assert(wr.contains(y));
                    assert(rest.contains(y));
                    let k = choose|k: int| 0 <= k < rest.len() && rest[k] == y;
                    assert(s[k] == y);
                }
            }
        }
        if without(s, x).contains(x) {
            let w = without(s, x);
            let i = choose|i: int| 0 <= i < w.len() && w[i] == x;
            if s.last() != x && i == w.len() - 1 {
            } else {
                assert(without(rest, x)[i] == x);
            }
        }
    }
}

/// Taking out an element that is not there changes nothing.
pub proof fn lemma_without_absent<T>(s: Seq<T>, x: T)
    requires
        !s.contains(x),
    ensures
        without(s, x) == s,
    decreases s.len(),
{
    if s.len() > 0 {
        assert(!s.drop_last().contains(x)) by {
            if s.drop_last().contains(x) {
                let i = choose|i: int| 0 <= i < s.drop_last().len() && s.drop_last()[i] == x;
                assert(s[i] == x);
            }
        }
        lemma_without_absent(s.drop_last(), x);
        assert(s.last() != x) by {
            assert(s[s.len() - 1] == s.last());
        }
        assert(s.drop_last().push(s.last()) =~= s);
    }
}

/// Removing an element that was just added to a list that did not hold it
/// gives back the list from before.
pub proof fn lemma_without_undoes_push<T>(s: Seq<T>, x: T)
    requires
        !s.contains(x),
    ensures
        without(s.push(x), x) == s,
{
    assert(s.push(x).drop_last() =~= s);
    lemma_without_absent(s, x);
}

/// Adding an element that is not there keeps a list free of duplicates.
pub proof fn lemma_push_new_no_duplicates<T>(s: Seq<T>, x: T)
    requires
        s.no_duplicates(),
        !s.contains(x),
    ensures
        s.push(x).no_duplicates(),
{
    assert forall|i: int, j: int|
        0 <= i < s.len() + 1 && 0 <= j < s.len() + 1 && i != j implies #[trigger] s.push(x)[i]
        != #[trigger] s.push(x)[j] by {
        if i == s.len() {
            assert(s[j] != x);
        } else if j == s.len() {
            assert(s[i] != x);
        }
    }
}

} // verus!
