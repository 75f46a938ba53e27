//! Stable sorting by an integer key.

use vstd::prelude::*;

verus! {

/// Something that is ordered by an integer.
pub trait Keyed: Sized + Copy {
    spec fn sort_key(self) -> int;

    /// Whether this comes strictly before `other`.
    fn precedes(self, other: Self) -> (r: bool)
        ensures
            r == (self.sort_key() < other.sort_key()),
    ;
}

/// `x` put into the sorted sequence `s`, behind everything that does not come after it.
pub open spec fn placed<T: Keyed>(s: Seq<T>, x: T) -> Seq<T>
    decreases s.len(),
{
    if s.len() > 0 && x.sort_key() < s.last().sort_key() {
        placed(s.drop_last(), x).push(s.last())
    } else {
        s.push(x)
    }
}

/// The elements of `s` in ascending order, those with equal keys in the order they have in `s`.
pub open spec fn in_order<T: Keyed>(s: Seq<T>) -> Seq<T>
    decreases s.len(),
{
    if s.len() == 0 {
        s
    } else {
        placed(in_order(s.drop_last()), s.last())
    }
}

/// Keys never fall along `s`.
pub open spec fn ascending<T: Keyed>(s: Seq<T>) -> bool {
    forall|i: int, j: int|
        0 <= i <= j < s.len() ==> (#[trigger] s[i]).sort_key() <= (#[trigger] s[j]).sort_key()
}

proof fn lemma_placed<T: Keyed>(s: Seq<T>, x: T)
    requires
        ascending(s),
    ensures
        ascending(placed(s, x)),
        placed(s, x).to_multiset() == s.to_multiset().insert(x),
        placed(s, x).len() == s.len() + 1,
        s.len() > 0 ==> placed(s, x).last().sort_key() == (if x.sort_key()
            < s.last().sort_key() {
            s.last().sort_key()
        } else {
            x.sort_key()
        }),
        s.len() == 0 ==> placed(s, x).last() == x,
    decreases s.len(),
{
    broadcast use vstd::seq_lib::group_to_multiset_ensures;

    if s.len() > 0 && x.sort_key() < s.last().sort_key() {
        let t = s.drop_last();
        lemma_placed(t, x);
        let p = placed(t, x);
        assert(t.push(s.last()) == s);
        assert(s.to_multiset() == t.to_multiset().insert(s.last()));
        assert(p.push(s.last()).to_multiset() =~= s.to_multiset().insert(x));
        assert(p.last().sort_key() <= s.last().sort_key());
        let q = p.push(s.last());
        assert forall|i: int, j: int| 0 <= i <= j < q.len() implies (#[trigger] q[i]).sort_key()
            <= (#[trigger] q[j]).sort_key() by {
            if j == p.len() && i < j {
                assert(p[i].sort_key() <= p[p.len() - 1].sort_key());
            }
        }
    } else {
        assert(s.push(x).to_multiset() == s.to_multiset().insert(x));
    }
}

/// Sorting orders the elements and neither loses nor adds any.
pub proof fn lemma_in_order<T: Keyed>(s: Seq<T>)
    ensures
        ascending(in_order(s)),
        in_order(s).to_multiset() == s.to_multiset(),
        in_order(s).len() == s.len(),
    decreases s.len(),
{
    broadcast use vstd::seq_lib::group_to_multiset_ensures;

    if s.len() > 0 {
        lemma_in_order(s.drop_last());
        lemma_placed(in_order(s.drop_last()), s.last());
        assert(s.drop_last().push(s.last()) == s);
    }
}

/// Sorting what is in order changes nothing.
pub proof fn lemma_already_in_order<T: Keyed>(s: Seq<T>)
    requires
        ascending(s),
    ensures
        in_order(s) == s,
    decreases s.len(),
{
    if s.len() > 0 {
        let rest = s.drop_last();
        assert(ascending(rest)) by {
            assert forall|i: int, j: int| 0 <= i <= j < rest.len() implies (
            #[trigger] rest[i]).sort_key() <= (#[trigger] rest[j]).sort_key() by {
                assert(s[i].sort_key() <= s[j].sort_key());
            }
        }
        lemma_already_in_order(rest);
        if rest.len() > 0 {
            assert(s[s.len() - 2].sort_key() <= s[s.len() - 1].sort_key());
            assert(rest.last() == s[s.len() - 2]);
        }
        assert(rest.push(s.last()) == s);
    }
}

/// Sorts by key; elements with equal keys stay in the order they have.
pub fn sort<T: Keyed>(items: &Vec<T>) -> (out: Vec<T>)
    ensures
        out@ == in_order(items@),
{
    let mut out: Vec<T> = Vec::new();
    let mut i: usize = 0;
    while i < items.len()
        invariant
            i <= items.len(),
            out@ == in_order(items@.take(i as int)),
            out.len() == i,
        decreases items.len() - i,
    {
        let x: T = items[i];
        let mut j: usize = out.len();
        let ghost s = out@;
        assert(s.take(j as int) == s);
        assert(s.skip(j as int) == Seq::<T>::empty());
        assert(placed(s, x) + s.skip(j as int) == placed(s, x));
        while j > 0 && x.precedes(out[j - 1])
            invariant
                j <= s.len(),
                out@ == s,
                placed(s, x) == placed(s.take(j as int), x) + s.skip(j as int),
            decreases j,
        {
            assert(s.take(j as int).drop_last() == s.take(j - 1));
            assert(s.take(j as int).last() == s[j - 1]);
            assert(placed(s.take(j - 1), x).push(s[j - 1]) + s.skip(j as int) == placed(
                s.take(j - 1),
                x,
            ) + s.skip(j - 1));
            j = j - 1;
        }
        out.insert(j, x);
        proof {
            assert(s.take(j as int).push(x) + s.skip(j as int) == s.insert(j as int, x));
            assert(items@.take(i + 1).drop_last() == items@.take(i as int));
            if j > 0 {
                assert(s.take(j as int).last() == s[j - 1]);
            }
        }
        i = i + 1;
    }
    assert(items@.take(i as int) == items@);
    out
}

/// How many elements of `s` are such as `f` says.
pub open spec fn count_of<T>(s: Seq<T>, f: spec_fn(T) -> bool) -> nat {
    s.to_multiset().filter(f).len()
}

/// What is counted in a sequence is counted in its two parts; none, some or all of a part.
pub proof fn lemma_count_parts<T>(s: Seq<T>, k: int, f: spec_fn(T) -> bool)
    requires
        0 <= k <= s.len(),
    ensures
        count_of(s, f) == count_of(s.take(k), f) + count_of(s.skip(k), f),
        count_of(s.take(k), f) <= k,
        count_of(s.skip(k), f) <= s.len() - k,
{
    broadcast use vstd::multiset::group_multiset_axioms;
    broadcast use vstd::seq_lib::group_to_multiset_ensures;

    let a = s.take(k);
    let b = s.skip(k);
    assert(a + b == s);
    vstd::seq_lib::lemma_multiset_commutative(a, b);
    assert(s.to_multiset().filter(f) =~= a.to_multiset().filter(f).add(b.to_multiset().filter(f)));
    lemma_count_len(a, f);
    lemma_count_len(b, f);
}

/// No more is counted than there is; nothing where nothing is such as `f` says, and everything
/// where everything is.
pub proof fn lemma_count_len<T>(s: Seq<T>, f: spec_fn(T) -> bool)
    ensures
        count_of(s, f) <= s.len(),
        (forall|i: int| 0 <= i < s.len() ==> !f(#[trigger] s[i])) ==> count_of(s, f) == 0,
        (forall|i: int| 0 <= i < s.len() ==> f(#[trigger] s[i])) ==> count_of(s, f) == s.len(),
{
    broadcast use vstd::multiset::group_multiset_axioms;
    broadcast use vstd::seq_lib::group_to_multiset_ensures;

    let m = s.to_multiset();
    let kept = m.filter(f);
    assert(kept.add(m.sub(kept)) =~= m);
    assert(kept.len() + m.sub(kept).len() == s.len());
    if forall|i: int| 0 <= i < s.len() ==> !f(#[trigger] s[i]) {
        assert forall|x: T| kept.count(x) == 0 by {
            if m.count(x) > 0 {
                assert(s.contains(x));
            }
        }
        assert(kept =~= vstd::multiset::Multiset::empty());
    }
    if forall|i: int| 0 <= i < s.len() ==> f(#[trigger] s[i]) {
        assert forall|x: T| kept.count(x) == m.count(x) by {
            if m.count(x) > 0 {
                assert(s.contains(x));
            }
        }
        assert(kept =~= m);
    }
}

/// Where everything that is such as `f` says is such as `g` says, `g` counts no less than `f`.
pub proof fn lemma_count_grows<T>(s: Seq<T>, f: spec_fn(T) -> bool, g: spec_fn(T) -> bool)
    requires
        forall|x: T| #[trigger] f(x) ==> g(x),
    ensures
        count_of(s, f) <= count_of(s, g),
{
    broadcast use vstd::multiset::group_multiset_axioms;

    let few = s.to_multiset().filter(f);
    let many = s.to_multiset().filter(g);
    assert(few.add(many.sub(few)) =~= many);
    assert(few.len() + many.sub(few).len() == many.len());
}

proof fn lemma_placed_keeps<T: Keyed>(s: Seq<T>, x: T, k: int)
    requires
        ascending(s),
    ensures
        placed(s, x).filter(|y: T| y.sort_key() == k) == (if x.sort_key() == k {
            s.filter(|y: T| y.sort_key() == k).push(x)
        } else {
            s.filter(|y: T| y.sort_key() == k)
        }),
    decreases s.len(),
{
    reveal(Seq::filter);
    let f = |y: T| y.sort_key() == k;
    if s.len() > 0 && x.sort_key() < s.last().sort_key() {
        let t = s.drop_last();
        assert(ascending(t)) by {
            assert forall|i: int, j: int| 0 <= i <= j < t.len() implies (
            #[trigger] t[i]).sort_key() <= (#[trigger] t[j]).sort_key() by {
                assert(s[i].sort_key() <= s[j].sort_key());
            }
        }
        lemma_placed_keeps(t, x, k);
        let p = placed(t, x);
        assert(p.push(s.last()).drop_last() =~= p);
    } else {
        assert(s.push(x).drop_last() =~= s);
    }
}

/// Sorting is stable: the elements of a key come in the order they had.
pub proof fn lemma_sorting_is_stable<T: Keyed>(s: Seq<T>, k: int)
    ensures
        in_order(s).filter(|y: T| y.sort_key() == k) == s.filter(|y: T| y.sort_key() == k),
    decreases s.len(),
{
    reveal(Seq::filter);
    if s.len() > 0 {
        lemma_sorting_is_stable(s.drop_last(), k);
        lemma_in_order(s.drop_last());
        lemma_placed_keeps(in_order(s.drop_last()), s.last(), k);
    }
}

} // verus!
