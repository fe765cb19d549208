//! Stable sorting.

use vstd::prelude::*;

verus! {

/// Items with a strict weak order.
pub trait Precedes: Sized {
    /// The item comes strictly before the other one.
    spec fn before(self, other: Self) -> bool;

    /// Of two items at most one comes before the other.
    proof fn before_asymmetric(a: Self, b: Self)
        ensures
            a.before(b) ==> !b.before(a),
    ;

    /// Not to come before is transitive.
    proof fn before_weak(a: Self, b: Self, c: Self)
        requires
            !a.before(b),
            !b.before(c),
        ensures
            !a.before(c),
    ;

    /// Tests whether the item comes strictly before the other one.
    fn comes_before(&self, other: &Self) -> (r: bool)
        ensures
            r == self.before(*other),
    ;
}

/// No item comes before one that stands ahead of it.
pub open spec fn sorted<T: Precedes>(s: Seq<T>) -> bool {
    forall|i: int, j: int| 0 <= i < j < s.len() ==> !(#[trigger] s[j]).before(#[trigger] s[i])
}

/// `p` lists, for each place of `r`, the place of `v` that its item comes from.
pub open spec fn rearranges<T>(v: Seq<T>, r: Seq<T>, p: Seq<int>) -> bool {
    &&& r.len() == v.len()
    &&& p.len() == v.len()
    &&& p.no_duplicates()
    &&& forall|i: int| 0 <= i < p.len() ==> 0 <= #[trigger] p[i] < v.len()
    &&& forall|i: int| 0 <= i < p.len() ==> r[i] == v[#[trigger] p[i]]
}

/// Items of which none comes before the other keep the order that they had.
pub open spec fn keeps_ties<T: Precedes>(r: Seq<T>, p: Seq<int>) -> bool {
    forall|i: int, j: int|
        0 <= i < j < r.len() && !r[i].before(r[j]) ==> #[trigger] p[i] < #[trigger] p[j]
}

/// `r` holds the items of `v` in their order; ties keep the order that they had.
pub open spec fn is_sorting<T: Precedes>(v: Seq<T>, r: Seq<T>) -> bool {
    sorted(r) && exists|p: Seq<int>| #[trigger] rearranges(v, r, p) && keeps_ties(r, p)
}

/// Sorts items; ties keep their order.
pub fn stable_sort<T: Precedes>(v: Vec<T>) -> (r: Vec<T>)
    ensures
        is_sorting(v@, r@),
{
    let ghost all = v@;
    let mut rest = v;
    let mut out: Vec<T> = Vec::new();
    let ghost mut p: Seq<int> = Seq::empty();
    assert(all.take(rest@.len() as int) =~= rest@);
    while rest.len() > 0
        invariant
            rest@ == all.take(rest@.len() as int),
            rest@.len() <= all.len(),
            out@.len() == all.len() - rest@.len(),
            p.len() == out@.len(),
            sorted(out@),
            p.no_duplicates(),
            forall|i: int| 0 <= i < p.len() ==> rest@.len() <= #[trigger] p[i] < all.len(),
            forall|i: int| 0 <= i < p.len() ==> out@[i] == all[#[trigger] p[i]],
            keeps_ties(out@, p),
        decreases rest@.len(),
    {
        let ghost k = rest@.len() - 1;
        let x = match rest.pop() {
            Some(x) => x,
            None => {
                return out;
            },
        };
        assert(rest@ =~= all.take(k));
        assert(x == all[k]);
        let mut lo: usize = 0;
        let mut hi: usize = out.len();
        while lo < hi
            invariant
                lo <= hi <= out@.len(),
                sorted(out@),
                forall|i: int| 0 <= i < lo ==> (#[trigger] out@[i]).before(x),
                forall|i: int| hi <= i < out@.len() ==> !(#[trigger] out@[i]).before(x),
            decreases hi - lo,
        {
            let mid: usize = lo + (hi - lo) / 2;
            if out[mid].comes_before(&x) {
                proof {
                    assert forall|i: int| 0 <= i <= mid implies (#[trigger] out@[i]).before(x) by {
                        if !out@[i].before(x) && i < mid {
                            T::before_weak(out@[mid as int], out@[i], x);
                        }
                    }
                }
                lo = mid + 1;
            } else {
                proof {
                    assert forall|i: int| mid <= i < out@.len() implies !(#[trigger] out@[i]).before(
                        x,
                    ) by {
                        if i > mid {
                            T::before_weak(out@[i], out@[mid as int], x);
                        }
                    }
                }
                hi = mid;
            }
        }
        let ghost before = out@;
        let ghost p0 = p;
        out.insert(lo, x);
        proof {
            p = p0.insert(lo as int, k);
            assert(out@ =~= before.insert(lo as int, x));
            assert forall|i: int, j: int| 0 <= i < j < out@.len() implies !(#[trigger] out@[j]).before(
                #[trigger] out@[i],
            ) by {
                let i0 = if i > lo { i - 1 } else { i };
                let j0 = if j > lo { j - 1 } else { j };
                if i == lo {
                    assert(!before[j0].before(x));
                } else if j == lo {
                    assert(before[i0].before(x));
                    T::before_asymmetric(before[i0], x);
                } else {
                    assert(out@[i] == before[i0] && out@[j] == before[j0]);
                }
            }
            assert forall|i: int| 0 <= i < p.len() implies k <= #[trigger] p[i] < all.len() by {
                let i0 = if i > lo { i - 1 } else { i };
                if i != lo {
                    assert(p[i] == p0[i0]);
                }
            }
            assert forall|i: int| 0 <= i < p.len() implies out@[i] == all[#[trigger] p[i]] by {
                let i0 = if i > lo { i - 1 } else { i };
                if i != lo {
                    assert(p[i] == p0[i0]);
                    assert(out@[i] == before[i0]);
                }
            }
            assert forall|i: int, j: int|
                0 <= i < p.len() && 0 <= j < p.len() && i != j implies p[i] != p[j] by {
                let i0 = if i > lo { i - 1 } else { i };
                let j0 = if j > lo { j - 1 } else { j };
                if i != lo {
                    assert(p[i] == p0[i0]);
                }
                if j != lo {
                    assert(p[j] == p0[j0]);
                }
            }
            assert forall|i: int, j: int|
                0 <= i < j < out@.len() && !out@[i].before(out@[j]) implies #[trigger] p[i]
                    < #[trigger] p[j] by {
                let i0 = if i > lo { i - 1 } else { i };
                let j0 = if j > lo { j - 1 } else { j };
                if i != lo {
                    assert(p[i] == p0[i0]);
                    assert(out@[i] == before[i0]);
                }
                if j != lo {
                    assert(p[j] == p0[j0]);
                    assert(out@[j] == before[j0]);
                }
            }
        }
    }
    assert(rearranges(all, out@, p));
    out
}

/// A sorting of a sequence holds the same items as often.
pub proof fn sorting_keeps_items<T: Precedes>(v: Seq<T>, r: Seq<T>)
    requires
        is_sorting(v, r),
    ensures
        r.len() == v.len(),
        forall|i: int| 0 <= i < r.len() ==> v.contains(#[trigger] r[i]),
        forall|i: int| 0 <= i < v.len() ==> r.contains(#[trigger] v[i]),
{
    let p = choose|p: Seq<int>| #[trigger] rearranges(v, r, p) && keeps_ties(r, p);
    assert forall|i: int| 0 <= i < r.len() implies v.contains(#[trigger] r[i]) by {
        assert(r[i] == v[p[i]]);
    }
    let places = p.to_set();
    p.unique_seq_to_set();
    let all = vstd::set_lib::set_int_range(0, v.len() as int);
    vstd::set_lib::lemma_int_range(0, v.len() as int);
    assert(places.subset_of(all));
    vstd::set_lib::lemma_subset_equality(places, all);
    assert forall|i: int| 0 <= i < v.len() implies r.contains(#[trigger] v[i]) by {
        assert(all.contains(i));
        assert(places.contains(i));
        let k = choose|k: int| 0 <= k < p.len() && p[k] == i;
        assert(r[k] == v[i]);
    }
}

/// The code point order of texts.
pub open spec fn text_before(a: Seq<char>, b: Seq<char>) -> bool
    decreases a.len(),
{
    if b.len() == 0 {
        false
    } else if a.len() == 0 {
        true
    } else if a[0] != b[0] {
        (a[0] as int) < (b[0] as int)
    } else {
        text_before(a.skip(1), b.skip(1))
    }
}

pub proof fn text_before_asymmetric(a: Seq<char>, b: Seq<char>)
    ensures
        text_before(a, b) ==> !text_before(b, a),
    decreases a.len(),
{
    if a.len() > 0 && b.len() > 0 {
        text_before_asymmetric(a.skip(1), b.skip(1));
    }
}

pub proof fn text_before_weak(a: Seq<char>, b: Seq<char>, c: Seq<char>)
    requires
        !text_before(a, b),
        !text_before(b, c),
    ensures
        !text_before(a, c),
    decreases a.len(),
{
    if a.len() > 0 && b.len() > 0 && c.len() > 0 {
        if a[0] == b[0] && b[0] == c[0] {
            text_before_weak(a.skip(1), b.skip(1), c.skip(1));
        }
    }
}

/// Of two different texts one comes first.
pub proof fn text_before_total(a: Seq<char>, b: Seq<char>)
    requires
        !text_before(a, b),
        !text_before(b, a),
    ensures
        a == b,
    decreases a.len(),
{
    if a.len() > 0 && b.len() > 0 {
        text_before_total(a.skip(1), b.skip(1));
        assert(a =~= seq![a[0]] + a.skip(1));
        assert(b =~= seq![b[0]] + b.skip(1));
    } else {
        assert(a =~= b);
    }
}

/// Compares two texts by their code points.
pub fn text_less(a: &str, b: &str) -> (r: bool)
    ensures
        r == text_before(a@, b@),
{
    let x = crate::text::chars_of(a);
    let y = crate::text::chars_of(b);
    let mut i: usize = 0;
    assert(x@.skip(0) =~= x@);
    assert(y@.skip(0) =~= y@);
    while i < x.len() && i < y.len()
        invariant
            i <= x@.len(),
            i <= y@.len(),
            text_before(a@, b@) == text_before(x@.skip(i as int), y@.skip(i as int)),
        decreases x@.len() - i,
    {
        let c: char = x[i];
        let d: char = y[i];
        if c != d {
            return c < d;
        }
        assert(x@.skip(i as int).skip(1) =~= x@.skip(i + 1));
        assert(y@.skip(i as int).skip(1) =~= y@.skip(i + 1));
        i += 1;
    }
    i < y.len()
}

impl Precedes for String {
    open spec fn before(self, other: Self) -> bool {
        text_before(self@, other@)
    }

    proof fn before_asymmetric(a: Self, b: Self) {
        text_before_asymmetric(a@, b@);
    }

    proof fn before_weak(a: Self, b: Self, c: Self) {
        text_before_weak(a@, b@, c@);
    }

    fn comes_before(&self, other: &Self) -> (r: bool) {
        text_less(self.as_str(), other.as_str())
    }
}

} // verus!
