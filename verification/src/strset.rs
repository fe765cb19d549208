//! Sets of texts, kept as ascending lists.

use crate::sort::{text_before, text_before_asymmetric, text_before_total, text_before_weak, text_less};
use crate::text::{same, views};
use vstd::prelude::*;

verus! {

/// Each text comes before the next ones.
pub open spec fn ascending(s: Seq<Seq<char>>) -> bool {
    forall|i: int, j: int| 0 <= i < j < s.len() ==> text_before(#[trigger] s[i], #[trigger] s[j])
}

/// The set with one more text.
pub open spec fn with_name(s: Seq<Seq<char>>, x: Seq<char>) -> Seq<Seq<char>>
    decreases s.len(),
{
    if s.len() == 0 {
        seq![x]
    } else if s.last() == x {
        s
    } else if text_before(s.last(), x) {
        s.push(x)
    } else {
        with_name(s.drop_last(), x).push(s.last())
    }
}

/// The set of the texts in a list.
pub open spec fn name_set(s: Seq<Seq<char>>) -> Seq<Seq<char>>
    decreases s.len(),
{
    if s.len() == 0 {
        Seq::empty()
    } else {
        with_name(name_set(s.drop_last()), s.last())
    }
}

proof fn lemma_with_name(s: Seq<Seq<char>>, x: Seq<char>)
    requires
        ascending(s),
    ensures
        ascending(with_name(s, x)),
        forall|y: Seq<char>| #[trigger]
            with_name(s, x).contains(y) <==> s.contains(y) || y == x,
    decreases s.len(),
{
    let r = with_name(s, x);
    if s.len() == 0 {
        assert(r[0] == x);
    } else if s.last() == x {
        assert(s[s.len() - 1] == x);
    } else if text_before(s.last(), x) {
        assert forall|i: int, j: int| 0 <= i < j < r.len() implies text_before(
            #[trigger] r[i],
            #[trigger] r[j],
        ) by {
            if j == s.len() && i < s.len() - 1 {
                assert(text_before(s[i], s[s.len() - 1]));
                lemma_text_before_transitive(s[i], s.last(), x);
            }
        }
        assert forall|y: Seq<char>| s.contains(y) || y == x implies #[trigger] r.contains(y) by {
            if s.contains(y) {
                let i = choose|i: int| 0 <= i < s.len() && s[i] == y;
                assert(r[i] == y);
            } else {
                assert(r[s.len() as int] == y);
            }
        }
    } else {
        let init = s.drop_last();
        assert(ascending(init));
        lemma_with_name(init, x);
        let q = with_name(init, x);
        if !text_before(x, s.last()) {
            text_before_total(x, s.last());
        }
        assert forall|y: Seq<char>| s.contains(y) <==> init.contains(y) || y == s.last() by {
            if s.contains(y) && y != s.last() {
                let i = choose|i: int| 0 <= i < s.len() && s[i] == y;
                assert(init[i] == y);
            }
            if init.contains(y) {
                let i = choose|i: int| 0 <= i < init.len() && init[i] == y;
                assert(s[i] == y);
            }
            assert(s[s.len() - 1] == s.last());
        }
        assert forall|i: int, j: int| 0 <= i < j < r.len() implies text_before(
            #[trigger] r[i],
            #[trigger] r[j],
        ) by {
            if j == q.len() {
                assert(q.contains(q[i]));
                if q[i] != x {
                    let k = choose|k: int| 0 <= k < init.len() && init[k] == q[i];
                    assert(text_before(s[k], s[s.len() - 1]));
                }
            }
        }
        assert forall|y: Seq<char>| #[trigger] r.contains(y) <==> s.contains(y) || y == x by {
            if r.contains(y) {
                let i = choose|i: int| 0 <= i < r.len() && r[i] == y;
                if i < q.len() {
                    assert(q.contains(y)) by {
                        assert(q[i] == y);
                    }
                }
            }
            if q.contains(y) {
                let i = choose|i: int| 0 <= i < q.len() && q[i] == y;
                assert(r[i] == y);
            }
            assert(r[q.len() as int] == s.last());
        }
    }
}

proof fn lemma_text_before_transitive(a: Seq<char>, b: Seq<char>, c: Seq<char>)
    requires
        text_before(a, b),
        text_before(b, c),
    ensures
        text_before(a, c),
{
    text_before_asymmetric(a, b);
    text_before_asymmetric(b, c);
    if !text_before(a, c) {
        text_before_weak(a, c, b);
    }
}

/// A set is ascending and has the texts of the list it was made from.
pub proof fn name_set_keeps_names(s: Seq<Seq<char>>)
    ensures
        ascending(name_set(s)),
        forall|y: Seq<char>| #[trigger] name_set(s).contains(y) <==> s.contains(y),
    decreases s.len(),
{
    if s.len() > 0 {
        let init = s.drop_last();
        name_set_keeps_names(init);
        lemma_with_name(name_set(init), s.last());
        assert forall|y: Seq<char>| #[trigger] name_set(s).contains(y) <==> s.contains(y) by {
            if s.contains(y) && y != s.last() {
                let i = choose|i: int| 0 <= i < s.len() && s[i] == y;
                assert(init[i] == y);
            }
            if init.contains(y) {
                let i = choose|i: int| 0 <= i < init.len() && init[i] == y;
                assert(s[i] == y);
            }
            assert(s[s.len() - 1] == s.last());
            assert(name_set(init).contains(y) <==> init.contains(y));
        }
    }
}

/// An ascending list is the set of its texts.
pub proof fn ascending_is_name_set(s: Seq<Seq<char>>)
    requires
        ascending(s),
    ensures
        name_set(s) == s,
    decreases s.len(),
{
    if s.len() > 0 {
        let init = s.drop_last();
        ascending_is_name_set(init);
        if init.len() > 0 {
            assert(text_before(s[s.len() - 2], s[s.len() - 1]));
            text_before_asymmetric(init.last(), s.last());
        }
        assert(init.push(s.last()) =~= s);
    } else {
        assert(name_set(s) =~= s);
    }
}

/// Adds a text to a set.
pub fn add_name(set: &mut Vec<String>, name: &str)
    ensures
        views(final(set)@) == with_name(views(old(set)@), name@),
{
    let ghost before = views(set@);
    let mut i: usize = set.len();
    assert(before.take(i as int) =~= before);
    assert(before.skip(i as int) =~= Seq::<Seq<char>>::empty());
    assert(with_name(before, name@) =~= with_name(before.take(i as int), name@) + before.skip(
        i as int,
    ));
    while i > 0
        invariant
            i <= set@.len(),
            before == views(set@),
            before == views(old(set)@),
            with_name(before, name@) == with_name(before.take(i as int), name@) + before.skip(
                i as int,
            ),
        ensures
            i <= set@.len(),
            before == views(set@),
            with_name(before, name@) == before.take(i as int).push(name@) + before.skip(i as int),
        decreases i,
    {
        let ghost head = before.take(i as int);
        assert(head.last() == set@[i - 1]@);
        if same(set[i - 1].as_str(), name) {
            assert(head + before.skip(i as int) =~= before);
            return ;
        }
        if text_less(set[i - 1].as_str(), name) {
            break;
        }
        proof {
            assert(head.drop_last() =~= before.take(i - 1));
            assert(with_name(head.drop_last(), name@).push(head.last()) + before.skip(i as int)
                =~= with_name(before.take(i - 1), name@) + before.skip(i - 1));
            if i == 1 {
                assert(before.take(0) =~= Seq::<Seq<char>>::empty());
                assert(before.take(0).push(name@) =~= seq![name@]);
            }
        }
        i -= 1;
    }
    set.insert(i, name.to_owned());
    assert(views(set@) =~= before.take(i as int).push(name@) + before.skip(i as int));
}

/// The set of the texts in a list.
pub fn collect_names(names: &Vec<String>) -> (r: Vec<String>)
    ensures
        views(r@) == name_set(views(names@)),
{
    let mut out: Vec<String> = Vec::new();
    let mut i: usize = 0;
    assert(views(out@) =~= Seq::<Seq<char>>::empty());
    while i < names.len()
        invariant
            i <= names@.len(),
            views(out@) == name_set(views(names@).take(i as int)),
        decreases names@.len() - i,
    {
        let ghost part = views(names@).take(i + 1);
        assert(part.drop_last() =~= views(names@).take(i as int));
        assert(part.last() == names@[i as int]@);
        add_name(&mut out, names[i].as_str());
        i += 1;
    }
    assert(views(names@).take(i as int) =~= views(names@));
    out
}

/// Compares two lists of texts.
pub fn same_names(a: &Vec<String>, b: &Vec<String>) -> (r: bool)
    ensures
        r == (views(a@) == views(b@)),
{
    if a.len() != b.len() {
        assert(views(a@).len() != views(b@).len());
        return false;
    }
    let mut i: usize = 0;
    while i < a.len()
        invariant
            i <= a@.len(),
            a@.len() == b@.len(),
            forall|j: int| 0 <= j < i ==> #[trigger] a@[j]@ == b@[j]@,
        decreases a@.len() - i,
    {
        if !same(a[i].as_str(), b[i].as_str()) {
            assert(views(a@)[i as int] != views(b@)[i as int]);
            return false;
        }
        i += 1;
    }
    assert(views(a@) =~= views(b@));
    true
}

/// A copy of a list of texts.
pub fn copy_names(names: &Vec<String>) -> (r: Vec<String>)
    ensures
        views(r@) == views(names@),
{
    let mut out: Vec<String> = Vec::new();
    let mut i: usize = 0;
    while i < names.len()
        invariant
            i <= names@.len(),
            out@.len() == i,
            forall|j: int| 0 <= j < i ==> #[trigger] out@[j]@ == names@[j]@,
        decreases names@.len() - i,
    {
        out.push(names[i].as_str().to_owned());
        i += 1;
    }
    assert(views(out@) =~= views(names@));
    out
}

} // verus!
