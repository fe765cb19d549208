//! Token totals of models, where there are no more models than are told apart.

use crate::strmap::StrMap;
use crate::usage::session::{add_tokens, models_view, models_wf, ModelsByDay, MAX_DISTINCT_MODELS};
use crate::usage::snapshot::{with_model_days, with_models};
use vstd::multiset::Multiset;
use vstd::prelude::*;
use vstd::seq_lib::*;

verus! {

/// Tokens of a model, added up whatever the number of models is.
pub open spec fn plain_add() -> spec_fn(Map<Seq<char>, i64>, (Seq<char>, i64)) -> Map<
    Seq<char>,
    i64,
> {
    |m: Map<Seq<char>, i64>, item: (Seq<char>, i64)|
        if item.1 <= 0 {
            m
        } else {
            m.insert(
                item.0,
                if m.dom().contains(item.0) {
                    m[item.0].wrapping_add(item.1)
                } else {
                    item.1
                },
            )
        }
}

/// The models of a list with their tokens.
pub open spec fn pairs_of(list: Seq<(String, i64)>) -> Seq<(Seq<char>, i64)> {
    list.map_values(|p: (String, i64)| (p.0@, p.1))
}

/// The models of the days in `shown` with their tokens, day by day.
pub open spec fn model_items(
    list: Seq<(String, StrMap<i64>)>,
    shown: Seq<Seq<char>>,
) -> Seq<(Seq<char>, i64)>
    decreases list.len(),
{
    if list.len() == 0 {
        Seq::empty()
    } else {
        model_items(list.drop_last(), shown) + if shown.contains(list.last().0@) {
            pairs_of(list.last().1.entries@)
        } else {
            Seq::empty()
        }
    }
}

/// Adding up tokens gives the same in every order.
pub proof fn plain_adds_commute()
    ensures
        commutative_foldl(plain_add()),
{
    let f = plain_add();
    assert forall|x: (Seq<char>, i64), y: (Seq<char>, i64), m: Map<Seq<char>, i64>| #[trigger]
        f(f(m, x), y) == f(f(m, y), x) by {
        assert(f(f(m, x), y) =~= f(f(m, y), x));
    }
}

pub proof fn lemma_fold_concat<A, B>(a: Seq<A>, b: Seq<A>, v: B, f: spec_fn(B, A) -> B)
    ensures
        (a + b).fold_left(v, f) == b.fold_left(a.fold_left(v, f), f),
    decreases b.len(),
{
    if b.len() == 0 {
        assert(a + b =~= a);
    } else {
        lemma_fold_concat(a, b.drop_last(), v, f);
        assert((a + b).drop_last() =~= a + b.drop_last());
        assert((a + b).last() == b.last());
    }
}

/// Adding up tokens forgets no model.
pub proof fn lemma_plain_grows(m: Map<Seq<char>, i64>, items: Seq<(Seq<char>, i64)>)
    requires
        m.dom().finite(),
    ensures
        items.fold_left(m, plain_add()).dom().finite(),
        m.dom().subset_of(items.fold_left(m, plain_add()).dom()),
        m.dom().len() <= items.fold_left(m, plain_add()).dom().len(),
    decreases items.len(),
{
    if items.len() > 0 {
        lemma_plain_grows(m, items.drop_last());
    }
    vstd::set_lib::lemma_len_subset(m.dom(), items.fold_left(m, plain_add()).dom());
}

proof fn lemma_add_is_plain(m: Map<Seq<char>, i64>, item: (Seq<char>, i64))
    requires
        m.dom().finite(),
        plain_add()(m, item).dom().len() <= MAX_DISTINCT_MODELS,
    ensures
        add_tokens(m, item.0, item.1) == plain_add()(m, item),
{
    if item.1 > 0 && !m.dom().contains(item.0) {
        assert(plain_add()(m, item).dom() =~= m.dom().insert(item.0));
    }
}

proof fn lemma_models_are_plain(m: Map<Seq<char>, i64>, list: Seq<(String, i64)>)
    requires
        m.dom().finite(),
        pairs_of(list).fold_left(m, plain_add()).dom().len() <= MAX_DISTINCT_MODELS,
    ensures
        with_models(m, list) == pairs_of(list).fold_left(m, plain_add()),
    decreases list.len(),
{
    if list.len() > 0 {
        let init = list.drop_last();
        assert(pairs_of(list).drop_last() =~= pairs_of(init));
        assert(pairs_of(list).last() == (list.last().0@, list.last().1));
        let before = pairs_of(init).fold_left(m, plain_add());
        lemma_plain_grows(m, pairs_of(init));
        lemma_plain_grows(before, seq![pairs_of(list).last()]);
        assert(seq![pairs_of(list).last()].drop_last() =~= Seq::<(Seq<char>, i64)>::empty());
        reveal_with_fuel(Seq::fold_left, 2);
        assert(seq![pairs_of(list).last()].fold_left(before, plain_add()) == plain_add()(
            before,
            pairs_of(list).last(),
        ));
        lemma_models_are_plain(m, init);
        lemma_add_is_plain(before, pairs_of(list).last());
    }
}

/// Where there are no more models than are told apart, each has its own total.
pub proof fn few_models_are_told_apart(
    m: Map<Seq<char>, i64>,
    list: Seq<(String, StrMap<i64>)>,
    shown: Seq<Seq<char>>,
)
    requires
        m.dom().finite(),
        model_items(list, shown).fold_left(m, plain_add()).dom().len() <= MAX_DISTINCT_MODELS,
    ensures
        with_model_days(m, list, shown) == model_items(list, shown).fold_left(m, plain_add()),
    decreases list.len(),
{
    if list.len() > 0 {
        let init = list.drop_last();
        let head = model_items(init, shown);
        let tail = if shown.contains(list.last().0@) {
            pairs_of(list.last().1.entries@)
        } else {
            Seq::empty()
        };
        lemma_fold_concat(head, tail, m, plain_add());
        let before = head.fold_left(m, plain_add());
        lemma_plain_grows(m, head);
        lemma_plain_grows(before, tail);
        few_models_are_told_apart(m, init, shown);
        if shown.contains(list.last().0@) {
            lemma_models_are_plain(before, list.last().1.entries@);
        }
    }
}

/// Two lists without repetition that hold the same have the same items.
proof fn lemma_same_items<A>(a: Seq<A>, b: Seq<A>)
    requires
        a.no_duplicates(),
        b.no_duplicates(),
        forall|x: A| a.contains(x) <==> b.contains(x),
    ensures
        a.to_multiset() == b.to_multiset(),
{
    a.lemma_multiset_has_no_duplicates();
    b.lemma_multiset_has_no_duplicates();
    assert forall|x: A| #[trigger] a.to_multiset().count(x) == b.to_multiset().count(x) by {
        to_multiset_contains(a, x);
        to_multiset_contains(b, x);
    }
    assert(a.to_multiset() =~= b.to_multiset());
}

proof fn lemma_pairs_of_map(a: StrMap<i64>, b: StrMap<i64>)
    requires
        a.wf(),
        b.wf(),
        a@ == b@,
    ensures
        pairs_of(a.entries@).to_multiset() == pairs_of(b.entries@).to_multiset(),
{
    assert forall|x: (Seq<char>, i64)|
        pairs_of(a.entries@).contains(x) <==> pairs_of(b.entries@).contains(x) by {
        lemma_pair_in_map(a, x);
        lemma_pair_in_map(b, x);
    }
    assert(pairs_of(a.entries@).no_duplicates());
    assert(pairs_of(b.entries@).no_duplicates());
    lemma_same_items(pairs_of(a.entries@), pairs_of(b.entries@));
}

proof fn lemma_pair_in_map(a: StrMap<i64>, x: (Seq<char>, i64))
    requires
        a.wf(),
    ensures
        pairs_of(a.entries@).contains(x) <==> a@.dom().contains(x.0) && a@[x.0] == x.1,
{
    let list = pairs_of(a.entries@);
    if list.contains(x) {
        let i = choose|i: int| 0 <= i < list.len() && list[i] == x;
        a.lemma_entry(i);
    }
    if a@.dom().contains(x.0) && a@[x.0] == x.1 {
        let i = choose|i: int| 0 <= i < a.entries@.len() && #[trigger] a.entries@[i].0@ == x.0;
        a.lemma_entry(i);
        assert(list[i] == x);
    }
}

/// The items of a map of models.
spec fn items_of(models: Map<Seq<char>, i64>) -> Multiset<(Seq<char>, i64)> {
    pairs_of(kept_in(models).entries@).to_multiset()
}

spec fn keeps(s: StrMap<i64>, models: Map<Seq<char>, i64>) -> bool {
    s.wf() && s@ == models
}

spec fn kept_in(models: Map<Seq<char>, i64>) -> StrMap<i64> {
    choose|s: StrMap<i64>| keeps(s, models)
}

spec fn days_of(list: Seq<(String, StrMap<i64>)>) -> Seq<(Seq<char>, Map<Seq<char>, i64>)> {
    list.map_values(|e: (String, StrMap<i64>)| (e.0@, e.1@))
}

spec fn gather(shown: Seq<Seq<char>>) -> spec_fn(
    Multiset<(Seq<char>, i64)>,
    (Seq<char>, Map<Seq<char>, i64>),
) -> Multiset<(Seq<char>, i64)> {
    |s: Multiset<(Seq<char>, i64)>, d: (Seq<char>, Map<Seq<char>, i64>)|
        if shown.contains(d.0) {
            s.add(items_of(d.1))
        } else {
            s
        }
}

proof fn lemma_items_are_gathered(list: Seq<(String, StrMap<i64>)>, shown: Seq<Seq<char>>)
    requires
        forall|i: int| 0 <= i < list.len() ==> (#[trigger] list[i]).1.wf(),
    ensures
        model_items(list, shown).to_multiset() == days_of(list).fold_left(
            Multiset::empty(),
            gather(shown),
        ),
    decreases list.len(),
{
    if list.len() == 0 {
        assert(model_items(list, shown).to_multiset() =~= Multiset::empty()) by {
            model_items(list, shown).to_multiset_ensures();
        }
    } else {
        let init = list.drop_last();
        let last = list.last();
        assert(list[list.len() - 1] == last);
        assert forall|i: int| 0 <= i < init.len() implies (#[trigger] init[i]).1.wf() by {
            assert(init[i] == list[i]);
        }
        lemma_items_are_gathered(init, shown);
        assert(days_of(list).drop_last() =~= days_of(init));
        assert(days_of(list).last() == (last.0@, last.1@));
        if shown.contains(last.0@) {
            lemma_multiset_commutative(model_items(init, shown), pairs_of(last.1.entries@));
            assert(keeps(last.1, last.1@));
            lemma_pairs_of_map(kept_in(last.1@), last.1);
            assert(items_of(last.1@) == pairs_of(last.1.entries@).to_multiset());
            assert(model_items(list, shown).to_multiset() == model_items(
                init,
                shown,
            ).to_multiset().add(items_of(last.1@)));
        } else {
            assert(model_items(list, shown) =~= model_items(init, shown));
        }
        let g = gather(shown);
        let before = days_of(init).fold_left(Multiset::empty(), g);
        assert(days_of(list).len() > 0);
        assert(days_of(list).fold_left(Multiset::empty(), g) == g(before, days_of(list).last()));
    }
}

proof fn lemma_day_in_map(a: ModelsByDay, x: (Seq<char>, Map<Seq<char>, i64>))
    requires
        a.wf(),
    ensures
        days_of(a.entries@).contains(x) <==> models_view(a).dom().contains(x.0) && models_view(
            a,
        )[x.0] == x.1,
{
    let list = days_of(a.entries@);
    if list.contains(x) {
        let i = choose|i: int| 0 <= i < list.len() && list[i] == x;
        a.lemma_entry(i);
    }
    if models_view(a).dom().contains(x.0) && models_view(a)[x.0] == x.1 {
        let i = choose|i: int| 0 <= i < a.entries@.len() && #[trigger] a.entries@[i].0@ == x.0;
        a.lemma_entry(i);
        assert(list[i] == x);
    }
}

/// The items of the models of a log are those of the maps that they are kept in, in whichever order
/// these were filled.
pub proof fn items_ignore_the_order_of_lists(
    a: ModelsByDay,
    b: ModelsByDay,
    shown: Seq<Seq<char>>,
)
    requires
        models_wf(a),
        models_wf(b),
        models_view(a) == models_view(b),
    ensures
        model_items(a.entries@, shown).to_multiset() == model_items(
            b.entries@,
            shown,
        ).to_multiset(),
{
    assert forall|i: int| 0 <= i < a.entries@.len() implies (#[trigger] a.entries@[i]).1.wf() by {
        a.lemma_entry(i);
    }
    assert forall|i: int| 0 <= i < b.entries@.len() implies (#[trigger] b.entries@[i]).1.wf() by {
        b.lemma_entry(i);
    }
    lemma_items_are_gathered(a.entries@, shown);
    lemma_items_are_gathered(b.entries@, shown);
    let x = days_of(a.entries@);
    let y = days_of(b.entries@);
    assert forall|d: (Seq<char>, Map<Seq<char>, i64>)| x.contains(d) <==> y.contains(d) by {
        lemma_day_in_map(a, d);
        lemma_day_in_map(b, d);
    }
    assert(x.no_duplicates());
    assert(y.no_duplicates());
    lemma_same_items(x, y);
    let g = gather(shown);
    assert(commutative_foldl(g)) by {
        assert forall|
            p: (Seq<char>, Map<Seq<char>, i64>),
            q: (Seq<char>, Map<Seq<char>, i64>),
            s: Multiset<(Seq<char>, i64)>,
        | #[trigger]
            g(g(s, p), q) == g(g(s, q), p) by {
            assert(g(g(s, p), q) =~= g(g(s, q), p));
        }
    }
    lemma_fold_left_permutation(x, y, g, Multiset::empty());
}

/// The totals of models do not depend on the order in which a log was read into its maps, where there
/// are no more models than are told apart.
pub proof fn model_totals_ignore_the_order_of_lists(
    m: Map<Seq<char>, i64>,
    a: ModelsByDay,
    b: ModelsByDay,
    shown: Seq<Seq<char>>,
)
    requires
        m.dom().finite(),
        models_wf(a),
        models_wf(b),
        models_view(a) == models_view(b),
        model_items(a.entries@, shown).fold_left(m, plain_add()).dom().len()
            <= MAX_DISTINCT_MODELS,
    ensures
        with_model_days(m, a.entries@, shown) == with_model_days(m, b.entries@, shown),
{
    items_ignore_the_order_of_lists(a, b, shown);
    plain_adds_commute();
    lemma_fold_left_permutation(
        model_items(a.entries@, shown),
        model_items(b.entries@, shown),
        plain_add(),
        m,
    );
    few_models_are_told_apart(m, a.entries@, shown);
    few_models_are_told_apart(m, b.entries@, shown);
}

} // verus!
