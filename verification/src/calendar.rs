//! What sorting does to a calendar.

use vstd::prelude::*;

use crate::model;
use crate::model::SessionView;
use crate::text;

verus! {

/// Whether dates strictly rise from one session to the next.
pub open spec fn strictly_sorted(s: Seq<SessionView>) -> bool {
    forall|i: int, j: int| 0 <= i < j < s.len() ==> text::text_before(s[i].date, s[j].date)
}

/// Whether dates never fall from one session to the next.
pub open spec fn sorted(s: Seq<SessionView>) -> bool {
    forall|i: int, j: int| 0 <= i < j < s.len() ==> !text::text_before(s[j].date, s[i].date)
}

/// Whether no date occurs twice.
pub open spec fn distinct_dates(s: Seq<SessionView>) -> bool {
    forall|i: int, j: int| 0 <= i < j < s.len() ==> s[i].date != s[j].date
}

/// The sessions on one date, in their order.
pub open spec fn on_date(s: Seq<SessionView>, date: Seq<char>) -> Seq<SessionView> {
    s.filter(|e: SessionView| e.date == date)
}

proof fn lemma_insert_sorts(s: Seq<SessionView>, x: SessionView)
    requires
        sorted(s),
    ensures
        sorted(model::insert_by_date(s, x)),
{
    let later = |e: SessionView| text::text_before(x.date, e.date);
    model::lemma_first_place(s, later);
    let r = model::insert_by_date(s, x);
    assert forall|i: int, j: int| 0 <= i < j < r.len() implies !text::text_before(
        r[j].date,
        r[i].date,
    ) by {
        match model::first_place(s, later) {
            Some(p) => {
                let a = if i < p { i } else { i - 1 };
                let b = if j < p { j } else { j - 1 };
                if i == p {
                    // x stands before a session that is not before the first later one.
                    assert(r[j] == s[b]);
                    assert(later(s[p]));
                    if text::text_before(s[b].date, x.date) {
                        text::text_before_is_transitive(s[b].date, x.date, s[p].date);
                        if b == p {
                            text::text_before_is_irreflexive(s[p].date);
                        }
                    }
                } else if j == p {
                    assert(!later(s[i]));
                }
            },
            None => {
                if j == s.len() {
                    assert(!later(s[i]));
                }
            },
        }
    }
}

proof fn lemma_filter_insert(s: Seq<SessionView>, p: int, x: SessionView, f: spec_fn(SessionView) -> bool)
    requires
        0 <= p <= s.len(),
    ensures
        s.insert(p, x).filter(f) == s.take(p).filter(f) + (if f(x) {
            seq![x]
        } else {
            Seq::empty()
        }) + s.skip(p).filter(f),
        s.filter(f) == s.take(p).filter(f) + s.skip(p).filter(f),
{
    assert(s.insert(p, x) == s.take(p) + seq![x] + s.skip(p));
    Seq::filter_distributes_over_add(s.take(p) + seq![x], s.skip(p), f);
    Seq::filter_distributes_over_add(s.take(p), seq![x], f);
    let one = seq![x];
    reveal(Seq::filter);
    assert(one.drop_last() == Seq::<SessionView>::empty());
    assert(one.drop_last().filter(f) == Seq::<SessionView>::empty());
    assert(one.filter(f) == if f(x) { seq![x] } else { Seq::empty() });
    assert(s == s.take(p) + s.skip(p));
    Seq::filter_distributes_over_add(s.take(p), s.skip(p), f);
}

pub proof fn lemma_filter_nothing(s: Seq<SessionView>, f: spec_fn(SessionView) -> bool)
    requires
        forall|i: int| 0 <= i < s.len() ==> !f(#[trigger] s[i]),
    ensures
        s.filter(f) == Seq::<SessionView>::empty(),
    decreases s.len(),
{
    reveal(Seq::filter);
    if s.len() > 0 {
        assert(!f(s[s.len() - 1]));
        lemma_filter_nothing(s.drop_last(), f);
    }
}

proof fn lemma_insert_is_stable(s: Seq<SessionView>, x: SessionView, date: Seq<char>)
    requires
        sorted(s),
    ensures
        on_date(model::insert_by_date(s, x), date) == on_date(s.push(x), date),
{
    let later = |e: SessionView| text::text_before(x.date, e.date);
    let f = |e: SessionView| e.date == date;
    model::lemma_first_place(s, later);
    match model::first_place(s, later) {
        Some(p) => {
            lemma_filter_insert(s, p, x, f);
            lemma_filter_insert(s, s.len() as int, x, f);
            assert(s.insert(s.len() as int, x) == s.push(x));
            assert(s.take(s.len() as int) == s);
            assert(s.skip(s.len() as int) == Seq::<SessionView>::empty());
            lemma_filter_nothing(s.skip(s.len() as int), f);
            if f(x) {
                assert forall|i: int| 0 <= i < s.skip(p).len() implies !f(
                    #[trigger] s.skip(p)[i],
                ) by {
                    let e = s[p + i];
                    assert(later(s[p]));
                    if e.date == date {
                        if i == 0 {
                            text::text_before_is_irreflexive(date);
                        } else {
                            assert(!text::text_before(s[p + i].date, s[p].date));
                        }
                    }
                }
                lemma_filter_nothing(s.skip(p), f);
            }
            assert(on_date(model::insert_by_date(s, x), date) =~= on_date(s.push(x), date));
        },
        None => {},
    }
}

/// Sorting a calendar puts it in the order of its dates, and takes nothing out, adds nothing and
/// changes nothing: on every date the same sessions stand in the same order as before.
pub proof fn sorting_is_stable(s: Seq<SessionView>, date: Seq<char>)
    ensures
        sorted(model::sort_by_date(s)),
        model::sort_by_date(s).len() == s.len(),
        model::sort_by_date(s).to_multiset() == s.to_multiset(),
        on_date(model::sort_by_date(s), date) == on_date(s, date),
    decreases s.len(),
{
    if s.len() > 0 {
        let rest = s.drop_last();
        let x = s.last();
        let t = model::sort_by_date(rest);
        sorting_is_stable(rest, date);
        lemma_insert_sorts(t, x);
        lemma_insert_is_stable(t, x, date);
        assert(rest.push(x) == s);
        let later = |e: SessionView| text::text_before(x.date, e.date);
        model::lemma_first_place(t, later);
        broadcast use vstd::seq_lib::group_to_multiset_ensures;
        vstd::seq_lib::to_multiset_build(rest, x);
        match model::first_place(t, later) {
            Some(p) => {
                vstd::seq_lib::to_multiset_insert(t, p, x);
            },
            None => {
                vstd::seq_lib::to_multiset_build(t, x);
            },
        }
        let f = |e: SessionView| e.date == date;
        rest.lemma_filter_push(x, f);
        t.lemma_filter_push(x, f);
    }
}

/// Sorting adds no session.
pub proof fn sorting_adds_nothing(s: Seq<SessionView>, i: int)
    requires
        0 <= i < model::sort_by_date(s).len(),
    ensures
        s.contains(model::sort_by_date(s)[i]),
{
    let r = model::sort_by_date(s);
    sorting_is_stable(s, r[i].date);
    broadcast use vstd::seq_lib::group_to_multiset_ensures;
    assert(r.to_multiset().count(r[i]) > 0);
    assert(s.to_multiset().count(r[i]) > 0);
}

/// Sorting keeps every session in the calendar.
pub proof fn sorting_keeps(s: Seq<SessionView>, i: int)
    requires
        0 <= i < s.len(),
    ensures
        model::sort_by_date(s).contains(s[i]),
{
    sorting_is_stable(s, s[i].date);
    broadcast use vstd::seq_lib::group_to_multiset_ensures;
    assert(s.to_multiset().count(s[i]) > 0);
    assert(model::sort_by_date(s).to_multiset().count(s[i]) > 0);
}

/// Sorting a calendar in which no date occurs twice makes its dates rise strictly.
pub proof fn sorting_distinct_dates(s: Seq<SessionView>)
    requires
        distinct_dates(s),
    ensures
        strictly_sorted(model::sort_by_date(s)),
    decreases s.len(),
{
    if s.len() > 0 {
        let rest = s.drop_last();
        let x = s.last();
        let t = model::sort_by_date(rest);
        assert(distinct_dates(rest));
        sorting_distinct_dates(rest);
        sorting_is_stable(s, x.date);
        sorting_is_stable(rest, x.date);
        let r = model::sort_by_date(s);
        let later = |e: SessionView| text::text_before(x.date, e.date);
        model::lemma_first_place(t, later);
        assert forall|i: int, j: int| 0 <= i < j < r.len() implies text::text_before(
            r[i].date,
            r[j].date,
        ) by {
            let p = match model::first_place(t, later) {
                Some(p) => p,
                None => t.len() as int,
            };
            assert(r == t.insert(p, x));
            text::text_before_is_total(r[i].date, r[j].date);
            assert(!text::text_before(r[j].date, r[i].date));
            if i == p || j == p {
                let k = if i == p { j - 1 } else { i };
                sorting_adds_nothing(rest, k);
                let q = choose|q: int| 0 <= q < rest.len() && rest[q] == t[k];
                assert(s[q] == rest[q]);
                assert(s[q].date != s[s.len() - 1].date);
            } else {
                let a = if i < p { i } else { i - 1 };
                let b = if j < p { j } else { j - 1 };
                assert(r[i] == t[a] && r[j] == t[b]);
            }
        }
    }
}

/// A calendar whose dates rise strictly is left as it is.
pub proof fn sorting_sorted_dates(s: Seq<SessionView>)
    requires
        strictly_sorted(s),
    ensures
        model::sort_by_date(s) == s,
    decreases s.len(),
{
    if s.len() > 0 {
        let rest = s.drop_last();
        let x = s.last();
        assert(strictly_sorted(rest));
        sorting_sorted_dates(rest);
        let later = |e: SessionView| text::text_before(x.date, e.date);
        assert forall|j: int| 0 <= j < rest.len() implies !later(#[trigger] rest[j]) by {
            assert(text::text_before(s[j].date, s[s.len() - 1].date));
            if later(rest[j]) {
                text::text_before_is_transitive(x.date, rest[j].date, x.date);
                text::text_before_is_irreflexive(x.date);
            }
        }
        model::lemma_first_place_none(rest, later);
        assert(rest.push(x) == s);
    }
}

/// Dates that rise strictly differ.
pub proof fn sorted_dates_are_distinct(s: Seq<SessionView>)
    requires
        strictly_sorted(s),
    ensures
        distinct_dates(s),
{
    assert forall|i: int, j: int| 0 <= i < j < s.len() implies s[i].date != s[j].date by {
        text::text_before_is_irreflexive(s[i].date);
    }
}

} // verus!
