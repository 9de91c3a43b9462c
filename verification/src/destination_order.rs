//! The order of tracked destinations: by namespace, then by name.
use crate::api;
use crate::api::DestinationStatus;
use crate::text;
use crate::text::Text;
use std::cmp::Ordering;
use vstd::prelude::*;

verus! {

impl api::DestinationStatusView {
    /// Whether both name the same place.
    pub open spec fn same_place(self, other: api::DestinationStatusView) -> bool {
        self.namespace == other.namespace && self.name == other.name
    }

    /// Whether the place of this one comes strictly before that of `other`.
    pub open spec fn precedes(self, other: api::DestinationStatusView) -> bool {
        ||| text::text_precedes(self.namespace, other.namespace)
        ||| self.namespace == other.namespace && text::text_precedes(self.name, other.name)
    }

    /// How the place of this one compares to that of `other`.
    pub open spec fn order(self, other: api::DestinationStatusView) -> Ordering {
        if self.precedes(other) {
            Ordering::Less
        } else if other.precedes(self) {
            Ordering::Greater
        } else {
            Ordering::Equal
        }
    }
}

/// The order of places is irreflexive, asymmetric, transitive and total.
pub proof fn lemma_place_order(
    a: api::DestinationStatusView,
    b: api::DestinationStatusView,
    c: api::DestinationStatusView,
)
    ensures
        !a.precedes(a),
        a.precedes(b) ==> !b.precedes(a) && !a.same_place(b),
        a.precedes(b) && b.precedes(c) ==> a.precedes(c),
        a.same_place(b) || a.precedes(b) || b.precedes(a),
        a.same_place(b) ==> a.precedes(c) == b.precedes(c) && c.precedes(a) == c.precedes(b),
{
    text::lemma_text_order(a.namespace, b.namespace, c.namespace);
    text::lemma_text_order(a.name, b.name, c.name);
    text::lemma_text_order(b.namespace, a.namespace, c.namespace);
    text::lemma_text_order(b.name, a.name, c.name);
}

impl DestinationStatus {
    /// Whether the place of this one comes strictly before that of `other`.
    pub fn before(&self, other: &Self) -> (res: bool)
        ensures
            res == self@.precedes(other@),
    {
        text::text_before(self.namespace.as_str(), other.namespace.as_str()) || (self.namespace
            == other.namespace && text::text_before(self.name.as_str(), other.name.as_str()))
    }

    /// How the place of this one compares to that of `other`: by namespace,
    /// then by name.
    pub fn cmp(&self, other: &Self) -> (res: Ordering)
        ensures
            res == self@.order(other@),
            res == Ordering::Equal <==> self@.same_place(other@),
    {
        proof {
            lemma_place_order(self@, other@, self@);
            lemma_place_order(other@, self@, other@);
        }
        if self.before(other) {
            Ordering::Less
        } else if other.before(self) {
            Ordering::Greater
        } else {
            Ordering::Equal
        }
    }
}

impl PartialOrd for DestinationStatus {
    fn partial_cmp(&self, other: &Self) -> (res: Option<Ordering>) {
        Some(self.cmp(other))
    }
}

impl vstd::std_specs::cmp::PartialOrdSpecImpl for DestinationStatus {
    open spec fn obeys_partial_cmp_spec() -> bool {
        true
    }

    open spec fn partial_cmp_spec(&self, other: &Self) -> Option<Ordering> {
        Some(self@.order(other@))
    }
}

/// `x` put into `s` behind everything that does not come after it.
pub open spec fn insert_sorted(
    s: Seq<api::DestinationStatusView>,
    x: api::DestinationStatusView,
) -> Seq<api::DestinationStatusView>
    decreases s.len(),
{
    if s.len() == 0 {
        seq![x]
    } else if x.precedes(s.last()) {
        insert_sorted(s.drop_last(), x).push(s.last())
    } else {
        s.push(x)
    }
}

/// `s` by ascending place, what has the same place in the order of `s`.
pub open spec fn sorted(s: Seq<api::DestinationStatusView>) -> Seq<api::DestinationStatusView>
    decreases s.len(),
{
    if s.len() == 0 {
        s
    } else {
        insert_sorted(sorted(s.drop_last()), s.last())
    }
}

/// Sorts destinations by ascending place.
pub fn sort_destinations(destinations: Vec<DestinationStatus>) -> (res: Vec<DestinationStatus>)
    ensures
        text::views(res@) == sorted(text::views(destinations@)),
{
    let ghost all = text::views(destinations@);
    let mut res: Vec<DestinationStatus> = Vec::new();
    let mut i: usize = 0;
    assert(text::views(res@) =~= sorted(all.take(0)));
    while i < destinations.len()
        invariant
            i <= destinations@.len(),
            all == text::views(destinations@),
            text::views(res@) == sorted(all.take(i as int)),
        decreases destinations@.len() - i,
    {
        let x = destinations[i].clone();
        let ghost s = text::views(res@);
        assert(all.take(i + 1).drop_last() =~= all.take(i as int));
        assert(all.take(i + 1).last() == x@);
        let mut j: usize = res.len();
        assert(s.take(j as int) =~= s);
        assert(insert_sorted(s, x@) =~= insert_sorted(s.take(j as int), x@) + s.skip(j as int));
        while j > 0 && x.before(&res[j - 1])
            invariant
                j <= res@.len(),
                s == text::views(res@),
                insert_sorted(s, x@) == insert_sorted(s.take(j as int), x@) + s.skip(j as int),
            decreases j,
        {
            assert(s.take(j as int).last() == res@[j - 1]@);
            assert(s.take(j as int).drop_last() =~= s.take(j - 1));
            assert(insert_sorted(s.take(j - 1), x@) + s.skip(j - 1) =~= insert_sorted(
                s.take(j as int),
                x@,
            ) + s.skip(j as int));
            j = j - 1;
        }
        if j > 0 {
            assert(s.take(j as int).last() == res@[j - 1]@);
        }
        assert(insert_sorted(s.take(j as int), x@) =~= s.take(j as int).push(x@));
        res.insert(j, x);
        assert(text::views(res@) =~= s.take(j as int).push(x@) + s.skip(j as int));
        i = i + 1;
    }
    assert(all.take(i as int) =~= all);
    res
}

/// No place comes before an earlier one.
pub open spec fn ascending(s: Seq<api::DestinationStatusView>) -> bool {
    forall|i: int, j: int| 0 <= i < j < s.len() ==> !(#[trigger] s[j]).precedes(#[trigger] s[i])
}

/// No place occurs twice.
pub open spec fn distinct_places(s: Seq<api::DestinationStatusView>) -> bool {
    forall|i: int, j: int|
        0 <= i < j < s.len() ==> !(#[trigger] s[i]).same_place(#[trigger] s[j])
}

/// What is in the list at the place of `x`, in the order of the list.
pub open spec fn at_place(
    s: Seq<api::DestinationStatusView>,
    x: api::DestinationStatusView,
) -> Seq<api::DestinationStatusView> {
    s.filter(|d: api::DestinationStatusView| d.same_place(x))
}

proof fn lemma_insert_contains(
    s: Seq<api::DestinationStatusView>,
    x: api::DestinationStatusView,
    e: api::DestinationStatusView,
)
    ensures
        insert_sorted(s, x).contains(e) <==> s.contains(e) || e == x,
        insert_sorted(s, x).len() == s.len() + 1,
    decreases s.len(),
{
    if s.len() == 0 {
        assert(seq![x][0] == x);
    } else if x.precedes(s.last()) {
        lemma_insert_contains(s.drop_last(), x, e);
        text::lemma_push_contains(insert_sorted(s.drop_last(), x), s.last());
        text::lemma_push_contains(s.drop_last(), s.last());
        assert(s.drop_last().push(s.last()) =~= s);
    } else {
        text::lemma_push_contains(s, x);
    }
}

proof fn lemma_insert_ascending(
    s: Seq<api::DestinationStatusView>,
    x: api::DestinationStatusView,
)
    requires
        ascending(s),
    ensures
        ascending(insert_sorted(s, x)),
    decreases s.len(),
{
    let t = insert_sorted(s, x);
    if s.len() > 0 {
        let l = s.last();
        if x.precedes(l) {
            let r = s.drop_last();
            assert forall|i: int, j: int| 0 <= i < j < r.len() implies !(#[trigger] r[j]).precedes(
                #[trigger] r[i],
            ) by {
                assert(r[i] == s[i] && r[j] == s[j]);
            }
            lemma_insert_ascending(r, x);
            let u = insert_sorted(r, x);
            assert forall|i: int, j: int| 0 <= i < j < t.len() implies !(#[trigger] t[j]).precedes(
                #[trigger] t[i],
            ) by {
                if j < u.len() {
                    assert(t[i] == u[i] && t[j] == u[j]);
                } else {
                    assert(t[j] == l && t[i] == u[i]);
                    lemma_insert_contains(r, x, u[i]);
                    assert(u.contains(u[i]));
                    if u[i] == x {
                        lemma_place_order(x, l, x);
                    } else {
                        let k = choose|k: int| 0 <= k < r.len() && r[k] == u[i];
                        assert(s[k] == u[i] && s[s.len() - 1] == l);
                    }
                }
            }
        } else {
            assert forall|i: int, j: int| 0 <= i < j < t.len() implies !(#[trigger] t[j]).precedes(
                #[trigger] t[i],
            ) by {
                if j < s.len() {
                    assert(t[i] == s[i] && t[j] == s[j]);
                } else if i == s.len() - 1 {
                    assert(t[i] == l && t[j] == x);
                } else {
                    assert(t[i] == s[i] && t[j] == x);
                    assert(!s[s.len() - 1].precedes(s[i]));
                    lemma_place_order(x, s[i], l);
                    lemma_place_order(s[i], l, x);
                    lemma_place_order(l, s[i], x);
                }
            }
        }
    }
}

proof fn lemma_insert_at_place(
    s: Seq<api::DestinationStatusView>,
    x: api::DestinationStatusView,
    p: api::DestinationStatusView,
)
    ensures
        at_place(insert_sorted(s, x), p) == at_place(s.push(x), p),
    decreases s.len(),
{
    let pred = |d: api::DestinationStatusView| d.same_place(p);
    reveal(Seq::filter);
    if s.len() == 0 {
        assert(s.push(x) =~= seq![x]);
    } else if x.precedes(s.last()) {
        let r = s.drop_last();
        let u = insert_sorted(r, x);
        lemma_insert_at_place(r, x, p);
        assert(u.push(s.last()).drop_last() =~= u);
        assert(s.push(x).drop_last() =~= s);
        assert(r.push(x).drop_last() =~= r);
        assert(!(pred(x) && pred(s.last()))) by {
            lemma_place_order(x, s.last(), p);
        }
        let kept = r.filter(pred);
        assert(s.filter(pred) == if pred(s.last()) { kept.push(s.last()) } else { kept });
        assert(r.push(x).filter(pred) == if pred(x) { kept.push(x) } else { kept });
        assert(u.push(s.last()).filter(pred) == if pred(s.last()) {
            u.filter(pred).push(s.last())
        } else {
            u.filter(pred)
        });
        assert(s.push(x).filter(pred) == if pred(x) {
            s.filter(pred).push(x)
        } else {
            s.filter(pred)
        });
    }
}

/// Sorting keeps what is in the list, and how often: at every place stands
/// what stood there before, in the same order.
pub proof fn law_sorting_keeps(s: Seq<api::DestinationStatusView>, p: api::DestinationStatusView)
    ensures
        at_place(sorted(s), p) == at_place(s, p),
        sorted(s).len() == s.len(),
        sorted(s).contains(p) <==> s.contains(p),
    decreases s.len(),
{
    if s.len() > 0 {
        let r = s.drop_last();
        law_sorting_keeps(r, p);
        lemma_insert_at_place(sorted(r), s.last(), p);
        lemma_insert_contains(sorted(r), s.last(), p);
        text::lemma_push_contains(r, s.last());
        assert(r.push(s.last()) =~= s);
        reveal(Seq::filter);
        assert(sorted(r).push(s.last()).drop_last() =~= sorted(r));
    }
}

/// Sorted destinations stand by ascending place.
pub proof fn law_sorting_orders(s: Seq<api::DestinationStatusView>)
    ensures
        ascending(sorted(s)),
    decreases s.len(),
{
    if s.len() > 0 {
        law_sorting_orders(s.drop_last());
        lemma_insert_ascending(sorted(s.drop_last()), s.last());
    }
}

/// Sorting is deterministic: destinations at distinct places are listed in the
/// same order, whatever order they came in.
pub proof fn law_sorting_is_deterministic(
    s: Seq<api::DestinationStatusView>,
    t: Seq<api::DestinationStatusView>,
)
    requires
        distinct_places(s),
        distinct_places(t),
        forall|e: api::DestinationStatusView| s.contains(e) <==> t.contains(e),
    ensures
        sorted(s) == sorted(t),
{
    lemma_sorted_distinct(s);
    lemma_sorted_distinct(t);
    law_sorting_orders(s);
    law_sorting_orders(t);
    assert forall|e: api::DestinationStatusView| sorted(s).contains(e) <==> sorted(t).contains(e) by {
        law_sorting_keeps(s, e);
        law_sorting_keeps(t, e);
    }
    lemma_ascending_unique(sorted(s), sorted(t));
}

proof fn lemma_sorted_distinct(s: Seq<api::DestinationStatusView>)
    requires
        distinct_places(s),
    ensures
        distinct_places(sorted(s)),
    decreases s.len(),
{
    if s.len() > 0 {
        let r = s.drop_last();
        assert forall|i: int, j: int| 0 <= i < j < r.len() implies !(#[trigger] r[i]).same_place(
            #[trigger] r[j],
        ) by {
            assert(r[i] == s[i] && r[j] == s[j]);
        }
        lemma_sorted_distinct(r);
        let u = sorted(r);
        assert forall|i: int| 0 <= i < u.len() implies !(#[trigger] u[i]).same_place(s.last()) by {
            law_sorting_keeps(r, u[i]);
            assert(u.contains(u[i]));
            let k = choose|k: int| 0 <= k < r.len() && r[k] == u[i];
            assert(s[k] == u[i] && s[s.len() - 1] == s.last());
        }
        lemma_insert_distinct(u, s.last());
    }
}

proof fn lemma_insert_distinct(
    s: Seq<api::DestinationStatusView>,
    x: api::DestinationStatusView,
)
    requires
        distinct_places(s),
        forall|i: int| 0 <= i < s.len() ==> !(#[trigger] s[i]).same_place(x),
    ensures
        distinct_places(insert_sorted(s, x)),
    decreases s.len(),
{
    if s.len() > 0 && x.precedes(s.last()) {
        let r = s.drop_last();
        let u = insert_sorted(r, x);
        assert forall|i: int, j: int| 0 <= i < j < r.len() implies !(#[trigger] r[i]).same_place(
            #[trigger] r[j],
        ) by {
            assert(r[i] == s[i] && r[j] == s[j]);
        }
        assert forall|i: int| 0 <= i < r.len() implies !(#[trigger] r[i]).same_place(x) by {
            assert(r[i] == s[i]);
        }
        lemma_insert_distinct(r, x);
        let t = u.push(s.last());
        assert forall|i: int, j: int| 0 <= i < j < t.len() implies !(#[trigger] t[i]).same_place(
            #[trigger] t[j],
        ) by {
            if j < u.len() {
                assert(t[i] == u[i] && t[j] == u[j]);
            } else {
                assert(t[i] == u[i] && t[j] == s.last());
                lemma_insert_contains(r, x, u[i]);
                assert(u.contains(u[i]));
                assert(s[s.len() - 1] == s.last());
                if u[i] != x {
                    let k = choose|k: int| 0 <= k < r.len() && r[k] == u[i];
                    assert(s[k] == u[i]);
                }
            }
        }
    } else {
        let t = insert_sorted(s, x);
        assert forall|i: int, j: int| 0 <= i < j < t.len() implies !(#[trigger] t[i]).same_place(
            #[trigger] t[j],
        ) by {
            if j < s.len() {
                assert(t[i] == s[i] && t[j] == s[j]);
            } else {
                assert(t[i] == s[i]);
            }
        }
    }
}

proof fn lemma_ascending_unique(
    s: Seq<api::DestinationStatusView>,
    t: Seq<api::DestinationStatusView>,
)
    requires
        ascending(s),
        ascending(t),
        distinct_places(s),
        distinct_places(t),
        forall|e: api::DestinationStatusView| s.contains(e) <==> t.contains(e),
    ensures
        s == t,
    decreases s.len(),
{
    if s.len() == 0 {
        if t.len() > 0 {
            assert(t.contains(t[0]));
        }
        assert(s =~= t);
    } else {
        assert(s.contains(s[0]));
        assert(t.len() > 0) by {
            assert(t.contains(s[0]));
        }
        let a = s.last();
        let b = t.last();
        assert(s.contains(a)) by {
            assert(s[s.len() - 1] == a);
        }
        assert(t.contains(b)) by {
            assert(t[t.len() - 1] == b);
        }
        let i = choose|i: int| 0 <= i < s.len() && s[i] == b;
        let j = choose|j: int| 0 <= j < t.len() && t[j] == a;
        if a != b {
            assert(i < s.len() - 1 && j < t.len() - 1);
            assert(!s[s.len() - 1].precedes(s[i]));
            assert(!t[t.len() - 1].precedes(t[j]));
            assert(!s[i].same_place(s[s.len() - 1]));
            lemma_place_order(a, b, a);
            assert(false);
        }
        let x = s.drop_last();
        let y = t.drop_last();
        assert forall|e: api::DestinationStatusView| x.contains(e) <==> y.contains(e) by {
            text::lemma_push_contains(x, a);
            text::lemma_push_contains(y, a);
            assert(x.push(a) =~= s);
            assert(y.push(a) =~= t);
            assert(!x.contains(a)) by {
                if x.contains(a) {
                    let k = choose|k: int| 0 <= k < x.len() && x[k] == a;
                    assert(s[k] == a && s[s.len() - 1] == a);
                }
            }
            assert(!y.contains(a)) by {
                if y.contains(a) {
                    let k = choose|k: int| 0 <= k < y.len() && y[k] == a;
                    assert(t[k] == a && t[t.len() - 1] == a);
                }
            }
            assert(s.contains(e) <==> t.contains(e));
        }
        assert forall|i: int, j: int| 0 <= i < j < x.len() implies !(#[trigger] x[j]).precedes(
            #[trigger] x[i],
        ) && !x[i].same_place(x[j]) by {
            assert(x[i] == s[i] && x[j] == s[j]);
        }
        assert forall|i: int, j: int| 0 <= i < j < y.len() implies !(#[trigger] y[j]).precedes(
            #[trigger] y[i],
        ) && !y[i].same_place(y[j]) by {
            assert(y[i] == t[i] && y[j] == t[j]);
        }
        lemma_ascending_unique(x, y);
        assert(s =~= x.push(a));
        assert(t =~= y.push(a));
    }
}

/// What is sorted already stays as it is.
pub proof fn law_sorting_is_idempotent(s: Seq<api::DestinationStatusView>)
    requires
        ascending(s),
    ensures
        sorted(s) == s,
    decreases s.len(),
{
    if s.len() > 0 {
        let r = s.drop_last();
        assert forall|i: int, j: int| 0 <= i < j < r.len() implies !(#[trigger] r[j]).precedes(
            #[trigger] r[i],
        ) by {
            assert(r[i] == s[i] && r[j] == s[j]);
        }
        law_sorting_is_idempotent(r);
        if r.len() > 0 {
            assert(s[s.len() - 1] == s.last() && s[s.len() - 2] == r.last());
        }
        assert(insert_sorted(r, s.last()) =~= s);
    }
}

/// Destinations are listed by ascending namespace, and within a namespace by
/// ascending name.
pub proof fn law_listed_by_namespace_and_name(
    s: Seq<api::DestinationStatusView>,
    i: int,
    j: int,
)
    requires
        0 <= i < j < s.len(),
    ensures
        sorted(s).len() == s.len(),
        sorted(s)[i].namespace == sorted(s)[j].namespace || text::text_precedes(
            sorted(s)[i].namespace,
            sorted(s)[j].namespace,
        ),
        sorted(s)[i].namespace == sorted(s)[j].namespace ==> sorted(s)[i].name == sorted(s)[j].name
            || text::text_precedes(sorted(s)[i].name, sorted(s)[j].name),
{
    let t = sorted(s);
    law_sorting_orders(s);
    law_sorting_keeps(s, s[0]);
    assert(!t[j].precedes(t[i]));
    text::lemma_text_order(t[i].namespace, t[j].namespace, t[i].namespace);
    text::lemma_text_order(t[i].name, t[j].name, t[i].name);
}

/// Sorting neither adds nor drops nor changes anything, and what has the same
/// namespace and name stays in order.
pub proof fn law_sorting_changes_the_order_alone(
    s: Seq<api::DestinationStatusView>,
    namespace: Text,
    name: Text,
)
    ensures
        sorted(s).to_multiset() == s.to_multiset(),
        sorted(s).filter(
            |d: api::DestinationStatusView| d.namespace == namespace && d.name == name,
        ) == s.filter(|d: api::DestinationStatusView| d.namespace == namespace && d.name == name),
{
    let pred = |d: api::DestinationStatusView| d.namespace == namespace && d.name == name;
    lemma_sorted_multiset(s);
    if s.len() > 0 {
        let p = api::DestinationStatusView { namespace, name, ..s[0] };
        law_sorting_keeps(s, p);
        assert(pred =~= (|d: api::DestinationStatusView| d.same_place(p)));
    }
}

proof fn lemma_insert_multiset(
    s: Seq<api::DestinationStatusView>,
    x: api::DestinationStatusView,
)
    ensures
        insert_sorted(s, x).to_multiset() == s.to_multiset().insert(x),
    decreases s.len(),
{
    broadcast use vstd::seq_lib::group_to_multiset_ensures;

    if s.len() == 0 {
        assert(seq![x] =~= s.push(x));
    } else if x.precedes(s.last()) {
        lemma_insert_multiset(s.drop_last(), x);
        assert(s.drop_last().push(s.last()) =~= s);
        assert(insert_sorted(s, x).to_multiset() =~= s.to_multiset().insert(x));
    }
}

proof fn lemma_sorted_multiset(s: Seq<api::DestinationStatusView>)
    ensures
        sorted(s).to_multiset() == s.to_multiset(),
    decreases s.len(),
{
    broadcast use vstd::seq_lib::group_to_multiset_ensures;

    if s.len() > 0 {
        lemma_sorted_multiset(s.drop_last());
        lemma_insert_multiset(sorted(s.drop_last()), s.last());
        assert(s.drop_last().push(s.last()) =~= s);
    }
}

/// Places are compared by namespace first, and by name within a namespace.
pub proof fn law_places_are_compared_by_namespace(
    a: api::DestinationStatusView,
    b: api::DestinationStatusView,
)
    ensures
        match a.order(b) {
            Ordering::Less => text::text_precedes(a.namespace, b.namespace) || a.namespace
                == b.namespace && text::text_precedes(a.name, b.name),
            Ordering::Equal => a.namespace == b.namespace && a.name == b.name,
            Ordering::Greater => text::text_precedes(b.namespace, a.namespace) || a.namespace
                == b.namespace && text::text_precedes(b.name, a.name),
        },
{
    text::lemma_text_order(a.namespace, b.namespace, a.namespace);
    text::lemma_text_order(a.name, b.name, a.name);
}

/// Sorting hands out the destinations in the order that the laws on it speak of, and
/// one comes before another by namespace first and by name then.
pub proof fn law_sorting_of_destinations(
    destinations: Vec<DestinationStatus>,
    res: Vec<DestinationStatus>,
    a: &DestinationStatus,
    b: &DestinationStatus,
    is_before: bool,
    order: Ordering,
)
    requires
        call_ensures(sort_destinations, (destinations,), res),
        call_ensures(DestinationStatus::before, (a, b), is_before),
        call_ensures(DestinationStatus::cmp, (a, b), order),
    ensures
        text::views(res@) == sorted(text::views(destinations@)),
        is_before <==> text::text_precedes(a.namespace@, b.namespace@) || a.namespace@
            == b.namespace@ && text::text_precedes(a.name@, b.name@),
        order == Ordering::Less <==> is_before,
        order == Ordering::Equal <==> a.namespace@ == b.namespace@ && a.name@ == b.name@,
{
    law_places_are_compared_by_namespace(a@, b@);
    lemma_place_order(a@, b@, a@);
}

} // verus!
