//! Which copies of a source object are expected, and which of the tracked ones
//! are stale.
use crate::api;
use crate::api::{Destination, DestinationStatus, ObjectSync, SyncStrategy};
use crate::meta;
use crate::meta::ObjectMeta;
use crate::resource_controller::ResourceControllerImpl;
use crate::text;
use crate::text::Text;
use vstd::prelude::*;

verus! {

/// An expected copy.
#[derive(Debug, PartialEq, Eq)]
pub struct ExpectedDestination {
    /// The namespace of the copy.
    pub namespace: String,
    /// The name of the copy.
    pub name: String,
    /// The strategy of the destination that asks for the copy.
    pub strategy: Option<SyncStrategy>,
}

/// The model of [`ExpectedDestination`].
#[verifier::ext_equal]
pub struct ExpectedDestinationView {
    pub namespace: Text,
    pub name: Text,
    pub strategy: Option<SyncStrategy>,
}

impl View for ExpectedDestination {
    type V = ExpectedDestinationView;

    open spec fn view(&self) -> ExpectedDestinationView {
        ExpectedDestinationView {
            namespace: self.namespace@,
            name: self.name@,
            strategy: self.strategy,
        }
    }
}

/// The first of the namespaces that bears the name, where there is one.
pub open spec fn first_named(namespaces: Seq<meta::ObjectMetaView>, name: Text) -> Option<
    meta::ObjectMetaView,
>
    decreases namespaces.len(),
{
    if namespaces.len() == 0 {
        None
    } else if namespaces[0].name_any() == name {
        Some(namespaces[0])
    } else {
        first_named(namespaces.drop_first(), name)
    }
}

impl meta::ObjectMetaView {
    /// Whether the object is not being deleted.
    pub open spec fn live(self) -> bool {
        self.deletion_timestamp is None
    }
}

impl api::DestinationView {
    /// The copy in `namespace`.
    pub open spec fn expect_in(self, o: api::ObjectSyncView, namespace: Text) -> ExpectedDestinationView {
        ExpectedDestinationView { namespace, name: self.copy_name(o), strategy: self.strategy }
    }

    /// The copies in all the live ones of the namespaces.
    pub open spec fn expect_in_all(
        self,
        o: api::ObjectSyncView,
        namespaces: Seq<meta::ObjectMetaView>,
    ) -> Seq<ExpectedDestinationView>
        decreases namespaces.len(),
    {
        if namespaces.len() == 0 {
            Seq::empty()
        } else {
            let before = self.expect_in_all(o, namespaces.drop_last());
            let ns = namespaces.last();
            if ns.live() && self.copies_to(o, ns.name_any()) {
                before.push(self.expect_in(o, ns.name_any()))
            } else {
                before
            }
        }
    }

    /// The copies that this destination asks for, given the namespaces there
    /// are: none in a namespace that is being deleted, as the finalizers of the
    /// copies would keep it from going away.
    pub open spec fn expect(
        self,
        o: api::ObjectSyncView,
        namespaces: Seq<meta::ObjectMetaView>,
    ) -> Seq<ExpectedDestinationView> {
        if self.covers_all_namespaces() {
            self.expect_in_all(o, namespaces)
        } else if self.copies_to(o, self.namespace) {
            match first_named(namespaces, self.namespace) {
                Some(ns) => if ns.live() {
                    seq![self.expect_in(o, self.namespace)]
                } else {
                    Seq::empty()
                },
                None => Seq::empty(),
            }
        } else {
            Seq::empty()
        }
    }
}

/// The copies that the destinations ask for, one destination after the other.
pub open spec fn expect_each(
    destinations: Seq<api::DestinationView>,
    o: api::ObjectSyncView,
    namespaces: Seq<meta::ObjectMetaView>,
) -> Seq<ExpectedDestinationView>
    decreases destinations.len(),
{
    if destinations.len() == 0 {
        Seq::empty()
    } else {
        expect_each(destinations.drop_last(), o, namespaces) + destinations.last().expect(
            o,
            namespaces,
        )
    }
}

/// The expected copies of the source of `o`.
pub open spec fn expected(
    o: api::ObjectSyncView,
    namespaces: Seq<meta::ObjectMetaView>,
) -> Seq<ExpectedDestinationView> {
    expect_each(o.spec.destinations, o, namespaces)
}

impl Destination {
    fn expect_into(
        &self,
        o: &ObjectSync,
        namespaces: &Vec<ObjectMeta>,
        res: &mut Vec<ExpectedDestination>,
    )
        ensures
            text::views(final(res)@) == text::views(old(res)@) + self@.expect(
                o@,
                text::views(namespaces@),
            ),
    {
        let ghost all = text::views(namespaces@);
        let ghost begin = text::views(res@);
        if self.applies_to_all_namespaces() {
            let mut i: usize = 0;
            assert(begin =~= begin + self@.expect_in_all(o@, all.take(0)));
            while i < namespaces.len()
                invariant
                    i <= namespaces@.len(),
                    all == text::views(namespaces@),
                    text::views(res@) == begin + self@.expect_in_all(o@, all.take(i as int)),
                decreases namespaces@.len() - i,
            {
                let ns: &ObjectMeta = &namespaces[i];
                let ghost before = text::views(res@);
                proof {
                    assert(all[i as int] == ns@);
                    assert(all.take(i + 1).drop_last() =~= all.take(i as int));
                    assert(all.take(i + 1).last() == ns@);
                }
                if ns.deletion_timestamp.is_none() {
                    if let Some((namespace, name)) = self.applies_to(o, ns.name_any().as_str()) {
                        res.push(ExpectedDestination { namespace, name, strategy: self.strategy });
                        assert(text::views(res@) =~= before.push(
                            self@.expect_in(o@, ns@.name_any()),
                        ));
                    }
                }
                assert(text::views(res@) =~= begin + self@.expect_in_all(o@, all.take(i + 1)));
                i = i + 1;
            }
            assert(all.take(i as int) =~= all);
        } else if let Some((namespace, name)) = self.applies_to(o, self.namespace.as_str()) {
            let mut i: usize = 0;
            let mut found: bool = false;
            assert(all.skip(0) =~= all);
            while i < namespaces.len() && !found
                invariant
                    i <= namespaces@.len(),
                    all == text::views(namespaces@),
                    found ==> i < namespaces@.len() && first_named(all, self@.namespace) == Some(
                        all[i as int],
                    ),
                    !found ==> first_named(all, self@.namespace) == first_named(
                        all.skip(i as int),
                        self@.namespace,
                    ),
                decreases namespaces@.len() - i + if found { 0int } else { 1int },
            {
                let ns: &ObjectMeta = &namespaces[i];
                assert(all.skip(i as int)[0] == ns@);
                assert(all.skip(i as int).drop_first() =~= all.skip(i + 1));
                if text::same_text(ns.name_any().as_str(), self.namespace.as_str()) {
                    found = true;
                } else {
                    i = i + 1;
                }
            }
            if found && namespaces[i].deletion_timestamp.is_none() {
                res.push(ExpectedDestination { namespace, name, strategy: self.strategy });
                assert(text::views(res@) =~= begin + seq![self@.expect_in(o@, self@.namespace)]);
            } else {
                assert(begin =~= begin + Seq::empty());
            }
        } else {
            assert(begin =~= begin + Seq::empty());
        }
    }
}

impl ResourceControllerImpl {
    /// All expected destinations of `event`, given the namespaces there are.
    pub fn expected_destinations(event: &ObjectSync, namespaces: &Vec<ObjectMeta>) -> (res: Vec<
        ExpectedDestination,
    >)
        ensures
            text::views(res@) == expected(event@, text::views(namespaces@)),
    {
        let ghost all = event@.spec.destinations;
        let mut res: Vec<ExpectedDestination> = Vec::new();
        let mut i: usize = 0;
        assert(text::views(res@) =~= expect_each(all.take(0), event@, text::views(namespaces@)));
        while i < event.spec.destinations.len()
            invariant
                i <= event.spec.destinations@.len(),
                all == event@.spec.destinations,
                text::views(res@) == expect_each(
                    all.take(i as int),
                    event@,
                    text::views(namespaces@),
                ),
            decreases event.spec.destinations@.len() - i,
        {
            let d: &Destination = &event.spec.destinations[i];
            proof {
                assert(all[i as int] == d@);
                assert(all.take(i + 1).drop_last() =~= all.take(i as int));
                assert(all.take(i + 1).last() == d@);
            }
            d.expect_into(event, namespaces, &mut res);
            i = i + 1;
        }
        assert(all.take(i as int) =~= all);
        res
    }

    /// Whether both track the same copy.
    pub fn is_same_destination(me: &DestinationStatus, other: &DestinationStatus) -> (res: bool)
        ensures
            res == me@.same_destination(other@),
    {
        me.name == other.name && me.namespace == other.namespace && me.group == other.group
            && me.kind == other.kind
    }
}

impl api::DestinationStatusView {
    /// Whether both track the same copy.
    pub open spec fn same_destination(self, other: api::DestinationStatusView) -> bool {
        &&& self.name == other.name
        &&& self.namespace == other.namespace
        &&& self.group == other.group
        &&& self.kind == other.kind
    }

    /// The same copy, with the revisions that `known` records.
    pub open spec fn with_versions_of(
        self,
        known: api::DestinationStatusView,
    ) -> api::DestinationStatusView {
        api::DestinationStatusView {
            source_version: known.source_version,
            synced_version: known.synced_version,
            ..self
        }
    }
}

impl ExpectedDestinationView {
    /// The copy of kind `gvk`, of which nothing is known.
    pub open spec fn unsynced(self, gvk: meta::GroupVersionKindView) -> api::DestinationStatusView {
        api::DestinationStatusView {
            name: self.name,
            namespace: self.namespace,
            group: gvk.group,
            version: gvk.version,
            kind: gvk.kind,
            source_version: None,
            synced_version: None,
            strategy: self.strategy,
        }
    }
}

/// The first of the tracked copies that is the same as `d`, where there is one.
pub open spec fn first_same(
    known: Seq<api::DestinationStatusView>,
    d: api::DestinationStatusView,
) -> Option<api::DestinationStatusView>
    decreases known.len(),
{
    if known.len() == 0 {
        None
    } else if known[0].same_destination(d) {
        Some(known[0])
    } else {
        first_same(known.drop_first(), d)
    }
}

/// What is left of the tracked copies without those that are expected.
pub open spec fn stale(
    known: Seq<api::DestinationStatusView>,
    expected: Seq<api::DestinationStatusView>,
) -> Seq<api::DestinationStatusView>
    decreases expected.len(),
{
    if expected.len() == 0 {
        known
    } else {
        let last = expected.last();
        stale(known, expected.drop_last()).filter(
            |d: api::DestinationStatusView| !d.same_destination(last),
        )
    }
}

/// The expected copy `d` with what is known of it: the revisions of the tracked
/// copy. They are not taken over where the strategy has changed, so that the copy
/// is written again.
pub open spec fn carried(
    d: api::DestinationStatusView,
    known: Option<api::DestinationStatusView>,
) -> api::DestinationStatusView {
    match known {
        Some(status) => if api::effective_strategy(status.strategy) == api::effective_strategy(
            d.strategy,
        ) {
            d.with_versions_of(status)
        } else {
            d
        },
        None => d,
    }
}

/// The expected copies, not looked up among the tracked ones.
pub open spec fn unsynced(
    expected: Seq<ExpectedDestinationView>,
    gvk: meta::GroupVersionKindView,
) -> Seq<api::DestinationStatusView> {
    Seq::new(expected.len(), |i: int| expected[i].unsynced(gvk))
}

/// The expected copies with what is known of them. What is known of a copy goes
/// to the first expectation of it.
pub open spec fn planned(
    expected: Seq<api::DestinationStatusView>,
    known: Seq<api::DestinationStatusView>,
) -> Seq<api::DestinationStatusView> {
    Seq::new(
        expected.len(),
        |i: int| carried(expected[i], first_same(stale(known, expected.take(i)), expected[i])),
    )
}

/// Removes what tracks the same copy as `d` from the list, and hands out the
/// first of it.
fn claim(list: &mut Vec<DestinationStatus>, d: &DestinationStatus) -> (res: Option<
    DestinationStatus,
>)
    ensures
        text::view_opt(res) == first_same(text::views(old(list)@), d@),
        text::views(final(list)@) == text::views(old(list)@).filter(
            |x: api::DestinationStatusView| !x.same_destination(d@),
        ),
{
    let ghost all = text::views(list@);
    let ghost keep = |x: api::DestinationStatusView| !x.same_destination(d@);
    let mut kept: Vec<DestinationStatus> = Vec::new();
    let mut res: Option<DestinationStatus> = None;
    let mut i: usize = 0;
    assert(all.skip(0) =~= all);
    assert(text::views(kept@) =~= all.take(0).filter(keep)) by {
        reveal(Seq::filter);
    }
    while i < list.len()
        invariant
            i <= list@.len(),
            *list == *old(list),
            all == text::views(list@),
            keep == (|x: api::DestinationStatusView| !x.same_destination(d@)),
            text::views(kept@) == all.take(i as int).filter(keep),
            res is Some ==> text::view_opt(res) == first_same(all, d@),
            res is None ==> first_same(all, d@) == first_same(all.skip(i as int), d@),
        decreases list@.len() - i,
    {
        let ghost before = text::views(kept@);
        proof {
            text::lemma_filter_step(all, keep, i as int);
            assert(all.skip(i as int)[0] == all[i as int]);
            assert(all.skip(i as int).drop_first() =~= all.skip(i + 1));
        }
        if ResourceControllerImpl::is_same_destination(&list[i], d) {
            if res.is_none() {
                res = Some(list[i].clone());
            }
        } else {
            kept.push(list[i].clone());
            assert(text::views(kept@) =~= before.push(all[i as int]));
        }
        i = i + 1;
    }
    assert(all.take(i as int) =~= all);
    assert(all.skip(i as int).len() == 0);
    *list = kept;
    res
}

/// The tracked copies of an object, split for the next synchronization.
pub struct Plan {
    /// The expected copies, with what is known of them.
    pub expected: Vec<DestinationStatus>,
    /// The tracked copies that are no longer expected.
    pub stale: Vec<DestinationStatus>,
}

impl ResourceControllerImpl {
    /// Splits the tracked copies of `event`, given the namespaces there are.
    pub fn plan(&self, event: &ObjectSync, namespaces: &Vec<ObjectMeta>) -> (res: Plan)
        ensures
            ({
                let known = match event@.status_destinations() {
                    Some(d) => d,
                    None => Seq::empty(),
                };
                let wanted = unsynced(expected(event@, text::views(namespaces@)), self@.gvk);
                &&& text::views(res.expected@) == planned(wanted, known)
                &&& text::views(res.stale@) == stale(known, wanted)
            }),
    {
        let mut left: Vec<DestinationStatus> = match event.status_destinations() {
            Some(d) => {
                let copy = d.clone();
                assert(text::views(copy@) =~= text::views(d@));
                copy
            },
            None => {
                let none: Vec<DestinationStatus> = Vec::new();
                assert(text::views(none@) =~= Seq::<api::DestinationStatusView>::empty());
                none
            },
        };
        let ghost known = text::views(left@);
        let wanted = Self::expected_destinations(event, namespaces);
        let ghost all = unsynced(text::views(wanted@), self@.gvk);
        let mut plan: Vec<DestinationStatus> = Vec::new();
        let mut i: usize = 0;
        assert(text::views(plan@) =~= planned(all, known).take(0));
        while i < wanted.len()
            invariant
                i <= wanted@.len(),
                all == unsynced(text::views(wanted@), self@.gvk),
                text::views(left@) == stale(known, all.take(i as int)),
                text::views(plan@) == planned(all, known).take(i as int),
            decreases wanted@.len() - i,
        {
            let ghost before = text::views(plan@);
            let e: &ExpectedDestination = &wanted[i];
            let mut d = DestinationStatus {
                name: e.name.clone(),
                namespace: e.namespace.clone(),
                source_version: None,
                synced_version: None,
                group: self.gvk.group.clone(),
                version: self.gvk.version.clone(),
                kind: self.gvk.kind.clone(),
                strategy: e.strategy,
            };
            assert(d@ == all[i as int]);
            assert(all.take(i + 1).drop_last() =~= all.take(i as int));
            assert(all.take(i + 1).last() == d@);
            if let Some(status) = claim(&mut left, &d) {
                // If the strategy changed, the revisions stay unset to make sure
                // that the copy is updated.
                if status.strategy() == d.strategy() {
                    d.source_version = status.source_version;
                    d.synced_version = status.synced_version;
                }
            }
            plan.push(d);
            assert(text::views(plan@) =~= before.push(planned(all, known)[i as int]));
            assert(planned(all, known).take(i + 1) =~= before.push(planned(all, known)[i as int]));
            i = i + 1;
        }
        assert(all.take(i as int) =~= all);
        assert(planned(all, known).take(i as int) =~= planned(all, known));
        Plan { expected: plan, stale: left }
    }
}

/// Whether the destination `d` of `o` asks for the copy `e` in the namespace
/// `ns`, one of those there are: the namespace is not being deleted, the
/// destination covers all namespaces or names this one, and the copy is not the
/// source itself.
pub open spec fn asks_for(
    d: api::DestinationView,
    o: api::ObjectSyncView,
    namespaces: Seq<meta::ObjectMetaView>,
    ns: meta::ObjectMetaView,
    e: ExpectedDestinationView,
) -> bool {
    &&& ns.live()
    &&& d.covers_all_namespaces() || first_named(namespaces, d.namespace) == Some(ns)
    &&& d.copies_to(o, ns.name_any())
    &&& e == d.expect_in(o, ns.name_any())
}

proof fn lemma_first_named(namespaces: Seq<meta::ObjectMetaView>, name: Text)
    ensures
        first_named(namespaces, name) matches Some(ns) ==> namespaces.contains(ns) && ns.name_any()
            == name,
    decreases namespaces.len(),
{
    if namespaces.len() > 0 {
        if namespaces[0].name_any() == name {
            assert(namespaces.contains(namespaces[0]));
        } else {
            lemma_first_named(namespaces.drop_first(), name);
            if let Some(ns) = first_named(namespaces.drop_first(), name) {
                let j = choose|j: int|
                    0 <= j < namespaces.drop_first().len() && namespaces.drop_first()[j] == ns;
                assert(namespaces[j + 1] == ns);
            }
        }
    }
}

proof fn lemma_expect_in_all(
    d: api::DestinationView,
    o: api::ObjectSyncView,
    namespaces: Seq<meta::ObjectMetaView>,
    e: ExpectedDestinationView,
)
    ensures
        d.expect_in_all(o, namespaces).contains(e) <==> exists|ns: meta::ObjectMetaView|
            #[trigger] namespaces.contains(ns) && ns.live() && d.copies_to(o, ns.name_any()) && e
                == d.expect_in(o, ns.name_any()),
    decreases namespaces.len(),
{
    if namespaces.len() > 0 {
        let r = namespaces.drop_last();
        let l = namespaces.last();
        lemma_expect_in_all(d, o, r, e);
        text::lemma_push_contains(r, l);
        assert(r.push(l) =~= namespaces);
        text::lemma_push_contains(d.expect_in_all(o, r), d.expect_in(o, l.name_any()));
        assert(namespaces.contains(l));
        if d.expect_in_all(o, namespaces).contains(e) && d.expect_in_all(o, r).contains(e) {
            let ns = choose|ns: meta::ObjectMetaView|
                #[trigger] r.contains(ns) && ns.live() && d.copies_to(o, ns.name_any()) && e
                    == d.expect_in(o, ns.name_any());
            assert(namespaces.contains(ns));
        }
        if exists|ns: meta::ObjectMetaView|
            #[trigger] namespaces.contains(ns) && ns.live() && d.copies_to(o, ns.name_any()) && e
                == d.expect_in(o, ns.name_any()) {
            let ns = choose|ns: meta::ObjectMetaView|
                #[trigger] namespaces.contains(ns) && ns.live() && d.copies_to(o, ns.name_any())
                    && e == d.expect_in(o, ns.name_any());
            assert(r.contains(ns) || ns == l);
        }
    }
}

proof fn lemma_expect(
    d: api::DestinationView,
    o: api::ObjectSyncView,
    namespaces: Seq<meta::ObjectMetaView>,
    e: ExpectedDestinationView,
)
    ensures
        d.expect(o, namespaces).contains(e) <==> exists|ns: meta::ObjectMetaView| #[trigger]
            namespaces.contains(ns) && asks_for(d, o, namespaces, ns, e),
{
    lemma_first_named(namespaces, d.namespace);
    lemma_expect_in_all(d, o, namespaces, e);
    if d.covers_all_namespaces() {
        if d.expect(o, namespaces).contains(e) {
            let ns = choose|ns: meta::ObjectMetaView|
                #[trigger] namespaces.contains(ns) && ns.live() && d.copies_to(o, ns.name_any())
                    && e == d.expect_in(o, ns.name_any());
            assert(asks_for(d, o, namespaces, ns, e));
        }
    } else {
        let only = seq![d.expect_in(o, d.namespace)];
        assert(only[0] == d.expect_in(o, d.namespace));
        assert(only.contains(e) <==> e == only[0]);
        if let Some(ns) = first_named(namespaces, d.namespace) {
            assert(d.expect(o, namespaces).contains(e) ==> namespaces.contains(ns) && asks_for(
                d,
                o,
                namespaces,
                ns,
                e,
            ));
        }
    }
}

/// The expected copies are exactly those that some destination asks for in some
/// namespace there is.
pub proof fn law_expected_exactly(
    o: api::ObjectSyncView,
    namespaces: Seq<meta::ObjectMetaView>,
    e: ExpectedDestinationView,
)
    ensures
        expected(o, namespaces).contains(e) <==> exists|
            d: api::DestinationView,
            ns: meta::ObjectMetaView,
        |
            #[trigger] o.spec.destinations.contains(d) && #[trigger] namespaces.contains(ns)
                && asks_for(d, o, namespaces, ns, e),
{
    lemma_expect_each(o.spec.destinations, o, namespaces, e);
}

proof fn lemma_expect_each(
    destinations: Seq<api::DestinationView>,
    o: api::ObjectSyncView,
    namespaces: Seq<meta::ObjectMetaView>,
    e: ExpectedDestinationView,
)
    ensures
        expect_each(destinations, o, namespaces).contains(e) <==> exists|
            d: api::DestinationView,
            ns: meta::ObjectMetaView,
        |
            #[trigger] destinations.contains(d) && #[trigger] namespaces.contains(ns) && asks_for(
                d,
                o,
                namespaces,
                ns,
                e,
            ),
    decreases destinations.len(),
{
    if destinations.len() > 0 {
        let r = destinations.drop_last();
        let l = destinations.last();
        lemma_expect_each(r, o, namespaces, e);
        lemma_expect(l, o, namespaces, e);
        text::lemma_push_contains(r, l);
        assert(r.push(l) =~= destinations);
        let a = expect_each(r, o, namespaces);
        let b = l.expect(o, namespaces);
        text::lemma_concat_contains(a, b, e);
        assert(destinations.contains(l));
        if a.contains(e) {
            let (d, ns) = choose|d: api::DestinationView, ns: meta::ObjectMetaView|
                #[trigger] r.contains(d) && #[trigger] namespaces.contains(ns) && asks_for(
                    d,
                    o,
                    namespaces,
                    ns,
                    e,
                );
            assert(destinations.contains(d));
        }
        if exists|d: api::DestinationView, ns: meta::ObjectMetaView|
            #[trigger] destinations.contains(d) && #[trigger] namespaces.contains(ns) && asks_for(
                d,
                o,
                namespaces,
                ns,
                e,
            ) {
            let (d, ns) = choose|d: api::DestinationView, ns: meta::ObjectMetaView|
                #[trigger] destinations.contains(d) && #[trigger] namespaces.contains(ns)
                    && asks_for(d, o, namespaces, ns, e);
            assert(r.contains(d) || d == l);
        }
    }
}

/// No expected copy is the source object itself, and none is in a namespace that
/// is not there or that is being deleted.
pub proof fn law_expected_is_safe(
    o: api::ObjectSyncView,
    namespaces: Seq<meta::ObjectMetaView>,
    e: ExpectedDestinationView,
)
    requires
        expected(o, namespaces).contains(e),
    ensures
        e.name != o.spec.source.name || e.namespace != text::or_empty(o.source_namespace()),
        exists|ns: meta::ObjectMetaView| #[trigger]
            namespaces.contains(ns) && ns.live() && ns.name_any() == e.namespace,
{
    law_expected_exactly(o, namespaces, e);
}

/// A tracked copy is stale exactly where it is none of the expected ones. So
/// every tracked copy is either still expected or gets removed.
pub proof fn law_stale_is_not_expected(
    known: Seq<api::DestinationStatusView>,
    expected: Seq<api::DestinationStatusView>,
    d: api::DestinationStatusView,
)
    ensures
        stale(known, expected).contains(d) <==> known.contains(d) && forall|i: int|
            0 <= i < expected.len() ==> !d.same_destination(#[trigger] expected[i]),
    decreases expected.len(),
{
    if expected.len() > 0 {
        let r = expected.drop_last();
        let l = expected.last();
        law_stale_is_not_expected(known, r, d);
        text::lemma_filter_contains(
            stale(known, r),
            |d: api::DestinationStatusView| !d.same_destination(l),
            d,
        );
        assert(forall|i: int| 0 <= i < r.len() ==> #[trigger] r[i] == expected[i]);
        assert(expected[expected.len() - 1] == l);
        if forall|i: int| 0 <= i < r.len() ==> !d.same_destination(#[trigger] r[i]) {
            if !d.same_destination(l) {
                assert forall|i: int| 0 <= i < expected.len() implies !d.same_destination(
                    #[trigger] expected[i],
                ) by {
                    if i < r.len() {
                        assert(!d.same_destination(r[i]));
                    }
                }
            }
        }
    }
}

/// What the first of the copies that is the same is.
pub proof fn lemma_first_same(known: Seq<api::DestinationStatusView>, d: api::DestinationStatusView)
    ensures
        match first_same(known, d) {
            Some(s) => known.contains(s) && s.same_destination(d),
            None => forall|i: int|
                0 <= i < known.len() ==> !(#[trigger] known[i]).same_destination(d),
        },
    decreases known.len(),
{
    if known.len() > 0 {
        let r = known.drop_first();
        if known[0].same_destination(d) {
            assert(known.contains(known[0]));
        } else {
            lemma_first_same(r, d);
            match first_same(r, d) {
                Some(s) => {
                    let j = choose|j: int| 0 <= j < r.len() && r[j] == s;
                    assert(known[j + 1] == s);
                },
                None => {
                    assert forall|i: int| 0 <= i < known.len() implies !(
                    #[trigger] known[i]).same_destination(d) by {
                        if i > 0 {
                            assert(r[i - 1] == known[i]);
                        }
                    }
                },
            }
        }
    }
}

proof fn lemma_first_same_push(
    known: Seq<api::DestinationStatusView>,
    x: api::DestinationStatusView,
    d: api::DestinationStatusView,
)
    ensures
        first_same(known.push(x), d) == (match first_same(known, d) {
            Some(s) => Some(s),
            None => if x.same_destination(d) {
                Some(x)
            } else {
                None
            },
        }),
    decreases known.len(),
{
    let s = known.push(x);
    if known.len() == 0 {
        assert(s[0] == x);
        assert(first_same(s.drop_first(), d) is None);
    } else {
        assert(s[0] == known[0]);
        assert(s.drop_first() =~= known.drop_first().push(x));
        lemma_first_same_push(known.drop_first(), x, d);
    }
}

proof fn lemma_first_same_filter(
    known: Seq<api::DestinationStatusView>,
    other: api::DestinationStatusView,
    d: api::DestinationStatusView,
)
    requires
        !other.same_destination(d),
    ensures
        first_same(
            known.filter(|x: api::DestinationStatusView| !x.same_destination(other)),
            d,
        ) == first_same(known, d),
    decreases known.len(),
{
    reveal(Seq::filter);
    let keep = |x: api::DestinationStatusView| !x.same_destination(other);
    if known.len() > 0 {
        let r = known.drop_last();
        let l = known.last();
        lemma_first_same_filter(r, other, d);
        assert(r.push(l) =~= known);
        lemma_first_same_push(r, l, d);
        lemma_first_same_push(r.filter(keep), l, d);
    }
}

proof fn lemma_first_same_stale(
    known: Seq<api::DestinationStatusView>,
    expected: Seq<api::DestinationStatusView>,
    d: api::DestinationStatusView,
)
    requires
        forall|i: int| 0 <= i < expected.len() ==> !(#[trigger] expected[i]).same_destination(d),
    ensures
        first_same(stale(known, expected), d) == first_same(known, d),
    decreases expected.len(),
{
    if expected.len() > 0 {
        let r = expected.drop_last();
        assert forall|i: int| 0 <= i < r.len() implies !(#[trigger] r[i]).same_destination(d) by {
            assert(r[i] == expected[i]);
        }
        lemma_first_same_stale(known, r, d);
        assert(expected[expected.len() - 1] == expected.last());
        lemma_first_same_filter(stale(known, r), expected.last(), d);
    }
}

/// What is known of an expected copy is what the status records of it, as long as
/// the strategy stays the same: a copy that was written with another strategy, or
/// never, counts as not synchronized, and is written again.
pub proof fn law_plan_keeps_what_is_known(
    expected: Seq<api::DestinationStatusView>,
    known: Seq<api::DestinationStatusView>,
    i: int,
)
    requires
        0 <= i < expected.len(),
        forall|j: int| 0 <= j < i ==> !(#[trigger] expected[j]).same_destination(expected[i]),
    ensures
        planned(expected, known)[i] == carried(expected[i], first_same(known, expected[i])),
{
    let r = expected.take(i);
    assert forall|j: int| 0 <= j < r.len() implies !(#[trigger] r[j]).same_destination(
        expected[i],
    ) by {
        assert(r[j] == expected[j]);
    }
    lemma_first_same_stale(known, r, expected[i]);
}

/// Planning neither adds nor drops an expected copy, and says of none that it is
/// synchronized unless the status says so of the same copy under the same
/// strategy.
pub proof fn law_plan_invents_nothing(
    expected: Seq<api::DestinationStatusView>,
    known: Seq<api::DestinationStatusView>,
    i: int,
)
    requires
        0 <= i < expected.len(),
    ensures
        planned(expected, known).len() == expected.len(),
        planned(expected, known)[i] == expected[i] || exists|s: api::DestinationStatusView|
            #[trigger] known.contains(s) && s.same_destination(expected[i])
                && api::effective_strategy(s.strategy) == api::effective_strategy(
                expected[i].strategy,
            ) && planned(expected, known)[i] == expected[i].with_versions_of(s),
{
    let left = stale(known, expected.take(i));
    lemma_first_same(left, expected[i]);
    if let Some(s) = first_same(left, expected[i]) {
        law_stale_is_not_expected(known, expected.take(i), s);
        assert(known.contains(s));
    }
}

/// Whether a namespace, told by its metadata, bears the name.
pub open spec fn bears_name(ns: meta::ObjectMetaView, name: Text) -> bool {
    match (ns.name, ns.generate_name) {
        (Some(n), _) => name == n,
        (None, Some(n)) => name == n,
        (None, None) => name.len() == 0,
    }
}

/// Whether `e` is the copy that the destination `d` of `o` stands for in the `k`-th
/// namespace. The namespace is not being deleted. It is the first that bears the
/// name that the destination gives, or the destination gives the empty name or an
/// asterisk. The copy has the name that the destination gives, or else that of the
/// source, and the strategy of the destination. It is not the source.
pub open spec fn is_copy_for(
    d: api::DestinationView,
    o: api::ObjectSyncView,
    namespaces: Seq<meta::ObjectMetaView>,
    k: int,
    e: ExpectedDestinationView,
) -> bool {
    &&& 0 <= k < namespaces.len()
    &&& namespaces[k].deletion_timestamp is None
    &&& bears_name(namespaces[k], e.namespace)
    &&& {
        ||| d.namespace == ""@
        ||| d.namespace == "*"@
        ||| d.namespace == e.namespace && forall|j: int|
            0 <= j < k ==> !bears_name(#[trigger] namespaces[j], d.namespace)
    }
    &&& e.name == match d.name {
        Some(name) => name,
        None => o.spec.source.name,
    }
    &&& e.strategy == d.strategy
    &&& !(e.name == o.spec.source.name && api::has_source_in(o, e.namespace))
}

proof fn lemma_named(ns: meta::ObjectMetaView, name: Text)
    ensures
        bears_name(ns, name) <==> ns.name_any() == name,
{
    if ns.name is None && ns.generate_name is None && name.len() == 0 {
        assert(name =~= Seq::<char>::empty());
    }
}

proof fn lemma_has_source(o: api::ObjectSyncView, namespace: Text)
    ensures
        api::has_source_in(o, namespace) <==> text::or_empty(o.source_namespace()) == namespace,
{
    if namespace.len() == 0 {
        assert(namespace =~= Seq::<char>::empty());
    }
}

proof fn lemma_first_named_at(namespaces: Seq<meta::ObjectMetaView>, name: Text)
    ensures
        match first_named(namespaces, name) {
            Some(ns) => exists|k: int|
                0 <= k < namespaces.len() && (#[trigger] namespaces[k]) == ns && bears_name(
                    namespaces[k],
                    name,
                ) && forall|j: int|
                    0 <= j < k ==> !bears_name(#[trigger] namespaces[j], name),
            None => forall|j: int|
                0 <= j < namespaces.len() ==> !bears_name(#[trigger] namespaces[j], name),
        },
    decreases namespaces.len(),
{
    if namespaces.len() > 0 {
        lemma_named(namespaces[0], name);
        let r = namespaces.drop_first();
        if namespaces[0].name_any() == name {
            assert(namespaces[0] == namespaces[0]);
        } else {
            lemma_first_named_at(r, name);
            match first_named(r, name) {
                Some(ns) => {
                    let k = choose|k: int|
                        0 <= k < r.len() && (#[trigger] r[k]) == ns && bears_name(r[k], name)
                            && forall|j: int| 0 <= j < k ==> !bears_name(#[trigger] r[j], name);
                    assert(namespaces[k + 1] == ns);
                    assert forall|j: int| 0 <= j < k + 1 implies !bears_name(
                        #[trigger] namespaces[j],
                        name,
                    ) by {
                        if j > 0 {
                            assert(r[j - 1] == namespaces[j]);
                        }
                    }
                },
                None => {
                    assert forall|j: int| 0 <= j < namespaces.len() implies !bears_name(
                        #[trigger] namespaces[j],
                        name,
                    ) by {
                        if j > 0 {
                            assert(r[j - 1] == namespaces[j]);
                        }
                    }
                },
            }
        }
    }
}

/// Every expected copy stems from one of the destinations, in one of the namespaces,
/// and every one that a destination stands for is expected. Its namespace, name and
/// strategy are as [`is_copy_for`] says, whether the destination names a namespace
/// or all of them.
pub proof fn law_expected_copies_stem_from_destinations(
    o: api::ObjectSyncView,
    namespaces: Seq<meta::ObjectMetaView>,
    e: ExpectedDestinationView,
)
    ensures
        expected(o, namespaces).contains(e) <==> exists|i: int, k: int|
            0 <= i < o.spec.destinations.len() && #[trigger] is_copy_for(
                o.spec.destinations[i],
                o,
                namespaces,
                k,
                e,
            ),
{
    law_expected_exactly(o, namespaces, e);
    let all = o.spec.destinations;
    lemma_has_source(o, e.namespace);
    if expected(o, namespaces).contains(e) {
        let (d, ns) = choose|d: api::DestinationView, ns: meta::ObjectMetaView|
            #[trigger] all.contains(d) && #[trigger] namespaces.contains(ns) && asks_for(
                d,
                o,
                namespaces,
                ns,
                e,
            );
        let i = choose|i: int| 0 <= i < all.len() && all[i] == d;
        lemma_named(ns, e.namespace);
        if d.covers_all_namespaces() {
            let k = choose|k: int| 0 <= k < namespaces.len() && namespaces[k] == ns;
            assert(is_copy_for(all[i], o, namespaces, k, e));
        } else {
            lemma_first_named_at(namespaces, d.namespace);
            lemma_first_named(namespaces, d.namespace);
            let k = choose|k: int|
                0 <= k < namespaces.len() && (#[trigger] namespaces[k]) == ns && bears_name(
                    namespaces[k],
                    d.namespace,
                ) && forall|j: int|
                    0 <= j < k ==> !bears_name(#[trigger] namespaces[j], d.namespace);
            assert(is_copy_for(all[i], o, namespaces, k, e));
        }
    }
    if exists|i: int, k: int|
        0 <= i < all.len() && #[trigger] is_copy_for(all[i], o, namespaces, k, e) {
        let (i, k) = choose|i: int, k: int|
            0 <= i < all.len() && #[trigger] is_copy_for(all[i], o, namespaces, k, e);
        let d = all[i];
        let ns = namespaces[k];
        lemma_named(ns, e.namespace);
        assert(all.contains(d) && namespaces.contains(ns));
        if !d.covers_all_namespaces() {
            lemma_first_named_at(namespaces, d.namespace);
            assert(first_named(namespaces, d.namespace) is Some) by {
                assert(bears_name(namespaces[k], d.namespace));
            }
            let m = choose|m: int|
                0 <= m < namespaces.len() && (#[trigger] namespaces[m]) == first_named(
                    namespaces,
                    d.namespace,
                )->0 && bears_name(namespaces[m], d.namespace) && forall|j: int|
                    0 <= j < m ==> !bears_name(#[trigger] namespaces[j], d.namespace);
            assert(m == k) by {
                if m < k {
                    assert(!bears_name(namespaces[m], d.namespace));
                } else if k < m {
                    assert(!bears_name(namespaces[k], d.namespace));
                }
            }
        }
        assert(asks_for(d, o, namespaces, ns, e));
    }
}

/// `o` with other destinations.
pub open spec fn asking_for(
    o: api::ObjectSyncView,
    destinations: Seq<api::DestinationView>,
) -> api::ObjectSyncView {
    api::ObjectSyncView {
        spec: api::ObjectSyncSpecView { destinations, ..o.spec },
        ..o
    }
}

proof fn lemma_expect_elsewhere(
    d: api::DestinationView,
    o: api::ObjectSyncView,
    p: api::ObjectSyncView,
    namespaces: Seq<meta::ObjectMetaView>,
)
    requires
        o.spec.source == p.spec.source,
        o.metadata == p.metadata,
    ensures
        d.expect_in_all(o, namespaces) == d.expect_in_all(p, namespaces),
        d.expect(o, namespaces) == d.expect(p, namespaces),
    decreases namespaces.len(),
{
    if namespaces.len() > 0 {
        lemma_expect_elsewhere(d, o, p, namespaces.drop_last());
    }
}

proof fn lemma_expect_each_concat(
    a: Seq<api::DestinationView>,
    b: Seq<api::DestinationView>,
    o: api::ObjectSyncView,
    p: api::ObjectSyncView,
    q: api::ObjectSyncView,
    namespaces: Seq<meta::ObjectMetaView>,
)
    requires
        o.spec.source == p.spec.source,
        o.metadata == p.metadata,
        o.spec.source == q.spec.source,
        o.metadata == q.metadata,
    ensures
        expect_each(a + b, o, namespaces) == expect_each(a, p, namespaces) + expect_each(
            b,
            q,
            namespaces,
        ),
    decreases a.len() + b.len(),
{
    if b.len() > 0 {
        lemma_expect_each_concat(a, b.drop_last(), o, p, q, namespaces);
        lemma_expect_elsewhere(b.last(), o, q, namespaces);
        assert((a + b).drop_last() =~= a + b.drop_last());
        assert((a + b).last() == b.last());
        assert(expect_each(a + b, o, namespaces) =~= expect_each(a, p, namespaces) + expect_each(
            b,
            q,
            namespaces,
        ));
    } else if a.len() > 0 {
        assert(a + b =~= a);
        lemma_expect_elsewhere(a.last(), o, p, namespaces);
        lemma_expect_each_concat(a.drop_last(), b, o, p, q, namespaces);
        assert(a.drop_last() + b =~= a.drop_last());
        assert(expect_each(a + b, o, namespaces) =~= expect_each(a, p, namespaces) + expect_each(
            b,
            q,
            namespaces,
        ));
    } else {
        assert(expect_each(a + b, o, namespaces) =~= expect_each(a, p, namespaces) + expect_each(
            b,
            q,
            namespaces,
        ));
    }
}

/// Destinations do not interfere: what a list of them asks for is what its first
/// part asks for, and after it what its second part asks for.
pub proof fn law_destinations_are_independent(
    o: api::ObjectSyncView,
    a: Seq<api::DestinationView>,
    b: Seq<api::DestinationView>,
    namespaces: Seq<meta::ObjectMetaView>,
)
    ensures
        expected(asking_for(o, a + b), namespaces) == expected(asking_for(o, a), namespaces)
            + expected(asking_for(o, b), namespaces),
{
    lemma_expect_each_concat(
        a,
        b,
        asking_for(o, a + b),
        asking_for(o, a),
        asking_for(o, b),
        namespaces,
    );
}

proof fn lemma_expect_in_all_concat(
    d: api::DestinationView,
    o: api::ObjectSyncView,
    a: Seq<meta::ObjectMetaView>,
    b: Seq<meta::ObjectMetaView>,
)
    ensures
        d.expect_in_all(o, a + b) == d.expect_in_all(o, a) + d.expect_in_all(o, b),
    decreases b.len(),
{
    if b.len() > 0 {
        lemma_expect_in_all_concat(d, o, a, b.drop_last());
        assert((a + b).drop_last() =~= a + b.drop_last());
        assert((a + b).last() == b.last());
        assert(d.expect_in_all(o, a + b) =~= d.expect_in_all(o, a) + d.expect_in_all(o, b));
    } else {
        assert(a + b =~= a);
        assert(d.expect_in_all(o, a + b) =~= d.expect_in_all(o, a) + d.expect_in_all(o, b));
    }
}

/// A destination that covers all namespaces asks for a copy in one namespace after
/// the other, and any destination for one copy at most in a single namespace. A
/// destination that names a namespace asks for one copy at most.
pub proof fn law_one_copy_per_namespace(
    o: api::ObjectSyncView,
    d: api::DestinationView,
    a: Seq<meta::ObjectMetaView>,
    b: Seq<meta::ObjectMetaView>,
)
    ensures
        d.namespace == ""@ || d.namespace == "*"@ ==> expected(asking_for(o, seq![d]), a + b)
            == expected(asking_for(o, seq![d]), a) + expected(asking_for(o, seq![d]), b),
        d.namespace != ""@ && d.namespace != "*"@ || a.len() <= 1 ==> expected(
            asking_for(o, seq![d]),
            a,
        ).len() <= 1,
{
    let p = asking_for(o, seq![d]);
    assert forall|n: Seq<meta::ObjectMetaView>| #[trigger] expected(p, n) == d.expect(p, n) by {
        assert(seq![d].drop_last() =~= Seq::<api::DestinationView>::empty());
        assert(seq![d].last() == d);
        assert(expect_each(Seq::empty(), p, n) =~= Seq::empty());
        assert(expected(p, n) =~= d.expect(p, n));
    }
    lemma_expect_in_all_concat(d, p, a, b);
    if a.len() == 1 {
        assert(a.drop_last().len() == 0);
        assert(d.expect_in_all(p, a.drop_last()).len() == 0);
    }
}

/// Whether the status entry tracks the copy `e` of the kind: name, namespace, group
/// and kind tell it.
pub open spec fn is_of_copy(
    s: api::DestinationStatusView,
    e: ExpectedDestinationView,
    gvk: meta::GroupVersionKindView,
) -> bool {
    &&& s.name == e.name
    &&& s.namespace == e.namespace
    &&& s.group == gvk.group
    &&& s.kind == gvk.kind
}

/// Whether both strategies are server-side apply, set or by default, or both are
/// replacement.
pub open spec fn is_same_strategy(a: Option<SyncStrategy>, b: Option<SyncStrategy>) -> bool {
    a == Some(SyncStrategy::Replace) <==> b == Some(SyncStrategy::Replace)
}

/// The plan has an entry for each expected copy, in order, with its name, namespace,
/// strategy and kind. It takes the recorded revisions over from the status exactly
/// where the strategy has not changed, and from the first entry that tracks this
/// copy. A copy that is expected a second time counts as not synchronized there.
pub proof fn law_plan_takes_revisions_over(
    expected: Seq<ExpectedDestinationView>,
    gvk: meta::GroupVersionKindView,
    known: Seq<api::DestinationStatusView>,
    i: int,
    j: int,
)
    requires
        0 <= i < expected.len(),
    ensures
        ({
            let plan = planned(unsynced(expected, gvk), known);
            let e = expected[i];
            let is_repeated = exists|m: int|
                0 <= m < i && (#[trigger] expected[m]).name == e.name && expected[m].namespace
                    == e.namespace;
            let is_first = 0 <= j < known.len() && is_of_copy(known[j], e, gvk) && forall|m: int|
                0 <= m < j ==> !is_of_copy(#[trigger] known[m], e, gvk);
            let is_none = forall|m: int|
                0 <= m < known.len() ==> !is_of_copy(#[trigger] known[m], e, gvk);
            &&& plan.len() == expected.len()
            &&& plan[i].name == e.name
            &&& plan[i].namespace == e.namespace
            &&& plan[i].strategy == e.strategy
            &&& plan[i].group == gvk.group
            &&& plan[i].version == gvk.version
            &&& plan[i].kind == gvk.kind
            &&& !is_repeated && is_first && is_same_strategy(known[j].strategy, e.strategy)
                ==> plan[i].source_version == known[j].source_version && plan[i].synced_version
                == known[j].synced_version
            &&& is_repeated || is_none || is_first && !is_same_strategy(
                known[j].strategy,
                e.strategy,
            ) ==> plan[i].source_version is None && plan[i].synced_version is None
        }),
{
    let wanted = unsynced(expected, gvk);
    let d = wanted[i];
    let e = expected[i];
    let left = stale(known, wanted.take(i));
    assert forall|m: int| 0 <= m < i implies (#[trigger] wanted[m]).same_destination(d) == (
    expected[m].name == e.name && expected[m].namespace == e.namespace) by {}
    let is_repeated = exists|m: int|
        0 <= m < i && (#[trigger] expected[m]).name == e.name && expected[m].namespace
            == e.namespace;
    if is_repeated {
        let m = choose|m: int|
            0 <= m < i && (#[trigger] expected[m]).name == e.name && expected[m].namespace
                == e.namespace;
        lemma_first_same(left, d);
        if let Some(s) = first_same(left, d) {
            law_stale_is_not_expected(known, wanted.take(i), s);
            assert(wanted.take(i)[m] == wanted[m]);
            assert(wanted[m].same_destination(d));
            assert(false);
        }
    } else {
        assert forall|m: int| 0 <= m < i implies !(#[trigger] wanted[m]).same_destination(d) by {
            assert(expected[m].name != e.name || expected[m].namespace != e.namespace);
        }
        law_plan_keeps_what_is_known(wanted, known, i);
        lemma_first_same_at(known, d, j);
    }
}

proof fn lemma_first_same_at(
    known: Seq<api::DestinationStatusView>,
    d: api::DestinationStatusView,
    j: int,
)
    ensures
        0 <= j < known.len() && known[j].same_destination(d) && (forall|m: int|
            0 <= m < j ==> !(#[trigger] known[m]).same_destination(d)) ==> first_same(known, d)
            == Some(known[j]),
        (forall|m: int| 0 <= m < known.len() ==> !(#[trigger] known[m]).same_destination(d))
            ==> first_same(known, d) is None,
    decreases known.len(),
{
    if known.len() > 0 {
        let r = known.drop_first();
        if !known[0].same_destination(d) {
            lemma_first_same_at(r, d, j - 1);
            assert forall|m: int| 0 <= m < r.len() implies #[trigger] r[m] == known[m + 1] by {}
        } else {
            assert(known[0].same_destination(d));
        }
    }
}

/// A tracked copy is no longer expected exactly where no expected copy of the kind
/// has its name and its namespace.
pub proof fn law_stale_copies_are_not_expected(
    known: Seq<api::DestinationStatusView>,
    expected: Seq<ExpectedDestinationView>,
    gvk: meta::GroupVersionKindView,
    d: api::DestinationStatusView,
)
    ensures
        stale(known, unsynced(expected, gvk)).contains(d) <==> known.contains(d) && forall|i: int|
            0 <= i < expected.len() ==> !is_of_copy(d, #[trigger] expected[i], gvk),
{
    let wanted = unsynced(expected, gvk);
    law_stale_is_not_expected(known, wanted, d);
    assert forall|i: int| 0 <= i < expected.len() implies d.same_destination(#[trigger] wanted[i])
        == is_of_copy(d, expected[i], gvk) by {}
    if forall|i: int| 0 <= i < wanted.len() ==> !d.same_destination(#[trigger] wanted[i]) {
        assert forall|i: int| 0 <= i < expected.len() implies !is_of_copy(
            d,
            #[trigger] expected[i],
            gvk,
        ) by {
            assert(!d.same_destination(wanted[i]));
        }
    }
}

/// Whether a tracked copy is stale does not depend on the others, and the stale ones
/// stay in order: those of a list are those of its first part and after them those
/// of its second part, and of a single copy none or that one.
pub proof fn law_stale_copies_stay_in_order(
    a: Seq<api::DestinationStatusView>,
    b: Seq<api::DestinationStatusView>,
    d: api::DestinationStatusView,
    expected: Seq<api::DestinationStatusView>,
)
    ensures
        stale(a + b, expected) == stale(a, expected) + stale(b, expected),
        stale(seq![d], expected) == seq![d] || stale(seq![d], expected).len() == 0,
    decreases expected.len(),
{
    if expected.len() > 0 {
        let r = expected.drop_last();
        let last = expected.last();
        law_stale_copies_stay_in_order(a, b, d, r);
        Seq::filter_distributes_over_add(
            stale(a, r),
            stale(b, r),
            |d: api::DestinationStatusView| !d.same_destination(last),
        );
        reveal(Seq::filter);
        let one = stale(seq![d], r);
        if one.len() > 0 {
            assert(one.drop_last() =~= Seq::<api::DestinationStatusView>::empty());
            assert(one.last() == d);
            let none = one.drop_last().filter(
                |d: api::DestinationStatusView| !d.same_destination(last),
            );
            assert(none.len() == 0);
            assert(none.push(d) =~= seq![d]);
        }
    }
}

/// Whether the expected copy `e` is the one that the destination `d` of `event` asks
/// for in the namespace: with the strategy of the destination, under the name that
/// it gives, or else that of the source, in a namespace that is not being deleted.
pub open spec fn stems_from(
    e: ExpectedDestination,
    d: Destination,
    event: ObjectSync,
    namespace: ObjectMeta,
) -> bool {
    &&& e.strategy == d.strategy
    &&& e.name@ == match d.name {
        Some(name) => name@,
        None => event.spec.source.name@,
    }
    &&& namespace.name matches Some(name) ==> e.namespace@ == name@
    &&& namespace.deletion_timestamp is None
    &&& d.namespace@ == ""@ || d.namespace@ == "*"@ || d.namespace@ == e.namespace@
    &&& event.spec.source.namespace matches Some(ns) ==> !(e.namespace@ == ns@ && e.name@
        == event.spec.source.name@)
}

/// Every expected copy that is handed out stems from one of the destinations, in one
/// of the namespaces.
pub proof fn law_expected_destinations_stem_from_the_object(
    event: &ObjectSync,
    namespaces: &Vec<ObjectMeta>,
    res: Vec<ExpectedDestination>,
    n: int,
)
    requires
        call_ensures(ResourceControllerImpl::expected_destinations, (event, namespaces), res),
        0 <= n < res@.len(),
    ensures
        exists|i: int, k: int|
            0 <= i < event.spec.destinations@.len() && 0 <= k < namespaces@.len()
                && #[trigger] stems_from(
                res@[n],
                event.spec.destinations@[i],
                *event,
                namespaces@[k],
            ),
{
    let e = res@[n];
    let all = text::views(namespaces@);
    assert(text::views(res@)[n] == e@);
    assert(expected(event@, all).contains(e@));
    law_expected_copies_stem_from_destinations(event@, all, e@);
    let (i, k) = choose|i: int, k: int|
        0 <= i < event@.spec.destinations.len() && #[trigger] is_copy_for(
            event@.spec.destinations[i],
            event@,
            all,
            k,
            e@,
        );
    let d = event.spec.destinations@[i];
    assert(event@.spec.destinations[i] == d@);
    assert(all[k] == namespaces@[k]@);
    assert(stems_from(e, d, *event, namespaces@[k]));
}

/// The plan that is handed out has one entry for each expected copy, of the kind of
/// the controller, and what is stale is tracked and not expected. Two entries track
/// the same copy where name, namespace, group and kind are the same.
pub proof fn law_plan_of_an_object(
    c: &ResourceControllerImpl,
    event: &ObjectSync,
    namespaces: &Vec<ObjectMeta>,
    plan: Plan,
    i: int,
    a: &DestinationStatus,
    b: &DestinationStatus,
    is_same: bool,
)
    requires
        call_ensures(ResourceControllerImpl::plan, (c, event, namespaces), plan),
        call_ensures(ResourceControllerImpl::is_same_destination, (a, b), is_same),
    ensures
        ({
            let wanted = expected(event@, text::views(namespaces@));
            let known = match event.status {
                Some(s) => match s.destinations {
                    Some(d) => text::views(d@),
                    None => Seq::empty(),
                },
                None => Seq::empty(),
            };
            &&& text::views(plan.expected@) == planned(unsynced(wanted, c@.gvk), known)
            &&& text::views(plan.stale@) == stale(known, unsynced(wanted, c@.gvk))
            &&& plan.expected@.len() == wanted.len()
            &&& 0 <= i < wanted.len() ==> {
                let p = plan.expected@[i];
                &&& p.name@ == wanted[i].name
                &&& p.namespace@ == wanted[i].namespace
                &&& p.strategy == wanted[i].strategy
                &&& p.group@ == c.gvk.group@
                &&& p.version@ == c.gvk.version@
                &&& p.kind@ == c.gvk.kind@
            }
        }),
        is_same <==> a.name@ == b.name@ && a.namespace@ == b.namespace@ && a.group@ == b.group@
            && a.kind@ == b.kind@,
{
    let wanted = expected(event@, text::views(namespaces@));
    let known = match event@.status_destinations() {
        Some(d) => d,
        None => Seq::empty(),
    };
    assert(text::views(plan.expected@).len() == wanted.len());
    assert(event@.status == text::view_opt(event.status));
    if let Some(s) = event.status {
        assert(event@.status == Some(s@));
    }
    if 0 <= i < wanted.len() {
        law_plan_takes_revisions_over(wanted, c@.gvk, known, i, 0);
        assert(text::views(plan.expected@)[i] == plan.expected@[i]@);
    }
}

} // verus!
