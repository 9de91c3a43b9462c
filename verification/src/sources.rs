//! Which `ObjectSync` objects refer to which source objects of one kind.
use crate::api;
use crate::meta;
use crate::meta::GroupVersionKind;
use crate::object_sync_modifications::ObjectSyncModifications;
use crate::text;
use crate::utils;
use crate::utils::{NamespacedName, SourceRef};
use vstd::prelude::*;

verus! {

/// One reference: the `ObjectSync` named `crd` copies the source named `src`.
#[derive(Debug, PartialEq, Eq)]
struct Reference {
    src: NamespacedName,
    crd: NamespacedName,
}

impl View for Reference {
    type V = (utils::NamespacedNameView, utils::NamespacedNameView);

    closed spec fn view(&self) -> (utils::NamespacedNameView, utils::NamespacedNameView) {
        (self.src@, self.crd@)
    }
}

impl Clone for Reference {
    fn clone(&self) -> (res: Self)
        ensures
            res@ == self@,
    {
        Reference { src: self.src.clone(), crd: self.crd.clone() }
    }
}

/// The references from source objects to `ObjectSync` objects.
#[derive(Debug, PartialEq, Eq)]
pub struct Sources {
    references: Vec<Reference>,
}

impl View for Sources {
    type V = Set<(utils::NamespacedNameView, utils::NamespacedNameView)>;

    closed spec fn view(&self) -> Set<(utils::NamespacedNameView, utils::NamespacedNameView)> {
        text::views(self.references@).to_set()
    }
}

/// The first part of a sequence does not hold what comes after it.
proof fn lemma_take_without<A>(s: Seq<A>, i: int)
    requires
        s.no_duplicates(),
        0 <= i < s.len(),
    ensures
        !s.take(i).contains(s[i]),
        s.take(i + 1) == s.take(i).push(s[i]),
        forall|x: A| s.take(i + 1).contains(x) <==> s.take(i).contains(x) || x == s[i],
{
    assert(s.take(i + 1) =~= s.take(i).push(s[i]));
    text::lemma_push_contains(s.take(i), s[i]);
    if s.take(i).contains(s[i]) {
        let j = choose|j: int| 0 <= j < i && s.take(i)[j] == s[i];
        assert(s[j] == s[i]);
    }
}

impl Sources {
    #[verifier::type_invariant]
    spec fn listed_once(self) -> bool {
        text::views(self.references@).no_duplicates()
    }

    /// No references.
    pub fn new() -> (res: Self)
        ensures
            res@ == Set::<(utils::NamespacedNameView, utils::NamespacedNameView)>::empty(),
    {
        let res = Sources { references: Vec::new() };
        assert(res@ =~= Set::empty());
        res
    }

    /// Whether `crd` refers to `src`.
    pub fn contains(&self, src: &NamespacedName, crd: &NamespacedName) -> (res: bool)
        ensures
            res == self@.contains((src@, crd@)),
    {
        let ghost all = text::views(self.references@);
        let mut i: usize = 0;
        while i < self.references.len()
            invariant
                i <= self.references@.len(),
                all == text::views(self.references@),
                forall|j: int| 0 <= j < i ==> all[j] != (src@, crd@),
            decreases self.references@.len() - i,
        {
            let r: &Reference = &self.references[i];
            assert(all[i as int] == (r.src@, r.crd@));
            if r.src.same(src) && r.crd.same(crd) {
                assert(all.contains(all[i as int]));
                return true;
            }
            i = i + 1;
        }
        false
    }

    /// Adds a reference.
    pub fn insert(&mut self, src: NamespacedName, crd: NamespacedName)
        ensures
            final(self)@ == old(self)@.insert((src@, crd@)),
    {
        proof {
            use_type_invariant(&*self);
        }
        let ghost all = text::views(self.references@);
        let ghost before = self@;
        if !self.contains(&src, &crd) {
            let mut references: Vec<Reference> = Vec::new();
            std::mem::swap(&mut references, &mut self.references);
            let r = Reference { src, crd };
            let ghost rv = r@;
            references.push(r);
            assert(text::views(references@) =~= all.push(rv));
            proof {
                text::lemma_push_contains(all, rv);
                assert(before.contains(rv) <==> all.contains(rv));
            }
            self.references = references;
        }
        assert(self@ =~= before.insert((src@, crd@)));
    }

    /// Removes a reference.
    pub fn remove(&mut self, src: &NamespacedName, crd: &NamespacedName)
        ensures
            final(self)@ == old(self)@.remove((src@, crd@)),
    {
        proof {
            use_type_invariant(&*self);
        }
        let ghost all = text::views(self.references@);
        let ghost gone = (src@, crd@);
        let mut kept: Vec<Reference> = Vec::new();
        let mut i: usize = 0;
        while i < self.references.len()
            invariant
                i <= self.references@.len(),
                *self == *old(self),
                all == text::views(self.references@),
                all.no_duplicates(),
                gone == (src@, crd@),
                text::views(kept@).no_duplicates(),
                forall|x: (utils::NamespacedNameView, utils::NamespacedNameView)|
                    text::views(kept@).contains(x) <==> all.take(i as int).contains(x) && x != gone,
            decreases self.references@.len() - i,
        {
            let r: &Reference = &self.references[i];
            let ghost before = text::views(kept@);
            assert(all[i as int] == (r.src@, r.crd@));
            proof {
                lemma_take_without(all, i as int);
                text::lemma_push_contains(before, all[i as int]);
            }
            assert(!before.contains(all[i as int]));
            if !(r.src.same(src) && r.crd.same(crd)) {
                kept.push(r.clone());
                assert(text::views(kept@) =~= before.push(all[i as int]));
            }
            assert forall|x: (utils::NamespacedNameView, utils::NamespacedNameView)|
                text::views(kept@).contains(x) <==> all.take(i + 1).contains(x) && x != gone by {
                assert(before.push(all[i as int]).contains(x) <==> before.contains(x) || x
                    == all[i as int]);
            }
            i = i + 1;
        }
        assert(all.take(i as int) =~= all);
        let ghost before = self@;
        self.references = kept;
        assert(self@ =~= before.remove(gone));
    }

    /// The `ObjectSync` objects that refer to `src`, each once.
    pub fn of(&self, src: &NamespacedName) -> (res: Vec<NamespacedName>)
        ensures
            text::views(res@).no_duplicates(),
            forall|crd: utils::NamespacedNameView|
                #![trigger text::views(res@).contains(crd)]
                #![trigger self@.contains((src@, crd))]
                text::views(res@).contains(crd) <==> self@.contains((src@, crd)),
    {
        proof {
            use_type_invariant(self);
        }
        let ghost all = text::views(self.references@);
        let mut res: Vec<NamespacedName> = Vec::new();
        let mut i: usize = 0;
        while i < self.references.len()
            invariant
                i <= self.references@.len(),
                all == text::views(self.references@),
                all.no_duplicates(),
                text::views(res@).no_duplicates(),
                forall|crd: utils::NamespacedNameView|
                    text::views(res@).contains(crd) <==> #[trigger] all.take(i as int).contains(
                        (src@, crd),
                    ),
            decreases self.references@.len() - i,
        {
            let r: &Reference = &self.references[i];
            let ghost before = text::views(res@);
            assert(all[i as int] == (r.src@, r.crd@));
            proof {
                lemma_take_without(all, i as int);
                text::lemma_push_contains(before, r.crd@);
            }
            assert(r.src@ == src@ ==> !before.contains(r.crd@)) by {
                assert(!all.take(i as int).contains((r.src@, r.crd@)));
            }
            if r.src.same(src) {
                res.push(r.crd.clone());
                assert(text::views(res@) =~= before.push(r.crd@));
            }
            assert forall|crd: utils::NamespacedNameView|
                text::views(res@).contains(crd) <==> #[trigger] all.take(i + 1).contains(
                    (src@, crd),
                ) by {
                assert(all.take(i as int).contains((src@, crd)) <==> before.contains(crd));
                assert(before.push(r.crd@).contains(crd) <==> before.contains(crd) || crd == r.crd@);
            }
            i = i + 1;
        }
        assert(all.take(i as int) =~= all);
        res
    }

    /// The source objects that `crd` refers to, each once.
    pub fn referred_by(&self, crd: &NamespacedName) -> (res: Vec<NamespacedName>)
        ensures
            text::views(res@).no_duplicates(),
            forall|src: utils::NamespacedNameView|
                #![trigger text::views(res@).contains(src)]
                #![trigger self@.contains((src, crd@))]
                text::views(res@).contains(src) <==> self@.contains((src, crd@)),
    {
        proof {
            use_type_invariant(self);
        }
        let ghost all = text::views(self.references@);
        let mut res: Vec<NamespacedName> = Vec::new();
        let mut i: usize = 0;
        while i < self.references.len()
            invariant
                i <= self.references@.len(),
                all == text::views(self.references@),
                all.no_duplicates(),
                text::views(res@).no_duplicates(),
                forall|src: utils::NamespacedNameView|
                    text::views(res@).contains(src) <==> #[trigger] all.take(i as int).contains(
                        (src, crd@),
                    ),
            decreases self.references@.len() - i,
        {
            let r: &Reference = &self.references[i];
            let ghost before = text::views(res@);
            assert(all[i as int] == (r.src@, r.crd@));
            proof {
                lemma_take_without(all, i as int);
                text::lemma_push_contains(before, r.src@);
            }
            assert(r.crd@ == crd@ ==> !before.contains(r.src@)) by {
                assert(!all.take(i as int).contains((r.src@, r.crd@)));
            }
            if r.crd.same(crd) {
                res.push(r.src.clone());
                assert(text::views(res@) =~= before.push(r.src@));
            }
            assert forall|src: utils::NamespacedNameView|
                text::views(res@).contains(src) <==> #[trigger] all.take(i + 1).contains(
                    (src, crd@),
                ) by {
                assert(all.take(i as int).contains((src, crd@)) <==> before.contains(src));
                assert(before.push(r.src@).contains(src) <==> before.contains(src) || src == r.src@);
            }
            i = i + 1;
        }
        assert(all.take(i as int) =~= all);
        res
    }

    /// The source objects that are referred to, each once.
    pub fn referred(&self) -> (res: Vec<NamespacedName>)
        ensures
            text::views(res@).no_duplicates(),
            forall|src: utils::NamespacedNameView|
                #[trigger] text::views(res@).contains(src) <==> is_referred(self@, src),
    {
        proof {
            use_type_invariant(self);
        }
        let ghost all = text::views(self.references@);
        let mut res: Vec<NamespacedName> = Vec::new();
        let mut i: usize = 0;
        while i < self.references.len()
            invariant
                i <= self.references@.len(),
                all == text::views(self.references@),
                text::views(res@).no_duplicates(),
                forall|src: utils::NamespacedNameView|
                    #[trigger] text::views(res@).contains(src) <==> is_referred(
                        all.take(i as int).to_set(),
                        src,
                    ),
            decreases self.references@.len() - i,
        {
            let r: &Reference = &self.references[i];
            let ghost before = text::views(res@);
            let ghost seen = all.take(i as int).to_set();
            let ghost next = all.take(i + 1).to_set();
            assert(all[i as int] == (r.src@, r.crd@));
            assert(all.take(i + 1) =~= all.take(i as int).push(all[i as int]));
            proof {
                text::lemma_push_contains(all.take(i as int), all[i as int]);
                text::lemma_push_contains(before, r.src@);
            }
            if !holds_name(&res, &r.src) {
                res.push(r.src.clone());
                assert(text::views(res@) =~= before.push(r.src@));
            }
            assert forall|src: utils::NamespacedNameView|
                #[trigger] text::views(res@).contains(src) <==> is_referred(next, src) by {
                assert(before.push(r.src@).contains(src) <==> before.contains(src) || src == r.src@);
                assert(before.contains(src) <==> is_referred(seen, src));
                lemma_is_referred_step(all, i as int, src);
            }
            i = i + 1;
        }
        assert(all.take(i as int) =~= all);
        res
    }
}

/// Whether any `ObjectSync` refers to `src`.
pub open spec fn is_referred(
    references: Set<(utils::NamespacedNameView, utils::NamespacedNameView)>,
    src: utils::NamespacedNameView,
) -> bool {
    exists|crd: utils::NamespacedNameView| #[trigger] references.contains((src, crd))
}

proof fn lemma_is_referred_step(
    all: Seq<(utils::NamespacedNameView, utils::NamespacedNameView)>,
    i: int,
    src: utils::NamespacedNameView,
)
    requires
        0 <= i < all.len(),
    ensures
        is_referred(all.take(i + 1).to_set(), src) <==> is_referred(all.take(i).to_set(), src)
            || src == all[i].0,
{
    let seen = all.take(i);
    let next = all.take(i + 1);
    assert(next =~= seen.push(all[i]));
    text::lemma_push_contains(seen, all[i]);
    if is_referred(next.to_set(), src) {
        let crd = choose|crd: utils::NamespacedNameView| #[trigger]
            next.to_set().contains((src, crd));
        assert(seen.contains((src, crd)) || (src, crd) == all[i]);
        if seen.contains((src, crd)) {
            assert(seen.to_set().contains((src, crd)));
        }
    }
    if is_referred(seen.to_set(), src) {
        let crd = choose|crd: utils::NamespacedNameView| #[trigger]
            seen.to_set().contains((src, crd));
        assert(seen.contains((src, crd)));
        assert(next.to_set().contains((src, crd)));
    }
    if src == all[i].0 {
        assert(next[i] == all[i]);
        assert(next.contains(all[i]));
        assert(next.to_set().contains((src, all[i].1)));
    }
}

/// Whether the list holds the name.
fn holds_name(list: &Vec<NamespacedName>, name: &NamespacedName) -> (res: bool)
    ensures
        res == text::views(list@).contains(name@),
{
    let ghost all = text::views(list@);
    let mut i: usize = 0;
    while i < list.len()
        invariant
            i <= list@.len(),
            all == text::views(list@),
            forall|j: int| 0 <= j < i ==> #[trigger] all[j] != name@,
        decreases list@.len() - i,
    {
        if list[i].same(name) {
            assert(all[i as int] == name@);
            return true;
        }
        i = i + 1;
    }
    false
}

/// The registration of one `ObjectSync` with the controller of its source.
#[derive(Debug, PartialEq, Eq)]
pub struct ObjectSyncHandle {
    /// The source object.
    pub src: NamespacedName,
    /// The `ObjectSync`.
    pub crd: NamespacedName,
}

impl View for ObjectSyncHandle {
    type V = (utils::NamespacedNameView, utils::NamespacedNameView);

    open spec fn view(&self) -> (utils::NamespacedNameView, utils::NamespacedNameView) {
        (self.src@, self.crd@)
    }
}

impl Clone for ObjectSyncHandle {
    fn clone(&self) -> (res: Self)
        ensures
            res@ == self@,
    {
        ObjectSyncHandle { src: self.src.clone(), crd: self.crd.clone() }
    }
}

impl ObjectSyncHandle {
    /// Takes the registration back.
    pub fn release(&self, sources: &mut Sources)
        ensures
            final(sources)@ == old(sources)@.remove(self@),
    {
        sources.remove(&self.src, &self.crd);
    }
}

/// The registrations with the controller of one kind.
#[derive(Debug, PartialEq, Eq)]
pub struct ResourceController {
    /// The kind.
    pub gvk: GroupVersionKind,
    /// The references from source objects to `ObjectSync` objects.
    pub sources: Sources,
}

/// The model of [`ResourceController`].
#[verifier::ext_equal]
pub struct ResourceControllerView {
    pub gvk: meta::GroupVersionKindView,
    pub sources: Set<(utils::NamespacedNameView, utils::NamespacedNameView)>,
}

impl View for ResourceController {
    type V = ResourceControllerView;

    open spec fn view(&self) -> ResourceControllerView {
        ResourceControllerView { gvk: self.gvk@, sources: self.sources@ }
    }
}

/// The registration of `o`: the name of its source, and its own.
pub open spec fn registration(o: api::ObjectSyncView) -> (
    utils::NamespacedNameView,
    utils::NamespacedNameView,
) {
    (utils::NamespacedNameView::source_of(o), utils::NamespacedNameView::of(o.metadata))
}

impl ResourceController {
    /// The controller of the kind `gvk`, without registrations.
    pub fn new(gvk: GroupVersionKind) -> (res: Self)
        ensures
            res@.gvk == gvk@,
            res@.sources == Set::<
                (utils::NamespacedNameView, utils::NamespacedNameView),
            >::empty(),
    {
        ResourceController { gvk, sources: Sources::new() }
    }

    /// Registers an `ObjectSync`. After that its source is to be looked at.
    pub fn register(&mut self, event: &ObjectSyncModifications) -> (res: ObjectSyncHandle)
        ensures
            res@ == registration(event@.modified),
            final(self)@ == (ResourceControllerView {
                sources: old(self)@.sources.insert(registration(event@.modified)),
                ..old(self)@
            }),
    {
        let src = SourceRef::from(event).0;
        let crd = NamespacedName::from(&event.modified);
        self.sources.insert(src.clone(), crd.clone());
        ObjectSyncHandle { src, crd }
    }
}

/// Taking a new registration back leaves the registrations as they were.
pub proof fn law_release_undoes_register(
    c: ResourceControllerView,
    o: api::ObjectSyncView,
)
    requires
        !c.sources.contains(registration(o)),
    ensures
        c.sources.insert(registration(o)).remove(registration(o)) == c.sources,
{
    assert(c.sources.insert(registration(o)).remove(registration(o)) =~= c.sources);
}

/// An `ObjectSync` is registered under its own name, for the source that it names:
/// in the namespace that the reference gives, and only where it gives none in the
/// namespace of the `ObjectSync`.
pub proof fn law_registered_for_the_source_it_names(o: api::ObjectSyncView)
    ensures
        registration(o).0.name == o.spec.source.name,
        o.spec.source.namespace matches Some(ns) ==> registration(o).0.namespace == ns,
        o.spec.source.namespace is None ==> (o.metadata.namespace matches Some(ns)
            ==> registration(o).0.namespace == ns),
        api::has_source_in(o, registration(o).0.namespace),
        meta::is_named(o.metadata, registration(o).1.name),
        meta::is_in(o.metadata, registration(o).1.namespace),
{
}

/// A reference that is inserted is there until it is removed, and the others stay. A
/// new set holds none.
pub proof fn law_references_come_and_go(
    empty: Sources,
    inserting: &mut Sources,
    removing: &mut Sources,
    asked: &Sources,
    src: NamespacedName,
    crd: NamespacedName,
    there: bool,
    other: (utils::NamespacedNameView, utils::NamespacedNameView),
)
    requires
        call_ensures(Sources::new, (), empty),
        call_ensures(Sources::insert, (inserting, src, crd), ()),
        call_ensures(Sources::remove, (removing, &src, &crd), ()),
        call_ensures(Sources::contains, (asked, &src, &crd), there),
    ensures
        !empty@.contains(other),
        final(inserting)@.contains((src@, crd@)),
        !final(removing)@.contains((src@, crd@)),
        other != (src@, crd@) ==> (final(inserting)@.contains(other) <==> old(inserting)@.contains(
            other,
        )),
        other != (src@, crd@) ==> (final(removing)@.contains(other) <==> old(removing)@.contains(
            other,
        )),
        there <==> asked@.contains((src@, crd@)),
{
}

/// What refers to a source, what an object refers to, and what anything refers to are
/// exactly what the references say, each once.
pub proof fn law_references_are_listed_once(
    s: &Sources,
    src: &NamespacedName,
    crd: &NamespacedName,
    of_src: Vec<NamespacedName>,
    by_crd: Vec<NamespacedName>,
    all: Vec<NamespacedName>,
    x: utils::NamespacedNameView,
)
    requires
        call_ensures(Sources::of, (s, src), of_src),
        call_ensures(Sources::referred_by, (s, crd), by_crd),
        call_ensures(Sources::referred, (s,), all),
    ensures
        text::views(of_src@).contains(x) <==> s@.contains((src@, x)),
        text::views(by_crd@).contains(x) <==> s@.contains((x, crd@)),
        text::views(all@).contains(x) <==> exists|c: utils::NamespacedNameView| #[trigger]
            s@.contains((x, c)),
        text::views(of_src@).no_duplicates(),
        text::views(by_crd@).no_duplicates(),
        text::views(all@).no_duplicates(),
{
}

/// An object is registered for the source that it refers to, by name, in the
/// namespace that the reference gives, or else in that of the object. Its handle is
/// what takes this very registration back.
pub proof fn law_registration_and_release(
    gvk: GroupVersionKind,
    made: ResourceController,
    c: &mut ResourceController,
    event: &ObjectSyncModifications,
    handle: ObjectSyncHandle,
    h: &ObjectSyncHandle,
    s: &mut Sources,
)
    requires
        call_ensures(ResourceController::new, (gvk,), made),
        call_ensures(ResourceController::register, (c, event), handle),
        call_ensures(ObjectSyncHandle::release, (h, s), ()),
    ensures
        made@.gvk == gvk@,
        made@.sources == Set::<(utils::NamespacedNameView, utils::NamespacedNameView)>::empty(),
        final(c)@.gvk == old(c)@.gvk,
        final(c)@.sources == old(c)@.sources.insert(handle@),
        handle@.0.name == event.modified.spec.source.name@,
        event.modified.spec.source.namespace matches Some(ns) ==> handle@.0.namespace == ns@,
        event.modified.spec.source.namespace is None ==> (
        event.modified.metadata.namespace matches Some(ns) ==> handle@.0.namespace == ns@),
        api::has_source_in(event.modified@, handle@.0.namespace),
        meta::is_named(event.modified.metadata@, handle@.1.name),
        meta::is_in(event.modified.metadata@, handle@.1.namespace),
        final(s)@ == old(s)@.remove(h@),
{
}

} // verus!
