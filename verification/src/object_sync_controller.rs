//! The main controller, which has one resource controller for each kind of
//! source objects that some `ObjectSync` refers to.
use crate::api;
use crate::configuration;
use crate::configuration::Configuration;
use crate::errors::ControllerError;
use crate::meta;
use crate::meta::GroupVersionKind;
use crate::object_sync_modifications;
use crate::object_sync_modifications::ObjectSyncModifications;
use crate::request::FINALIZER;
use crate::schedule;
use crate::schedule::{schedule_after_error, Schedule};
use crate::sources;
use crate::sources::{ObjectSyncHandle, ResourceController};
use crate::text;
use crate::text::Text;
use crate::utils;
use vstd::prelude::*;

verus! {

/// The registration of one `ObjectSync` with a resource controller.
#[derive(Debug, PartialEq, Eq)]
pub struct ObjectSyncInstance {
    /// The persistent identifier of the `ObjectSync`: its namespace and name, and
    /// not its UID, so that an object that was deleted and created again is the
    /// same.
    pub id: String,
    /// The kind of its source, used to see whether it changed.
    pub gvk: GroupVersionKind,
    /// The registration.
    pub handle: ObjectSyncHandle,
}

/// The model of [`ObjectSyncInstance`].
#[verifier::ext_equal]
pub struct ObjectSyncInstanceView {
    pub id: Text,
    pub gvk: meta::GroupVersionKindView,
    pub handle: (utils::NamespacedNameView, utils::NamespacedNameView),
}

impl View for ObjectSyncInstance {
    type V = ObjectSyncInstanceView;

    open spec fn view(&self) -> ObjectSyncInstanceView {
        ObjectSyncInstanceView { id: self.id@, gvk: self.gvk@, handle: self.handle@ }
    }
}

impl Clone for ObjectSyncInstance {
    fn clone(&self) -> (res: Self)
        ensures
            res@ == self@,
    {
        ObjectSyncInstance {
            id: self.id.clone(),
            gvk: self.gvk.clone(),
            handle: self.handle.clone(),
        }
    }
}

/// The main controller.
#[derive(Debug, PartialEq, Eq)]
pub struct ObjectSyncController {
    pub configuration: Configuration,
    controllers: Vec<ResourceController>,
    instances: Vec<ObjectSyncInstance>,
}

/// The model of [`ObjectSyncController`].
#[verifier::ext_equal]
pub struct ObjectSyncControllerView {
    pub configuration: configuration::ConfigurationView,
    /// The resource controllers that run.
    pub controllers: Seq<sources::ResourceControllerView>,
    /// The registrations.
    pub instances: Seq<ObjectSyncInstanceView>,
}

impl View for ObjectSyncController {
    type V = ObjectSyncControllerView;

    closed spec fn view(&self) -> ObjectSyncControllerView {
        ObjectSyncControllerView {
            configuration: self.configuration@,
            controllers: text::views(self.controllers@),
            instances: text::views(self.instances@),
        }
    }
}

/// Whether some registration is for the kind `gvk`.
pub open spec fn uses(instances: Seq<ObjectSyncInstanceView>, gvk: meta::GroupVersionKindView) -> bool {
    exists|x: ObjectSyncInstanceView| #[trigger] instances.contains(x) && x.gvk == gvk
}

/// Whether some registration is this one, for the kind `gvk`.
pub open spec fn holds(
    instances: Seq<ObjectSyncInstanceView>,
    gvk: meta::GroupVersionKindView,
    handle: (utils::NamespacedNameView, utils::NamespacedNameView),
) -> bool {
    exists|x: ObjectSyncInstanceView| #[trigger]
        instances.contains(x) && x.gvk == gvk && x.handle == handle
}

/// The registration under `id`, where there is one.
pub open spec fn instance(instances: Seq<ObjectSyncInstanceView>, id: Text) -> Option<
    ObjectSyncInstanceView,
>
    decreases instances.len(),
{
    if instances.len() == 0 {
        None
    } else if instances[0].id == id {
        Some(instances[0])
    } else {
        instance(instances.drop_first(), id)
    }
}

impl ObjectSyncControllerView {
    /// What always holds:
    /// - an `ObjectSync` is registered once at most, under its own name;
    /// - there is one resource controller for each kind that is registered for,
    ///   and no other;
    /// - a resource controller knows exactly the registrations for its kind.
    pub open spec fn wf(self) -> bool {
        &&& forall|x: ObjectSyncInstanceView| #[trigger]
            self.instances.contains(x) ==> x.id == x.handle.1.text()
        &&& forall|i: int, j: int|
            0 <= i < j < self.instances.len() ==> (#[trigger] self.instances[i]).id != (
            #[trigger] self.instances[j]).id
        &&& forall|i: int, j: int|
            0 <= i < j < self.controllers.len() ==> (#[trigger] self.controllers[i]).gvk != (
            #[trigger] self.controllers[j]).gvk
        &&& forall|g: meta::GroupVersionKindView| #[trigger]
            self.serves(g) <==> uses(self.instances, g)
        &&& forall|k: int, p: (utils::NamespacedNameView, utils::NamespacedNameView)|
            0 <= k < self.controllers.len() ==> (
            #[trigger] self.controllers[k].sources.contains(p) <==> holds(
                self.instances,
                self.controllers[k].gvk,
                p,
            ))
    }

    /// Whether a resource controller runs for the kind `gvk`.
    pub open spec fn serves(self, gvk: meta::GroupVersionKindView) -> bool {
        exists|k: int| 0 <= k < self.controllers.len() && (#[trigger] self.controllers[k]).gvk == gvk
    }

    /// The registration under `id`, where there is one.
    pub open spec fn registered(self, id: Text) -> Option<ObjectSyncInstanceView> {
        instance(self.instances, id)
    }

    /// The registrations without the one under `id`.
    pub open spec fn without(self, id: Text) -> Seq<ObjectSyncInstanceView> {
        self.instances.filter(|x: ObjectSyncInstanceView| x.id != id)
    }
}

/// The registration of `event` for the kind `gvk`.
pub open spec fn instance_of(
    event: object_sync_modifications::ObjectSyncModificationsView,
    gvk: meta::GroupVersionKindView,
) -> ObjectSyncInstanceView {
    ObjectSyncInstanceView {
        id: event.id().text(),
        gvk,
        handle: sources::registration(event.modified),
    }
}

/// What becomes of the resource controllers.
#[derive(Debug, PartialEq, Eq)]
pub struct ControllerChange {
    /// The kind whose resource controller is no longer used, if any.
    pub stopped: Option<GroupVersionKind>,
    /// Whether a resource controller has to be started for the kind.
    pub started: bool,
    /// The kind that was registered for, whose sources are to be looked at.
    pub gvk: GroupVersionKind,
}

/// The model of [`ControllerChange`].
#[verifier::ext_equal]
pub struct ControllerChangeView {
    pub stopped: Option<meta::GroupVersionKindView>,
    pub started: bool,
    pub gvk: meta::GroupVersionKindView,
}

impl View for ControllerChange {
    type V = ControllerChangeView;

    open spec fn view(&self) -> ControllerChangeView {
        ControllerChangeView {
            stopped: text::view_opt(self.stopped),
            started: self.started,
            gvk: self.gvk@,
        }
    }
}

impl Clone for ControllerChange {
    fn clone(&self) -> (res: Self)
        ensures
            res@ == self@,
    {
        let res = ControllerChange {
            stopped: self.stopped.clone(),
            started: self.started,
            gvk: self.gvk.clone(),
        };
        assert(res@ =~~= self@);
        res
    }
}

/// The registrations after `event` was registered for the kind `gvk`, in place of
/// what it was registered for.
pub open spec fn added(
    instances: Seq<ObjectSyncInstanceView>,
    event: object_sync_modifications::ObjectSyncModificationsView,
    gvk: meta::GroupVersionKindView,
) -> Seq<ObjectSyncInstanceView> {
    let id = event.id().text();
    instances.filter(|x: ObjectSyncInstanceView| x.id != id).push(instance_of(event, gvk))
}

/// What becomes of the resource controllers when `event` is registered for the
/// kind `gvk`: the one of the kind is started unless it runs, and the one of the
/// kind that it was registered for is stopped where nothing else uses it.
pub open spec fn change_by(
    instances: Seq<ObjectSyncInstanceView>,
    event: object_sync_modifications::ObjectSyncModificationsView,
    gvk: meta::GroupVersionKindView,
) -> ControllerChangeView {
    ControllerChangeView {
        stopped: match instance(instances, event.id().text()) {
            Some(x) => if uses(added(instances, event, gvk), x.gvk) {
                None
            } else {
                Some(x.gvk)
            },
            None => None,
        },
        started: !uses(instances, gvk),
        gvk,
    }
}

/// What [`ObjectSyncController::remove`] did.
pub struct Removed {
    /// The kind that the `ObjectSync` was registered for.
    pub gvk: GroupVersionKind,
    /// Whether the resource controller of that kind is no longer used.
    pub stopped: bool,
}

pub(crate) proof fn lemma_instance(instances: Seq<ObjectSyncInstanceView>, id: Text)
    ensures
        match instance(instances, id) {
            Some(x) => instances.contains(x) && x.id == id,
            None => forall|x: ObjectSyncInstanceView| #[trigger] instances.contains(x) ==> x.id != id,
        },
    decreases instances.len(),
{
    if instances.len() > 0 {
        if instances[0].id == id {
            assert(instances.contains(instances[0]));
        } else {
            let rest = instances.drop_first();
            lemma_instance(rest, id);
            match instance(rest, id) {
                Some(x) => {
                    let i = choose|i: int| 0 <= i < rest.len() && rest[i] == x;
                    assert(instances[i + 1] == x);
                },
                None => {
                    assert forall|x: ObjectSyncInstanceView| #[trigger]
                        instances.contains(x) implies x.id != id by {
                        let i = choose|i: int| 0 <= i < instances.len() && instances[i] == x;
                        if i > 0 {
                            assert(rest[i - 1] == x);
                            assert(rest.contains(x));
                        }
                    }
                },
            }
        }
    }
}

/// Nothing is registered under an identifier that was filtered out.
pub proof fn lemma_not_registered(instances: Seq<ObjectSyncInstanceView>, id: Text)
    ensures
        instance(instances.filter(|x: ObjectSyncInstanceView| x.id != id), id) is None,
{
    let keep = |x: ObjectSyncInstanceView| x.id != id;
    let rest = instances.filter(keep);
    lemma_instance(rest, id);
    if let Some(x) = instance(rest, id) {
        text::lemma_filter_contains(instances, keep, x);
    }
}

/// What was registered last is found under its identifier, where nothing else is.
pub proof fn lemma_registered_last(
    instances: Seq<ObjectSyncInstanceView>,
    new: ObjectSyncInstanceView,
)
    requires
        instance(instances, new.id) is None,
    ensures
        instance(instances.push(new), new.id) == Some(new),
{
    lemma_instance(instances, new.id);
    lemma_instance(instances.push(new), new.id);
    text::lemma_push_contains(instances, new);
    assert(instances.push(new)[instances.len() as int] == new);
    assert(instances.push(new).contains(new));
    if let Some(x) = instance(instances.push(new), new.id) {
        assert(instances.contains(x) || x == new);
    }
}

/// With distinct identifiers, no two registrations are under the same one.
proof fn lemma_same_id(
    instances: Seq<ObjectSyncInstanceView>,
    x: ObjectSyncInstanceView,
    y: ObjectSyncInstanceView,
)
    requires
        forall|i: int, j: int|
            0 <= i < j < instances.len() ==> (#[trigger] instances[i]).id != (
            #[trigger] instances[j]).id,
        instances.contains(x),
        instances.contains(y),
        x.id == y.id,
    ensures
        x == y,
{
    let i = choose|i: int| 0 <= i < instances.len() && instances[i] == x;
    let j = choose|j: int| 0 <= j < instances.len() && instances[j] == y;
    assert(instances[i].id == instances[j].id);
}

/// The registrations without one of them keep distinct identifiers.
proof fn lemma_filter_distinct(instances: Seq<ObjectSyncInstanceView>, id: Text)
    requires
        forall|i: int, j: int|
            0 <= i < j < instances.len() ==> (#[trigger] instances[i]).id != (
            #[trigger] instances[j]).id,
    ensures
        ({
            let rest = instances.filter(|x: ObjectSyncInstanceView| x.id != id);
            forall|i: int, j: int|
                0 <= i < j < rest.len() ==> (#[trigger] rest[i]).id != (#[trigger] rest[j]).id
        }),
    decreases instances.len(),
{
    reveal(Seq::filter);
    let keep = |x: ObjectSyncInstanceView| x.id != id;
    if instances.len() > 0 {
        let r = instances.drop_last();
        let l = instances.last();
        assert forall|i: int, j: int| 0 <= i < j < r.len() implies (#[trigger] r[i]).id != (
        #[trigger] r[j]).id by {
            assert(r[i] == instances[i] && r[j] == instances[j]);
        }
        lemma_filter_distinct(r, id);
        let f = r.filter(keep);
        let rest = instances.filter(keep);
        assert forall|i: int, j: int| 0 <= i < j < rest.len() implies (#[trigger] rest[i]).id != (
        #[trigger] rest[j]).id by {
            if j < f.len() {
                assert(rest[i] == f[i] && rest[j] == f[j]);
            } else {
                assert(rest[i] == f[i] && rest[j] == l);
                text::lemma_filter_contains(r, keep, f[i]);
                assert(f.contains(f[i]));
                let k = choose|k: int| 0 <= k < r.len() && r[k] == f[i];
                assert(instances[k] == f[i] && instances[instances.len() - 1] == l);
            }
        }
    }
}

impl ObjectSyncController {
    /// A controller without registrations.
    pub fn new(configuration: Configuration) -> (res: Self)
        ensures
            res@ == (ObjectSyncControllerView {
                configuration: configuration@,
                controllers: Seq::empty(),
                instances: Seq::empty(),
            }),
            res@.wf(),
    {
        let res = ObjectSyncController {
            configuration,
            controllers: Vec::new(),
            instances: Vec::new(),
        };
        assert(text::views(res.controllers@) =~= Seq::empty());
        assert(text::views(res.instances@) =~= Seq::empty());
        res
    }

    /// The kind that the `ObjectSync` is registered for, where it is.
    pub fn registered_gvk(&self, id: &str) -> (res: Option<GroupVersionKind>)
        ensures
            text::view_opt(res) == (match self@.registered(id@) {
                Some(x) => Some(x.gvk),
                None => None,
            }),
    {
        match self.find(id) {
            Some(i) => Some(self.instances[i].gvk.clone()),
            None => None,
        }
    }

    fn find(&self, id: &str) -> (res: Option<usize>)
        ensures
            match res {
                Some(i) => i < self.instances@.len() && self@.registered(id@) == Some(
                    self@.instances[i as int],
                ),
                None => self@.registered(id@) is None,
            },
    {
        let ghost all = self@.instances;
        let mut i: usize = 0;
        assert(all.skip(0) =~= all);
        while i < self.instances.len()
            invariant
                i <= self.instances@.len(),
                all == self@.instances,
                instance(all, id@) == instance(all.skip(i as int), id@),
            decreases self.instances@.len() - i,
        {
            assert(all.skip(i as int)[0] == self.instances@[i as int]@);
            assert(all.skip(i as int).drop_first() =~= all.skip(i + 1));
            if text::same_text(self.instances[i].id.as_str(), id) {
                return Some(i);
            }
            i = i + 1;
        }
        None
    }

    /// The resource controller of the kind `gvk`, where one runs.
    pub fn controller(&self, gvk: &GroupVersionKind) -> (res: Option<&ResourceController>)
        ensures
            match res {
                Some(c) => self@.controllers.contains(c@) && c@.gvk == gvk@,
                None => !self@.serves(gvk@),
            },
    {
        match self.find_controller(gvk) {
            Some(k) => {
                assert(self@.controllers[k as int] == self.controllers@[k as int]@);
                Some(&self.controllers[k])
            },
            None => None,
        }
    }

    fn find_controller(&self, gvk: &GroupVersionKind) -> (res: Option<usize>)
        ensures
            match res {
                Some(k) => k < self.controllers@.len() && self@.controllers[k as int].gvk == gvk@,
                None => !self@.serves(gvk@),
            },
    {
        let mut k: usize = 0;
        while k < self.controllers.len()
            invariant
                k <= self.controllers@.len(),
                forall|j: int| 0 <= j < k ==> (#[trigger] self@.controllers[j]).gvk != gvk@,
            decreases self.controllers@.len() - k,
        {
            assert(self@.controllers[k as int] == self.controllers@[k as int]@);
            if self.controllers[k].gvk.same(gvk) {
                return Some(k);
            }
            k = k + 1;
        }
        None
    }

    fn is_used(&self, gvk: &GroupVersionKind) -> (res: bool)
        ensures
            res == uses(self@.instances, gvk@),
    {
        let ghost all = self@.instances;
        let mut i: usize = 0;
        while i < self.instances.len()
            invariant
                i <= self.instances@.len(),
                all == self@.instances,
                forall|j: int| 0 <= j < i ==> (#[trigger] all[j]).gvk != gvk@,
            decreases self.instances@.len() - i,
        {
            assert(all[i as int] == self.instances@[i as int]@);
            if self.instances[i].gvk.same(gvk) {
                assert(all.contains(all[i as int]));
                return true;
            }
            i = i + 1;
        }
        false
    }

    /// Takes the registration of an `ObjectSync` back, where there is one. A
    /// resource controller that is not used any more stops.
    pub fn remove(&mut self, event: &ObjectSyncModifications) -> (res: Option<Removed>)
        requires
            old(self)@.wf(),
        ensures
            final(self)@.wf(),
            final(self)@.configuration == old(self)@.configuration,
            final(self)@.instances == old(self)@.without(event@.id().text()),
            match old(self)@.registered(event@.id().text()) {
                Some(x) => {
                    &&& res matches Some(r)
                    &&& r.gvk@ == x.gvk
                    &&& r.stopped == !uses(final(self)@.instances, x.gvk)
                },
                None => res is None,
            },
    {
        let id = event.id().to_string();
        let ghost before = self@;
        proof {
            lemma_instance(before.instances, id@);
        }
        match self.find(id.as_str()) {
            Some(i) => {
                let removed = self.instances[i].clone();
                let ghost gone = removed@;
                assert(gone == before.instances[i as int]);
                self.drop_instance(id.as_str());
                proof {
                    lemma_removed(before.instances, gone);
                }
                let found = self.find_controller(&removed.gvk);
                assert(uses(before.instances, gone.gvk));
                assert(before.serves(gone.gvk));
                match found {
                    Some(k) => {
                        let stopped: bool = !self.is_used(&removed.gvk);
                        let mut c = self.controllers.remove(k);
                        let ghost cv = c@;
                        assert(cv == before.controllers[k as int]);
                        assert(text::views(self.controllers@) =~= before.controllers.remove(
                            k as int,
                        ));
                        removed.handle.release(&mut c.sources);
                        let ghost after = c@;
                        if !stopped {
                            self.controllers.insert(k, c);
                            assert(text::views(self.controllers@) =~= before.controllers.update(
                                k as int,
                                after,
                            ));
                        }
                        proof {
                            lemma_controllers_after_remove(before, self@, gone, k as int, stopped);
                        }
                        Some(Removed { gvk: removed.gvk, stopped })
                    },
                    None => {
                        assert(false);
                        None
                    },
                }
            },
            None => {
                proof {
                    lemma_filter_keeps_all(before.instances, id@);
                }
                None
            },
        }
    }

    fn drop_instance(&mut self, id: &str)
        ensures
            final(self)@.configuration == old(self)@.configuration,
            final(self)@.controllers == old(self)@.controllers,
            final(self)@.instances == old(self)@.without(id@),
    {
        let ghost all = self@.instances;
        let ghost keep = |x: ObjectSyncInstanceView| x.id != id@;
        let mut kept: Vec<ObjectSyncInstance> = Vec::new();
        let mut i: usize = 0;
        assert(text::views(kept@) =~= all.take(0).filter(keep)) by {
            reveal(Seq::filter);
        }
        while i < self.instances.len()
            invariant
                i <= self.instances@.len(),
                *self == *old(self),
                all == self@.instances,
                keep == (|x: ObjectSyncInstanceView| x.id != id@),
                text::views(kept@) == all.take(i as int).filter(keep),
            decreases self.instances@.len() - i,
        {
            let ghost before = text::views(kept@);
            proof {
                text::lemma_filter_step(all, keep, i as int);
                assert(all[i as int] == self.instances@[i as int]@);
            }
            if !text::same_text(self.instances[i].id.as_str(), id) {
                kept.push(self.instances[i].clone());
                assert(text::views(kept@) =~= before.push(all[i as int]));
            }
            i = i + 1;
        }
        assert(all.take(i as int) =~= all);
        self.instances = kept;
    }

    /// Registers an `ObjectSync` for the kind `gvk`, in place of what it was
    /// registered for, and says what becomes of the resource controllers.
    pub fn add(&mut self, event: &ObjectSyncModifications, gvk: GroupVersionKind) -> (res:
        ControllerChange)
        requires
            old(self)@.wf(),
        ensures
            final(self)@.wf(),
            final(self)@.configuration == old(self)@.configuration,
            final(self)@.instances == added(old(self)@.instances, event@, gvk@),
            res@ == change_by(old(self)@.instances, event@, gvk@),
    {
        let ghost before = self@;
        let ghost id = event@.id().text();
        proof {
            lemma_instance(before.instances, id);
            lemma_not_registered(before.instances, id);
            lemma_added_uses(before.instances, event@, gvk@);
        }
        match self.remove(event) {
            Some(removed) => {
                proof {
                    let x = before.registered(id)->0;
                    lemma_removed(before.instances, x);
                    assert(before.instances.contains(x));
                }
                let started: bool = self.add_new(event, gvk.clone());
                if removed.gvk.same(&gvk) {
                    ControllerChange { stopped: None, started: false, gvk }
                } else {
                    let stopped: Option<GroupVersionKind> = if removed.stopped {
                        Some(removed.gvk)
                    } else {
                        None
                    };
                    ControllerChange { stopped, started, gvk }
                }
            },
            None => {
                proof {
                    lemma_filter_keeps_all(before.instances, id);
                }
                let started: bool = self.add_new(event, gvk.clone());
                ControllerChange { stopped: None, started, gvk }
            },
        }
    }

    /// Registers an `ObjectSync`, which is not registered yet, for the kind `gvk`,
    /// and says whether a resource controller has to be started for it.
    fn add_new(&mut self, event: &ObjectSyncModifications, gvk: GroupVersionKind) -> (res: bool)
        requires
            old(self)@.wf(),
            old(self)@.registered(event@.id().text()) is None,
        ensures
            final(self)@.wf(),
            final(self)@.configuration == old(self)@.configuration,
            final(self)@.instances == old(self)@.instances.push(instance_of(event@, gvk@)),
            res == !uses(old(self)@.instances, gvk@),
    {
        let ghost before = self@;
        let ghost new = instance_of(event@, gvk@);
        let id = event.id().to_string();
        let found = self.find_controller(&gvk);
        assert(before.serves(gvk@) <==> uses(before.instances, gvk@));
        let mut controller: ResourceController;
        let started: bool;
        match found {
            Some(k) => {
                assert(self@.controllers[k as int].gvk == gvk@);
                controller = self.controllers.remove(k);
                assert(controller@ == before.controllers[k as int]);
                assert(text::views(self.controllers@) =~= before.controllers.remove(k as int));
                started = false;
            },
            None => {
                controller = ResourceController::new(gvk.clone());
                started = true;
            },
        }
        let ghost had = controller@.sources;
        let handle = controller.register(event);
        let ghost after = controller@;
        self.controllers.push(controller);
        self.instances.push(ObjectSyncInstance { id, gvk, handle });
        assert(self@.instances =~= before.instances.push(new));
        proof {
            let rest = match found {
                Some(k) => before.controllers.remove(k as int),
                None => before.controllers,
            };
            assert(self@.controllers =~= rest.push(after));
            lemma_after_add(before, self@, new, found, after);
        }
        started
    }

    /// When an object is looked at again after an error.
    pub fn error_policy(error: &ControllerError) -> (res: Schedule)
        ensures
            res == schedule::after_error(error@),
    {
        schedule_after_error(error)
    }
}

pub(crate) proof fn lemma_filter_keeps_all(instances: Seq<ObjectSyncInstanceView>, id: Text)
    requires
        forall|x: ObjectSyncInstanceView| #[trigger] instances.contains(x) ==> x.id != id,
    ensures
        instances.filter(|x: ObjectSyncInstanceView| x.id != id) == instances,
    decreases instances.len(),
{
    reveal(Seq::filter);
    if instances.len() > 0 {
        let r = instances.drop_last();
        assert(instances.contains(instances[instances.len() - 1]));
        assert forall|x: ObjectSyncInstanceView| #[trigger] r.contains(x) implies x.id != id by {
            let i = choose|i: int| 0 <= i < r.len() && r[i] == x;
            assert(instances[i] == x);
            assert(instances.contains(x));
        }
        lemma_filter_keeps_all(r, id);
        assert(r.push(instances.last()) =~= instances);
    }
}

/// Which kinds are used after a registration.
pub(crate) proof fn lemma_added_uses(
    instances: Seq<ObjectSyncInstanceView>,
    event: object_sync_modifications::ObjectSyncModificationsView,
    gvk: meta::GroupVersionKindView,
)
    ensures
        ({
            let id = event.id().text();
            let others = instances.filter(|x: ObjectSyncInstanceView| x.id != id);
            forall|g: meta::GroupVersionKindView| #[trigger]
                uses(added(instances, event, gvk), g) <==> uses(others, g) || g == gvk
        }),
{
    let id = event.id().text();
    let others = instances.filter(|x: ObjectSyncInstanceView| x.id != id);
    let new = instance_of(event, gvk);
    let after = added(instances, event, gvk);
    text::lemma_push_contains(others, new);
    assert(after[others.len() as int] == new);
    assert(after.contains(new));
    assert forall|g: meta::GroupVersionKindView| #[trigger] uses(after, g) <==> uses(others, g) || g
        == gvk by {
        if uses(after, g) {
            let y = choose|y: ObjectSyncInstanceView| #[trigger] after.contains(y) && y.gvk == g;
            assert(others.contains(y) || y == new);
        }
        if uses(others, g) {
            let y = choose|y: ObjectSyncInstanceView| #[trigger] others.contains(y) && y.gvk == g;
            assert(after.contains(y));
        }
    }
}

/// What is registered after a registration is taken back.
proof fn lemma_removed(instances: Seq<ObjectSyncInstanceView>, gone: ObjectSyncInstanceView)
    requires
        instances.contains(gone),
        forall|i: int, j: int|
            0 <= i < j < instances.len() ==> (#[trigger] instances[i]).id != (
            #[trigger] instances[j]).id,
        forall|x: ObjectSyncInstanceView| #[trigger]
            instances.contains(x) ==> x.id == x.handle.1.text(),
    ensures
        ({
            let rest = instances.filter(|x: ObjectSyncInstanceView| x.id != gone.id);
            &&& forall|x: ObjectSyncInstanceView| #[trigger]
                rest.contains(x) <==> instances.contains(x) && x != gone
            &&& forall|g: meta::GroupVersionKindView|
                g != gone.gvk ==> (#[trigger] uses(rest, g) <==> uses(instances, g))
            &&& forall|
                g: meta::GroupVersionKindView,
                p: (utils::NamespacedNameView, utils::NamespacedNameView),
            | #[trigger]
                holds(rest, g, p) <==> holds(instances, g, p) && !(g == gone.gvk && p
                    == gone.handle)
        }),
{
    let keep = |x: ObjectSyncInstanceView| x.id != gone.id;
    let rest = instances.filter(keep);
    assert forall|x: ObjectSyncInstanceView| #[trigger]
        rest.contains(x) <==> instances.contains(x) && x != gone by {
        text::lemma_filter_contains(instances, keep, x);
        if instances.contains(x) && x.id == gone.id {
            lemma_same_id(instances, x, gone);
        }
    }
    assert forall|g: meta::GroupVersionKindView| g != gone.gvk implies (#[trigger] uses(rest, g)
        <==> uses(instances, g)) by {
        if uses(instances, g) {
            let x = choose|x: ObjectSyncInstanceView| #[trigger]
                instances.contains(x) && x.gvk == g;
            assert(rest.contains(x));
        }
        if uses(rest, g) {
            let x = choose|x: ObjectSyncInstanceView| #[trigger] rest.contains(x) && x.gvk == g;
            assert(instances.contains(x));
        }
    }
    assert forall|
        g: meta::GroupVersionKindView,
        p: (utils::NamespacedNameView, utils::NamespacedNameView),
    | #[trigger]
        holds(rest, g, p) <==> holds(instances, g, p) && !(g == gone.gvk && p == gone.handle) by {
        if holds(rest, g, p) {
            let x = choose|x: ObjectSyncInstanceView| #[trigger]
                rest.contains(x) && x.gvk == g && x.handle == p;
            assert(instances.contains(x) && x != gone);
            if g == gone.gvk && p == gone.handle {
                lemma_same_id(instances, x, gone);
            }
        }
        if holds(instances, g, p) && !(g == gone.gvk && p == gone.handle) {
            let x = choose|x: ObjectSyncInstanceView| #[trigger]
                instances.contains(x) && x.gvk == g && x.handle == p;
            assert(rest.contains(x));
        }
    }
}

proof fn lemma_controllers_after_remove(
    before: ObjectSyncControllerView,
    after: ObjectSyncControllerView,
    gone: ObjectSyncInstanceView,
    k: int,
    stopped: bool,
)
    requires
        before.wf(),
        before.instances.contains(gone),
        0 <= k < before.controllers.len(),
        before.controllers[k].gvk == gone.gvk,
        after.instances == before.without(gone.id),
        stopped == !uses(after.instances, gone.gvk),
        after.controllers == (if stopped {
            before.controllers.remove(k)
        } else {
            before.controllers.update(
                k,
                sources::ResourceControllerView {
                    sources: before.controllers[k].sources.remove(gone.handle),
                    ..before.controllers[k]
                },
            )
        }),
    ensures
        after.wf(),
{
    lemma_removed(before.instances, gone);
    lemma_filter_distinct(before.instances, gone.id);
    let a = before.controllers;
    let b = after.controllers;
    // Where the controller with index `j` stood before.
    let old_index = |j: int| if stopped && j >= k { j + 1 } else { j };
    assert forall|j: int| 0 <= j < b.len() implies (#[trigger] b[j]).gvk == a[old_index(j)].gvk by {
    }
    assert forall|i: int, j: int| 0 <= i < j < b.len() implies (#[trigger] b[i]).gvk != (
    #[trigger] b[j]).gvk by {
        assert(a[old_index(i)].gvk != a[old_index(j)].gvk);
    }
    assert forall|g: meta::GroupVersionKindView| #[trigger] after.serves(g) <==> uses(
        after.instances,
        g,
    ) by {
        assert(before.serves(g) <==> uses(before.instances, g));
        if after.serves(g) {
            let j = choose|j: int| 0 <= j < b.len() && (#[trigger] b[j]).gvk == g;
            assert(a[old_index(j)].gvk == g);
            if g == gone.gvk {
                assert(stopped ==> a[old_index(j)].gvk != a[k].gvk);
            }
        }
        if uses(after.instances, g) {
            if g == gone.gvk {
                assert(b[k].gvk == g);
            } else {
                let j = choose|j: int| 0 <= j < a.len() && (#[trigger] a[j]).gvk == g;
                if stopped {
                    let n = if j > k { j - 1 } else { j };
                    assert(b[n].gvk == g);
                } else {
                    assert(b[j].gvk == g);
                }
            }
        }
    }
    assert forall|j: int, p: (utils::NamespacedNameView, utils::NamespacedNameView)|
        0 <= j < b.len() implies (#[trigger] b[j].sources.contains(p) <==> holds(
        after.instances,
        b[j].gvk,
        p,
    )) by {
        let n = old_index(j);
        assert(a[n].sources.contains(p) <==> holds(before.instances, a[n].gvk, p));
        assert(holds(after.instances, a[n].gvk, p) <==> holds(before.instances, a[n].gvk, p) && !(
        a[n].gvk == gone.gvk && p == gone.handle));
        if n != k {
            assert(a[n].gvk != a[k].gvk);
            assert(b[j] == a[n]);
        }
    }
}

proof fn lemma_after_add(
    before: ObjectSyncControllerView,
    after: ObjectSyncControllerView,
    new: ObjectSyncInstanceView,
    found: Option<usize>,
    controller: sources::ResourceControllerView,
)
    requires
        before.wf(),
        before.registered(new.id) is None,
        new.id == new.handle.1.text(),
        after.instances == before.instances.push(new),
        controller.gvk == new.gvk,
        match found {
            Some(k) => {
                &&& 0 <= k < before.controllers.len()
                &&& before.controllers[k as int].gvk == new.gvk
                &&& controller.sources == before.controllers[k as int].sources.insert(new.handle)
                &&& after.controllers == before.controllers.remove(k as int).push(controller)
            },
            None => {
                &&& !before.serves(new.gvk)
                &&& controller.sources == Set::<
                    (utils::NamespacedNameView, utils::NamespacedNameView),
                >::empty().insert(new.handle)
                &&& after.controllers == before.controllers.push(controller)
            },
        },
    ensures
        after.wf(),
{
    lemma_instance(before.instances, new.id);
    text::lemma_push_contains(before.instances, new);
    let a = before.controllers;
    let b = after.controllers;
    let x0 = before.instances;
    let x1 = after.instances;
    assert(x1[x0.len() as int] == new);
    assert(x1.contains(new));
    assert forall|i: int, j: int| 0 <= i < j < x1.len() implies (#[trigger] x1[i]).id != (
    #[trigger] x1[j]).id by {
        if j == x0.len() {
            assert(x0.contains(x0[i]));
        }
    }
    assert forall|g: meta::GroupVersionKindView| #[trigger] uses(x1, g) <==> uses(x0, g) || g
        == new.gvk by {
        if uses(x1, g) {
            let x = choose|x: ObjectSyncInstanceView| #[trigger] x1.contains(x) && x.gvk == g;
            assert(x0.contains(x) || x == new);
        }
        if uses(x0, g) {
            let x = choose|x: ObjectSyncInstanceView| #[trigger] x0.contains(x) && x.gvk == g;
            assert(x1.contains(x));
        }
    }
    assert forall|
        g: meta::GroupVersionKindView,
        p: (utils::NamespacedNameView, utils::NamespacedNameView),
    | #[trigger]
        holds(x1, g, p) <==> holds(x0, g, p) || (g == new.gvk && p == new.handle) by {
        if holds(x1, g, p) {
            let x = choose|x: ObjectSyncInstanceView| #[trigger]
                x1.contains(x) && x.gvk == g && x.handle == p;
            assert(x0.contains(x) || x == new);
        }
        if holds(x0, g, p) {
            let x = choose|x: ObjectSyncInstanceView| #[trigger]
                x0.contains(x) && x.gvk == g && x.handle == p;
            assert(x1.contains(x));
        }
    }
    assert forall|x: ObjectSyncInstanceView| #[trigger] x1.contains(x) implies x.id
        == x.handle.1.text() by {
        assert(x0.contains(x) || x == new);
    }
    let last = b.len() - 1;
    // Where the controller with index `j` stood before.
    let old_index = |j: int|
        match found {
            Some(k) => if j >= k { j + 1 } else { j },
            None => j,
        };
    assert forall|j: int| 0 <= j < last implies #[trigger] b[j] == a[old_index(j)] by {
    }
    assert forall|i: int, j: int| 0 <= i < j < b.len() implies (#[trigger] b[i]).gvk != (
    #[trigger] b[j]).gvk by {
        assert(b[i] == a[old_index(i)]);
        if j < last {
            assert(b[j] == a[old_index(j)]);
            assert(a[old_index(i)].gvk != a[old_index(j)].gvk);
        } else if let Some(k) = found {
            assert(a[old_index(i)].gvk != a[k as int].gvk);
        } else {
            assert(!(a[i].gvk == new.gvk));
        }
    }
    assert forall|g: meta::GroupVersionKindView| #[trigger] after.serves(g) <==> uses(x1, g) by {
        assert(before.serves(g) <==> uses(x0, g));
        if after.serves(g) {
            let j = choose|j: int| 0 <= j < b.len() && (#[trigger] b[j]).gvk == g;
            if j < last {
                assert(b[j] == a[old_index(j)]);
                assert(a[old_index(j)].gvk == g);
            }
        }
        if uses(x1, g) {
            if g == new.gvk {
                assert(b[last].gvk == g);
            } else {
                let j = choose|j: int| 0 <= j < a.len() && (#[trigger] a[j]).gvk == g;
                match found {
                    Some(k) => {
                        let n = if j > k { j - 1 } else { j };
                        assert(b[n] == a[old_index(n)]);
                        assert(b[n].gvk == g);
                    },
                    None => {
                        assert(b[j] == a[old_index(j)]);
                        assert(b[j].gvk == g);
                    },
                }
            }
        }
    }
    assert forall|j: int, p: (utils::NamespacedNameView, utils::NamespacedNameView)|
        0 <= j < b.len() implies (#[trigger] b[j].sources.contains(p) <==> holds(x1, b[j].gvk, p)) by {
        assert(holds(x1, b[j].gvk, p) <==> holds(x0, b[j].gvk, p) || (b[j].gvk == new.gvk && p
            == new.handle));
        if j < last {
            let n = old_index(j);
            assert(b[j] == a[n]);
            assert(a[n].sources.contains(p) <==> holds(x0, a[n].gvk, p));
            assert(b[j].gvk != b[last].gvk);
        } else {
            match found {
                Some(k) => {
                    assert(a[k as int].sources.contains(p) <==> holds(x0, a[k as int].gvk, p));
                },
                None => {
                    assert(!uses(x0, new.gvk));
                    if holds(x0, new.gvk, p) {
                        let x = choose|x: ObjectSyncInstanceView| #[trigger]
                            x0.contains(x) && x.gvk == new.gvk && x.handle == p;
                        assert(uses(x0, new.gvk));
                    }
                },
            }
        }
    }
}

impl object_sync_modifications::ObjectSyncModificationsView {
    /// With the finalizers replaced.
    pub open spec fn with_finalizers(
        self,
        finalizers: Seq<Text>,
    ) -> object_sync_modifications::ObjectSyncModificationsView {
        object_sync_modifications::ObjectSyncModificationsView {
            modified: api::ObjectSyncView {
                metadata: meta::ObjectMetaView {
                    finalizers: Some(finalizers),
                    ..self.modified.metadata
                },
                ..self.modified
            },
            ..self
        }
    }

    /// Whether the object has the finalizer.
    pub open spec fn has_finalizer(self) -> bool {
        self.modified.metadata.finalizer_list().contains(FINALIZER@)
    }

    /// Without the finalizer.
    pub open spec fn without_finalizer(self) -> object_sync_modifications::ObjectSyncModificationsView {
        self.with_finalizers(utils::without(self.modified.metadata.finalizer_list(), FINALIZER@))
    }

    /// With the finalizer.
    pub open spec fn plus_finalizer(self) -> object_sync_modifications::ObjectSyncModificationsView {
        if self.has_finalizer() {
            self
        } else {
            self.with_finalizers(self.modified.metadata.finalizer_list().push(FINALIZER@))
        }
    }
}

impl ObjectSyncController {
    /// Takes the finalizer off an `ObjectSync`, and says whether it had it, so
    /// that it has to be patched.
    pub fn remove_finalizer(event: &mut ObjectSyncModifications) -> (res: bool)
        ensures
            final(event)@ == old(event)@.without_finalizer(),
            res == old(event)@.has_finalizer(),
    {
        utils::drop_finalizer(&mut event.modified.metadata, FINALIZER)
    }

    /// Adds the finalizer to an `ObjectSync`, and says whether it lacked it, so
    /// that it has to be patched.
    pub fn add_finalizer_if_missing(event: &mut ObjectSyncModifications) -> (res: bool)
        ensures
            final(event)@ == old(event)@.plus_finalizer(),
            res == !old(event)@.has_finalizer(),
    {
        if utils::has_finalizer(&event.modified.metadata, FINALIZER) {
            false
        } else {
            utils::push_finalizer(&mut event.modified.metadata, FINALIZER);
            true
        }
    }
}

/// Adding the finalizer is idempotent, and taking it off undoes adding it.
pub proof fn law_finalizer_round_trip(
    event: object_sync_modifications::ObjectSyncModificationsView,
)
    ensures
        event.plus_finalizer().has_finalizer(),
        event.plus_finalizer().plus_finalizer() == event.plus_finalizer(),
        !event.without_finalizer().has_finalizer(),
        !event.has_finalizer() ==> event.plus_finalizer().without_finalizer()
            == event.without_finalizer(),
{
    let list = event.modified.metadata.finalizer_list();
    let pushed = list.push(FINALIZER@);
    let keep = |y: Text| y != FINALIZER@;
    text::lemma_push_contains(list, FINALIZER@);
    text::lemma_filter_contains(list, keep, FINALIZER@);
    if !event.has_finalizer() {
        reveal(Seq::filter);
        assert(pushed[list.len() as int] == FINALIZER@);
        assert(pushed.drop_last() =~= list);
        assert(utils::without(pushed, FINALIZER@) == utils::without(list, FINALIZER@));
    }
}

/// A resource controller runs for a kind exactly as long as some `ObjectSync` is
/// registered for it: with the last one it is gone.
pub proof fn law_controller_runs_while_used(
    s: ObjectSyncControllerView,
    gvk: meta::GroupVersionKindView,
)
    requires
        s.wf(),
    ensures
        s.serves(gvk) <==> uses(s.instances, gvk),
{
}

/// The resource controller of its kind knows of every registration.
pub proof fn law_registration_is_known(s: ObjectSyncControllerView, x: ObjectSyncInstanceView)
    requires
        s.wf(),
        s.instances.contains(x),
    ensures
        exists|k: int|
            0 <= k < s.controllers.len() && (#[trigger] s.controllers[k]).gvk == x.gvk
                && s.controllers[k].sources.contains(x.handle),
{
    assert(uses(s.instances, x.gvk));
    assert(s.serves(x.gvk));
    let k = choose|k: int| 0 <= k < s.controllers.len() && (#[trigger] s.controllers[k]).gvk == x.gvk;
    assert(holds(s.instances, x.gvk, x.handle));
    assert(s.controllers[k].sources.contains(x.handle));
}

/// Taking a new registration back leaves the registrations as they were.
pub proof fn law_remove_undoes_add(s: ObjectSyncControllerView, new: ObjectSyncInstanceView)
    requires
        s.registered(new.id) is None,
    ensures
        s.instances.push(new).filter(|x: ObjectSyncInstanceView| x.id != new.id) == s.instances,
{
    lemma_instance(s.instances, new.id);
    lemma_filter_keeps_all(s.instances, new.id);
    reveal(Seq::filter);
    assert(s.instances.push(new).drop_last() =~= s.instances);
}

/// Once an `ObjectSync` was added, it is registered for the kind that it was added
/// for, and for no other.
pub proof fn law_added_is_registered(
    instances: Seq<ObjectSyncInstanceView>,
    event: object_sync_modifications::ObjectSyncModificationsView,
    gvk: meta::GroupVersionKindView,
)
    ensures
        instance(added(instances, event, gvk), event.id().text()) == Some(instance_of(event, gvk)),
{
    let id = event.id().text();
    lemma_not_registered(instances, id);
    lemma_registered_last(
        instances.filter(|x: ObjectSyncInstanceView| x.id != id),
        instance_of(event, gvk),
    );
}

/// Adding an `ObjectSync` leaves the registrations of the others as they are.
pub proof fn law_adding_leaves_the_others(
    s: ObjectSyncControllerView,
    event: object_sync_modifications::ObjectSyncModificationsView,
    gvk: meta::GroupVersionKindView,
    other: ObjectSyncInstanceView,
)
    requires
        other.id != event.id().text(),
    ensures
        added(s.instances, event, gvk).contains(other) <==> s.instances.contains(other),
{
    let id = event.id().text();
    let keep = |x: ObjectSyncInstanceView| x.id != id;
    text::lemma_filter_contains(s.instances, keep, other);
    text::lemma_push_contains(s.instances.filter(keep), instance_of(event, gvk));
    assert(added(s.instances, event, gvk).contains(other) <==> s.instances.filter(keep).contains(
        other,
    ) || other == instance_of(event, gvk));
}

/// While an `ObjectSync` is registered for a kind, adding one for that kind makes
/// no new resource controller but registers it with the one that runs. Once every
/// one that was registered for the kind is removed, none runs, and a new one is
/// made.
pub proof fn law_adding_shares_the_controller(
    s: ObjectSyncControllerView,
    event: object_sync_modifications::ObjectSyncModificationsView,
    gvk: meta::GroupVersionKindView,
    after: ObjectSyncControllerView,
    earlier: ObjectSyncInstanceView,
)
    requires
        s.wf(),
        after.wf(),
        after.instances == added(s.instances, event, gvk),
        earlier.gvk == gvk,
    ensures
        s.instances.contains(earlier) ==> s.serves(gvk) && !change_by(
            s.instances,
            event,
            gvk,
        ).started,
        !uses(s.instances, gvk) ==> !s.serves(gvk) && change_by(s.instances, event, gvk).started,
        exists|k: int| #[trigger]
            knows_of(after, k, gvk, instance_of(event, gvk)) && (s.instances.contains(earlier)
                && earlier.id != event.id().text() ==> knows_of(after, k, gvk, earlier)),
{
    let new = instance_of(event, gvk);
    if earlier.id != event.id().text() {
        law_adding_leaves_the_others(s, event, gvk, earlier);
    }
    assert(s.serves(gvk) <==> uses(s.instances, gvk));
    assert(after.instances[after.instances.len() - 1] == new);
    assert(after.instances.contains(new));
    assert(uses(after.instances, gvk));
    assert(after.serves(gvk));
    let k = choose|k: int|
        0 <= k < after.controllers.len() && (#[trigger] after.controllers[k]).gvk == gvk;
    assert(holds(after.instances, gvk, new.handle));
    assert(after.controllers[k].sources.contains(new.handle));
    if after.instances.contains(earlier) {
        assert(holds(after.instances, gvk, earlier.handle));
        assert(after.controllers[k].sources.contains(earlier.handle));
    }
    assert(knows_of(after, k, gvk, new));
}

/// Whether the resource controller at `k` is the one of the kind, and knows of the
/// registration.
pub open spec fn knows_of(
    s: ObjectSyncControllerView,
    k: int,
    gvk: meta::GroupVersionKindView,
    x: ObjectSyncInstanceView,
) -> bool {
    &&& 0 <= k < s.controllers.len()
    &&& s.controllers[k].gvk == gvk
    &&& s.controllers[k].sources.contains(x.handle)
}

/// The registration of an object is under its own name, for this kind, and for the
/// source that it refers to.
pub proof fn law_registration_of_an_object(
    event: object_sync_modifications::ObjectSyncModificationsView,
    gvk: meta::GroupVersionKindView,
    namespace: Text,
    name: Text,
)
    requires
        meta::is_in(event.modified.metadata, namespace),
        meta::is_named(event.modified.metadata, name),
    ensures
        ({
            let x = instance_of(event, gvk);
            &&& x.id == namespace + seq!['/'] + name
            &&& x.gvk == gvk
            &&& x.handle.0.name == event.modified.spec.source.name
            &&& api::has_source_in(event.modified, x.handle.0.namespace)
            &&& x.handle.1.name == name
            &&& x.handle.1.namespace == namespace
        }),
{
    meta::law_used_name_is_its_own(event.modified.metadata, name, namespace);
    reveal_strlit("/");
    assert("/"@ =~= seq!['/']);
}

/// After an object was added there is one registration under its name, the new one,
/// and the others are as they were, in order, with the new one behind them.
pub proof fn law_added_comes_last(
    instances: Seq<ObjectSyncInstanceView>,
    event: object_sync_modifications::ObjectSyncModificationsView,
    gvk: meta::GroupVersionKindView,
    x: ObjectSyncInstanceView,
)
    ensures
        ({
            let after = added(instances, event, gvk);
            let new = instance_of(event, gvk);
            &&& after.len() > 0 && after.last() == new
            &&& after.contains(x) <==> x == new || instances.contains(x) && x.id != new.id
            &&& after.drop_last() == instances.filter(|y: ObjectSyncInstanceView| y.id != new.id)
        }),
{
    let id = event.id().text();
    let keep = |y: ObjectSyncInstanceView| y.id != id;
    let kept = instances.filter(keep);
    text::lemma_filter_contains(instances, keep, x);
    text::lemma_push_contains(kept, instance_of(event, gvk));
    assert(added(instances, event, gvk) =~= kept.push(instance_of(event, gvk)));
    assert(added(instances, event, gvk).drop_last() =~= kept);
}

/// The resource controller of the kind is started exactly where no registration is
/// for it. The one of the kind that the object was registered for is stopped exactly
/// where neither this object nor another one is registered for it any more.
pub proof fn law_controllers_change_with_their_use(
    instances: Seq<ObjectSyncInstanceView>,
    event: object_sync_modifications::ObjectSyncModificationsView,
    gvk: meta::GroupVersionKindView,
    old_gvk: meta::GroupVersionKindView,
)
    ensures
        ({
            let change = change_by(instances, event, gvk);
            let id = utils::NamespacedNameView::of(event.modified.metadata).text();
            &&& change.gvk == gvk
            &&& change.started <==> forall|i: int|
                0 <= i < instances.len() ==> (#[trigger] instances[i]).gvk != gvk
            &&& change.stopped == Some(old_gvk) <==> {
                &&& old_gvk != gvk
                &&& exists|i: int|
                    0 <= i < instances.len() && (#[trigger] instances[i]).id == id
                        && instances[i].gvk == old_gvk && forall|j: int|
                        0 <= j < i ==> (#[trigger] instances[j]).id != id
                &&& forall|i: int|
                    0 <= i < instances.len() && (#[trigger] instances[i]).id != id
                        ==> instances[i].gvk != old_gvk
            }
        }),
{
    let id = event.id().text();
    let after = added(instances, event, gvk);
    let new = instance_of(event, gvk);
    if !uses(instances, gvk) {
        assert forall|i: int| 0 <= i < instances.len() implies (#[trigger] instances[i]).gvk
            != gvk by {
            assert(instances.contains(instances[i]));
        }
    }
    lemma_instance_at(instances, id);
    law_added_comes_last(instances, event, gvk, new);
    if !uses(after, old_gvk) {
        assert(after.contains(new));
        assert forall|i: int|
            0 <= i < instances.len() && (#[trigger] instances[i]).id != id implies instances[i].gvk
            != old_gvk by {
            law_added_comes_last(instances, event, gvk, instances[i]);
            assert(instances.contains(instances[i]));
            assert(after.contains(instances[i]));
        }
    } else {
        let x = choose|x: ObjectSyncInstanceView| #[trigger] after.contains(x) && x.gvk == old_gvk;
        law_added_comes_last(instances, event, gvk, x);
        if x != new {
            let i = choose|i: int| 0 <= i < instances.len() && instances[i] == x;
            assert(instances[i].id != id);
        }
    }
    if exists|i: int|
        0 <= i < instances.len() && (#[trigger] instances[i]).id == id && instances[i].gvk
            == old_gvk && forall|j: int| 0 <= j < i ==> (#[trigger] instances[j]).id != id {
        let i = choose|i: int|
            0 <= i < instances.len() && (#[trigger] instances[i]).id == id && instances[i].gvk
                == old_gvk && forall|j: int| 0 <= j < i ==> (#[trigger] instances[j]).id != id;
        assert(instance(instances, id) is Some) by {
            assert(instances[i].id == id);
        }
        let k = choose|k: int|
            0 <= k < instances.len() && (#[trigger] instances[k]) == instance(instances, id)->0
                && instances[k].id == id && forall|j: int|
                0 <= j < k ==> (#[trigger] instances[j]).id != id;
        assert(k == i) by {
            if k < i {
                assert(instances[k].id != id);
            } else if i < k {
                assert(instances[i].id != id);
            }
        }
    }
}

pub proof fn lemma_instance_at(instances: Seq<ObjectSyncInstanceView>, id: Text)
    ensures
        match instance(instances, id) {
            Some(x) => exists|i: int|
                0 <= i < instances.len() && (#[trigger] instances[i]) == x && instances[i].id == id
                    && forall|j: int| 0 <= j < i ==> (#[trigger] instances[j]).id != id,
            None => forall|j: int| 0 <= j < instances.len() ==> (#[trigger] instances[j]).id != id,
        },
    decreases instances.len(),
{
    if instances.len() > 0 {
        let rest = instances.drop_first();
        if instances[0].id == id {
            assert(instances[0] == instances[0]);
        } else {
            lemma_instance_at(rest, id);
            match instance(rest, id) {
                Some(x) => {
                    let i = choose|i: int|
                        0 <= i < rest.len() && (#[trigger] rest[i]) == x && rest[i].id == id
                            && forall|j: int| 0 <= j < i ==> (#[trigger] rest[j]).id != id;
                    assert(instances[i + 1] == x);
                    assert forall|j: int| 0 <= j < i + 1 implies (#[trigger] instances[j]).id
                        != id by {
                        if j > 0 {
                            assert(rest[j - 1] == instances[j]);
                        }
                    }
                },
                None => {
                    assert forall|j: int| 0 <= j < instances.len() implies (
                    #[trigger] instances[j]).id != id by {
                        if j > 0 {
                            assert(rest[j - 1] == instances[j]);
                        }
                    }
                },
            }
        }
    }
}

/// An object without the finalizer of the syncer gets it, behind the others, and
/// nothing else of it changes. One that has it stays as it is.
pub proof fn law_finalizer_is_added_where_missing(
    event: object_sync_modifications::ObjectSyncModificationsView,
)
    ensures
        ({
            let ours = "sync.rustrial.org/rustrial-object-syncer"@;
            let after = event.plus_finalizer();
            let before = event.modified.metadata;
            &&& event.has_finalizer() <==> meta::carries(before, ours)
            &&& meta::carries(before, ours) ==> after == event
            &&& !meta::carries(before, ours) ==> {
                &&& after.original == event.original
                &&& after.modified.spec == event.modified.spec
                &&& after.modified.status == event.modified.status
                &&& after.modified.metadata == (meta::ObjectMetaView {
                    finalizers: match before.finalizers {
                        Some(list) => Some(list.push(ours)),
                        None => Some(seq![ours]),
                    },
                    ..before
                })
            }
        }),
{
    assert(Seq::<Text>::empty().push(FINALIZER@) =~= seq![FINALIZER@]);
}

/// A new controller has no registration. Adding and removing an object are as the
/// laws on them say. The kind that an object is registered for is that of the
/// registration under its name, and a resource controller that is handed out is that
/// of the kind.
pub proof fn law_registrations_of_a_controller(
    configuration: Configuration,
    made: ObjectSyncController,
    adding: &mut ObjectSyncController,
    event: &ObjectSyncModifications,
    gvk: GroupVersionKind,
    change: ControllerChange,
    removing: &mut ObjectSyncController,
    removed: Option<Removed>,
    x: ObjectSyncInstanceView,
)
    requires
        call_ensures(ObjectSyncController::new, (configuration,), made),
        call_ensures(ObjectSyncController::add, (adding, event, gvk), change),
        call_ensures(ObjectSyncController::remove, (removing, event), removed),
    ensures
        made@.instances.len() == 0 && made@.controllers.len() == 0,
        made@.configuration == configuration@,
        final(adding)@.configuration == old(adding)@.configuration,
        final(adding)@.instances == added(old(adding)@.instances, event@, gvk@),
        change@ == change_by(old(adding)@.instances, event@, gvk@),
        ({
            let id = utils::NamespacedNameView::of(event@.modified.metadata).text();
            let before = old(removing)@.instances;
            let after = final(removing)@.instances;
            &&& final(removing)@.configuration == old(removing)@.configuration
            &&& after.contains(x) <==> before.contains(x) && x.id != id
            &&& match instance(before, id) {
                Some(own) => removed matches Some(r) && r.gvk@ == own.gvk && (r.stopped <==> forall|
                    i: int,
                |
                    0 <= i < after.len() ==> (#[trigger] after[i]).gvk != own.gvk),
                None => removed is None,
            }
        }),
{
    let id = event@.id().text();
    let before = old(removing)@.instances;
    let after = final(removing)@.instances;
    let keep = |x: ObjectSyncInstanceView| x.id != id;
    text::lemma_filter_contains(before, keep, x);
    assert(after == before.filter(keep));
    if let Some(own) = instance(before, id) {
        if uses(after, own.gvk) {
            let y = choose|y: ObjectSyncInstanceView| #[trigger]
                after.contains(y) && y.gvk == own.gvk;
            let i = choose|i: int| 0 <= i < after.len() && after[i] == y;
            assert(after[i].gvk == own.gvk);
        } else {
            assert forall|i: int| 0 <= i < after.len() implies (#[trigger] after[i]).gvk
                != own.gvk by {
                assert(after.contains(after[i]));
            }
        }
    }
}

/// The kind that an object is registered for is that of the first registration under
/// its name, and the resource controller that is handed out is that of the kind. An
/// object gets the finalizer, and loses it, as the laws on it say.
pub proof fn law_what_a_controller_tells(
    c: &ObjectSyncController,
    id: &str,
    registered: Option<GroupVersionKind>,
    i: int,
    gvk: &GroupVersionKind,
    found: Option<&ResourceController>,
    adding: &mut ObjectSyncModifications,
    was_missing: bool,
    removing: &mut ObjectSyncModifications,
    was_there: bool,
    error: &ControllerError,
    after: Schedule,
)
    requires
        call_ensures(ObjectSyncController::registered_gvk, (c, id), registered),
        call_ensures(ObjectSyncController::controller, (c, gvk), found),
        call_ensures(ObjectSyncController::add_finalizer_if_missing, (adding,), was_missing),
        call_ensures(ObjectSyncController::remove_finalizer, (removing,), was_there),
        call_ensures(ObjectSyncController::error_policy, (error,), after),
    ensures
        ({
            let all = c@.instances;
            &&& (forall|j: int| 0 <= j < all.len() ==> (#[trigger] all[j]).id != id@)
                ==> registered is None
            &&& 0 <= i < all.len() && all[i].id == id@ && (forall|j: int|
                0 <= j < i ==> (#[trigger] all[j]).id != id@) ==> (registered matches Some(g)
                && g@ == all[i].gvk)
        }),
        found matches Some(k) ==> c@.controllers.contains(k@) && k@.gvk == gvk@,
        found is None ==> forall|k: int|
            0 <= k < c@.controllers.len() ==> (#[trigger] c@.controllers[k]).gvk != gvk@,
        final(adding)@ == old(adding)@.plus_finalizer(),
        was_missing == !meta::carries(
            old(adding)@.modified.metadata,
            "sync.rustrial.org/rustrial-object-syncer"@,
        ),
        final(removing)@ == old(removing)@.without_finalizer(),
        was_there == meta::carries(
            old(removing)@.modified.metadata,
            "sync.rustrial.org/rustrial-object-syncer"@,
        ),
        after == schedule::after_error(error@),
{
    let all = c@.instances;
    lemma_instance_at(all, id@);
    assert((registered is Some) == (text::view_opt(registered) is Some));
    if 0 <= i < all.len() && all[i].id == id@ && (forall|j: int|
        0 <= j < i ==> (#[trigger] all[j]).id != id@) {
        assert(all[i].id == id@);
        let k = choose|k: int|
            0 <= k < all.len() && (#[trigger] all[k]) == instance(all, id@)->0 && all[k].id == id@
                && forall|j: int| 0 <= j < k ==> (#[trigger] all[j]).id != id@;
        assert(k == i) by {
            if k < i {
                assert(all[k].id != id@);
            } else if i < k {
                assert(all[i].id != id@);
            }
        }
    }
    if found is None {
        assert forall|k: int| 0 <= k < c@.controllers.len() implies (
        #[trigger] c@.controllers[k]).gvk != gvk@ by {
            assert(!c@.serves(gvk@));
        }
    }
}

} // verus!
