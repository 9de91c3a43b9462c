//! Finding the kind of a source object among the resources of its API group.
use crate::api;
use crate::api::SourceObject;
use crate::errors;
use crate::errors::ControllerError;
use crate::meta;
use crate::meta::{ApiResource, GroupVersionKind};
use crate::text;
use crate::text::Text;
use vstd::prelude::*;
use vstd::string::*;

verus! {

/// A resource of an API group.
#[derive(Debug, PartialEq, Eq)]
pub struct DiscoveredResource {
    /// The resource.
    pub resource: ApiResource,
    /// Whether its objects stand in namespaces.
    pub namespaced: bool,
}

/// The model of [`DiscoveredResource`].
#[verifier::ext_equal]
pub struct DiscoveredResourceView {
    pub resource: meta::ApiResourceView,
    pub namespaced: bool,
}

impl View for DiscoveredResource {
    type V = DiscoveredResourceView;

    open spec fn view(&self) -> DiscoveredResourceView {
        DiscoveredResourceView { resource: self.resource@, namespaced: self.namespaced }
    }
}

impl Clone for DiscoveredResource {
    fn clone(&self) -> (res: Self)
        ensures
            res@ == self@,
    {
        DiscoveredResource { resource: self.resource.clone(), namespaced: self.namespaced }
    }
}

/// The resources of an API group at one of its versions.
#[derive(Debug, PartialEq, Eq)]
pub struct DiscoveredVersion {
    /// The version.
    pub version: String,
    /// The resources.
    pub resources: Vec<DiscoveredResource>,
}

/// The model of [`DiscoveredVersion`].
#[verifier::ext_equal]
pub struct DiscoveredVersionView {
    pub version: Text,
    pub resources: Seq<DiscoveredResourceView>,
}

impl View for DiscoveredVersion {
    type V = DiscoveredVersionView;

    open spec fn view(&self) -> DiscoveredVersionView {
        DiscoveredVersionView {
            version: self.version@,
            resources: text::views(self.resources@),
        }
    }
}

impl Clone for DiscoveredVersion {
    fn clone(&self) -> (res: Self)
        ensures
            res@ == self@,
    {
        let res = DiscoveredVersion {
            version: self.version.clone(),
            resources: self.resources.clone(),
        };
        assert(res@ =~~= self@);
        res
    }
}

/// An API group, with all the versions at which it is served.
#[derive(Debug, PartialEq, Eq)]
pub struct DiscoveredGroup {
    /// The version that is preferred.
    pub preferred: String,
    /// The versions.
    pub versions: Vec<DiscoveredVersion>,
}

/// The model of [`DiscoveredGroup`].
#[verifier::ext_equal]
pub struct DiscoveredGroupView {
    pub preferred: Text,
    pub versions: Seq<DiscoveredVersionView>,
}

impl View for DiscoveredGroup {
    type V = DiscoveredGroupView;

    open spec fn view(&self) -> DiscoveredGroupView {
        DiscoveredGroupView { preferred: self.preferred@, versions: text::views(self.versions@) }
    }
}

impl Clone for DiscoveredGroup {
    fn clone(&self) -> (res: Self)
        ensures
            res@ == self@,
    {
        let res = DiscoveredGroup {
            preferred: self.preferred.clone(),
            versions: self.versions.clone(),
        };
        assert(res@ =~~= self@);
        res
    }
}

/// The resources at the version, none where it is not served.
pub open spec fn resources_at(versions: Seq<DiscoveredVersionView>, version: Text) -> Seq<
    DiscoveredResourceView,
>
    decreases versions.len(),
{
    if versions.len() == 0 {
        Seq::empty()
    } else if versions[0].version == version {
        versions[0].resources
    } else {
        resources_at(versions.drop_first(), version)
    }
}

impl DiscoveredGroupView {
    /// The resources at the version that is asked for, or at the preferred one
    /// where none is.
    pub open spec fn resources_for(self, version: Option<Text>) -> Seq<DiscoveredResourceView> {
        resources_at(
            self.versions,
            match version {
                Some(v) => v,
                None => self.preferred,
            },
        )
    }
}

/// Whether a resource is of the kind, and of the version where one is asked for.
pub open spec fn fits(r: meta::ApiResourceView, kind: Text, version: Option<Text>) -> bool {
    r.kind == kind && (version matches Some(v) ==> r.version == v)
}

/// The first resource of the kind and version, where there is one.
pub open spec fn first_fitting(
    resources: Seq<DiscoveredResourceView>,
    kind: Text,
    version: Option<Text>,
) -> Option<DiscoveredResourceView>
    decreases resources.len(),
{
    if resources.len() == 0 {
        None
    } else if fits(resources[0].resource, kind, version) {
        Some(resources[0])
    } else {
        first_fitting(resources.drop_first(), kind, version)
    }
}

/// The error of a group that could not be discovered.
pub open spec fn undiscovered(group: Text, message: Text) -> errors::ControllerErrorView {
    errors::ControllerErrorView::ApiDiscoveryError(
        "failed to discover detail information for API Group "@ + group + ": "@ + message,
    )
}

/// The error of a kind that the group does not have.
pub open spec fn unknown_kind(source: api::SourceObjectView) -> errors::ControllerErrorView {
    errors::ControllerErrorView::ApiDiscoveryError(
        match source.version {
            Some(version) => "Kind "@ + source.kind + " in API Group "@ + source.group
                + " with version "@ + version + " does not exist"@,
            None => "unable to resolve preferred version for Kind "@ + source.kind
                + " in API Group "@ + source.group,
        },
    )
}

/// The error of a kind whose objects do not stand in namespaces.
pub open spec fn cluster_scoped(r: meta::ApiResourceView) -> errors::ControllerErrorView {
    errors::ControllerErrorView::ClusterScopedResource(
        "resource "@ + r.group + "/"@ + r.version + "/"@ + r.kind
            + " is cluster scoped, resource syncer only supports namespace scoped resources"@,
    )
}

/// The resource of a source object, given its API group, or the message of a
/// discovery that failed.
pub open spec fn resource_of(
    source: api::SourceObjectView,
    discovered: Result<DiscoveredGroupView, Text>,
) -> Result<meta::ApiResourceView, errors::ControllerErrorView> {
    match discovered {
        Ok(group) => match first_fitting(
            group.resources_for(source.version),
            source.kind,
            source.version,
        ) {
            Some(r) => if r.namespaced {
                Ok(r.resource)
            } else {
                Err(cluster_scoped(r.resource))
            },
            None => Err(unknown_kind(source)),
        },
        Err(message) => Err(undiscovered(source.group, message)),
    }
}

/// The kind of a source object.
pub open spec fn gvk_of(
    source: api::SourceObjectView,
    discovered: Result<DiscoveredGroupView, Text>,
) -> Result<meta::GroupVersionKindView, errors::ControllerErrorView> {
    match resource_of(source, discovered) {
        Ok(r) => Ok(
            meta::GroupVersionKindView { group: r.group, version: r.version, kind: r.kind },
        ),
        Err(e) => Err(e),
    }
}

/// The view of what was discovered.
pub open spec fn discovered_view(discovered: Result<DiscoveredGroup, String>) -> Result<
    DiscoveredGroupView,
    Text,
> {
    match discovered {
        Ok(group) => Ok(group@),
        Err(message) => Err(message@),
    }
}

/// The place of the version among those of the group.
fn find_version(versions: &Vec<DiscoveredVersion>, version: &str) -> (res: Option<usize>)
    ensures
        match res {
            Some(k) => k < versions@.len() && resources_at(text::views(versions@), version@)
                == versions@[k as int]@.resources,
            None => resources_at(text::views(versions@), version@) == Seq::<
                DiscoveredResourceView,
            >::empty(),
        },
{
    let ghost all = text::views(versions@);
    let mut i: usize = 0;
    assert(all.skip(0) =~= all);
    while i < versions.len()
        invariant
            i <= versions@.len(),
            all == text::views(versions@),
            resources_at(all, version@) == resources_at(all.skip(i as int), version@),
        decreases versions@.len() - i,
    {
        assert(all.skip(i as int)[0] == versions@[i as int]@);
        assert(all.skip(i as int).drop_first() =~= all.skip(i + 1));
        if text::same_text(versions[i].version.as_str(), version) {
            return Some(i);
        }
        i = i + 1;
    }
    None
}

fn fitting(r: &ApiResource, source: &SourceObject) -> (res: bool)
    ensures
        res == fits(r@, source@.kind, source@.version),
{
    r.kind == source.kind && match &source.version {
        Some(version) => text::same_text(r.version.as_str(), version.as_str()),
        None => true,
    }
}

/// The resource of a source object, given its API group, or the message of a
/// discovery that failed.
pub fn get_api_resource(
    source: &SourceObject,
    discovered: Result<DiscoveredGroup, String>,
) -> (res: Result<ApiResource, ControllerError>)
    ensures
        text::view_res(res) == resource_of(source@, discovered_view(discovered)),
{
    match discovered {
        Err(message) => {
            let mut m = "failed to discover detail information for API Group ".to_string();
            m.append(source.group.as_str());
            m.append(": ");
            m.append(message.as_str());
            Err(ControllerError::ApiDiscoveryError(m))
        },
        Ok(group) => {
            let version: &str = match &source.version {
                Some(version) => version.as_str(),
                None => group.preferred.as_str(),
            };
            let none: Vec<DiscoveredResource> = Vec::new();
            let resources: &Vec<DiscoveredResource> = match find_version(&group.versions, version) {
                Some(k) => &group.versions[k].resources,
                None => &none,
            };
            let ghost all = text::views(resources@);
            assert(all =~= group@.resources_for(source@.version));
            let mut i: usize = 0;
            assert(all.skip(0) =~= all);
            while i < resources.len()
                invariant
                    i <= resources@.len(),
                    all == text::views(resources@),
                    first_fitting(all, source@.kind, source@.version) == first_fitting(
                        all.skip(i as int),
                        source@.kind,
                        source@.version,
                    ),
                    discovered_view(discovered) == Ok::<DiscoveredGroupView, Text>(group@),
                    all == group@.resources_for(source@.version),
                decreases resources@.len() - i,
            {
                let r: &DiscoveredResource = &resources[i];
                assert(all.skip(i as int)[0] == r@);
                assert(all.skip(i as int).drop_first() =~= all.skip(i + 1));
                if fitting(&r.resource, source) {
                    if r.namespaced {
                        return Ok(r.resource.clone());
                    }
                    let mut m = "resource ".to_string();
                    m.append(r.resource.group.as_str());
                    m.append("/");
                    m.append(r.resource.version.as_str());
                    m.append("/");
                    m.append(r.resource.kind.as_str());
                    m.append(
                        " is cluster scoped, resource syncer only supports namespace scoped resources",
                    );
                    return Err(ControllerError::ClusterScopedResource(m));
                }
                i = i + 1;
            }
            let message: String = match &source.version {
                Some(version) => {
                    let mut m = "Kind ".to_string();
                    m.append(source.kind.as_str());
                    m.append(" in API Group ");
                    m.append(source.group.as_str());
                    m.append(" with version ");
                    m.append(version.as_str());
                    m.append(" does not exist");
                    m
                },
                None => {
                    let mut m = "unable to resolve preferred version for Kind ".to_string();
                    m.append(source.kind.as_str());
                    m.append(" in API Group ");
                    m.append(source.group.as_str());
                    m
                },
            };
            Err(ControllerError::ApiDiscoveryError(message))
        },
    }
}

/// The kind of a source object, given its API group, or the message of a
/// discovery that failed.
pub fn get_gvk(
    source: &SourceObject,
    discovered: Result<DiscoveredGroup, String>,
) -> (res: Result<GroupVersionKind, ControllerError>)
    ensures
        text::view_res(res) == gvk_of(source@, discovered_view(discovered)),
{
    match get_api_resource(source, discovered) {
        Ok(r) => Ok(GroupVersionKind { group: r.group, version: r.version, kind: r.kind }),
        Err(e) => Err(e),
    }
}

/// Only kinds whose objects stand in namespaces are ever synchronized, and the
/// kind found is the one that was asked for, at the version that was asked for.
pub proof fn law_only_namespaced_kinds(source: api::SourceObjectView, group: DiscoveredGroupView)
    ensures
        resource_of(source, Ok(group)) matches Ok(r) ==> {
            &&& fits(r, source.kind, source.version)
            &&& group.resources_for(source.version).contains(
                DiscoveredResourceView { resource: r, namespaced: true },
            )
        },
{
    lemma_first_fitting(group.resources_for(source.version), source.kind, source.version);
}

/// Every version at which the kind is served can be asked for, whether or not it
/// is the preferred one.
pub proof fn law_served_version_is_found(
    source: api::SourceObjectView,
    group: DiscoveredGroupView,
    r: DiscoveredResourceView,
)
    requires
        group.resources_for(source.version).contains(r),
        fits(r.resource, source.kind, source.version),
        forall|x: DiscoveredResourceView| #[trigger]
            group.resources_for(source.version).contains(x) && fits(
                x.resource,
                source.kind,
                source.version,
            ) ==> x.namespaced,
    ensures
        resource_of(source, Ok(group)) matches Ok(found) && fits(
            found,
            source.kind,
            source.version,
        ),
{
    let resources = group.resources_for(source.version);
    lemma_first_fitting(resources, source.kind, source.version);
    lemma_fitting_is_found(resources, source.kind, source.version, r);
}

proof fn lemma_fitting_is_found(
    resources: Seq<DiscoveredResourceView>,
    kind: Text,
    version: Option<Text>,
    r: DiscoveredResourceView,
)
    requires
        resources.contains(r),
        fits(r.resource, kind, version),
    ensures
        first_fitting(resources, kind, version) is Some,
    decreases resources.len(),
{
    if !fits(resources[0].resource, kind, version) {
        let i = choose|i: int| 0 <= i < resources.len() && resources[i] == r;
        assert(resources.drop_first()[i - 1] == r);
        lemma_fitting_is_found(resources.drop_first(), kind, version, r);
    }
}

proof fn lemma_first_fitting(
    resources: Seq<DiscoveredResourceView>,
    kind: Text,
    version: Option<Text>,
)
    ensures
        first_fitting(resources, kind, version) matches Some(r) ==> resources.contains(r) && fits(
            r.resource,
            kind,
            version,
        ),
    decreases resources.len(),
{
    if resources.len() > 0 {
        if fits(resources[0].resource, kind, version) {
            assert(resources.contains(resources[0]));
        } else {
            let rest = resources.drop_first();
            lemma_first_fitting(rest, kind, version);
            if let Some(r) = first_fitting(rest, kind, version) {
                let i = choose|i: int| 0 <= i < rest.len() && rest[i] == r;
                assert(resources[i + 1] == r);
            }
        }
    }
}

/// Whether the `k`-th resource at the `m`-th version of the group is the one that
/// the source asks for: the version is the one that the source names, or else the
/// preferred one, and the resource is of the kind of the source, and of the version
/// that the source names. There is none before it.
pub open spec fn is_first_match(
    source: api::SourceObjectView,
    group: DiscoveredGroupView,
    m: int,
    k: int,
) -> bool {
    let asked = match source.version {
        Some(version) => version,
        None => group.preferred,
    };
    &&& 0 <= m < group.versions.len()
    &&& group.versions[m].version == asked
    &&& forall|j: int| 0 <= j < m ==> (#[trigger] group.versions[j]).version != asked
    &&& 0 <= k < group.versions[m].resources.len()
    &&& is_match(source, group.versions[m].resources[k])
    &&& forall|j: int| 0 <= j < k ==> !is_match(source, #[trigger] group.versions[m].resources[j])
}

/// Whether the resource is of the kind of the source, and of the version that the
/// source names, where it names one.
pub open spec fn is_match(source: api::SourceObjectView, r: DiscoveredResourceView) -> bool {
    &&& r.resource.kind == source.kind
    &&& source.version is None || source.version == Some(r.resource.version)
}

proof fn lemma_version_at(versions: Seq<DiscoveredVersionView>, version: Text)
    ensures
        (resources_at(versions, version) == Seq::<DiscoveredResourceView>::empty() && forall|
            j: int,
        |
            0 <= j < versions.len() ==> (#[trigger] versions[j]).version != version) || exists|
            m: int,
        |
            0 <= m < versions.len() && (#[trigger] versions[m]).version == version && resources_at(
                versions,
                version,
            ) == versions[m].resources && forall|j: int|
                0 <= j < m ==> (#[trigger] versions[j]).version != version,
    decreases versions.len(),
{
    if versions.len() > 0 {
        if versions[0].version == version {
            assert(resources_at(versions, version) == versions[0].resources);
        } else {
            let rest = versions.drop_first();
            lemma_version_at(rest, version);
            assert forall|j: int| 0 <= j < rest.len() implies #[trigger] rest[j] == versions[j
                + 1] by {}
            if exists|m: int|
                0 <= m < rest.len() && (#[trigger] rest[m]).version == version && resources_at(
                    rest,
                    version,
                ) == rest[m].resources && forall|j: int|
                    0 <= j < m ==> (#[trigger] rest[j]).version != version {
                let m = choose|m: int|
                    0 <= m < rest.len() && (#[trigger] rest[m]).version == version && resources_at(
                        rest,
                        version,
                    ) == rest[m].resources && forall|j: int|
                        0 <= j < m ==> (#[trigger] rest[j]).version != version;
                assert(versions[m + 1].version == version);
                assert forall|j: int| 0 <= j < m + 1 implies (#[trigger] versions[j]).version
                    != version by {
                    if j > 0 {
                        assert(rest[j - 1] == versions[j]);
                    }
                }
            } else {
                assert forall|j: int| 0 <= j < versions.len() implies (
                #[trigger] versions[j]).version != version by {
                    if j > 0 {
                        assert(rest[j - 1] == versions[j]);
                    }
                }
            }
        }
    }
}

proof fn lemma_match_at(source: api::SourceObjectView, resources: Seq<DiscoveredResourceView>)
    ensures
        match first_fitting(resources, source.kind, source.version) {
            Some(r) => exists|k: int|
                0 <= k < resources.len() && (#[trigger] resources[k]) == r && is_match(source, r)
                    && forall|j: int| 0 <= j < k ==> !is_match(source, #[trigger] resources[j]),
            None => forall|j: int|
                0 <= j < resources.len() ==> !is_match(source, #[trigger] resources[j]),
        },
    decreases resources.len(),
{
    if resources.len() > 0 {
        let rest = resources.drop_first();
        if fits(resources[0].resource, source.kind, source.version) {
            assert(resources[0] == resources[0]);
        } else {
            assert(!is_match(source, resources[0]));
            lemma_match_at(source, rest);
            match first_fitting(rest, source.kind, source.version) {
                Some(r) => {
                    let k = choose|k: int|
                        0 <= k < rest.len() && (#[trigger] rest[k]) == r && is_match(source, r)
                            && forall|j: int| 0 <= j < k ==> !is_match(source, #[trigger] rest[j]);
                    assert(resources[k + 1] == r);
                    assert forall|j: int| 0 <= j < k + 1 implies !is_match(
                        source,
                        #[trigger] resources[j],
                    ) by {
                        if j > 0 {
                            assert(rest[j - 1] == resources[j]);
                        }
                    }
                },
                None => {
                    assert forall|j: int| 0 <= j < resources.len() implies !is_match(
                        source,
                        #[trigger] resources[j],
                    ) by {
                        if j > 0 {
                            assert(rest[j - 1] == resources[j]);
                        }
                    }
                },
            }
        }
    }
}

proof fn lemma_first_match_is_one(
    source: api::SourceObjectView,
    group: DiscoveredGroupView,
    m: int,
    k: int,
)
    requires
        is_first_match(source, group, m, k),
    ensures
        first_fitting(group.resources_for(source.version), source.kind, source.version) == Some(
            group.versions[m].resources[k],
        ),
{
    let asked = match source.version {
        Some(version) => version,
        None => group.preferred,
    };
    lemma_version_at(group.versions, asked);
    assert(group.versions[m].version == asked);
    let n = choose|n: int|
        0 <= n < group.versions.len() && (#[trigger] group.versions[n]).version == asked
            && resources_at(group.versions, asked) == group.versions[n].resources && forall|
            j: int,
        |
            0 <= j < n ==> (#[trigger] group.versions[j]).version != asked;
    assert(n == m) by {
        if n < m {
            assert(group.versions[n].version != asked);
        } else if m < n {
            assert(group.versions[m].version != asked);
        }
    }
    let resources = group.versions[m].resources;
    lemma_match_at(source, resources);
    assert(is_match(source, resources[k]));
    let i = choose|i: int|
        0 <= i < resources.len() && (#[trigger] resources[i]) == first_fitting(
            resources,
            source.kind,
            source.version,
        )->0 && is_match(source, resources[i]) && forall|j: int|
            0 <= j < i ==> !is_match(source, #[trigger] resources[j]);
    assert(i == k) by {
        if i < k {
            assert(!is_match(source, group.versions[m].resources[i]));
        } else if k < i {
            assert(!is_match(source, resources[k]));
        }
    }
}

/// The resource of a source is the first one of its kind at the version that it
/// names, or else at the preferred one. It is an error where the objects of that
/// resource do not stand in namespaces.
pub proof fn law_resource_is_the_first_match(
    source: api::SourceObjectView,
    group: DiscoveredGroupView,
    m: int,
    k: int,
)
    requires
        is_first_match(source, group, m, k),
    ensures
        ({
            let r = group.versions[m].resources[k];
            if r.namespaced {
                &&& resource_of(source, Ok(group)) == Ok::<
                    meta::ApiResourceView,
                    errors::ControllerErrorView,
                >(r.resource)
                &&& gvk_of(source, Ok(group)) matches Ok(gvk) && gvk.group == r.resource.group
                    && gvk.version == r.resource.version && gvk.kind == r.resource.kind
            } else {
                let e = errors::ControllerErrorView::ClusterScopedResource(
                    "resource "@ + r.resource.group + "/"@ + r.resource.version + "/"@
                        + r.resource.kind
                        + " is cluster scoped, resource syncer only supports namespace scoped resources"@,
                );
                &&& resource_of(source, Ok(group)) == Err::<
                    meta::ApiResourceView,
                    errors::ControllerErrorView,
                >(e)
                &&& gvk_of(source, Ok(group)) == Err::<
                    meta::GroupVersionKindView,
                    errors::ControllerErrorView,
                >(e)
            }
        }),
{
    lemma_first_match_is_one(source, group, m, k);
}

/// A kind that no resource of the group is of, at the version that is asked for, is
/// an error, and so is a group that could not be read.
pub proof fn law_unmatched_kind_is_an_error(
    source: api::SourceObjectView,
    group: DiscoveredGroupView,
    message: Text,
)
    ensures
        (forall|m: int, k: int| !#[trigger] is_first_match(source, group, m, k)) ==> gvk_of(
            source,
            Ok(group),
        ) == Err::<meta::GroupVersionKindView, errors::ControllerErrorView>(
            errors::ControllerErrorView::ApiDiscoveryError(
                match source.version {
                    Some(version) => "Kind "@ + source.kind + " in API Group "@ + source.group
                        + " with version "@ + version + " does not exist"@,
                    None => "unable to resolve preferred version for Kind "@ + source.kind
                        + " in API Group "@ + source.group,
                },
            ),
        ),
        (forall|m: int, k: int| !#[trigger] is_first_match(source, group, m, k)) ==> resource_of(
            source,
            Ok(group),
        ) == Err::<meta::ApiResourceView, errors::ControllerErrorView>(
            gvk_of(source, Ok(group))->Err_0,
        ),
        gvk_of(source, Err(message)) == Err::<
            meta::GroupVersionKindView,
            errors::ControllerErrorView,
        >(
            errors::ControllerErrorView::ApiDiscoveryError(
                "failed to discover detail information for API Group "@ + source.group + ": "@
                    + message,
            ),
        ),
        resource_of(source, Err(message)) == Err::<
            meta::ApiResourceView,
            errors::ControllerErrorView,
        >(gvk_of(source, Err(message))->Err_0),
{
    let asked = match source.version {
        Some(version) => version,
        None => group.preferred,
    };
    let resources = group.resources_for(source.version);
    if first_fitting(resources, source.kind, source.version) is Some {
        lemma_version_at(group.versions, asked);
        lemma_match_at(source, resources);
        let r = first_fitting(resources, source.kind, source.version)->0;
        let k = choose|k: int|
            0 <= k < resources.len() && (#[trigger] resources[k]) == r && is_match(source, r)
                && forall|j: int| 0 <= j < k ==> !is_match(source, #[trigger] resources[j]);
        assert(resources.len() > 0);
        let m = choose|m: int|
            0 <= m < group.versions.len() && (#[trigger] group.versions[m]).version == asked
                && resources_at(group.versions, asked) == group.versions[m].resources && forall|
                j: int,
            |
                0 <= j < m ==> (#[trigger] group.versions[j]).version != asked;
        assert(is_first_match(source, group, m, k));
    }
}

/// What is found for a source is what the laws on it say: the resource, and its
/// kind.
pub proof fn law_kind_that_is_found(
    source: &SourceObject,
    discovered: Result<DiscoveredGroup, String>,
    resource: Result<ApiResource, ControllerError>,
    gvk: Result<GroupVersionKind, ControllerError>,
)
    requires
        call_ensures(get_api_resource, (source, discovered), resource),
        call_ensures(get_gvk, (source, discovered), gvk),
    ensures
        text::view_res(resource) == resource_of(source@, discovered_view(discovered)),
        text::view_res(gvk) == gvk_of(source@, discovered_view(discovered)),
        gvk matches Ok(g) ==> g.kind@ == source.kind@ && (source.version matches Some(v)
            ==> g.version@ == v@) && (resource matches Ok(r) && r.group@ == g.group@ && r.version@
            == g.version@ && r.kind@ == g.kind@),
{
    if let Ok(group) = discovered {
        law_only_namespaced_kinds(source@, group@);
    }
    if let Ok(g) = gvk {
        assert(text::view_res(gvk) == Ok::<meta::GroupVersionKindView, errors::ControllerErrorView>(g@));
        assert(text::view_res(resource) is Ok);
        assert(source@.version == text::view_opt(source.version));
    }
}

} // verus!
