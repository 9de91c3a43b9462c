//! The controller of one kind of source objects.
use crate::configuration;
use crate::configuration::Configuration;
use crate::meta;
use crate::meta::{ApiResource, GroupVersionKind};
use vstd::prelude::*;

verus! {

/// Tracks the source objects of one kind.
#[derive(Debug, PartialEq, Eq)]
pub struct ResourceControllerImpl {
    pub configuration: Configuration,
    /// How the API is asked for objects of the kind.
    pub api_resource: ApiResource,
    /// The kind.
    pub gvk: GroupVersionKind,
}

/// The model of [`ResourceControllerImpl`].
#[verifier::ext_equal]
pub struct ResourceControllerImplView {
    pub configuration: configuration::ConfigurationView,
    pub api_resource: meta::ApiResourceView,
    pub gvk: meta::GroupVersionKindView,
}

impl View for ResourceControllerImpl {
    type V = ResourceControllerImplView;

    open spec fn view(&self) -> ResourceControllerImplView {
        ResourceControllerImplView {
            configuration: self.configuration@,
            api_resource: self.api_resource@,
            gvk: self.gvk@,
        }
    }
}

impl ResourceControllerImpl {
    /// The controller of the kind `gvk`.
    pub fn new(configuration: Configuration, gvk: GroupVersionKind) -> (res: Self)
        requires
            gvk@.has_plural(),
        ensures
            res@ == (ResourceControllerImplView {
                configuration: configuration@,
                api_resource: gvk@.api_resource(),
                gvk: gvk@,
            }),
    {
        let api_resource = ApiResource::from_gvk(&gvk);
        ResourceControllerImpl { configuration, api_resource, gvk }
    }
}

/// A resource controller is for the kind that it was made for, and asks the API for
/// objects of that kind.
pub proof fn law_controller_is_for_its_kind(
    configuration: Configuration,
    gvk: GroupVersionKind,
    res: ResourceControllerImpl,
)
    requires
        call_ensures(ResourceControllerImpl::new, (configuration, gvk), res),
    ensures
        res.configuration@ == configuration@,
        res.gvk@ == gvk@,
        res.api_resource.group@ == gvk.group@,
        res.api_resource.version@ == gvk.version@,
        res.api_resource.kind@ == gvk.kind@,
        res.api_resource@ == gvk@.api_resource(),
{
    assert(res@.configuration == configuration@ && res@.gvk == gvk@);
}

} // verus!
