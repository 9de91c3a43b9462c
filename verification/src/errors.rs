//! Errors of the Kubernetes API and of the controllers.
use crate::text::Text;
use vstd::prelude::*;

verus! {

/// A failed call of the Kubernetes API.
#[derive(Debug, PartialEq, Eq)]
pub enum KubeError {
    /// The server refused the request with a status code.
    Api { code: u16, message: String },
    /// The request could not be made, or its answer not be understood.
    Other { message: String },
}

/// The model of [`KubeError`].
pub enum KubeErrorView {
    Api { code: u16, message: Text },
    Other { message: Text },
}

impl View for KubeError {
    type V = KubeErrorView;

    open spec fn view(&self) -> KubeErrorView {
        match self {
            KubeError::Api { code, message } => KubeErrorView::Api { code: *code, message: message@ },
            KubeError::Other { message } => KubeErrorView::Other { message: message@ },
        }
    }
}

impl Clone for KubeError {
    fn clone(&self) -> (res: Self)
        ensures
            res@ == self@,
    {
        match self {
            KubeError::Api { code, message } => KubeError::Api {
                code: *code,
                message: message.clone(),
            },
            KubeError::Other { message } => KubeError::Other { message: message.clone() },
        }
    }
}

impl KubeErrorView {
    /// Whether the object of the request does not exist (any more).
    pub open spec fn not_found(self) -> bool {
        self matches KubeErrorView::Api { code, .. } && (code == 404 || code == 410)
    }

    /// Whether the request clashed with another change.
    pub open spec fn conflict(self) -> bool {
        self matches KubeErrorView::Api { code, .. } && code == 409
    }

    /// The text of the error.
    pub open spec fn message(self) -> Text {
        match self {
            KubeErrorView::Api { message, .. } => message,
            KubeErrorView::Other { message } => message,
        }
    }
}

impl KubeError {
    /// Whether the object of the request does not exist (any more).
    pub fn is_not_found(&self) -> (res: bool)
        ensures
            res == self@.not_found(),
    {
        match self {
            KubeError::Api { code, .. } => *code == 404 || *code == 410,
            _ => false,
        }
    }

    /// Whether the request clashed with another change.
    pub fn is_conflict(&self) -> (res: bool)
        ensures
            res == self@.conflict(),
    {
        match self {
            KubeError::Api { code, .. } => *code == 409,
            _ => false,
        }
    }

    /// The text of the error.
    pub fn message(&self) -> (res: String)
        ensures
            res@ == self@.message(),
    {
        match self {
            KubeError::Api { message, .. } => message.clone(),
            KubeError::Other { message } => message.clone(),
        }
    }
}

/// Why a reconciliation failed.
#[derive(Debug, PartialEq, Eq)]
pub enum ControllerError {
    /// Failed to discover API Group, Kind or preferred Version of a Kind.
    /// This might be a temporary failure caused by not yet installed or
    /// removed CustomResourceDefinitions (CRDs) or by temporary API connectivity
    /// issues.
    ApiDiscoveryError(String),
    /// Cluster scoped resources cannot be synced.
    ClusterScopedResource(String),
    /// Failed to remove some destinations
    DestinationRemovalError(String),
    /// Kubernetes API error
    KubeApi(KubeError),
    /// Serialization errors
    Serde(String),
    /// Any other kind of errors
    Any(String),
}

/// The model of [`ControllerError`].
pub enum ControllerErrorView {
    ApiDiscoveryError(Text),
    ClusterScopedResource(Text),
    DestinationRemovalError(Text),
    KubeApi(KubeErrorView),
    Serde(Text),
    Any(Text),
}

impl View for ControllerError {
    type V = ControllerErrorView;

    open spec fn view(&self) -> ControllerErrorView {
        match self {
            ControllerError::ApiDiscoveryError(m) => ControllerErrorView::ApiDiscoveryError(m@),
            ControllerError::ClusterScopedResource(m) => ControllerErrorView::ClusterScopedResource(m@),
            ControllerError::DestinationRemovalError(m) => ControllerErrorView::DestinationRemovalError(
                m@,
            ),
            ControllerError::KubeApi(e) => ControllerErrorView::KubeApi(e@),
            ControllerError::Serde(m) => ControllerErrorView::Serde(m@),
            ControllerError::Any(m) => ControllerErrorView::Any(m@),
        }
    }
}

impl Clone for ControllerError {
    fn clone(&self) -> (res: Self)
        ensures
            res@ == self@,
    {
        match self {
            ControllerError::ApiDiscoveryError(m) => ControllerError::ApiDiscoveryError(m.clone()),
            ControllerError::ClusterScopedResource(m) => ControllerError::ClusterScopedResource(m.clone()),
            ControllerError::DestinationRemovalError(m) => ControllerError::DestinationRemovalError(
                m.clone(),
            ),
            ControllerError::KubeApi(e) => ControllerError::KubeApi(e.clone()),
            ControllerError::Serde(m) => ControllerError::Serde(m.clone()),
            ControllerError::Any(m) => ControllerError::Any(m.clone()),
        }
    }
}

impl ControllerErrorView {
    /// The text of the error.
    pub open spec fn message(self) -> Text {
        match self {
            ControllerErrorView::ApiDiscoveryError(m) => m,
            ControllerErrorView::ClusterScopedResource(m) => m,
            ControllerErrorView::DestinationRemovalError(m) => m,
            ControllerErrorView::KubeApi(e) => e.message(),
            ControllerErrorView::Serde(m) => m,
            ControllerErrorView::Any(m) => m,
        }
    }
}

impl ControllerError {
    /// Whether it is worth trying again soon: everything but a resource that
    /// cannot be synced at all.
    pub fn is_temporary(&self) -> (res: bool)
        ensures
            res == !(self@ is ClusterScopedResource),
    {
        match self {
            ControllerError::ClusterScopedResource(_) => false,
            _ => true,
        }
    }

    /// The text of the error.
    pub fn message(&self) -> (res: String)
        ensures
            res@ == self@.message(),
    {
        match self {
            ControllerError::ApiDiscoveryError(m) => m.clone(),
            ControllerError::ClusterScopedResource(m) => m.clone(),
            ControllerError::DestinationRemovalError(m) => m.clone(),
            ControllerError::KubeApi(e) => e.message(),
            ControllerError::Serde(m) => m.clone(),
            ControllerError::Any(m) => m.clone(),
        }
    }
}

/// The server says with 404 or 410 that an object is not there, and with 409 that
/// a request clashed with another change. Nothing else says so, least of all a
/// request that was not answered.
pub proof fn law_status_codes(code: u16, message: Text)
    ensures
        (KubeErrorView::Api { code, message }).not_found() <==> code == 404 || code == 410,
        (KubeErrorView::Api { code, message }).conflict() <==> code == 409,
        !(KubeErrorView::Other { message }).not_found(),
        !(KubeErrorView::Other { message }).conflict(),
        (KubeErrorView::Api { code, message }).message() == message,
        (KubeErrorView::Other { message }).message() == message,
{
}

/// The text of an error is the one that it was made with.
pub proof fn law_error_keeps_its_text(m: Text, e: KubeErrorView)
    ensures
        ControllerErrorView::ApiDiscoveryError(m).message() == m,
        ControllerErrorView::ClusterScopedResource(m).message() == m,
        ControllerErrorView::DestinationRemovalError(m).message() == m,
        ControllerErrorView::Serde(m).message() == m,
        ControllerErrorView::Any(m).message() == m,
        ControllerErrorView::KubeApi(e).message() == match e {
            KubeErrorView::Api { message, .. } => message,
            KubeErrorView::Other { message } => message,
        },
{
}

/// Whether the server answered with this status code.
pub open spec fn is_status(e: KubeErrorView, status: u16) -> bool {
    match e {
        KubeErrorView::Api { code, .. } => code == status,
        KubeErrorView::Other { .. } => false,
    }
}

/// What an error is asked for is what the laws on it say. Only a kind whose objects
/// do not stand in namespaces is no passing error.
pub proof fn law_what_errors_tell(
    e: &KubeError,
    gone: bool,
    clash: bool,
    m: String,
    f: &ControllerError,
    temporary: bool,
    n: String,
)
    requires
        call_ensures(KubeError::is_not_found, (e,), gone),
        call_ensures(KubeError::is_conflict, (e,), clash),
        call_ensures(KubeError::message, (e,), m),
        call_ensures(ControllerError::is_temporary, (f,), temporary),
        call_ensures(ControllerError::message, (f,), n),
    ensures
        gone <==> is_status(e@, 404) || is_status(e@, 410),
        clash <==> is_status(e@, 409),
        m@ == e@.message(),
        temporary <==> !(f is ClusterScopedResource),
        n@ == f@.message(),
{
}

} // verus!
