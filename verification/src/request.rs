//! What the syncer asks of the Kubernetes API, beside reading and deleting.
use crate::meta;
use crate::meta::DynamicObject;
use crate::text;
use crate::text::Text;
use vstd::prelude::*;
use vstd::string::*;

verus! {

/// The field manager name.
pub const MANAGER: &'static str = "rustrial-object-syncer";

/// The finalizer name.
///
/// Changing the finalizer name is a breaking change: the objects that carry the
/// old name could no longer be deleted until it is removed from them.
pub const FINALIZER: &'static str = "sync.rustrial.org/rustrial-object-syncer";

/// What the server does about unknown or duplicate fields.
#[derive(Clone, Copy, Debug, PartialEq, Eq, Structural)]
pub enum ValidationDirective {
    /// Refuse the request.
    Strict,
    /// Warn about them.
    Warn,
    /// Ignore them.
    Ignore,
}

/// How a patch is applied.
#[derive(Debug, PartialEq, Eq)]
pub struct PatchParams {
    /// Whether the patch is only tried.
    pub dry_run: bool,
    /// Whether conflicting fields are taken over.
    pub force: bool,
    /// Who makes the change.
    pub field_manager: Option<String>,
    /// What becomes of unknown fields.
    pub field_validation: Option<ValidationDirective>,
}

/// The model of [`PatchParams`].
#[verifier::ext_equal]
pub struct PatchParamsView {
    pub dry_run: bool,
    pub force: bool,
    pub field_manager: Option<Text>,
    pub field_validation: Option<ValidationDirective>,
}

impl View for PatchParams {
    type V = PatchParamsView;

    open spec fn view(&self) -> PatchParamsView {
        PatchParamsView {
            dry_run: self.dry_run,
            force: self.force,
            field_manager: text::view_opt(self.field_manager),
            field_validation: self.field_validation,
        }
    }
}

impl Clone for PatchParams {
    fn clone(&self) -> (res: Self)
        ensures
            res@ == self@,
    {
        let res = PatchParams {
            dry_run: self.dry_run,
            force: self.force,
            field_manager: self.field_manager.clone(),
            field_validation: self.field_validation,
        };
        assert(res@ =~~= self@);
        res
    }
}

/// How an object is written.
#[derive(Debug, PartialEq, Eq)]
pub struct PostParams {
    /// Whether the write is only tried.
    pub dry_run: bool,
    /// Who makes the change.
    pub field_manager: Option<String>,
}

/// The model of [`PostParams`].
#[verifier::ext_equal]
pub struct PostParamsView {
    pub dry_run: bool,
    pub field_manager: Option<Text>,
}

impl View for PostParams {
    type V = PostParamsView;

    open spec fn view(&self) -> PostParamsView {
        PostParamsView {
            dry_run: self.dry_run,
            field_manager: text::view_opt(self.field_manager),
        }
    }
}

impl Clone for PostParams {
    fn clone(&self) -> (res: Self)
        ensures
            res@ == self@,
    {
        let res = PostParams {
            dry_run: self.dry_run,
            field_manager: self.field_manager.clone(),
        };
        assert(res@ =~~= self@);
        res
    }
}

/// A patch of one object by operations.
#[derive(Debug, PartialEq, Eq)]
pub struct JsonPatch {
    /// The name of the object.
    pub name: String,
    /// How the patch is applied.
    pub params: PatchParams,
    /// The operations, each as JSON text.
    pub operations: Vec<String>,
}

/// The model of [`JsonPatch`].
#[verifier::ext_equal]
pub struct JsonPatchView {
    pub name: Text,
    pub params: PatchParamsView,
    pub operations: Seq<Text>,
}

impl View for JsonPatch {
    type V = JsonPatchView;

    open spec fn view(&self) -> JsonPatchView {
        JsonPatchView {
            name: self.name@,
            params: self.params@,
            operations: text::views(self.operations@),
        }
    }
}

impl Clone for JsonPatch {
    fn clone(&self) -> (res: Self)
        ensures
            res@ == self@,
    {
        let res = JsonPatch {
            name: self.name.clone(),
            params: self.params.clone(),
            operations: self.operations.clone(),
        };
        assert(res@ =~~= self@);
        res
    }
}

/// A patch of one object by server-side apply.
#[derive(Debug, PartialEq, Eq)]
pub struct ApplyPatch {
    /// The name of the object.
    pub name: String,
    /// How the patch is applied.
    pub params: PatchParams,
    /// The fields to apply.
    pub object: DynamicObject,
}

/// The model of [`ApplyPatch`].
#[verifier::ext_equal]
pub struct ApplyPatchView {
    pub name: Text,
    pub params: PatchParamsView,
    pub object: meta::DynamicObjectView,
}

impl View for ApplyPatch {
    type V = ApplyPatchView;

    open spec fn view(&self) -> ApplyPatchView {
        ApplyPatchView {
            name: self.name@,
            params: self.params@,
            object: self.object@,
        }
    }
}

impl Clone for ApplyPatch {
    fn clone(&self) -> (res: Self)
        ensures
            res@ == self@,
    {
        let res = ApplyPatch {
            name: self.name.clone(),
            params: self.params.clone(),
            object: self.object.clone(),
        };
        assert(res@ =~~= self@);
        res
    }
}

impl PatchParamsView {
    /// Server-side apply that takes conflicting fields over.
    pub open spec fn apply() -> PatchParamsView {
        PatchParamsView {
            dry_run: false,
            force: true,
            field_manager: Some(MANAGER@),
            field_validation: None,
        }
    }

    /// Server-side apply of our finalizer, which leaves unknown fields alone.
    pub open spec fn apply_finalizer() -> PatchParamsView {
        PatchParamsView {
            dry_run: false,
            force: true,
            field_manager: Some(MANAGER@),
            field_validation: Some(ValidationDirective::Ignore),
        }
    }

    /// A patch by operations.
    pub open spec fn json() -> PatchParamsView {
        PatchParamsView {
            dry_run: false,
            force: false,
            field_manager: Some(MANAGER@),
            field_validation: None,
        }
    }
}

impl PatchParams {
    /// Server-side apply that takes conflicting fields over.
    pub fn apply() -> (res: Self)
        ensures
            res@ == PatchParamsView::apply(),
    {
        PatchParams {
            dry_run: false,
            force: true,
            field_manager: Some(MANAGER.to_string()),
            field_validation: None,
        }
    }

    /// Server-side apply of our finalizer, which leaves unknown fields alone.
    pub fn apply_finalizer() -> (res: Self)
        ensures
            res@ == PatchParamsView::apply_finalizer(),
    {
        PatchParams {
            dry_run: false,
            force: true,
            field_manager: Some(MANAGER.to_string()),
            field_validation: Some(ValidationDirective::Ignore),
        }
    }

    /// A patch by operations.
    pub fn json() -> (res: Self)
        ensures
            res@ == PatchParamsView::json(),
    {
        PatchParams {
            dry_run: false,
            force: false,
            field_manager: Some(MANAGER.to_string()),
            field_validation: None,
        }
    }
}

impl PostParamsView {
    /// A write in the name of the syncer.
    pub open spec fn managed() -> PostParamsView {
        PostParamsView { dry_run: false, field_manager: Some(MANAGER@) }
    }
}

impl PostParams {
    /// A write in the name of the syncer.
    pub fn managed() -> (res: Self)
        ensures
            res@ == PostParamsView::managed(),
    {
        PostParams { dry_run: false, field_manager: Some(MANAGER.to_string()) }
    }
}

/// Everything is written in the name of the syncer, and for good. Server-side apply
/// takes conflicting fields over, and a patch by operations does not.
pub proof fn law_requests_name_the_syncer()
    ensures
        PatchParamsView::apply() == (PatchParamsView {
            dry_run: false,
            force: true,
            field_manager: Some("rustrial-object-syncer"@),
            field_validation: None,
        }),
        PatchParamsView::apply_finalizer() == (PatchParamsView {
            dry_run: false,
            force: true,
            field_manager: Some("rustrial-object-syncer"@),
            field_validation: Some(ValidationDirective::Ignore),
        }),
        PatchParamsView::json() == (PatchParamsView {
            dry_run: false,
            force: false,
            field_manager: Some("rustrial-object-syncer"@),
            field_validation: None,
        }),
        PostParamsView::managed() == (PostParamsView {
            dry_run: false,
            field_manager: Some("rustrial-object-syncer"@),
        }),
        FINALIZER@ == "sync.rustrial.org/rustrial-object-syncer"@,
{
}

/// The parameters that are handed out are those that the law on them speaks of.
pub proof fn law_parameters_that_are_handed_out(
    apply: PatchParams,
    finalizer: PatchParams,
    json: PatchParams,
    post: PostParams,
)
    requires
        call_ensures(PatchParams::apply, (), apply),
        call_ensures(PatchParams::apply_finalizer, (), finalizer),
        call_ensures(PatchParams::json, (), json),
        call_ensures(PostParams::managed, (), post),
    ensures
        apply.force && finalizer.force && !json.force,
        !apply.dry_run && !finalizer.dry_run && !json.dry_run && !post.dry_run,
        apply.field_manager matches Some(m) && m@ == "rustrial-object-syncer"@,
        finalizer.field_manager matches Some(m) && m@ == "rustrial-object-syncer"@,
        json.field_manager matches Some(m) && m@ == "rustrial-object-syncer"@,
        post.field_manager matches Some(m) && m@ == "rustrial-object-syncer"@,
        apply@ == PatchParamsView::apply(),
        finalizer@ == PatchParamsView::apply_finalizer(),
        json@ == PatchParamsView::json(),
        post@ == PostParamsView::managed(),
{
    let a = apply@;
    let b = finalizer@;
    let c = json@;
    let d = post@;
    assert(a.field_manager is Some && b.field_manager is Some && c.field_manager is Some
        && d.field_manager is Some);
}

} // verus!
