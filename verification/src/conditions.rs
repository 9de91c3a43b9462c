//! The conditions that are recorded in the status of an `ObjectSync`.
use crate::api;
use crate::api::{Condition, ObjectSync};
use crate::errors;
use crate::errors::ControllerError;
use crate::meta;
use crate::meta::GroupVersionKind;
use crate::text;
use crate::text::Text;
use vstd::prelude::*;
use vstd::string::*;

verus! {

/// The type of the condition on the copies.
pub const IN_SYNC: &'static str = "InSync";

/// The type of the condition on the registration.
pub const READY: &'static str = "Ready";

/// The reason of a condition that reports a success.
pub const SUCCESS: &'static str = "Success";

/// The reason of a condition that reports a failure.
pub const FAILURE: &'static str = "Failure";

/// Whether the status of the object says that it is registered.
pub open spec fn is_ready(o: api::ObjectSyncView) -> bool {
    api::condition_of_type(api::known_conditions(o.status_or_unset().conditions), READY@) matches Some(
        c,
    ) && c.status == "True"@
}

/// Whether the status of the object says that it is registered.
pub fn ready(o: &ObjectSync) -> (res: bool)
    ensures
        res == is_ready(o@),
{
    match &o.status {
        Some(status) => match &status.conditions {
            Some(known) => match api::find_condition(known, READY) {
                Some(k) => text::same_text(known[k].status.as_str(), "True"),
                None => false,
            },
            None => false,
        },
        None => false,
    }
}

/// The condition after the copies were written: `observed` of `expected` are in
/// sync.
pub open spec fn in_sync(observed: nat, expected: nat) -> api::ConditionView {
    api::condition(
        IN_SYNC@,
        Some(observed == expected),
        if observed == expected {
            SUCCESS@
        } else {
            FAILURE@
        },
        text::decimal(observed) + " out of "@ + text::decimal(expected)
            + " destinations are in sync"@,
    )
}

/// The condition after the copies were written.
pub fn in_sync_condition(observed: usize, expected: usize) -> (res: Condition)
    ensures
        res@ == in_sync(observed as nat, expected as nat),
{
    let mut message = text::decimal_text(observed as u64);
    message.append(" out of ");
    message.append(text::decimal_text(expected as u64).as_str());
    message.append(" destinations are in sync");
    let all: bool = observed == expected;
    let reason: &str = if all {
        SUCCESS
    } else {
        FAILURE
    };
    Condition::new(IN_SYNC, Some(all), reason, message)
}

/// The condition after the source was deleted: `remaining` of the `total` copies
/// could not be removed.
pub open spec fn removed(remaining: nat, total: nat) -> api::ConditionView {
    if remaining > 0 {
        api::condition(
            IN_SYNC@,
            Some(false),
            FAILURE@,
            "failed to remove "@ + text::decimal(remaining) + " out of "@ + text::decimal(total)
                + " destinations"@,
        )
    } else {
        api::condition(
            IN_SYNC@,
            Some(true),
            SUCCESS@,
            "successfully removed all "@ + text::decimal(total) + " destination objects"@,
        )
    }
}

/// The condition after the source was deleted.
pub fn removed_condition(remaining: usize, total: usize) -> (res: Condition)
    ensures
        res@ == removed(remaining as nat, total as nat),
{
    if remaining > 0 {
        let mut message = "failed to remove ".to_string();
        message.append(text::decimal_text(remaining as u64).as_str());
        message.append(" out of ");
        message.append(text::decimal_text(total as u64).as_str());
        message.append(" destinations");
        Condition::new(IN_SYNC, Some(false), FAILURE, message)
    } else {
        let mut message = "successfully removed all ".to_string();
        message.append(text::decimal_text(total as u64).as_str());
        message.append(" destination objects");
        Condition::new(IN_SYNC, Some(true), SUCCESS, message)
    }
}

impl meta::GroupVersionKindView {
    /// Group, version and kind as one text.
    pub open spec fn path(self) -> Text {
        self.group + "/"@ + self.version + "/"@ + self.kind
    }
}

impl GroupVersionKind {
    /// Group, version and kind as one text.
    pub fn path(&self) -> (res: String)
        ensures
            res@ == self@.path(),
    {
        let mut res = self.group.clone();
        res.append("/");
        res.append(self.version.as_str());
        res.append("/");
        res.append(self.kind.as_str());
        res
    }
}

/// The condition after the first registration with a controller.
pub open spec fn registered(gvk: meta::GroupVersionKindView) -> api::ConditionView {
    api::condition(
        READY@,
        Some(true),
        SUCCESS@,
        "Successfully registered with ResourceController "@ + gvk.path(),
    )
}

/// The condition after the first registration with a controller.
pub fn registered_condition(gvk: &GroupVersionKind) -> (res: Condition)
    ensures
        res@ == registered(gvk@),
{
    let mut message = "Successfully registered with ResourceController ".to_string();
    message.append(gvk.path().as_str());
    Condition::new(READY, Some(true), SUCCESS, message)
}

/// The condition after the move to another controller.
pub open spec fn moved(
    from: meta::GroupVersionKindView,
    to: meta::GroupVersionKindView,
) -> api::ConditionView {
    api::condition(
        READY@,
        Some(true),
        SUCCESS@,
        "Successfully moved from ResourceController "@ + from.path() + " to "@ + to.path(),
    )
}

/// The condition after the move to another controller.
pub fn moved_condition(from: &GroupVersionKind, to: &GroupVersionKind) -> (res: Condition)
    ensures
        res@ == moved(from@, to@),
{
    let mut message = "Successfully moved from ResourceController ".to_string();
    message.append(from.path().as_str());
    message.append(" to ");
    message.append(to.path().as_str());
    Condition::new(READY, Some(true), SUCCESS, message)
}

/// The condition after a failed registration.
pub open spec fn failed(e: errors::ControllerErrorView) -> api::ConditionView {
    api::condition(READY@, Some(false), FAILURE@, e.message())
}

/// The condition after a failed registration.
pub fn failed_condition(e: &ControllerError) -> (res: Condition)
    ensures
        res@ == failed(e@),
{
    Condition::new(READY, Some(false), FAILURE, e.message())
}

/// The condition on the copies is true exactly where all of them are in sync, and
/// says how many are.
pub proof fn law_in_sync_where_all_are(observed: nat, expected: nat)
    ensures
        ({
            let c = in_sync(observed, expected);
            &&& c.type_ == "InSync"@
            &&& c.status == if observed == expected {
                "True"@
            } else {
                "False"@
            }
            &&& c.reason == if observed == expected {
                "Success"@
            } else {
                "Failure"@
            }
            &&& c.message == text::decimal(observed) + " out of "@ + text::decimal(expected)
                + " destinations are in sync"@
            &&& c.observed_generation is None
        }),
{
}

/// The condition after the source was deleted is true exactly where no copy remains,
/// and says how many do.
pub proof fn law_removed_where_none_remains(remaining: nat, total: nat)
    ensures
        ({
            let c = removed(remaining, total);
            &&& c.type_ == "InSync"@
            &&& c.status == if remaining == 0 {
                "True"@
            } else {
                "False"@
            }
            &&& c.reason == if remaining == 0 {
                "Success"@
            } else {
                "Failure"@
            }
            &&& c.message == if remaining == 0 {
                "successfully removed all "@ + text::decimal(total) + " destination objects"@
            } else {
                "failed to remove "@ + text::decimal(remaining) + " out of "@ + text::decimal(total)
                    + " destinations"@
            }
            &&& c.observed_generation is None
        }),
{
}

/// The condition on the registration is true after it succeeded, and names the kind,
/// and false after it failed, with the text of the error.
pub proof fn law_ready_where_registered(
    gvk: meta::GroupVersionKindView,
    from: meta::GroupVersionKindView,
    e: errors::ControllerErrorView,
)
    ensures
        ({
            let kind = gvk.group + "/"@ + gvk.version + "/"@ + gvk.kind;
            let before = from.group + "/"@ + from.version + "/"@ + from.kind;
            &&& registered(gvk).type_ == "Ready"@ && moved(from, gvk).type_ == "Ready"@ && failed(
                e,
            ).type_ == "Ready"@
            &&& registered(gvk).status == "True"@ && moved(from, gvk).status == "True"@ && failed(
                e,
            ).status == "False"@
            &&& registered(gvk).reason == "Success"@ && moved(from, gvk).reason == "Success"@
                && failed(e).reason == "Failure"@
            &&& registered(gvk).message == "Successfully registered with ResourceController "@
                + kind
            &&& moved(from, gvk).message == "Successfully moved from ResourceController "@ + before
                + " to "@ + kind
            &&& failed(e).message == e.message()
            &&& registered(gvk).observed_generation is None && moved(
                from,
                gvk,
            ).observed_generation is None && failed(e).observed_generation is None
        }),
{
}

/// An object is ready exactly where the first condition of the type `Ready` in its
/// status has the status `True`.
pub proof fn law_ready_is_read_from_the_status(o: api::ObjectSyncView)
    ensures
        is_ready(o) <==> (o.status matches Some(s) && (s.conditions matches Some(known) && exists|
            i: int,
        |
            0 <= i < known.len() && (#[trigger] known[i]).type_ == "Ready"@ && known[i].status
                == "True"@ && forall|j: int|
                0 <= j < i ==> (#[trigger] known[j]).type_ != "Ready"@)),
{
    if let Some(s) = o.status {
        if let Some(known) = s.conditions {
            lemma_first_of_type(known, READY@);
        }
    }
}

pub proof fn lemma_first_of_type(known: Seq<api::ConditionView>, type_: Text)
    ensures
        match api::condition_of_type(known, type_) {
            Some(v) => exists|i: int|
                0 <= i < known.len() && (#[trigger] known[i]) == v && v.type_ == type_ && forall|
                    j: int,
                |
                    0 <= j < i ==> (#[trigger] known[j]).type_ != type_,
            None => forall|j: int| 0 <= j < known.len() ==> (#[trigger] known[j]).type_ != type_,
        },
    decreases known.len(),
{
    if known.len() > 0 {
        let rest = known.skip(1);
        if known[0].type_ == type_ {
            assert(known[0] == known[0]);
        } else {
            lemma_first_of_type(rest, type_);
            match api::condition_of_type(rest, type_) {
                Some(v) => {
                    let i = choose|i: int|
                        0 <= i < rest.len() && (#[trigger] rest[i]) == v && v.type_ == type_
                            && forall|j: int| 0 <= j < i ==> (#[trigger] rest[j]).type_ != type_;
                    assert(known[i + 1] == v);
                    assert forall|j: int| 0 <= j < i + 1 implies (#[trigger] known[j]).type_
                        != type_ by {
                        if j > 0 {
                            assert(rest[j - 1] == known[j]);
                        }
                    }
                },
                None => {
                    assert forall|j: int| 0 <= j < known.len() implies (#[trigger] known[j]).type_
                        != type_ by {
                        if j > 0 {
                            assert(rest[j - 1] == known[j]);
                        }
                    }
                },
            }
        }
    }
}

/// The conditions that are handed out are those that the laws on them speak of.
pub proof fn law_conditions_that_are_handed_out(
    o: &ObjectSync,
    is_told_ready: bool,
    a: usize,
    b: usize,
    sync: Condition,
    gone: Condition,
    from: &GroupVersionKind,
    to: &GroupVersionKind,
    new: Condition,
    other: Condition,
    e: &ControllerError,
    failure: Condition,
    form: String,
)
    requires
        call_ensures(ready, (o,), is_told_ready),
        call_ensures(in_sync_condition, (a, b), sync),
        call_ensures(removed_condition, (a, b), gone),
        call_ensures(registered_condition, (to,), new),
        call_ensures(moved_condition, (from, to), other),
        call_ensures(failed_condition, (e,), failure),
        call_ensures(GroupVersionKind::path, (to,), form),
    ensures
        is_told_ready == is_ready(o@),
        sync@ == in_sync(a as nat, b as nat),
        gone@ == removed(a as nat, b as nat),
        new@ == registered(to@),
        other@ == moved(from@, to@),
        failure@ == failed(e@),
        form@ == to.group@ + "/"@ + to.version@ + "/"@ + to.kind@,
        sync.type_@ == "InSync"@ && gone.type_@ == "InSync"@,
        new.type_@ == "Ready"@ && other.type_@ == "Ready"@ && failure.type_@ == "Ready"@,
        sync.status@ == "True"@ <==> a == b,
        gone.status@ == "True"@ <==> a == 0,
        new.status@ == "True"@ && other.status@ == "True"@ && failure.status@ == "False"@,
{
    reveal_strlit("True");
    reveal_strlit("False");
    assert("True"@.len() != "False"@.len());
    law_in_sync_where_all_are(a as nat, b as nat);
    law_removed_where_none_remains(a as nat, b as nat);
    law_ready_where_registered(to@, from@, e@);
}

} // verus!
