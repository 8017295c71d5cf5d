//! A switch to a user and back as whoever drives it sees it: which calls are to be
//! made, what came of them, and how it ends.

use vstd::prelude::*;

use crate::passwd::Passwd;
use crate::run_as_user::{
    run_as_user, IdentitySwitch, Process, SwitchError, SwitchReply, SwitchRequest, SwitchRun,
    SwitchStage,
};

verus! {

/// Whether `reply` is of the kind that a call gives.
pub open spec fn fits(request: SwitchRequest, reply: SwitchReply) -> bool {
    match request {
        SwitchRequest::GetHome => reply is Home,
        SwitchRequest::GetGroups => reply is Groups,
        _ => reply is Done,
    }
}

/// Whether a call was refused, for the reason `error`.
pub open spec fn refused(reply: SwitchReply, error: String) -> bool {
    reply matches SwitchReply::Done(Err(reason)) && reason == error
}

/// The calls of a switch and what came of them, and the states that it goes through.
pub struct SwitchDialog {
    pub states: Seq<IdentitySwitch>,
    pub requests: Seq<SwitchRequest>,
    pub replies: Seq<SwitchReply>,
}

impl SwitchDialog {
    /// Whether calls of `request` and `step` in turn can go like that, after a switch
    /// to `user` was started.
    pub open spec fn is_for(self, user: Passwd) -> bool {
        &&& self.requests.len() == self.replies.len()
        &&& self.states.len() == self.replies.len() + 1
        &&& call_ensures(run_as_user, (&user,), self.states[0])
        &&& forall|k: int| 0 <= k < self.replies.len() ==> #[trigger] self.goes_on_at(k)
    }

    /// Whether the call `k` is asked for and made, and the switch goes on with that.
    pub open spec fn goes_on_at(self, k: int) -> bool {
        &&& call_ensures(IdentitySwitch::request, (&self.states[k],), Some(self.requests[k]))
        &&& fits(self.requests[k], self.replies[k])
        &&& call_ensures(
            IdentitySwitch::step,
            (self.states[k], self.replies[k]),
            self.states[k + 1],
        )
    }

    /// Whether nothing more is asked for, and the switch ended with `outcome`.
    pub open spec fn ends_with(self, outcome: Result<(), SwitchError>) -> bool {
        &&& call_ensures(IdentitySwitch::request, (&self.states.last(),), None)
        &&& call_ensures(IdentitySwitch::outcome, (self.states.last(),), Some(outcome))
    }

    /// Whether the call `k` is to make the group of `user` the only supplementary one.
    pub open spec fn drops_groups(self, user: Passwd, k: int) -> bool {
        self.requests[k] matches SwitchRequest::SetGroups(groups) && groups@ == seq![user.gid]
    }

    /// Whether the call `k` is to take over the supplementary groups of `user`.
    pub open spec fn takes_groups(self, user: Passwd, k: int) -> bool {
        self.requests[k] matches SwitchRequest::InitGroups { name, gid } && name == user.name && gid
            == user.gid
    }
}

/// The calls of a dialog, made by a process, are a run of a switch.
pub proof fn law_calls_are_a_run(user: Passwd, dialog: SwitchDialog, processes: Seq<Process>)
    requires
        dialog.is_for(user),
        processes.len() == dialog.replies.len() + 1,
        forall|k: int|
            0 <= k < dialog.replies.len() ==> crate::run_as_user::can_lead_to(
                #[trigger] dialog.requests[k],
                dialog.replies[k],
                processes[k],
                processes[k + 1],
            ),
    ensures
        (SwitchRun {
            trace: dialog.states,
            requests: dialog.requests,
            replies: dialog.replies,
            processes,
        }).is_for(user),
{
    let run = SwitchRun {
        trace: dialog.states,
        requests: dialog.requests,
        replies: dialog.replies,
        processes,
    };
    assert forall|k: int| 0 <= k < run.replies.len() implies #[trigger] run.goes_on_at(k) by {
        assert(dialog.goes_on_at(k));
        assert(dialog.requests[k] == run.requests[k]);
    }
}

/// What the stage of a switch says of the calls before it.
proof fn lemma_history(user: Passwd, dialog: SwitchDialog, k: int)
    requires
        dialog.is_for(user),
        0 <= k <= dialog.replies.len(),
    ensures
        ({
            let (states, replies) = (dialog.states, dialog.replies);
            &&& states[k].user() == user
            &&& k > 0 ==> states[k].root_home() == crate::run_as_user::bytes_of(replies[0]->Home_0)
            &&& k > 1 && replies[1]->Groups_0 is Ok ==> states[k].root_groups()
                == replies[1]->Groups_0->Ok_0@
            &&& match states[k].stage() {
                SwitchStage::GetHome => k == 0,
                SwitchStage::GetGroups => k == 1,
                SwitchStage::SetHome => k == 2 && (replies[1] matches SwitchReply::Groups(Ok(_))),
                SwitchStage::InitGroups => k == 3 && states[2].stage() is SetHome
                    && !user.name@.contains('\0'),
                SwitchStage::DropGroups => {
                    ||| k == 3 && states[2].stage() is SetHome && user.name@.contains('\0')
                    ||| k == 4 && states[3].stage() is InitGroups && !(replies[3] matches
                        SwitchReply::Done(Ok(_)))
                },
                SwitchStage::SetEgid => k > 3 && (replies[k - 1] matches SwitchReply::Done(Ok(_)))
                    && (states[k - 1].stage() is InitGroups || states[k - 1].stage() is DropGroups),
                SwitchStage::SetEuid => k > 4 && (replies[k - 1] matches SwitchReply::Done(Ok(_)))
                    && states[k - 1].stage() is SetEgid,
                SwitchStage::UndoEgid(error) => k > 5 && refused(replies[k - 1], error)
                    && states[k - 1].stage() is SetEuid,
                SwitchStage::Run => k > 5 && (replies[k - 1] matches SwitchReply::Done(Ok(_)))
                    && states[k - 1].stage() is SetEuid,
                SwitchStage::RestoreEuid => k > 6 && states[k - 1].stage() is Run,
                SwitchStage::RestoreEgid => k > 7 && states[k - 1].stage() is RestoreEuid,
                SwitchStage::RestoreGroups => k > 8 && states[k - 1].stage() is RestoreEgid,
                SwitchStage::RestoreHome => k > 9 && states[k - 1].stage() is RestoreGroups,
                SwitchStage::Finished(Ok(_)) => k > 10 && states[k - 1].stage() is RestoreHome,
                SwitchStage::Finished(Err(SwitchError::Groups(error))) => k == 2 && (
                replies[1] matches SwitchReply::Groups(Err(reason)) && reason == error),
                SwitchStage::Finished(Err(SwitchError::PermissionDenied(error))) => k > 3 && {
                    ||| states[k - 1].stage() is DropGroups && refused(replies[k - 1], error)
                    ||| states[k - 1].stage() is SetEgid && refused(replies[k - 1], error)
                    ||| (states[k - 1].stage() matches SwitchStage::UndoEgid(reason) && reason
                        == error)
                },
            }
        }),
    decreases k,
{
    if k > 0 {
        lemma_history(user, dialog, k - 1);
        assert(dialog.goes_on_at(k - 1));
        assert(dialog.goes_on_at(0));
        if k > 1 {
            assert(dialog.goes_on_at(1));
        }
    }
}

/// Before something is done as the user, `HOME` and the supplementary groups of the
/// process are found out, `HOME` is set to the home directory of the user, the groups
/// of the user are taken over, or where that cannot be done all are dropped but the
/// group of the user, and then the group id and the user id are set; and all of this
/// succeeded.
pub proof fn law_way_to_the_user(user: Passwd, dialog: SwitchDialog, k: int)
    requires
        dialog.is_for(user),
        0 <= k < dialog.replies.len(),
        dialog.requests[k] is Run,
    ensures
        ({
            let (q, r) = (dialog.requests, dialog.replies);
            let usable = !user.name@.contains('\0');
            &&& k == 6 || k == 7
            &&& q[0] is GetHome
            &&& q[1] is GetGroups && (r[1] matches SwitchReply::Groups(Ok(_)))
            &&& q[2] matches SwitchRequest::SetHome(dir) && dir == user.dir
            &&& usable ==> dialog.takes_groups(user, 3)
            &&& usable && (r[3] matches SwitchReply::Done(Ok(_))) ==> k == 6
            &&& usable && !(r[3] matches SwitchReply::Done(Ok(_))) ==> k == 7
                && dialog.drops_groups(user, 4)
            &&& !usable ==> k == 6 && dialog.drops_groups(user, 3)
            &&& r[k - 3] matches SwitchReply::Done(Ok(_))
            &&& q[k - 2] matches SwitchRequest::SetEgid(gid) && gid == user.gid
            &&& r[k - 2] matches SwitchReply::Done(Ok(_))
            &&& q[k - 1] matches SwitchRequest::SetEuid(uid) && uid == user.uid
            &&& r[k - 1] matches SwitchReply::Done(Ok(_))
        }),
{
    assert(dialog.goes_on_at(k));
    lemma_history(user, dialog, k);
    lemma_history(user, dialog, k - 1);
    lemma_history(user, dialog, k - 2);
    lemma_history(user, dialog, k - 3);
    lemma_history(user, dialog, 3);
    lemma_history(user, dialog, 2);
    lemma_history(user, dialog, 1);
    lemma_history(user, dialog, 0);
    assert(dialog.goes_on_at(0));
    assert(dialog.goes_on_at(1));
    assert(dialog.goes_on_at(2));
    assert(dialog.goes_on_at(3));
    assert(dialog.goes_on_at(k - 1));
    assert(dialog.goes_on_at(k - 2));
    assert(dialog.goes_on_at(k - 3));
}

/// After something was done as the user, the user id, the group id, the supplementary
/// groups and `HOME` are set back to what they were, in this order and whatever came
/// of the calls before; and then the switch has ended well.
pub proof fn law_way_back_from_the_user(
    user: Passwd,
    dialog: SwitchDialog,
    k: int,
    outcome: Result<(), SwitchError>,
)
    requires
        dialog.is_for(user),
        dialog.ends_with(outcome),
        0 <= k < dialog.replies.len(),
        dialog.requests[k] is Run,
    ensures
        dialog.replies.len() == k + 5,
        outcome is Ok,
        ({
            let (q, r) = (dialog.requests, dialog.replies);
            &&& q[k + 1] matches SwitchRequest::SetEuid(uid) && uid == 0
            &&& q[k + 2] matches SwitchRequest::SetEgid(gid) && gid == 0
            &&& q[k + 3] matches SwitchRequest::SetGroups(groups) && (
            r[1] matches SwitchReply::Groups(Ok(before)) && groups@ == before@)
            &&& q[k + 4] matches SwitchRequest::RestoreHome(home) && (
            r[0] matches SwitchReply::Home(before) && match (home, before) {
                (Some(h), Some(b)) => h@ == b@,
                (None, None) => true,
                _ => false,
            })
        }),
{
    let n: int = dialog.replies.len() as int;
    law_way_to_the_user(user, dialog, k);
    assert(dialog.goes_on_at(0));
    assert(dialog.goes_on_at(1));
    assert(dialog.goes_on_at(k));
    assert(dialog.states[n] == dialog.states.last());
    assert(k + 1 < n);
    assert(dialog.goes_on_at(k + 1));
    assert(k + 2 < n);
    assert(dialog.goes_on_at(k + 2));
    assert(k + 3 < n);
    assert(dialog.goes_on_at(k + 3));
    assert(k + 4 < n);
    assert(dialog.goes_on_at(k + 4));
    lemma_history(user, dialog, k + 3);
    lemma_history(user, dialog, k + 4);
    if k + 5 < n {
        assert(dialog.goes_on_at(k + 5));
    }
}

/// A switch fails only where a call was refused, and gives the reason for that: the
/// groups of the process could not be found out, or the groups could not be dropped,
/// or the group id or the user id could not be set. In the last case the group id is
/// set back. Nothing is done as the user then; and where a switch ends well, something
/// is.
pub proof fn law_failures_are_refusals(
    user: Passwd,
    dialog: SwitchDialog,
    outcome: Result<(), SwitchError>,
)
    requires
        dialog.is_for(user),
        dialog.ends_with(outcome),
    ensures
        ({
            let (q, r) = (dialog.requests, dialog.replies);
            let n = r.len() as int;
            match outcome {
                Ok(_) => exists|k: int| 0 <= k < n && #[trigger] q[k] is Run,
                Err(SwitchError::Groups(error)) => {
                    &&& n == 2
                    &&& q[0] is GetHome
                    &&& q[1] is GetGroups
                    &&& r[1] matches SwitchReply::Groups(Err(reason)) && reason == error
                },
                Err(SwitchError::PermissionDenied(error)) => {
                    &&& forall|k: int| 0 <= k < n ==> !(#[trigger] q[k] is Run)
                    &&& n > 3
                    &&& {
                        ||| dialog.drops_groups(user, n - 1) && refused(r[n - 1], error)
                        ||| (q[n - 1] matches SwitchRequest::SetEgid(gid) && gid == user.gid)
                            && refused(r[n - 1], error)
                        ||| (q[n - 2] matches SwitchRequest::SetEuid(uid) && uid == user.uid)
                            && refused(r[n - 2], error) && (q[n - 1] matches SwitchRequest::SetEgid(
                            gid,
                        ) && gid == 0)
                    }
                },
            }
        }),
{
    let n: int = dialog.replies.len() as int;
    assert(dialog.states[n] == dialog.states.last());
    lemma_history(user, dialog, n);
    if n > 0 {
        assert(dialog.goes_on_at(n - 1));
        assert(dialog.goes_on_at(0));
        lemma_history(user, dialog, n - 1);
        lemma_history(user, dialog, 0);
    }
    if n > 1 {
        assert(dialog.goes_on_at(n - 2));
        assert(dialog.goes_on_at(1));
        lemma_history(user, dialog, n - 2);
        lemma_history(user, dialog, 1);
    }
    if outcome is Ok {
        lemma_history(user, dialog, n - 3);
        lemma_history(user, dialog, n - 4);
        assert(dialog.goes_on_at(n - 5));
        assert(dialog.requests[n - 5] is Run);
    } else {
        assert forall|k: int| 0 <= k < n implies !(#[trigger] dialog.requests[k] is Run) by {
            if dialog.requests[k] is Run {
                law_way_back_from_the_user(user, dialog, k, outcome);
            }
        }
    }
}

/// A reply to a call that was not asked for changes nothing, and neither does any
/// reply once no call is asked for.
pub proof fn law_other_replies_are_passed_over(
    switch: IdentitySwitch,
    request: Option<SwitchRequest>,
    reply: SwitchReply,
    after: IdentitySwitch,
)
    requires
        call_ensures(IdentitySwitch::request, (&switch,), request),
        request matches Some(asked) ==> !fits(asked, reply),
        call_ensures(IdentitySwitch::step, (switch, reply), after),
    ensures
        after.user() == switch.user(),
        after.root_home() == switch.root_home(),
        after.root_groups() == switch.root_groups(),
        after.stage() == switch.stage(),
{
}

} // verus!
