//! Doing something with the permissions of a user, and going back to those of root.
//!
//! Which calls are made, in what order, and what is done when one is refused is
//! decided here; whoever drives the switch makes the calls.

use vstd::prelude::*;
use vstd::slice::slice_to_vec;

use crate::passwd::Passwd;
use crate::text::{chars_of, position_of};

verus! {

/// A call to be made.
#[derive(Debug)]
pub enum SwitchRequest {
    /// Get the value of `HOME`.
    GetHome,
    /// Get the supplementary groups of the process.
    GetGroups,
    /// Set `HOME` to the home directory of the user.
    SetHome(String),
    /// Take over the supplementary groups of a user.
    InitGroups { name: String, gid: u32 },
    /// Set the effective group id.
    SetEgid(u32),
    /// Set the effective user id.
    SetEuid(u32),
    /// Do what is to be done as the user.
    Run,
    /// Set the supplementary groups of the process.
    SetGroups(Vec<u32>),
    /// Set `HOME` back to what it was, `None` standing for unset.
    RestoreHome(Option<Vec<u8>>),
}

/// What came of a call. An error is given by its message.
#[derive(Debug)]
pub enum SwitchReply {
    /// The value of `HOME`, if it is set.
    Home(Option<Vec<u8>>),
    /// The supplementary groups of the process.
    Groups(Result<Vec<u32>, String>),
    /// Whether any other call was carried out.
    Done(Result<(), String>),
}

/// Why nothing was done as the user.
#[derive(Debug)]
pub enum SwitchError {
    /// The groups of the process could not be found out.
    Groups(String),
    /// An identity of the user could not be taken over.
    PermissionDenied(String),
}

/// Where a switch stands: which call it asks for next.
#[derive(Debug)]
pub enum SwitchStage {
    GetHome,
    GetGroups,
    SetHome,
    InitGroups,
    /// The groups of the user could not be taken over: the group of the user is to
    /// be the only one.
    DropGroups,
    SetEgid,
    SetEuid,
    /// The user id was refused, for this reason: the group id is set back.
    UndoEgid(String),
    Run,
    RestoreEuid,
    RestoreEgid,
    RestoreGroups,
    RestoreHome,
    Finished(Result<(), SwitchError>),
}

/// The state of a switch to a user and back.
pub struct IdentitySwitch {
    user: Passwd,
    root_home: Option<Vec<u8>>,
    root_groups: Vec<u32>,
    stage: SwitchStage,
}

/// Whether a text can be handed to the system: it has no NUL in it.
pub open spec fn is_c_string(s: Seq<char>) -> bool {
    !s.contains('\0')
}

fn check_c_string(s: &str) -> (r: bool)
    ensures
        r == is_c_string(s@),
{
    let v = chars_of(s);
    let n = position_of(&v, '\0');
    proof {
        crate::text::lemma_position_first(s@, '\0');
        if n < v.len() {
            assert(s@[n as int] == '\0');
        }
    }
    n == v.len()
}

/// The bytes of a value that may not be there.
pub open spec fn bytes_of(value: Option<Vec<u8>>) -> Option<Seq<u8>> {
    match value {
        Some(bytes) => Some(bytes@),
        None => None,
    }
}

/// Starts a switch to `user` and back.
pub fn run_as_user(user: &Passwd) -> (switch: IdentitySwitch)
    ensures
        switch.starts_for(*user),
{
    IdentitySwitch {
        user: user.clone(),
        root_home: None,
        root_groups: Vec::new(),
        stage: SwitchStage::GetHome,
    }
}

impl IdentitySwitch {
    /// Whether this is the start of a switch to `user`.
    pub open spec fn starts_for(self, user: Passwd) -> bool {
        self.user() == user && self.stage() == SwitchStage::GetHome
    }

    /// The user to switch to.
    pub closed spec fn user(self) -> Passwd {
        self.user
    }

    /// What `HOME` was before.
    pub closed spec fn root_home(self) -> Option<Seq<u8>> {
        bytes_of(self.root_home)
    }

    /// The supplementary groups of the process before.
    pub closed spec fn root_groups(self) -> Seq<u32> {
        self.root_groups@
    }

    /// Where the switch stands.
    pub closed spec fn stage(self) -> SwitchStage {
        self.stage
    }

    /// Whether `self` is `before` at another stage.
    pub open spec fn differs_in_stage_only(self, before: Self) -> bool {
        &&& self.user() == before.user()
        &&& self.root_home() == before.root_home()
        &&& self.root_groups() == before.root_groups()
    }

    /// Whether `request` is the call to be made next.
    pub open spec fn asks_for(self, request: SwitchRequest) -> bool {
        match self.stage() {
            SwitchStage::GetHome => request is GetHome,
            SwitchStage::GetGroups => request is GetGroups,
            SwitchStage::SetHome => request == SwitchRequest::SetHome(self.user().dir),
            SwitchStage::InitGroups => request == (SwitchRequest::InitGroups {
                name: self.user().name,
                gid: self.user().gid,
            }),
            SwitchStage::DropGroups => request matches SwitchRequest::SetGroups(groups) && groups@
                == seq![self.user().gid],
            SwitchStage::SetEgid => request == SwitchRequest::SetEgid(self.user().gid),
            SwitchStage::SetEuid => request == SwitchRequest::SetEuid(self.user().uid),
            SwitchStage::UndoEgid(_) => request == SwitchRequest::SetEgid(0),
            SwitchStage::Run => request is Run,
            SwitchStage::RestoreEuid => request == SwitchRequest::SetEuid(0),
            SwitchStage::RestoreEgid => request == SwitchRequest::SetEgid(0),
            SwitchStage::RestoreGroups => request matches SwitchRequest::SetGroups(groups)
                && groups@ == self.root_groups(),
            SwitchStage::RestoreHome => request matches SwitchRequest::RestoreHome(home)
                && bytes_of(home) == self.root_home(),
            SwitchStage::Finished(_) => false,
        }
    }

    /// Whether `reply` is one to the call to be made next.
    pub open spec fn is_answered_by(self, reply: SwitchReply) -> bool {
        match self.stage() {
            SwitchStage::GetHome => reply is Home,
            SwitchStage::GetGroups => reply is Groups,
            SwitchStage::Finished(_) => false,
            _ => reply is Done,
        }
    }

    /// Whether `after` is what becomes of `self` with `reply`.
    pub open spec fn steps_to(self, reply: SwitchReply, after: Self) -> bool {
        match (self.stage(), reply) {
            (SwitchStage::GetHome, SwitchReply::Home(home)) => {
                &&& after.user() == self.user()
                &&& after.root_home() == bytes_of(home)
                &&& after.root_groups() == self.root_groups()
                &&& after.stage() == SwitchStage::GetGroups
            },
            (SwitchStage::GetGroups, SwitchReply::Groups(groups)) => {
                &&& after.user() == self.user()
                &&& after.root_home() == self.root_home()
                &&& match groups {
                    Ok(groups) => after.root_groups() == groups@ && after.stage()
                        == SwitchStage::SetHome,
                    Err(error) => after.root_groups() == self.root_groups() && after.stage()
                        == SwitchStage::Finished(Err(SwitchError::Groups(error))),
                }
            },
            (stage, SwitchReply::Done(result)) => {
                &&& after.differs_in_stage_only(self)
                &&& after.stage() == match stage {
                    SwitchStage::SetHome => if is_c_string(self.user().name@) {
                        SwitchStage::InitGroups
                    } else {
                        SwitchStage::DropGroups
                    },
                    SwitchStage::InitGroups => match result {
                        Ok(_) => SwitchStage::SetEgid,
                        Err(_) => SwitchStage::DropGroups,
                    },
                    SwitchStage::DropGroups => match result {
                        Ok(_) => SwitchStage::SetEgid,
                        Err(error) => SwitchStage::Finished(
                            Err(SwitchError::PermissionDenied(error)),
                        ),
                    },
                    SwitchStage::SetEgid => match result {
                        Ok(_) => SwitchStage::SetEuid,
                        Err(error) => SwitchStage::Finished(
                            Err(SwitchError::PermissionDenied(error)),
                        ),
                    },
                    SwitchStage::SetEuid => match result {
                        Ok(_) => SwitchStage::Run,
                        Err(error) => SwitchStage::UndoEgid(error),
                    },
                    SwitchStage::UndoEgid(error) => SwitchStage::Finished(
                        Err(SwitchError::PermissionDenied(error)),
                    ),
                    SwitchStage::Run => SwitchStage::RestoreEuid,
                    SwitchStage::RestoreEuid => SwitchStage::RestoreEgid,
                    SwitchStage::RestoreEgid => SwitchStage::RestoreGroups,
                    SwitchStage::RestoreGroups => SwitchStage::RestoreHome,
                    SwitchStage::RestoreHome => SwitchStage::Finished(Ok(())),
                    other => other,
                }
            },
            _ => after == self,
        }
    }

    /// The call to be made next, `None` at the end.
    pub fn request(&self) -> (r: Option<SwitchRequest>)
        ensures
            match r {
                Some(request) => self.asks_for(request),
                None => self.stage() is Finished,
            },
    {
        match &self.stage {
            SwitchStage::GetHome => Some(SwitchRequest::GetHome),
            SwitchStage::GetGroups => Some(SwitchRequest::GetGroups),
            SwitchStage::SetHome => Some(SwitchRequest::SetHome(self.user.dir.clone())),
            SwitchStage::InitGroups => Some(
                SwitchRequest::InitGroups { name: self.user.name.clone(), gid: self.user.gid },
            ),
            SwitchStage::DropGroups => {
                let mut groups: Vec<u32> = Vec::new();
                groups.push(self.user.gid);
                Some(SwitchRequest::SetGroups(groups))
            },
            SwitchStage::SetEgid => Some(SwitchRequest::SetEgid(self.user.gid)),
            SwitchStage::SetEuid => Some(SwitchRequest::SetEuid(self.user.uid)),
            SwitchStage::UndoEgid(_) => Some(SwitchRequest::SetEgid(0)),
            SwitchStage::Run => Some(SwitchRequest::Run),
            SwitchStage::RestoreEuid => Some(SwitchRequest::SetEuid(0)),
            SwitchStage::RestoreEgid => Some(SwitchRequest::SetEgid(0)),
            SwitchStage::RestoreGroups => Some(
                SwitchRequest::SetGroups(slice_to_vec(self.root_groups.as_slice())),
            ),
            SwitchStage::RestoreHome => Some(
                SwitchRequest::RestoreHome(
                    match &self.root_home {
                        Some(home) => Some(slice_to_vec(home.as_slice())),
                        None => None,
                    },
                ),
            ),
            SwitchStage::Finished(_) => None,
        }
    }

    /// Goes on with the reply to the call asked for. A reply to another call is
    /// passed over.
    pub fn step(self, reply: SwitchReply) -> (after: Self)
        ensures
            self.steps_to(reply, after),
    {
        let mut after = self;
        match reply {
            SwitchReply::Home(home) => {
                if let SwitchStage::GetHome = after.stage {
                    after.root_home = home;
                    after.stage = SwitchStage::GetGroups;
                }
            },
            SwitchReply::Groups(groups) => {
                if let SwitchStage::GetGroups = after.stage {
                    match groups {
                        Ok(groups) => {
                            after.root_groups = groups;
                            after.stage = SwitchStage::SetHome;
                        },
                        Err(error) => {
                            after.stage = SwitchStage::Finished(Err(SwitchError::Groups(error)));
                        },
                    }
                }
            },
            SwitchReply::Done(result) => {
                let name_is_usable = check_c_string(after.user.name.as_str());
                after.stage = match after.stage {
                    SwitchStage::SetHome => if name_is_usable {
                        SwitchStage::InitGroups
                    } else {
                        SwitchStage::DropGroups
                    },
                    // Users of a directory service may have no local groups: that is
                    // no error, but the groups of root are not theirs.
                    SwitchStage::InitGroups => match result {
                        Ok(_) => SwitchStage::SetEgid,
                        Err(_) => SwitchStage::DropGroups,
                    },
                    SwitchStage::DropGroups => match result {
                        Ok(_) => SwitchStage::SetEgid,
                        Err(error) => SwitchStage::Finished(
                            Err(SwitchError::PermissionDenied(error)),
                        ),
                    },
                    SwitchStage::SetEgid => match result {
                        Ok(_) => SwitchStage::SetEuid,
                        Err(error) => SwitchStage::Finished(
                            Err(SwitchError::PermissionDenied(error)),
                        ),
                    },
                    SwitchStage::SetEuid => match result {
                        Ok(_) => SwitchStage::Run,
                        Err(error) => SwitchStage::UndoEgid(error),
                    },
                    SwitchStage::UndoEgid(error) => SwitchStage::Finished(
                        Err(SwitchError::PermissionDenied(error)),
                    ),
                    SwitchStage::Run => SwitchStage::RestoreEuid,
                    SwitchStage::RestoreEuid => SwitchStage::RestoreEgid,
                    SwitchStage::RestoreEgid => SwitchStage::RestoreGroups,
                    SwitchStage::RestoreGroups => SwitchStage::RestoreHome,
                    SwitchStage::RestoreHome => SwitchStage::Finished(Ok(())),
                    other => other,
                };
            },
        }
        after
    }

    /// How the switch ended, `None` before its end.
    pub fn outcome(self) -> (r: Option<Result<(), SwitchError>>)
        ensures
            match self.stage() {
                SwitchStage::Finished(result) => r == Some(result),
                _ => r is None,
            },
    {
        match self.stage {
            SwitchStage::Finished(result) => Some(result),
            _ => None,
        }
    }
}

/// What a switch changes of a process.
#[verifier::ext_equal]
pub struct Process {
    pub euid: u32,
    pub egid: u32,
    pub groups: Seq<u32>,
    pub home: Option<Seq<u8>>,
}

/// Whether a process that was `p` can be `q` after a call that was answered with
/// `reply`: the calls do what they are for when they report success, and nothing
/// when they report an error. Which groups a user has is not known here, nor what
/// becomes of the process while something is done as the user.
pub open spec fn can_lead_to(
    request: SwitchRequest,
    reply: SwitchReply,
    p: Process,
    q: Process,
) -> bool {
    let succeeded = reply matches SwitchReply::Done(Ok(_));
    match request {
        SwitchRequest::GetHome => q == p && (reply matches SwitchReply::Home(home) ==> bytes_of(
            home,
        ) == p.home),
        SwitchRequest::GetGroups => q == p && (reply matches SwitchReply::Groups(Ok(groups))
            ==> groups@ == p.groups),
        SwitchRequest::SetHome(dir) => q == (Process {
            home: Some(vstd::utf8::encode_utf8(dir@)),
            ..p
        }),
        SwitchRequest::InitGroups { .. } => q == if succeeded {
            Process { groups: q.groups, ..p }
        } else {
            p
        },
        SwitchRequest::SetEgid(gid) => q == if succeeded {
            Process { egid: gid, ..p }
        } else {
            p
        },
        SwitchRequest::SetEuid(uid) => q == if succeeded {
            Process { euid: uid, ..p }
        } else {
            p
        },
        SwitchRequest::Run => true,
        SwitchRequest::SetGroups(groups) => q == if succeeded {
            Process { groups: groups@, ..p }
        } else {
            p
        },
        SwitchRequest::RestoreHome(home) => q == (Process { home: bytes_of(home), ..p }),
    }
}

/// A switch for which every call that it asks for is made: what it goes through,
/// the calls, their replies, and what the process is before and after each.
pub struct SwitchRun {
    pub trace: Seq<IdentitySwitch>,
    pub requests: Seq<SwitchRequest>,
    pub replies: Seq<SwitchReply>,
    pub processes: Seq<Process>,
}

impl SwitchRun {
    /// Whether this is how a switch to `user` can go.
    pub open spec fn is_for(self, user: Passwd) -> bool {
        &&& self.requests.len() == self.replies.len()
        &&& self.trace.len() == self.replies.len() + 1
        &&& self.processes.len() == self.replies.len() + 1
        &&& self.trace[0].starts_for(user)
        &&& forall|k: int| 0 <= k < self.replies.len() ==> #[trigger] self.goes_on_at(k)
    }

    /// Whether the call `k` is asked for, made and answered.
    pub open spec fn goes_on_at(self, k: int) -> bool {
        &&& self.trace[k].asks_for(self.requests[k])
        &&& self.trace[k].is_answered_by(self.replies[k])
        &&& can_lead_to(
            self.requests[k],
            self.replies[k],
            self.processes[k],
            self.processes[k + 1],
        )
        &&& self.trace[k].steps_to(self.replies[k], self.trace[k + 1])
    }
}

/// How far a stage is from the end.
pub open spec fn calls_left(stage: SwitchStage) -> int {
    match stage {
        SwitchStage::GetHome => 13,
        SwitchStage::GetGroups => 12,
        SwitchStage::SetHome => 11,
        SwitchStage::InitGroups => 10,
        SwitchStage::DropGroups => 9,
        SwitchStage::SetEgid => 8,
        SwitchStage::SetEuid => 7,
        SwitchStage::UndoEgid(_) => 6,
        SwitchStage::Run => 5,
        SwitchStage::RestoreEuid => 4,
        SwitchStage::RestoreEgid => 3,
        SwitchStage::RestoreGroups => 2,
        SwitchStage::RestoreHome => 1,
        SwitchStage::Finished(_) => 0,
    }
}

/// Whether a stage lies on the way back from the user to root.
pub open spec fn is_way_back(stage: SwitchStage) -> bool {
    stage is RestoreEuid || stage is RestoreEgid || stage is RestoreGroups || stage is RestoreHome
}

/// Whether the supplementary groups of the process are the group of the user alone,
/// or those that the process got when it took over the groups of the user.
pub open spec fn has_groups_of(user: Passwd, run: SwitchRun, k: int) -> bool {
    ||| run.processes[k].groups == seq![user.gid]
    ||| exists|j: int|
        0 <= j < k && (#[trigger] run.requests[j]) == (SwitchRequest::InitGroups {
            name: user.name,
            gid: user.gid,
        }) && (run.replies[j] matches SwitchReply::Done(Ok(_))) && run.processes[k].groups
            == run.processes[j + 1].groups
}

/// What is so at each stage, while nothing has ended the switch early.
proof fn lemma_switch_invariant(user: Passwd, run: SwitchRun, k: int)
    requires
        run.is_for(user),
        0 <= k <= run.replies.len(),
    ensures
        ({
            let root = run.processes[0];
            let p = run.processes[k];
            let switch = run.trace[k];
            let stage = switch.stage();
            let n = calls_left(stage);
            &&& switch.user() == user
            &&& n >= 11 ==> p == root
            &&& 0 < n < 13 ==> switch.root_home() == root.home
            &&& 0 < n < 12 ==> switch.root_groups() == root.groups
            &&& 5 <= n < 11 ==> p.home == Some(vstd::utf8::encode_utf8(user.dir@))
            &&& n >= 6 || (stage matches SwitchStage::Finished(Err(_))) ==> p.euid == root.euid
            &&& n >= 8 ==> p.egid == root.egid
            &&& 5 <= n <= 7 ==> p.egid == user.gid
            &&& n == 5 ==> p.euid == user.uid
            &&& 5 <= n <= 8 ==> has_groups_of(user, run, k)
        }),
    decreases k,
{
    if k > 0 {
        lemma_switch_invariant(user, run, k - 1);
        assert(run.goes_on_at(k - 1));
        let before = run.trace[k - 1].stage();
        if 5 <= calls_left(run.trace[k].stage()) <= 8 {
            if before is InitGroups {
                assert(run.requests[k - 1] == (SwitchRequest::InitGroups {
                    name: user.name,
                    gid: user.gid,
                }));
                assert(has_groups_of(user, run, k));
            } else if before is DropGroups {
                assert(run.processes[k].groups =~= seq![user.gid]);
                assert(has_groups_of(user, run, k));
            } else if run.processes[k - 1].groups != seq![user.gid] {
                let j = choose|j: int|
                    0 <= j < k - 1 && (#[trigger] run.requests[j]) == (SwitchRequest::InitGroups {
                        name: user.name,
                        gid: user.gid,
                    }) && (run.replies[j] matches SwitchReply::Done(Ok(_))) && run.processes[k - 1].groups
                        == run.processes[j + 1].groups;
                assert(run.requests[j] == (SwitchRequest::InitGroups {
                    name: user.name,
                    gid: user.gid,
                }));
            }
        }
    }
}

/// Whatever is done as the user is done with the user's uid, gid and home directory,
/// and with no supplementary group but those of the user.
pub proof fn law_runs_with_the_identity_of_the_user(user: Passwd, run: SwitchRun, k: int)
    requires
        run.is_for(user),
        0 <= k <= run.replies.len(),
        run.trace[k].stage() is Run,
    ensures
        run.processes[k].euid == user.uid,
        run.processes[k].egid == user.gid,
        run.processes[k].home == Some(vstd::utf8::encode_utf8(user.dir@)),
        has_groups_of(user, run, k),
{
    lemma_switch_invariant(user, run, k);
}

/// A switch comes to its end after a fixed number of calls.
pub proof fn law_switch_ends(user: Passwd, run: SwitchRun, k: int)
    requires
        run.is_for(user),
        0 <= k <= run.replies.len(),
    ensures
        k + calls_left(run.trace[k].stage()) <= calls_left(SwitchStage::GetHome),
    decreases k,
{
    if k > 0 {
        law_switch_ends(user, run, k - 1);
        assert(run.goes_on_at(k - 1));
    }
}

/// Stages only ever come closer to the end.
proof fn lemma_stages_advance(user: Passwd, run: SwitchRun, j: int, k: int)
    requires
        run.is_for(user),
        0 <= j < k <= run.replies.len(),
    ensures
        calls_left(run.trace[k].stage()) < calls_left(run.trace[j].stage()),
    decreases k,
{
    assert(run.goes_on_at(k - 1));
    if j < k - 1 {
        lemma_stages_advance(user, run, j, k - 1);
    }
}

/// What is to be done as the user is done at most once.
pub proof fn law_runs_at_most_once(user: Passwd, run: SwitchRun, j: int, k: int)
    requires
        run.is_for(user),
        0 <= j <= run.replies.len(),
        0 <= k <= run.replies.len(),
        run.trace[j].stage() is Run,
        run.trace[k].stage() is Run,
    ensures
        j == k,
{
    if j < k {
        lemma_stages_advance(user, run, j, k);
    } else if k < j {
        lemma_stages_advance(user, run, k, j);
    }
}

/// A switch that ends well has done what was to be done as the user; one that
/// ends with an error has not.
pub proof fn law_outcome_tells_whether_it_ran(user: Passwd, run: SwitchRun, k: int)
    requires
        run.is_for(user),
        0 <= k <= run.replies.len(),
    ensures
        run.trace[k].stage() is Run || is_way_back(run.trace[k].stage()) || run.trace[k].stage()
            == SwitchStage::Finished(Ok(())) ==> exists|j: int|
            0 <= j <= k && (#[trigger] run.trace[j]).stage() is Run,
        run.trace[k].stage() matches SwitchStage::Finished(Err(_)) ==> forall|j: int|
            0 <= j <= k ==> !((#[trigger] run.trace[j]).stage() is Run),
    decreases k,
{
    if k > 0 {
        law_outcome_tells_whether_it_ran(user, run, k - 1);
        assert(run.goes_on_at(k - 1));
        if run.trace[k].stage() matches SwitchStage::Finished(Err(_)) {
            assert forall|j: int| 0 <= j <= k implies !((#[trigger] run.trace[j]).stage() is Run) by {
                if j < k - 1 {
                    lemma_stages_advance(user, run, j, k - 1);
                }
            }
        }
    }
    if run.trace[k].stage() is Run {
        assert(run.trace[k].stage() is Run);
    }
}

/// What has been restored at each stage of the way back.
proof fn lemma_way_back(user: Passwd, run: SwitchRun, k: int)
    requires
        run.is_for(user),
        0 <= k <= run.replies.len(),
        is_way_back(run.trace[k].stage()) || run.trace[k].stage() == SwitchStage::Finished(Ok(())),
        forall|j: int|
            0 <= j < k && is_way_back((#[trigger] run.trace[j]).stage())
                ==> run.replies[j] matches SwitchReply::Done(Ok(_)),
    ensures
        ({
            let root = run.processes[0];
            let p = run.processes[k];
            let n = calls_left(run.trace[k].stage());
            &&& n < 4 ==> p.euid == 0
            &&& n < 3 ==> p.egid == 0
            &&& n < 2 ==> p.groups == root.groups
            &&& n < 1 ==> p.home == root.home
        }),
    decreases k,
{
    assert(k > 0);
    assert(run.goes_on_at(k - 1));
    lemma_switch_invariant(user, run, k - 1);
    if is_way_back(run.trace[k - 1].stage()) {
        lemma_way_back(user, run, k - 1);
        assert(run.replies[k - 1] matches SwitchReply::Done(Ok(_)));
    }
}

/// A process of root that switched to a user and could switch back is what it was,
/// whatever was done as the user.
pub proof fn law_root_is_restored(user: Passwd, run: SwitchRun, k: int)
    requires
        run.is_for(user),
        0 <= k <= run.replies.len(),
        run.trace[k].stage() == SwitchStage::Finished(Ok(())),
        run.processes[0].euid == 0,
        run.processes[0].egid == 0,
        forall|j: int|
            0 <= j < k && is_way_back((#[trigger] run.trace[j]).stage())
                ==> run.replies[j] matches SwitchReply::Done(Ok(_)),
    ensures
        run.processes[k] == run.processes[0],
{
    lemma_way_back(user, run, k);
    assert(run.processes[k] =~= run.processes[0]);
}

/// Where a switch is refused, the process never had another uid, and it has the
/// group of root if setting that back succeeded.
pub proof fn law_refused_switch_stays_root(user: Passwd, run: SwitchRun, k: int)
    requires
        run.is_for(user),
        0 <= k <= run.replies.len(),
        run.trace[k].stage() matches SwitchStage::Finished(Err(_)),
        run.processes[0].egid == 0,
        forall|j: int|
            0 <= j < k && (#[trigger] run.trace[j]).stage() is UndoEgid
                ==> run.replies[j] matches SwitchReply::Done(Ok(_)),
    ensures
        forall|j: int|
            0 <= j <= k ==> (#[trigger] run.processes[j]).euid == run.processes[0].euid,
        run.processes[k].egid == 0,
{
    assert(k > 0);
    assert(run.goes_on_at(k - 1));
    lemma_switch_invariant(user, run, k - 1);
    assert forall|j: int| 0 <= j <= k implies (#[trigger] run.processes[j]).euid
        == run.processes[0].euid by {
        lemma_switch_invariant(user, run, j);
        if j < k {
            lemma_stages_advance(user, run, j, k);
            if j < k - 1 {
                lemma_stages_advance(user, run, j, k - 1);
            }
        }
    }
}

} // verus!
