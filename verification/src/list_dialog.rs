//! A listing of users as whoever drives it sees it: what is asked for, what is
//! answered, and who is listed in the end.

use vstd::prelude::*;

use crate::passwd::Passwd;
use crate::user_data::{Desktop, UserData};
use crate::user_filter::UserFilter;
use crate::user_list::{bare_data, get_user_data, ListReply, ListRequest, ListStage, UserListing};
use crate::user_map::UserEntry;

verus! {

/// Whether `reply` is of the kind that `request` asks for.
pub open spec fn fits<D: Desktop>(request: ListRequest<D>, reply: ListReply<D>) -> bool {
    match request {
        ListRequest::CachedUsers => reply is CachedUsers,
        ListRequest::OpenAccount(_) => reply is OpenAccount,
        ListRequest::AccountFlags => reply is AccountFlags,
        ListRequest::AccountUid => reply is AccountUid,
        ListRequest::AccountNames => reply is AccountNames,
        ListRequest::UserByUid(_) => reply is User,
        ListRequest::UserByName(_) => reply is User,
        ListRequest::LocalUsers => reply is LocalUsers,
        ListRequest::HomeOwner { .. } => reply is HomeOwner,
        ListRequest::LoadConfig { .. } => reply is LoadConfig,
    }
}

/// Whether someone with that uid and shell can be a person who logs in.
pub open spec fn is_person(filter: UserFilter, user: Passwd) -> bool {
    &&& filter.uid_min <= user.uid
    &&& user.uid != 65534
    &&& user.uid != 4294967295
    &&& crate::path::file_name(user.shell@) != Some("false"@)
    &&& crate::path::file_name(user.shell@) != Some("nologin"@)
}

/// What is given of a text that may be empty or not there at all.
pub open spec fn given(text: Option<String>) -> Option<String> {
    if text is Some && text->0@.len() > 0 {
        text
    } else {
        None
    }
}

/// Whether `data` says who a user is: the uid, the login name, and as the name to be
/// shown the one that the accounts service gives, letter for letter, or else the one
/// of the user database.
pub open spec fn says_who<D: Desktop>(data: UserData<D>, entry: UserEntry) -> bool {
    &&& data.uid == entry.user.uid
    &&& data.name@ == entry.user.name@
    &&& entry.real_name matches Some(real_name) ==> data.full_name@ == real_name@
    &&& entry.real_name is None ==> data.full_name@ == crate::user_data::full_name_of(entry.user)
}

/// Whether `data` has nothing of a user's settings.
pub open spec fn is_bare<D: Desktop>(data: UserData<D>) -> bool {
    &&& data.icon_opt is None
    &&& data.theme_opt is None
    &&& data.theme_builder_opt is None
    &&& data.bg_state.wallpapers@.len() == 0
    &&& data.bg_path_data@.dom() == Set::<crate::path::PathKey>::empty()
    &&& data.xkb_config_opt is None
    &&& call_ensures(D::TimeAppletConfig::default, (), data.time_applet_config)
    &&& call_ensures(D::ZoomConfig::default, (), data.accessibility_zoom)
    &&& data.kdl_output_lists@.len() == 0
}

/// What is asked for and answered in a listing, and the states that it goes through.
pub struct ListDialog<D: Desktop> {
    pub states: Seq<UserListing<D>>,
    pub requests: Seq<ListRequest<D>>,
    pub replies: Seq<ListReply<D>>,
}

impl<D: Desktop> ListDialog<D> {
    /// Whether calls of `request` and `step` in turn can go like that, after a
    /// listing with `filter` was started.
    pub open spec fn is_for(self, filter: UserFilter) -> bool {
        &&& self.requests.len() == self.replies.len()
        &&& self.states.len() == self.replies.len() + 1
        &&& call_ensures(get_user_data::<D>, (filter,), self.states[0])
        &&& forall|k: int| 0 <= k < self.replies.len() ==> #[trigger] self.goes_on_at(k)
    }

    /// Whether the request `k` is made and answered, and the listing goes on with that.
    pub open spec fn goes_on_at(self, k: int) -> bool {
        &&& call_ensures(UserListing::<D>::request, (&self.states[k],), Some(self.requests[k]))
        &&& fits(self.requests[k], self.replies[k])
        &&& call_ensures(
            UserListing::<D>::step,
            (self.states[k], self.replies[k]),
            self.states[k + 1],
        )
    }

    /// Whether nothing more is asked for, and `result` is what comes of it.
    pub open spec fn gives(self, result: Vec<UserData<D>>) -> bool {
        &&& call_ensures(UserListing::<D>::request, (&self.states.last(),), None)
        &&& call_ensures(UserListing::<D>::finish, (self.states.last(),), result)
    }

    /// Whether the settings that were added to data left alone who the user is.
    pub open spec fn loads_keep_who(self) -> bool {
        forall|k: int|
            0 <= k < self.replies.len() ==> (#[trigger] self.requests[k] matches
                ListRequest::LoadConfig { data, .. } ==> (self.replies[k] matches
                ListReply::LoadConfig(Some(loaded)) ==> loaded.uid == data.uid && loaded.name@
                == data.name@ && loaded.full_name@ == data.full_name@))
    }

    /// Whether the replies from `k` to `last` tell of an account that leads to `user`:
    /// there is access to it; it is not said to be one of the system, nor to be
    /// locked; it has a uid that fits; and the user database knows it by the uid, or
    /// else by the name.
    pub open spec fn tells_of(self, k: int, last: int, user: Passwd) -> bool {
        &&& 0 <= k
        &&& last < self.replies.len()
        &&& self.replies[k] matches ListReply::OpenAccount(true)
        &&& self.replies[k + 1] matches ListReply::AccountFlags { system_account, locked }
            && system_account != Some(true) && locked != Some(true)
        &&& self.replies[k + 2] matches ListReply::AccountUid(Some(uid)) && uid <= 4294967295
        &&& self.replies[k + 3] is AccountNames
        &&& {
            ||| last == k + 4 && self.finds(k + 4, user)
            ||| last == k + 5 && (self.replies[k + 4] matches ListReply::User(None)) && self.finds(
                k + 5,
                user,
            )
        }
    }

    /// Whether the reply `k` is that the user database knows `user`.
    pub open spec fn finds(self, k: int, user: Passwd) -> bool {
        self.replies[k] matches ListReply::User(Some(found)) && found == user
    }

    /// Whether the replies from `k` to `last` are the last before `end` that tell of
    /// an account which leads to `user` or someone else of that name who is accepted.
    pub open spec fn tells_last_of(
        self,
        filter: UserFilter,
        k: int,
        last: int,
        user: Passwd,
        end: int,
    ) -> bool {
        &&& self.tells_of(k, last, user)
        &&& last < end
        &&& is_person(filter, user)
        &&& forall|a: int, b: int, other: Passwd| #[trigger]
            self.tells_of(a, b, other) && b < end && is_person(filter, other) && other.name@
                == user.name@ ==> b <= last
    }

    /// Whether some account leads to someone with the login name `name` who is accepted.
    pub open spec fn is_cached(self, filter: UserFilter, name: Seq<char>, end: int) -> bool {
        exists|a: int, b: int, user: Passwd| #[trigger]
            self.tells_of(a, b, user) && b < end && is_person(filter, user) && user.name@ == name
    }

    /// Whether `entry` is what the accounts service and the user database say of
    /// someone: the last account of that login name, with its names.
    pub open spec fn is_cached_entry(self, filter: UserFilter, entry: UserEntry, end: int) -> bool {
        exists|a: int, b: int| #[trigger]
            self.tells_last_of(filter, a, b, entry.user, end) && entry.real_name == given(
                self.replies[a + 3]->real_name,
            ) && entry.icon_file == given(self.replies[a + 3]->icon_file)
    }

    /// Whether `entry` is that of the first local user of a login name who is
    /// accepted and to whose login name no account leads.
    pub open spec fn is_local_entry(self, filter: UserFilter, entry: UserEntry) -> bool {
        &&& entry.real_name is None
        &&& entry.icon_file is None
        &&& exists|l: int, i: int| #[trigger] self.has_local(filter, entry.user, l, i)
    }

    /// Whether `user` is the local user `i` in the reply `l`, and the first accepted
    /// one of that login name.
    pub open spec fn has_local(self, filter: UserFilter, user: Passwd, l: int, i: int) -> bool {
        &&& 0 <= l < self.replies.len()
        &&& self.replies[l] is LocalUsers
        &&& 0 <= i < self.replies[l]->LocalUsers_0@.len()
        &&& self.replies[l]->LocalUsers_0@[i] == user
        &&& is_person(filter, user) && user.uid <= filter.uid_max
        &&& forall|j: int|
            0 <= j < i && (#[trigger] self.replies[l]->LocalUsers_0@[j]).name@ == user.name@ ==> !(
            is_person(filter, self.replies[l]->LocalUsers_0@[j])
                && self.replies[l]->LocalUsers_0@[j].uid <= filter.uid_max)
        &&& !self.is_cached(filter, user.name@, self.replies.len() as int)
    }

    /// Whether `entry` belongs to someone who is to be listed.
    pub open spec fn is_due(self, filter: UserFilter, entry: UserEntry) -> bool {
        self.is_cached_entry(filter, entry, self.replies.len() as int) || self.is_local_entry(
            filter,
            entry,
        )
    }
}

/// What a dialog says of the run behind it.
proof fn lemma_dialog<D: Desktop>(filter: UserFilter, dialog: ListDialog<D>)
    requires
        dialog.is_for(filter),
    ensures
        crate::user_list::is_list_run(filter, dialog.states, dialog.replies),
{
    assert forall|k: int| 0 <= k < dialog.replies.len() implies #[trigger]
        crate::user_list::goes_on_at(dialog.states, dialog.replies, k) by {
        assert(dialog.goes_on_at(k));
    }
}

/// What a record says of who a user is, where no settings are read, and that it says
/// nothing else.
pub proof fn law_records_without_settings<D: Desktop>(entry: UserEntry, data: UserData<D>)
    requires
        call_ensures(bare_data::<D>, (&entry,), data),
    ensures
        says_who(data, entry),
        is_bare(data),
{
}

/// What the stage of a listing says of the replies before it.
proof fn lemma_history<D: Desktop>(filter: UserFilter, dialog: ListDialog<D>, k: int)
    requires
        dialog.is_for(filter),
        0 <= k <= dialog.replies.len(),
    ensures
        ({
            let (states, replies) = (dialog.states, dialog.replies);
            match states[k].stage() {
                ListStage::Flags(i) => k > 0 && states[k - 1].stage() == ListStage::Open(i) && (
                replies[k - 1] matches ListReply::OpenAccount(true)),
                ListStage::Uid(i) => k > 0 && states[k - 1].stage() == ListStage::Flags(i) && (
                replies[k - 1] matches ListReply::AccountFlags { system_account, locked }
                    && system_account != Some(true) && locked != Some(true)),
                ListStage::Names(i, uid) => k > 0 && states[k - 1].stage() == ListStage::Uid(i) && (
                replies[k - 1] matches ListReply::AccountUid(Some(raw)) && raw == uid),
                ListStage::ByUid(i, account) => k > 0 && states[k - 1].stage() == ListStage::Names(
                    i,
                    account.uid,
                ) && (replies[k - 1] matches ListReply::AccountNames {
                    user_name,
                    real_name,
                    icon_file,
                } && account.real_name == given(real_name) && account.icon_file == given(icon_file)
                    && account.user_name@ == match user_name {
                    Some(name) => name@,
                    None => Seq::empty(),
                }),
                ListStage::ByName(i, account) => k > 0 && states[k - 1].stage()
                    == ListStage::ByUid(i, account) && account.user_name@.len() > 0 && (
                replies[k - 1] matches ListReply::User(None)),
                _ => true,
            }
        }),
{
    lemma_dialog(filter, dialog);
    if k > 0 {
        assert(crate::user_list::goes_on_at(dialog.states, dialog.replies, k - 1));
    }
}

/// Where a user from the user database is looked at, the replies before tell of the
/// account.
proof fn lemma_found_account<D: Desktop>(
    filter: UserFilter,
    dialog: ListDialog<D>,
    k: int,
    user: Passwd,
) -> (a: int)
    requires
        dialog.is_for(filter),
        0 <= k < dialog.replies.len(),
        dialog.finds(k, user),
    ensures
        dialog.tells_of(a, k, user),
        dialog.states[k].stage() matches ListStage::ByUid(_, account) ==> account.real_name
            == given(dialog.replies[a + 3]->real_name) && account.icon_file == given(
            dialog.replies[a + 3]->icon_file,
        ),
        dialog.states[k].stage() matches ListStage::ByName(_, account) ==> account.real_name
            == given(dialog.replies[a + 3]->real_name) && account.icon_file == given(
            dialog.replies[a + 3]->icon_file,
        ),
        dialog.states[k].stage() is ByUid || dialog.states[k].stage() is ByName,
{
    assert(dialog.goes_on_at(k));
    lemma_history(filter, dialog, k);
    let p: int = if dialog.states[k].stage() is ByUid {
        k
    } else {
        k - 1
    };
    lemma_history(filter, dialog, p);
    lemma_history(filter, dialog, p - 1);
    lemma_history(filter, dialog, p - 2);
    lemma_history(filter, dialog, p - 3);
    p - 4
}

/// Where replies tell of an account, the listing looks at it.
proof fn lemma_told_account<D: Desktop>(
    filter: UserFilter,
    dialog: ListDialog<D>,
    a: int,
    last: int,
    user: Passwd,
)
    requires
        dialog.is_for(filter),
        dialog.tells_of(a, last, user),
    ensures
        dialog.finds(last, user),
        dialog.states[last].stage() matches ListStage::ByUid(_, account) ==> last == a + 4
            && account.real_name == given(dialog.replies[a + 3]->real_name) && account.icon_file
            == given(dialog.replies[a + 3]->icon_file),
        dialog.states[last].stage() matches ListStage::ByName(_, account) ==> last == a + 5
            && account.real_name == given(dialog.replies[a + 3]->real_name) && account.icon_file
            == given(dialog.replies[a + 3]->icon_file),
        dialog.states[last].stage() is ByUid || dialog.states[last].stage() is ByName,
{
    assert(dialog.goes_on_at(a + 3));
    lemma_history(filter, dialog, a + 4);
    lemma_dialog(filter, dialog);
    assert(crate::user_list::goes_on_at(dialog.states, dialog.replies, a + 3));
    if last == a + 5 {
        assert(dialog.goes_on_at(a + 5));
        assert(crate::user_list::goes_on_at(dialog.states, dialog.replies, a + 4));
    }
}

/// Who has been found before all accounts have been looked at: those to whom an
/// account leads and who are accepted, each with what their last account says.
proof fn lemma_found_users<D: Desktop>(
    filter: UserFilter,
    dialog: ListDialog<D>,
    k: int,
    name: Seq<char>,
)
    requires
        dialog.is_for(filter),
        0 <= k <= dialog.replies.len(),
        crate::user_list::is_searching(dialog.states[k].stage()),
    ensures
        dialog.states[k].users().dom().contains(name) ==> dialog.is_cached_entry(
            filter,
            dialog.states[k].users()[name],
            k,
        ) && dialog.states[k].users()[name].user.name@ == name,
        dialog.is_cached(filter, name, k) ==> dialog.states[k].users().dom().contains(name),
    decreases k,
{
    lemma_dialog(filter, dialog);
    let (states, replies) = (dialog.states, dialog.replies);
    if k > 0 {
        crate::user_list::law_found_users_stay(filter, states, replies, k - 1, k);
        lemma_found_users(filter, dialog, k - 1, name);
        crate::user_list::law_only_accepted_users_are_listed(filter, states, replies, k - 1);
        let (before, after) = (states[k - 1], states[k]);
        assert(crate::user_list::goes_on_at(states, replies, k - 1));
        if after.users().dom().contains(name) {
            let entry = after.users()[name];
            if replies[k - 1] is User && replies[k - 1]->User_0 is Some && is_person(
                filter,
                replies[k - 1]->User_0->0,
            ) && replies[k - 1]->User_0->0.name@ == name {
                let user = replies[k - 1]->User_0->0;
                assert(dialog.finds(k - 1, user));
                let a: int = lemma_found_account(filter, dialog, k - 1, user);
                assert(entry.user == user);
                assert(dialog.tells_last_of(filter, a, k - 1, user, k));
                assert(dialog.is_cached_entry(filter, entry, k));
            } else {
                assert(before.users().dom().contains(name) && before.users()[name] == entry);
                let (a, b) = choose|a: int, b: int| #[trigger]
                    dialog.tells_last_of(filter, a, b, entry.user, k - 1) && entry.real_name
                        == given(replies[a + 3]->real_name) && entry.icon_file == given(
                        replies[a + 3]->icon_file,
                    );
                assert forall|c: int, d: int, other: Passwd| #[trigger]
                    dialog.tells_of(c, d, other) && d < k && is_person(filter, other) && other.name@
                        == entry.user.name@ implies d <= b by {
                    if d == k - 1 {
                        lemma_told_account(filter, dialog, c, d, other);
                    }
                }
                assert(dialog.tells_last_of(filter, a, b, entry.user, k));
            }
        }
        if dialog.is_cached(filter, name, k) && !dialog.is_cached(filter, name, k - 1) {
            let (a, b, user) = choose|a: int, b: int, user: Passwd| #[trigger]
                dialog.tells_of(a, b, user) && b < k && is_person(filter, user) && user.name@
                    == name;
            assert(b == k - 1);
            lemma_told_account(filter, dialog, a, b, user);
        }
    } else if dialog.is_cached(filter, name, k) {
        let (a, b, user) = choose|a: int, b: int, user: Passwd| #[trigger]
            dialog.tells_of(a, b, user) && b < k && is_person(filter, user) && user.name@ == name;
        assert(false);
    }
}

/// Once all users are known, the local users have been asked for.
proof fn lemma_local_users_were_asked_for<D: Desktop>(
    filter: UserFilter,
    dialog: ListDialog<D>,
    k: int,
) -> (l: int)
    requires
        dialog.is_for(filter),
        0 <= k <= dialog.replies.len(),
        !crate::user_list::is_searching(dialog.states[k].stage()),
    ensures
        0 <= l < k,
        dialog.states[l].stage() is LocalUsers,
        dialog.replies[l] is LocalUsers,
        !crate::user_list::is_searching(dialog.states[l + 1].stage()),
        dialog.states[k].entries() == dialog.states[l + 1].entries(),
    decreases k,
{
    lemma_dialog(filter, dialog);
    assert(k > 0);
    assert(crate::user_list::goes_on_at(dialog.states, dialog.replies, k - 1));
    if crate::user_list::is_searching(dialog.states[k - 1].stage()) {
        k - 1
    } else {
        crate::user_list::law_found_users_stay(filter, dialog.states, dialog.replies, k - 1, k);
        lemma_local_users_were_asked_for(filter, dialog, k - 1)
    }
}

/// All that is told of accounts is told before the local users are asked for, and
/// these are asked for once.
proof fn lemma_accounts_come_first<D: Desktop>(filter: UserFilter, dialog: ListDialog<D>, l: int)
    requires
        dialog.is_for(filter),
        0 <= l < dialog.replies.len(),
        dialog.states[l].stage() is LocalUsers,
        dialog.replies[l] is LocalUsers,
        !crate::user_list::is_searching(dialog.states[l + 1].stage()),
    ensures
        forall|a: int, b: int, user: Passwd| #[trigger] dialog.tells_of(a, b, user) ==> b < l,
        forall|k: int|
            0 <= k < dialog.replies.len() && #[trigger] dialog.replies[k] is LocalUsers ==> k == l,
{
    lemma_dialog(filter, dialog);
    let (states, replies) = (dialog.states, dialog.replies);
    assert forall|a: int, b: int, user: Passwd| #[trigger]
        dialog.tells_of(a, b, user) implies b < l by {
        lemma_told_account(filter, dialog, a, b, user);
        if b > l {
            crate::user_list::law_found_users_stay(filter, states, replies, l + 1, b);
        }
    }
    assert forall|k: int|
        0 <= k < replies.len() && #[trigger] replies[k] is LocalUsers implies k == l by {
        assert(dialog.goes_on_at(k));
        if k > l {
            crate::user_list::law_found_users_stay(filter, states, replies, l + 1, k);
        } else if k < l {
            assert(crate::user_list::goes_on_at(states, replies, k));
            crate::user_list::law_found_users_stay(filter, states, replies, k + 1, l);
        }
    }
}

/// What is told of accounts until the local users are asked for is all that is told.
proof fn lemma_all_is_told<D: Desktop>(
    filter: UserFilter,
    dialog: ListDialog<D>,
    l: int,
    name: Seq<char>,
    entry: UserEntry,
)
    requires
        dialog.is_for(filter),
        0 <= l < dialog.replies.len(),
        forall|a: int, b: int, user: Passwd| #[trigger] dialog.tells_of(a, b, user) ==> b < l,
    ensures
        dialog.is_cached(filter, name, l) == dialog.is_cached(
            filter,
            name,
            dialog.replies.len() as int,
        ),
        dialog.is_cached_entry(filter, entry, l) == dialog.is_cached_entry(
            filter,
            entry,
            dialog.replies.len() as int,
        ),
{
    let n: int = dialog.replies.len() as int;
    assert forall|a: int, b: int| #[trigger]
        dialog.tells_last_of(filter, a, b, entry.user, l) == dialog.tells_last_of(
            filter,
            a,
            b,
            entry.user,
            n,
        ) by {}
    if dialog.is_cached_entry(filter, entry, l) {
        let (a, b) = choose|a: int, b: int| #[trigger]
            dialog.tells_last_of(filter, a, b, entry.user, l) && entry.real_name == given(
                dialog.replies[a + 3]->real_name,
            ) && entry.icon_file == given(dialog.replies[a + 3]->icon_file);
        assert(dialog.tells_last_of(filter, a, b, entry.user, n));
    }
    if dialog.is_cached_entry(filter, entry, n) {
        let (a, b) = choose|a: int, b: int| #[trigger]
            dialog.tells_last_of(filter, a, b, entry.user, n) && entry.real_name == given(
                dialog.replies[a + 3]->real_name,
            ) && entry.icon_file == given(dialog.replies[a + 3]->icon_file);
        assert(dialog.tells_last_of(filter, a, b, entry.user, l));
    }
}

/// Accepted users are persons within the limits.
proof fn lemma_persons(filter: UserFilter)
    ensures
        forall|user: Passwd| #[trigger] filter.accepts_cached(user) == is_person(filter, user),
        forall|user: Passwd| #[trigger]
            filter.accepts_local(user) == (is_person(filter, user) && user.uid <= filter.uid_max),
{
}

/// Of the local users, the first accepted one with a name is the one that is due.
proof fn lemma_first_local<D: Desktop>(
    filter: UserFilter,
    dialog: ListDialog<D>,
    l: int,
    i: int,
    user: Passwd,
)
    requires
        0 <= l < dialog.replies.len(),
        dialog.replies[l] is LocalUsers,
        !dialog.is_cached(filter, user.name@, dialog.replies.len() as int),
    ensures
        dialog.has_local(filter, user, l, i) == (crate::user_list::is_first_local(
            filter,
            dialog.replies[l]->LocalUsers_0@,
            user.name@,
            i,
        ) && dialog.replies[l]->LocalUsers_0@[i] == user),
{
    let users = dialog.replies[l]->LocalUsers_0@;
    lemma_persons(filter);
    if dialog.has_local(filter, user, l, i) {
        assert forall|j: int| 0 <= j < i implies !(filter.accepts_local(#[trigger] users[j])
            && users[j].name@ == user.name@) by {}
    }
    if crate::user_list::is_first_local(filter, users, user.name@, i) {
        assert forall|j: int| 0 <= j < i && (#[trigger] users[j]).name@ == user.name@ implies !(
        is_person(filter, users[j]) && users[j].uid <= filter.uid_max) by {
            assert(!(filter.accepts_local(users[j]) && users[j].name@ == user.name@));
        }
    }
}

/// Once all users are known, they are those who are due.
proof fn lemma_entries<D: Desktop>(filter: UserFilter, dialog: ListDialog<D>, k: int)
    requires
        dialog.is_for(filter),
        0 <= k <= dialog.replies.len(),
        !crate::user_list::is_searching(dialog.states[k].stage()),
    ensures
        crate::user_map::ascending(dialog.states[k].entries()),
        forall|m: int|
            0 <= m < dialog.states[k].entries().len() ==> dialog.is_due(
                filter,
                #[trigger] dialog.states[k].entries()[m],
            ),
        forall|entry: UserEntry| #[trigger]
            dialog.is_due(filter, entry) ==> exists|m: int|
                0 <= m < dialog.states[k].entries().len() && #[trigger] dialog.states[k].entries()[m]
                    == entry,
{
    lemma_dialog(filter, dialog);
    lemma_persons(filter);
    let (states, replies) = (dialog.states, dialog.replies);
    let n: int = replies.len() as int;
    let l: int = lemma_local_users_were_asked_for(filter, dialog, k);
    lemma_accounts_come_first(filter, dialog, l);
    crate::user_list::law_only_accepted_users_are_listed(filter, states, replies, l);
    crate::user_list::law_cached_users_take_precedence(filter, states, replies, l);
    assert(crate::user_list::goes_on_at(states, replies, l));
    let cached = states[l].users();
    let entries = states[l + 1].entries();
    let all = crate::user_map::by_name(entries);
    let users = replies[l]->LocalUsers_0@;
    crate::user_map::lemma_by_name(entries);
    assert forall|m: int| 0 <= m < entries.len() implies dialog.is_due(
        filter,
        #[trigger] entries[m],
    ) by {
        let entry = entries[m];
        let name = entry.user.name@;
        assert(all.dom().contains(name) && all[name] == entry);
        lemma_found_users(filter, dialog, l, name);
        lemma_all_is_told(filter, dialog, l, name, entry);
        if cached.dom().contains(name) {
            assert(cached[name] == entry);
        } else {
            let i: int = choose|i: int|
                crate::user_list::is_first_local(filter, users, name, i) && all[name] == (UserEntry {
                    user: users[i],
                    real_name: None,
                    icon_file: None,
                });
            assert(users[i] == entry.user);
            lemma_first_local(filter, dialog, l, i, entry.user);
            assert(dialog.has_local(filter, entry.user, l, i));
        }
    }
    assert forall|entry: UserEntry| #[trigger] dialog.is_due(filter, entry) implies exists|m: int|
        0 <= m < entries.len() && #[trigger] entries[m] == entry by {
        let name = entry.user.name@;
        lemma_found_users(filter, dialog, l, name);
        lemma_all_is_told(filter, dialog, l, name, entry);
        if dialog.is_cached_entry(filter, entry, n) {
            let (a, b) = choose|a: int, b: int| #[trigger]
                dialog.tells_last_of(filter, a, b, entry.user, n) && entry.real_name == given(
                    replies[a + 3]->real_name,
                ) && entry.icon_file == given(replies[a + 3]->icon_file);
            assert(dialog.tells_of(a, b, entry.user));
            assert(dialog.is_cached(filter, name, n));
            let kept = cached[name];
            lemma_all_is_told(filter, dialog, l, name, kept);
            let (c, d) = choose|c: int, d: int| #[trigger]
                dialog.tells_last_of(filter, c, d, kept.user, n) && kept.real_name == given(
                    replies[c + 3]->real_name,
                ) && kept.icon_file == given(replies[c + 3]->icon_file);
            assert(dialog.tells_of(c, d, kept.user));
            assert(b == d);
            lemma_told_account(filter, dialog, a, b, entry.user);
            lemma_told_account(filter, dialog, c, d, kept.user);
            assert(a == c);
            assert(kept == entry);
            assert(all.dom().contains(name) && all[name] == entry);
        } else {
            let (l2, i) = choose|l2: int, i: int| #[trigger]
                dialog.has_local(filter, entry.user, l2, i);
            assert(replies[l2] is LocalUsers);
            assert(l2 == l);
            lemma_first_local(filter, dialog, l, i, entry.user);
            assert(filter.accepts_local(users[i]));
            assert(all.dom().contains(users[i].name@));
            if cached.dom().contains(name) {
                let kept = cached[name];
                lemma_all_is_told(filter, dialog, l, name, kept);
                let (c, d) = choose|c: int, d: int| #[trigger]
                    dialog.tells_last_of(filter, c, d, kept.user, n) && kept.real_name == given(
                        replies[c + 3]->real_name,
                    ) && kept.icon_file == given(replies[c + 3]->icon_file);
                assert(dialog.tells_of(c, d, kept.user));
                assert(dialog.is_cached(filter, name, n));
            }
            let j: int = choose|j: int|
                crate::user_list::is_first_local(filter, users, name, j) && all[name] == (UserEntry {
                    user: users[j],
                    real_name: None,
                    icon_file: None,
                });
            assert(i == j);
            assert(all[name] == entry);
        }
        let m: int = choose|m: int| crate::user_map::is_entry_of(entries, name, m);
        assert(entries[m] == all[name]);
    }
}

/// Each record says who the user is whom it stands for.
proof fn lemma_records<D: Desktop>(filter: UserFilter, dialog: ListDialog<D>, k: int)
    requires
        dialog.is_for(filter),
        dialog.loads_keep_who(),
        0 <= k <= dialog.replies.len(),
    ensures
        ({
            let listing = dialog.states[k];
            &&& listing.datas().len() == crate::user_list::collected(listing)
            &&& listing.datas().len() <= listing.entries().len()
            &&& forall|i: int|
                0 <= i < listing.datas().len() ==> says_who(
                    #[trigger] listing.datas()[i],
                    listing.entries()[i],
                )
            &&& forall|i: int, j: int|
                0 <= i < j < listing.datas().len() ==> crate::text::text_lt(
                    (#[trigger] listing.datas()[i]).name@,
                    (#[trigger] listing.datas()[j]).name@,
                )
        }),
{
    lemma_dialog(filter, dialog);
    let (states, replies) = (dialog.states, dialog.replies);
    assert forall|j: int|
        0 <= j < replies.len() && (#[trigger] states[j]).stage() is Load implies (replies[j] matches
        ListReply::LoadConfig(Some(data)) ==> crate::user_list::identifies(
        data,
        states[j].entries()[states[j].stage()->Load_0 as int],
    )) by {
        assert(dialog.goes_on_at(j));
        assert(dialog.requests[j] is LoadConfig);
    }
    crate::user_list::law_one_record_for_each_user(filter, states, replies, k);
    let listing = states[k];
    assert forall|i: int| 0 <= i < listing.datas().len() implies says_who(
        #[trigger] listing.datas()[i],
        listing.entries()[i],
    ) by {
        assert(crate::user_list::identifies(listing.datas()[i], listing.entries()[i]));
    }
}

/// The records of a listing come in the order of the login names, each name once.
pub proof fn law_records_come_in_order<D: Desktop>(
    filter: UserFilter,
    dialog: ListDialog<D>,
    result: Vec<UserData<D>>,
    i: int,
    j: int,
)
    requires
        dialog.is_for(filter),
        dialog.gives(result),
        dialog.loads_keep_who(),
        0 <= i < j < result@.len(),
    ensures
        crate::text::text_lt(result@[i].name@, result@[j].name@),
        result@[i].name@ != result@[j].name@,
{
    lemma_records(filter, dialog, dialog.replies.len() as int);
    crate::text::lemma_text_lt_total(result@[i].name@, result@[i].name@);
}

/// Whoever is due is listed: everyone to whom an account leads, with what the last
/// such account of that login name says, and every local user whose login name no
/// account leads to.
pub proof fn law_whoever_is_due_is_listed<D: Desktop>(
    filter: UserFilter,
    dialog: ListDialog<D>,
    result: Vec<UserData<D>>,
    entry: UserEntry,
)
    requires
        dialog.is_for(filter),
        dialog.gives(result),
        dialog.loads_keep_who(),
        dialog.is_due(filter, entry),
    ensures
        exists|r: int| 0 <= r < result@.len() && says_who(#[trigger] result@[r], entry),
{
    let n: int = dialog.replies.len() as int;
    assert(dialog.states[n] == dialog.states.last());
    lemma_records(filter, dialog, n);
    lemma_entries(filter, dialog, n);
    let entries = dialog.states[n].entries();
    let m: int = choose|m: int| 0 <= m < entries.len() && #[trigger] entries[m] == entry;
    assert(says_who(result@[m], entry));
}

/// No one else is listed.
pub proof fn law_no_one_else_is_listed<D: Desktop>(
    filter: UserFilter,
    dialog: ListDialog<D>,
    result: Vec<UserData<D>>,
    r: int,
)
    requires
        dialog.is_for(filter),
        dialog.gives(result),
        dialog.loads_keep_who(),
        0 <= r < result@.len(),
    ensures
        exists|entry: UserEntry| #[trigger]
            dialog.is_due(filter, entry) && says_who(result@[r], entry),
{
    let n: int = dialog.replies.len() as int;
    assert(dialog.states[n] == dialog.states.last());
    lemma_records(filter, dialog, n);
    lemma_entries(filter, dialog, n);
    let entry = dialog.states[n].entries()[r];
    assert(dialog.is_due(filter, entry) && says_who(result@[r], entry));
}

/// A real name that the accounts service gives is the name under which the user is
/// listed, letter for letter, whatever it holds; where it gives none or an empty one,
/// that is the name of the user database.
pub proof fn law_real_names_are_shown<D: Desktop>(
    filter: UserFilter,
    dialog: ListDialog<D>,
    result: Vec<UserData<D>>,
    k: int,
    last: int,
    user: Passwd,
)
    requires
        dialog.is_for(filter),
        dialog.gives(result),
        dialog.loads_keep_who(),
        dialog.tells_last_of(filter, k, last, user, dialog.replies.len() as int),
    ensures
        exists|r: int|
            0 <= r < result@.len() && (#[trigger] result@[r]).uid == user.uid && result@[r].name@
                == user.name@ && result@[r].full_name@ == match dialog.replies[k + 3]->real_name {
                Some(real_name) => if real_name@.len() > 0 {
                    real_name@
                } else {
                    crate::user_data::full_name_of(user)
                },
                None => crate::user_data::full_name_of(user),
            },
{
    let entry = UserEntry {
        user,
        real_name: given(dialog.replies[k + 3]->real_name),
        icon_file: given(dialog.replies[k + 3]->icon_file),
    };
    assert(dialog.is_cached_entry(filter, entry, dialog.replies.len() as int));
    law_whoever_is_due_is_listed(filter, dialog, result, entry);
}

/// How many accounts were to be opened by the requests before `k`.
pub open spec fn opened<D: Desktop>(requests: Seq<ListRequest<D>>, k: int) -> int
    decreases k,
{
    if k <= 0 {
        0
    } else {
        opened(requests, k - 1) + if requests[k - 1] is OpenAccount {
            1int
        } else {
            0
        }
    }
}

/// How many accounts have been opened at each stage.
proof fn lemma_opened<D: Desktop>(filter: UserFilter, dialog: ListDialog<D>, k: int)
    requires
        dialog.is_for(filter),
        0 <= k <= dialog.replies.len(),
    ensures
        ({
            let listing = dialog.states[k];
            let n = listing.accounts().len() as int;
            let count = opened(dialog.requests, k);
            &&& n <= usize::MAX
            &&& match listing.stage() {
                ListStage::CachedUsers => k == 0 && count == 0,
                ListStage::Open(i) => count == i && i < n,
                ListStage::Flags(i) => count == i + 1 && i < n,
                ListStage::Uid(i) => count == i + 1 && i < n,
                ListStage::Names(i, _) => count == i + 1 && i < n,
                ListStage::ByUid(i, _) => count == i + 1 && i < n,
                ListStage::ByName(i, _) => count == i + 1 && i < n,
                _ => count == n,
            }
            &&& k > 0 ==> match dialog.replies[0] {
                ListReply::CachedUsers(Some(paths)) => listing.accounts() == paths@,
                ListReply::CachedUsers(None) => n == 0,
                _ => false,
            }
        }),
    decreases k,
{
    lemma_dialog(filter, dialog);
    crate::user_list::lemma_lengths(dialog.states[k]);
    if k > 0 {
        lemma_opened(filter, dialog, k - 1);
        assert(dialog.goes_on_at(k - 1));
        assert(crate::user_list::goes_on_at(dialog.states, dialog.replies, k - 1));
    }
}

/// The accounts are looked at one after the other: the first thing asked for are the
/// accounts that the service remembers, and before the local users are asked for each
/// of these is opened once, in their order.
pub proof fn law_accounts_are_opened_in_order<D: Desktop>(
    filter: UserFilter,
    dialog: ListDialog<D>,
    k: int,
)
    requires
        dialog.is_for(filter),
        0 <= k < dialog.replies.len(),
    ensures
        dialog.requests[0] is CachedUsers,
        dialog.requests[k] is CachedUsers ==> k == 0,
        ({
            let paths = match dialog.replies[0] {
                ListReply::CachedUsers(Some(paths)) => paths@,
                _ => Seq::empty(),
            };
            let count = opened(dialog.requests, k);
            &&& dialog.requests[k] matches ListRequest::OpenAccount(path) ==> count < paths.len()
                && path == paths[count]
            &&& dialog.requests[k] is LocalUsers ==> count == paths.len()
        }),
{
    lemma_opened(filter, dialog, k);
    assert(dialog.goes_on_at(k));
    assert(dialog.goes_on_at(0));
}

/// What is asked after a reply. An account that cannot be opened, is said to be one
/// of the system or locked, or has no uid that fits, is passed over, each on its own
/// account; about any other the names are asked, and then for the user with that uid
/// or else with that name. Whoever owns the home directory gets the settings read.
pub proof fn law_what_is_asked_next<D: Desktop>(filter: UserFilter, dialog: ListDialog<D>, k: int)
    requires
        dialog.is_for(filter),
        0 <= k,
        k + 1 < dialog.replies.len(),
    ensures
        ({
            let next = dialog.requests[k + 1];
            let goes_to_next_account = next is OpenAccount || next is LocalUsers;
            match dialog.replies[k] {
                ListReply::CachedUsers(_) => goes_to_next_account,
                ListReply::OpenAccount(is_open) => if is_open {
                    next is AccountFlags
                } else {
                    goes_to_next_account
                },
                ListReply::AccountFlags { system_account, locked } => {
                    &&& system_account == Some(true) ==> goes_to_next_account
                    &&& locked == Some(true) ==> goes_to_next_account
                    &&& system_account != Some(true) && locked != Some(true) ==> next is AccountUid
                },
                ListReply::AccountUid(uid) => match uid {
                    Some(raw) => if raw <= 4294967295 {
                        next is AccountNames
                    } else {
                        goes_to_next_account
                    },
                    None => goes_to_next_account,
                },
                ListReply::AccountNames { .. } => k > 0 && (dialog.replies[k - 1] matches
                    ListReply::AccountUid(Some(raw)) && next matches ListRequest::UserByUid(uid)
                    && uid == raw),
                ListReply::User(Some(_)) => goes_to_next_account,
                ListReply::User(None) => if dialog.requests[k] is UserByUid {
                    k > 0 && (dialog.replies[k - 1] matches ListReply::AccountNames {
                        user_name,
                        ..
                    } && if user_name is Some && user_name->0@.len() > 0 {
                        next matches ListRequest::UserByName(name) && name@ == user_name->0@
                    } else {
                        goes_to_next_account
                    })
                } else {
                    goes_to_next_account
                },
                ListReply::LocalUsers(_) => next is HomeOwner,
                ListReply::HomeOwner(_) => next is HomeOwner || next is LoadConfig,
                ListReply::LoadConfig(_) => next is HomeOwner,
            }
        }),
{
    lemma_dialog(filter, dialog);
    assert(dialog.goes_on_at(k));
    assert(dialog.goes_on_at(k + 1));
    assert(crate::user_list::goes_on_at(dialog.states, dialog.replies, k));
    lemma_history(filter, dialog, k);
    if k > 0 {
        lemma_history(filter, dialog, k - 1);
    }
}

/// The listing goes on about the same account, or to the one after it.
pub proof fn law_flags_decide<D: Desktop>(
    filter: UserFilter,
    dialog: ListDialog<D>,
    k: int,
    system_account: Option<bool>,
    locked: Option<bool>,
)
    requires
        dialog.is_for(filter),
        0 <= k < dialog.replies.len(),
        dialog.replies[k] == (ListReply::<D>::AccountFlags { system_account, locked }),
    ensures
        dialog.states[k].stage() is Flags,
        ({
            let i = dialog.states[k].stage()->Flags_0 as int;
            let next_account = if i + 1 < dialog.states[k].accounts().len() {
                ListStage::Open((i + 1) as usize)
            } else {
                ListStage::LocalUsers
            };
            let after = dialog.states[k + 1];
            &&& system_account == Some(true) ==> after.stage() == next_account
            &&& locked == Some(true) ==> after.stage() == next_account
            &&& system_account != Some(true) && locked != Some(true) ==> after.stage()
                == ListStage::Uid(i as usize)
            &&& after.users() == dialog.states[k].users()
            &&& after.accounts() == dialog.states[k].accounts()
        }),
{
    lemma_dialog(filter, dialog);
    assert(dialog.goes_on_at(k));
    assert(crate::user_list::goes_on_at(dialog.states, dialog.replies, k));
}

/// Records stay as they are collected.
proof fn lemma_records_stay<D: Desktop>(
    filter: UserFilter,
    dialog: ListDialog<D>,
    j: int,
    k: int,
    m: int,
)
    requires
        dialog.is_for(filter),
        0 <= j <= k <= dialog.replies.len(),
        0 <= m < dialog.states[j].datas().len(),
    ensures
        m < dialog.states[k].datas().len(),
        dialog.states[k].datas()[m] == dialog.states[j].datas()[m],
    decreases k,
{
    if j < k {
        lemma_records_stay(filter, dialog, j, k - 1, m);
        lemma_dialog(filter, dialog);
        let (before, after) = (dialog.states[k - 1], dialog.states[k]);
        assert(crate::user_list::goes_on_at(dialog.states, dialog.replies, k - 1));
        if after.datas().len() > before.datas().len() {
            assert(after.datas().drop_last()[m] == after.datas()[m]);
            assert(after.datas().drop_last() =~= before.datas());
        }
    }
}

/// Of everyone who is due it is asked who owns the home directory, and the record
/// follows from that: with the settings that were read for exactly that user, if the
/// user owns it and they could be read, and without settings otherwise.
pub proof fn law_settings_come_from_own_homes<D: Desktop>(
    filter: UserFilter,
    dialog: ListDialog<D>,
    result: Vec<UserData<D>>,
    k: int,
)
    requires
        dialog.is_for(filter),
        dialog.gives(result),
        dialog.loads_keep_who(),
        0 <= k < dialog.replies.len(),
        dialog.requests[k] is HomeOwner,
    ensures
        exists|entry: UserEntry, r: int|
            #![trigger dialog.is_due(filter, entry), result@[r]]
            dialog.is_due(filter, entry) && 0 <= r < result@.len() && says_who(result@[r], entry)
                && dialog.requests[k]->name == entry.user.name && dialog.requests[k]->dir
                == entry.user.dir && if dialog.replies[k]->HomeOwner_0 == Some(entry.user.uid) {
                k + 1 < dialog.replies.len() && (dialog.requests[k + 1] matches
                    ListRequest::LoadConfig { user, data, icon_file } && user == entry.user
                    && says_who(data, entry) && is_bare(data) && icon_file == entry.icon_file) && (
                match dialog.replies[k + 1]->LoadConfig_0 {
                    Some(loaded) => result@[r] == loaded,
                    None => is_bare(result@[r]),
                })
            } else {
                is_bare(result@[r])
            },
{
    lemma_dialog(filter, dialog);
    let n: int = dialog.replies.len() as int;
    let (states, replies) = (dialog.states, dialog.replies);
    assert(states[n] == states.last());
    assert(dialog.goes_on_at(k));
    assert(crate::user_list::goes_on_at(states, replies, k));
    crate::user_list::lemma_positions(filter, states, replies, k);
    lemma_records(filter, dialog, k);
    lemma_records(filter, dialog, n);
    lemma_entries(filter, dialog, n);
    crate::user_list::law_found_users_stay(filter, states, replies, k, n);
    let r: int = states[k].stage()->Home_0 as int;
    let entry = states[n].entries()[r];
    assert(dialog.is_due(filter, entry));
    lemma_records(filter, dialog, k + 1);
    if replies[k]->HomeOwner_0 == Some(entry.user.uid) {
        assert(k + 1 < n);
        assert(dialog.goes_on_at(k + 1));
        assert(crate::user_list::goes_on_at(states, replies, k + 1));
        assert(dialog.requests[k + 1] is LoadConfig);
        lemma_records_stay(filter, dialog, k + 2, n, r);
    } else {
        lemma_records_stay(filter, dialog, k + 1, n, r);
    }
    assert(says_who(result@[r], entry));
}

/// Settings are asked for only for the user of whom it was just asked who owns the
/// home directory, and who does.
pub proof fn law_settings_are_asked_for_own_homes_only<D: Desktop>(
    filter: UserFilter,
    dialog: ListDialog<D>,
    k: int,
)
    requires
        dialog.is_for(filter),
        0 <= k < dialog.replies.len(),
        dialog.requests[k] is LoadConfig,
    ensures
        k > 0,
        ({
            let user = dialog.requests[k]->user;
            &&& dialog.requests[k - 1] matches ListRequest::HomeOwner { name, dir } && name
                == user.name && dir == user.dir
            &&& dialog.replies[k - 1] matches ListReply::HomeOwner(Some(owner)) && owner == user.uid
        }),
{
    lemma_dialog(filter, dialog);
    assert(dialog.goes_on_at(k));
    crate::user_list::law_settings_are_read_from_own_home_only(
        filter,
        dialog.states,
        dialog.replies,
        k,
    );
    assert(dialog.goes_on_at(k - 1));
    assert(crate::user_list::goes_on_at(dialog.states, dialog.replies, k - 1));
}

/// The home directory of each user has been looked at when the record is there.
proof fn lemma_home_was_looked_at<D: Desktop>(
    filter: UserFilter,
    dialog: ListDialog<D>,
    k: int,
    m: int,
) -> (j: int)
    requires
        dialog.is_for(filter),
        0 <= k <= dialog.replies.len(),
        0 <= m < dialog.states[k].entries().len(),
        m < crate::user_list::collected(dialog.states[k]) || (dialog.states[k].stage() matches
            ListStage::Load(i) && i == m),
    ensures
        0 <= j < k,
        dialog.states[j].stage() matches ListStage::Home(i) && i == m,
        dialog.states[j].entries() == dialog.states[k].entries(),
    decreases k,
{
    lemma_dialog(filter, dialog);
    let (states, replies) = (dialog.states, dialog.replies);
    assert(k > 0);
    assert(crate::user_list::goes_on_at(states, replies, k - 1));
    crate::user_list::lemma_lengths(states[k]);
    crate::user_list::lemma_positions(filter, states, replies, k - 1);
    if states[k - 1].stage() matches ListStage::Home(i) && i == m {
        k - 1
    } else {
        lemma_home_was_looked_at(filter, dialog, k - 1, m)
    }
}

/// Of everyone who is due it is asked who owns the home directory.
pub proof fn law_every_home_is_looked_at<D: Desktop>(
    filter: UserFilter,
    dialog: ListDialog<D>,
    result: Vec<UserData<D>>,
    entry: UserEntry,
)
    requires
        dialog.is_for(filter),
        dialog.gives(result),
        dialog.is_due(filter, entry),
    ensures
        exists|k: int|
            0 <= k < dialog.replies.len() && (#[trigger] dialog.requests[k] matches
                ListRequest::HomeOwner { name, dir } && name == entry.user.name && dir
                == entry.user.dir),
{
    let n: int = dialog.replies.len() as int;
    assert(dialog.states[n] == dialog.states.last());
    lemma_entries(filter, dialog, n);
    let entries = dialog.states[n].entries();
    let m: int = choose|m: int| 0 <= m < entries.len() && #[trigger] entries[m] == entry;
    let k: int = lemma_home_was_looked_at(filter, dialog, n, m);
    assert(dialog.goes_on_at(k));
    assert(dialog.requests[k] is HomeOwner);
}

/// A listing does not end before all accounts and the local users have been looked at.
pub proof fn law_listing_looks_at_everyone<D: Desktop>(
    filter: UserFilter,
    dialog: ListDialog<D>,
    result: Vec<UserData<D>>,
    k: int,
)
    requires
        dialog.is_for(filter),
        dialog.gives(result),
    ensures
        exists|l: int|
            0 <= l < dialog.requests.len() && #[trigger] dialog.requests[l] is LocalUsers,
        opened(dialog.requests, dialog.requests.len() as int) == match dialog.replies[0] {
            ListReply::CachedUsers(Some(paths)) => paths@.len() as int,
            _ => 0,
        },
        0 <= k < dialog.replies.len() && !(dialog.replies[k] is LocalUsers
            || dialog.replies[k] is HomeOwner || dialog.replies[k] is LoadConfig) ==> k + 1
            < dialog.replies.len(),
{
    lemma_dialog(filter, dialog);
    let n: int = dialog.replies.len() as int;
    assert(dialog.states[n] == dialog.states.last());
    let l: int = lemma_local_users_were_asked_for(filter, dialog, n);
    assert(dialog.goes_on_at(l));
    assert(dialog.requests[l] is LocalUsers);
    lemma_opened(filter, dialog, n);
    if 0 <= k < n {
        assert(dialog.goes_on_at(k));
        assert(crate::user_list::goes_on_at(dialog.states, dialog.replies, k));
    }
}

/// A reply to something that was not asked for changes nothing, and neither does any
/// reply once nothing is asked for.
pub proof fn law_other_replies_are_passed_over<D: Desktop>(
    listing: UserListing<D>,
    request: Option<ListRequest<D>>,
    reply: ListReply<D>,
    after: UserListing<D>,
)
    requires
        call_ensures(UserListing::<D>::request, (&listing,), request),
        request matches Some(asked) ==> !fits(asked, reply),
        call_ensures(UserListing::<D>::step, (listing, reply), after),
    ensures
        after == listing,
{
}

} // verus!
