//! Finding the users to be shown and collecting their data.
//!
//! Who is shown, and for whom settings are read, is decided here; whoever drives
//! the listing asks the accounts service and the user database, and reads the
//! settings of a user, when it asks for that.

use vstd::prelude::*;

use crate::passwd::Passwd;
use crate::user_data::{Desktop, UserData};
use crate::user_filter::UserFilter;
use crate::user_map::{UserEntry, UserMap};

verus! {

/// What is known of an account of the accounts service that may be shown.
#[derive(Debug)]
pub struct Account {
    pub uid: u32,
    /// Its login name; empty where the service does not give one.
    pub user_name: String,
    /// The name of the person, if it is not empty.
    pub real_name: Option<String>,
    /// The path of the icon, if it is not empty.
    pub icon_file: Option<String>,
}

/// Something to be found out.
pub enum ListRequest<D: Desktop> {
    /// The object paths of the users that the accounts service remembers.
    CachedUsers,
    /// Access to the account with this object path. The next requests up to the
    /// one for the user database are about this account.
    OpenAccount(String),
    /// Whether the account is one of the system, and whether it is locked.
    AccountFlags,
    /// The uid of the account.
    AccountUid,
    /// The names of the account, and its icon.
    AccountNames,
    /// The user with this uid.
    UserByUid(u32),
    /// The user with this login name.
    UserByName(String),
    /// The users of `/etc/passwd`.
    LocalUsers,
    /// The uid that owns `dir`, the home that the user `name` is to have.
    HomeOwner { name: String, dir: String },
    /// The data of a user with the settings added to it, which are to be read as
    /// that user.
    LoadConfig { user: Passwd, data: UserData<D>, icon_file: Option<String> },
}

/// What was found out. What could not be found out is `None`.
pub enum ListReply<D: Desktop> {
    CachedUsers(Option<Vec<String>>),
    /// Whether there is access to the account.
    OpenAccount(bool),
    AccountFlags { system_account: Option<bool>, locked: Option<bool> },
    AccountUid(Option<u64>),
    AccountNames {
        user_name: Option<String>,
        real_name: Option<String>,
        icon_file: Option<String>,
    },
    /// The reply to a request for a user of the user database.
    User(Option<Passwd>),
    LocalUsers(Vec<Passwd>),
    HomeOwner(Option<u32>),
    /// `None` where nothing could be done as the user.
    LoadConfig(Option<UserData<D>>),
}

/// Where a listing stands: what it asks for next.
#[derive(Debug)]
pub enum ListStage {
    CachedUsers,
    /// Access to the account `0`, and so on.
    Open(usize),
    Flags(usize),
    Uid(usize),
    Names(usize, u32),
    ByUid(usize, Account),
    ByName(usize, Account),
    LocalUsers,
    /// The owner of the home directory of the user `0`, and so on.
    Home(usize),
    Load(usize),
    Done,
}

/// Whether an account is passed over. One of which that cannot be found out is not.
pub open spec fn is_hidden(system_account: Option<bool>, locked: Option<bool>) -> bool {
    system_account == Some(true) || locked == Some(true)
}

/// The uid that the accounts service gives, as far as it is one.
pub open spec fn account_uid(uid: Option<u64>) -> Option<u32> {
    match uid {
        Some(raw) => if raw <= u32::MAX {
            Some(raw as u32)
        } else {
            None
        },
        None => None,
    }
}

/// A text that is there and not empty.
pub open spec fn non_empty(text: Option<String>) -> Option<String> {
    match text {
        Some(s) => if s@.len() > 0 {
            Some(s)
        } else {
            None
        },
        None => None,
    }
}

fn filled(text: Option<String>) -> (r: Option<String>)
    ensures
        r == non_empty(text),
{
    match text {
        Some(s) => if s.as_str().is_empty() {
            None
        } else {
            Some(s)
        },
        None => None,
    }
}

/// The users `m` with those of `users` added that are accepted and whose name is
/// not taken yet.
pub open spec fn with_local_users(
    m: Map<Seq<char>, UserEntry>,
    filter: UserFilter,
    users: Seq<Passwd>,
) -> Map<Seq<char>, UserEntry>
    decreases users.len(),
{
    if users.len() == 0 {
        m
    } else {
        let before = with_local_users(m, filter, users.drop_last());
        let user = users.last();
        if filter.accepts_local(user) && !before.dom().contains(user.name@) {
            before.insert(user.name@, UserEntry { user, real_name: None, icon_file: None })
        } else {
            before
        }
    }
}

/// The name under which a user is shown.
pub open spec fn shown_name(entry: UserEntry) -> Seq<char> {
    match entry.real_name {
        Some(real_name) => real_name@,
        None => crate::user_data::full_name_of(entry.user),
    }
}

/// Whether `data` says who the user of `entry` is.
pub open spec fn identifies<D: Desktop>(data: UserData<D>, entry: UserEntry) -> bool {
    &&& data.uid == entry.user.uid
    &&& data.name@ == entry.user.name@
    &&& data.full_name@ == shown_name(entry)
}

/// The data of a user whose settings are not read.
pub fn bare_data<D: Desktop>(entry: &UserEntry) -> (data: UserData<D>)
    ensures
        identifies(data, *entry),
        data.uid == entry.user.uid,
        data.name@ == entry.user.name@,
        entry.real_name matches Some(real_name) ==> data.full_name@ == real_name@,
        entry.real_name is None ==> data.full_name@ == crate::user_data::full_name_of(entry.user),
        data.has_no_settings(),
{
    let mut data: UserData<D> = UserData::of_user(entry.user.clone());
    match &entry.real_name {
        Some(real_name) => {
            data.full_name = real_name.clone();
        },
        None => {},
    }
    data
}

/// The state of a listing.
pub struct UserListing<D: Desktop> {
    filter: UserFilter,
    accounts: Vec<String>,
    users: UserMap,
    entries: Vec<UserEntry>,
    datas: Vec<UserData<D>>,
    stage: ListStage,
}

/// Starts a listing of the users that `filter` accepts.
pub fn get_user_data<D: Desktop>(filter: UserFilter) -> (listing: UserListing<D>)
    ensures
        listing.starts_with(filter),
{
    UserListing {
        filter,
        accounts: Vec::new(),
        users: UserMap::new(),
        entries: Vec::new(),
        datas: Vec::new(),
        stage: ListStage::CachedUsers,
    }
}

impl<D: Desktop> UserListing<D> {
    #[verifier::type_invariant]
    spec fn well_formed(self) -> bool {
        match self.stage {
            ListStage::CachedUsers => true,
            ListStage::Open(i) => i < self.accounts@.len(),
            ListStage::Flags(i) => i < self.accounts@.len(),
            ListStage::Uid(i) => i < self.accounts@.len(),
            ListStage::Names(i, _) => i < self.accounts@.len(),
            ListStage::ByUid(i, _) => i < self.accounts@.len(),
            ListStage::ByName(i, _) => i < self.accounts@.len(),
            ListStage::LocalUsers => true,
            ListStage::Home(k) => k < self.entries@.len(),
            ListStage::Load(k) => k < self.entries@.len(),
            ListStage::Done => true,
        }
    }

    /// Tells who is shown.
    pub closed spec fn filter(self) -> UserFilter {
        self.filter
    }

    /// The object paths of the accounts to look at.
    pub closed spec fn accounts(self) -> Seq<String> {
        self.accounts@
    }

    /// The users found, by login name, as long as more are looked for.
    pub closed spec fn users(self) -> Map<Seq<char>, UserEntry> {
        self.users@
    }

    /// All the users, once they are known.
    pub closed spec fn entries(self) -> Seq<UserEntry> {
        self.entries@
    }

    /// The data collected so far.
    pub closed spec fn datas(self) -> Seq<UserData<D>> {
        self.datas@
    }

    /// Where the listing stands.
    pub closed spec fn stage(self) -> ListStage {
        self.stage
    }

    /// Whether this is the start of a listing of the users that `filter` accepts.
    pub open spec fn starts_with(self, filter: UserFilter) -> bool {
        &&& self.filter() == filter
        &&& self.accounts().len() == 0
        &&& self.users() == Map::<Seq<char>, UserEntry>::empty()
        &&& self.entries().len() == 0
        &&& self.datas().len() == 0
        &&& self.stage() == ListStage::CachedUsers
    }

    /// The stage at which the account `i` is looked at; the one after all
    /// accounts where there is no such account.
    pub open spec fn account_stage(self, i: int) -> ListStage {
        if i < self.accounts().len() {
            ListStage::Open(i as usize)
        } else {
            ListStage::LocalUsers
        }
    }

    /// The stage at which the data of the user `k` is collected; the last one
    /// where there is no such user.
    pub open spec fn entry_stage(self, k: int) -> ListStage {
        if k < self.entries().len() {
            ListStage::Home(k as usize)
        } else {
            ListStage::Done
        }
    }

    /// The users found, with one more from the accounts service if it is accepted.
    pub open spec fn users_with(self, account: Account, user: Passwd) -> Map<Seq<char>, UserEntry> {
        if self.filter().accepts_cached(user) {
            self.users().insert(
                user.name@,
                UserEntry { user, real_name: account.real_name, icon_file: account.icon_file },
            )
        } else {
            self.users()
        }
    }

    /// Whether `self` is `before` but for the users found and the stage.
    pub open spec fn keeps_accounts(self, before: Self) -> bool {
        &&& self.filter() == before.filter()
        &&& self.accounts() == before.accounts()
        &&& self.entries() == before.entries()
        &&& self.datas() == before.datas()
    }

    /// Whether `self` is `before` but for the data collected and the stage.
    pub open spec fn keeps_users(self, before: Self) -> bool {
        &&& self.filter() == before.filter()
        &&& self.accounts() == before.accounts()
        &&& self.users() == before.users()
        &&& self.entries() == before.entries()
    }

    /// Whether `after` is what becomes of `self` with `reply`.
    pub open spec fn steps_to(self, reply: ListReply<D>, after: Self) -> bool {
        match (self.stage(), reply) {
            (ListStage::CachedUsers, ListReply::CachedUsers(accounts)) => {
                &&& after.filter() == self.filter()
                &&& after.accounts() == match accounts {
                    Some(accounts) => accounts@,
                    None => Seq::empty(),
                }
                &&& after.users() == self.users()
                &&& after.entries() == self.entries()
                &&& after.datas() == self.datas()
                &&& after.stage() == after.account_stage(0)
            },
            (ListStage::Open(i), ListReply::OpenAccount(opened)) => {
                &&& after.keeps_accounts(self)
                &&& after.users() == self.users()
                &&& after.stage() == if opened {
                    ListStage::Flags(i)
                } else {
                    self.account_stage(i + 1)
                }
            },
            (ListStage::Flags(i), ListReply::AccountFlags { system_account, locked }) => {
                &&& after.keeps_accounts(self)
                &&& after.users() == self.users()
                &&& after.stage() == if is_hidden(system_account, locked) {
                    self.account_stage(i + 1)
                } else {
                    ListStage::Uid(i)
                }
            },
            (ListStage::Uid(i), ListReply::AccountUid(uid)) => {
                &&& after.keeps_accounts(self)
                &&& after.users() == self.users()
                &&& after.stage() == match account_uid(uid) {
                    Some(uid) => ListStage::Names(i, uid),
                    None => self.account_stage(i + 1),
                }
            },
            (
                ListStage::Names(i, uid),
                ListReply::AccountNames { user_name, real_name, icon_file },
            ) => {
                &&& after.keeps_accounts(self)
                &&& after.users() == self.users()
                &&& after.stage() matches ListStage::ByUid(j, account) && j == i && account == (
                Account {
                    uid,
                    user_name: account.user_name,
                    real_name: non_empty(real_name),
                    icon_file: non_empty(icon_file),
                }) && account.user_name@ == match user_name {
                    Some(name) => name@,
                    None => Seq::empty(),
                }
            },
            (ListStage::ByUid(i, account), ListReply::User(found)) => {
                &&& after.keeps_accounts(self)
                &&& match found {
                    Some(user) => after.users() == self.users_with(account, user) && after.stage()
                        == self.account_stage(i + 1),
                    None => after.users() == self.users() && after.stage()
                        == if account.user_name@.len() > 0 {
                        ListStage::ByName(i, account)
                    } else {
                        self.account_stage(i + 1)
                    },
                }
            },
            (ListStage::ByName(i, account), ListReply::User(found)) => {
                &&& after.keeps_accounts(self)
                &&& after.users() == match found {
                    Some(user) => self.users_with(account, user),
                    None => self.users(),
                }
                &&& after.stage() == self.account_stage(i + 1)
            },
            (ListStage::LocalUsers, ListReply::LocalUsers(users)) => {
                &&& after.filter() == self.filter()
                &&& after.accounts() == self.accounts()
                &&& after.users() == Map::<Seq<char>, UserEntry>::empty()
                &&& crate::user_map::ascending(after.entries())
                &&& crate::user_map::by_name(after.entries()) == with_local_users(
                    self.users(),
                    self.filter(),
                    users@,
                )
                &&& after.datas() == self.datas()
                &&& after.stage() == after.entry_stage(0)
            },
            (ListStage::Home(k), ListReply::HomeOwner(owner)) => {
                let entry = self.entries()[k as int];
                &&& after.keeps_users(self)
                &&& if owner == Some(entry.user.uid) {
                    after.datas() == self.datas() && after.stage() == ListStage::Load(k)
                } else {
                    self.collects_bare(entry, after) && after.stage() == self.entry_stage(k + 1)
                }
            },
            (ListStage::Load(k), ListReply::LoadConfig(loaded)) => {
                &&& after.keeps_users(self)
                &&& match loaded {
                    Some(data) => after.datas() == self.datas().push(data),
                    None => self.collects_bare(self.entries()[k as int], after),
                }
                &&& after.stage() == self.entry_stage(k + 1)
            },
            _ => after == self,
        }
    }

    /// Whether `reply` tells what is to be found out next.
    pub open spec fn is_answered_by(self, reply: ListReply<D>) -> bool {
        match self.stage() {
            ListStage::CachedUsers => reply is CachedUsers,
            ListStage::Open(_) => reply is OpenAccount,
            ListStage::Flags(_) => reply is AccountFlags,
            ListStage::Uid(_) => reply is AccountUid,
            ListStage::Names(_, _) => reply is AccountNames,
            ListStage::ByUid(_, _) => reply is User,
            ListStage::ByName(_, _) => reply is User,
            ListStage::LocalUsers => reply is LocalUsers,
            ListStage::Home(_) => reply is HomeOwner,
            ListStage::Load(_) => reply is LoadConfig,
            ListStage::Done => false,
        }
    }

    /// Whether `after` has collected the data of the user of `entry`, without settings.
    pub open spec fn collects_bare(self, entry: UserEntry, after: Self) -> bool {
        &&& after.datas().len() == self.datas().len() + 1
        &&& after.datas().drop_last() == self.datas()
        &&& identifies(after.datas().last(), entry)
        &&& after.datas().last().has_no_settings()
    }

    /// Whether `request` is what is to be found out next.
    pub open spec fn asks_for(self, request: ListRequest<D>) -> bool {
        match self.stage() {
            ListStage::CachedUsers => request is CachedUsers,
            ListStage::Open(i) => request == ListRequest::<D>::OpenAccount(
                self.accounts()[i as int],
            ),
            ListStage::Flags(_) => request is AccountFlags,
            ListStage::Uid(_) => request is AccountUid,
            ListStage::Names(_, _) => request is AccountNames,
            ListStage::ByUid(_, account) => request == ListRequest::<D>::UserByUid(account.uid),
            ListStage::ByName(_, account) => request == ListRequest::<D>::UserByName(
                account.user_name,
            ),
            ListStage::LocalUsers => request is LocalUsers,
            ListStage::Home(k) => {
                let user = self.entries()[k as int].user;
                request matches ListRequest::HomeOwner { name, dir } && name == user.name && dir
                    == user.dir
            },
            ListStage::Load(k) => {
                let entry = self.entries()[k as int];
                request matches ListRequest::LoadConfig { user, data, icon_file } && user
                    == entry.user && icon_file == entry.icon_file && identifies(data, entry)
                    && data.has_no_settings()
            },
            ListStage::Done => false,
        }
    }

    /// What is to be found out next, `None` at the end.
    pub fn request(&self) -> (r: Option<ListRequest<D>>)
        ensures
            match r {
                Some(request) => self.asks_for(request),
                None => self.stage() == ListStage::Done,
            },
    {
        proof {
            use_type_invariant(self);
        }
        match &self.stage {
            ListStage::CachedUsers => Some(ListRequest::CachedUsers),
            ListStage::Open(i) => Some(ListRequest::OpenAccount(self.accounts[*i].clone())),
            ListStage::Flags(_) => Some(ListRequest::AccountFlags),
            ListStage::Uid(_) => Some(ListRequest::AccountUid),
            ListStage::Names(_, _) => Some(ListRequest::AccountNames),
            ListStage::ByUid(_, account) => Some(ListRequest::UserByUid(account.uid)),
            ListStage::ByName(_, account) => Some(
                ListRequest::UserByName(account.user_name.clone()),
            ),
            ListStage::LocalUsers => Some(ListRequest::LocalUsers),
            ListStage::Home(k) => {
                let user = &self.entries[*k].user;
                Some(ListRequest::HomeOwner { name: user.name.clone(), dir: user.dir.clone() })
            },
            ListStage::Load(k) => {
                let entry = &self.entries[*k];
                Some(
                    ListRequest::LoadConfig {
                        user: entry.user.clone(),
                        data: bare_data(entry),
                        icon_file: entry.icon_file.clone(),
                    },
                )
            },
            ListStage::Done => None,
        }
    }

    fn open_stage(accounts: &Vec<String>, i: usize) -> (r: ListStage)
        ensures
            r == if i < accounts@.len() {
                ListStage::Open(i)
            } else {
                ListStage::LocalUsers
            },
    {
        if i < accounts.len() {
            ListStage::Open(i)
        } else {
            ListStage::LocalUsers
        }
    }

    fn home_stage(entries: &Vec<UserEntry>, k: usize) -> (r: ListStage)
        ensures
            r == if k < entries@.len() {
                ListStage::Home(k)
            } else {
                ListStage::Done
            },
    {
        if k < entries.len() {
            ListStage::Home(k)
        } else {
            ListStage::Done
        }
    }

    /// Adds a user from the accounts service if it is accepted.
    fn add_cached(filter: &UserFilter, users: &mut UserMap, account: Account, user: Passwd)
        ensures
            final(users)@ == if filter.accepts_cached(user) {
                old(users)@.insert(
                    user.name@,
                    UserEntry { user, real_name: account.real_name, icon_file: account.icon_file },
                )
            } else {
                old(users)@
            },
    {
        if filter.filter_cached(&user) {
            users.insert(
                UserEntry { user, real_name: account.real_name, icon_file: account.icon_file },
            );
        }
    }

    /// Adds the local users that are accepted and whose names are not taken yet.
    fn add_local(filter: &UserFilter, users: &mut UserMap, local: Vec<Passwd>)
        ensures
            final(users)@ == with_local_users(old(users)@, *filter, local@),
    {
        let ghost all = local@;
        for user in it: local
            invariant
                it.seq() == all,
                users@ == with_local_users(old(users)@, *filter, all.take(it.index() as int)),
        {
            let ghost n = it.index() as int;
            assert(all.take(n + 1).drop_last() =~= all.take(n));
            if filter.filter_local(&user) {
                users.insert_if_absent(UserEntry { user, real_name: None, icon_file: None });
            }
        }
        assert(all.take(all.len() as int) =~= all);
    }

    /// Goes on with what was found out. A reply to something that was not asked
    /// for is passed over.
    pub fn step(self, reply: ListReply<D>) -> (after: Self)
        ensures
            self.steps_to(reply, after),
    {
        proof {
            use_type_invariant(&self);
        }
        let filter = self.filter;
        let mut accounts = self.accounts;
        let mut users = self.users;
        let mut entries = self.entries;
        let mut datas = self.datas;
        assert(accounts.len() <= usize::MAX && entries.len() <= usize::MAX);
        let stage = match (self.stage, reply) {
            (ListStage::CachedUsers, ListReply::CachedUsers(found)) => {
                accounts = match found {
                    Some(found) => found,
                    None => Vec::new(),
                };
                Self::open_stage(&accounts, 0)
            },
            (ListStage::Open(i), ListReply::OpenAccount(opened)) => if opened {
                ListStage::Flags(i)
            } else {
                Self::open_stage(&accounts, i + 1)
            },
            (ListStage::Flags(i), ListReply::AccountFlags { system_account, locked }) => {
                let is_system = system_account.unwrap_or(false);
                let is_locked = locked.unwrap_or(false);
                if is_system || is_locked {
                    Self::open_stage(&accounts, i + 1)
                } else {
                    ListStage::Uid(i)
                }
            },
            (ListStage::Uid(i), ListReply::AccountUid(uid)) => match uid {
                Some(raw) => if raw > u32::MAX as u64 {
                    Self::open_stage(&accounts, i + 1)
                } else {
                    ListStage::Names(i, raw as u32)
                },
                None => Self::open_stage(&accounts, i + 1),
            },
            (
                ListStage::Names(i, uid),
                ListReply::AccountNames { user_name, real_name, icon_file },
            ) => ListStage::ByUid(
                i,
                Account {
                    uid,
                    user_name: match user_name {
                        Some(name) => name,
                        None => String::new(),
                    },
                    real_name: filled(real_name),
                    icon_file: filled(icon_file),
                },
            ),
            (ListStage::ByUid(i, account), ListReply::User(found)) => match found {
                Some(user) => {
                    Self::add_cached(&filter, &mut users, account, user);
                    Self::open_stage(&accounts, i + 1)
                },
                None => if account.user_name.as_str().is_empty() {
                    Self::open_stage(&accounts, i + 1)
                } else {
                    ListStage::ByName(i, account)
                },
            },
            (ListStage::ByName(i, account), ListReply::User(found)) => {
                match found {
                    Some(user) => {
                        Self::add_cached(&filter, &mut users, account, user);
                    },
                    None => {},
                }
                Self::open_stage(&accounts, i + 1)
            },
            (ListStage::LocalUsers, ListReply::LocalUsers(local)) => {
                Self::add_local(&filter, &mut users, local);
                entries = users.into_entries();
                users = UserMap::new();
                Self::home_stage(&entries, 0)
            },
            (ListStage::Home(k), ListReply::HomeOwner(owner)) => {
                let home_is_users = match owner {
                    Some(uid) => uid == entries[k].user.uid,
                    None => false,
                };
                if home_is_users {
                    ListStage::Load(k)
                } else {
                    datas.push(bare_data(&entries[k]));
                    assert(datas@.drop_last() =~= self.datas@);
                    Self::home_stage(&entries, k + 1)
                }
            },
            (ListStage::Load(k), ListReply::LoadConfig(loaded)) => {
                match loaded {
                    Some(data) => {
                        datas.push(data);
                    },
                    None => {
                        datas.push(bare_data(&entries[k]));
                        assert(datas@.drop_last() =~= self.datas@);
                    },
                }
                Self::home_stage(&entries, k + 1)
            },
            (stage, _) => stage,
        };
        UserListing { filter, accounts, users, entries, datas, stage }
    }

    /// The data collected so far; all of it once nothing is asked for.
    pub fn finish(self) -> (datas: Vec<UserData<D>>)
        ensures
            datas@ == self.datas(),
    {
        self.datas
    }
}

/// Whether `trace` is what a listing goes through while it gets `replies`, each to
/// what it asks for.
pub open spec fn is_list_run<D: Desktop>(
    filter: UserFilter,
    trace: Seq<UserListing<D>>,
    replies: Seq<ListReply<D>>,
) -> bool {
    &&& trace.len() == replies.len() + 1
    &&& trace[0].starts_with(filter)
    &&& forall|k: int| 0 <= k < replies.len() ==> #[trigger] goes_on_at(trace, replies, k)
}

/// Whether the request `k` is answered and the listing goes on with the reply.
pub open spec fn goes_on_at<D: Desktop>(
    trace: Seq<UserListing<D>>,
    replies: Seq<ListReply<D>>,
    k: int,
) -> bool {
    trace[k].is_answered_by(replies[k]) && trace[k].steps_to(replies[k], trace[k + 1])
}

/// Whether the accounts service is still being asked, or has not been.
pub open spec fn is_searching(stage: ListStage) -> bool {
    !(stage is Home || stage is Load || stage is Done)
}

/// Whether users stand under their own names and are all accepted.
pub open spec fn all_accepted(filter: UserFilter, users: Map<Seq<char>, UserEntry>) -> bool {
    forall|name: Seq<char>| #[trigger]
        users.dom().contains(name) ==> users[name].user.name@ == name && filter.accepts_cached(
            users[name].user,
        )
}

/// Local users are accepted ones, and take no one's place.
proof fn lemma_with_local_users(
    m: Map<Seq<char>, UserEntry>,
    filter: UserFilter,
    users: Seq<Passwd>,
)
    ensures
        all_accepted(filter, m) ==> all_accepted(filter, with_local_users(m, filter, users)),
        m.submap_of(with_local_users(m, filter, users)),
        forall|i: int|
            0 <= i < users.len() && filter.accepts_local(#[trigger] users[i]) ==> with_local_users(
                m,
                filter,
                users,
            ).dom().contains(users[i].name@),
        forall|name: Seq<char>| #[trigger]
            with_local_users(m, filter, users).dom().contains(name) && !m.dom().contains(name)
                ==> exists|i: int| is_first_local(filter, users, name, i) && with_local_users(
                m,
                filter,
                users,
            )[name] == (UserEntry { user: users[i], real_name: None, icon_file: None }),
    decreases users.len(),
{
    if users.len() > 0 {
        let init = users.drop_last();
        let before = with_local_users(m, filter, init);
        let after = with_local_users(m, filter, users);
        let user = users.last();
        lemma_with_local_users(m, filter, init);
        assert forall|i: int|
            0 <= i < users.len() && filter.accepts_local(
                #[trigger] users[i],
            ) implies after.dom().contains(users[i].name@) by {
            if i < init.len() {
                assert(init[i] == users[i]);
                assert(before.dom().contains(init[i].name@));
            }
        }
        assert forall|name: Seq<char>| #[trigger]
            after.dom().contains(name) && !m.dom().contains(name) implies exists|i: int|
            is_first_local(filter, users, name, i) && after[name] == (UserEntry {
                user: users[i],
                real_name: None,
                icon_file: None,
            }) by {
            if before.dom().contains(name) {
                let i = choose|i: int|
                    is_first_local(filter, init, name, i) && before[name] == (UserEntry {
                        user: init[i],
                        real_name: None,
                        icon_file: None,
                    });
                assert(init[i] == users[i]);
                assert forall|j: int| 0 <= j < i implies !(filter.accepts_local(
                    #[trigger] users[j],
                ) && users[j].name@ == name) by {
                    assert(init[j] == users[j]);
                }
                assert(is_first_local(filter, users, name, i));
            } else {
                let i = users.len() - 1;
                assert forall|j: int| 0 <= j < i implies !(filter.accepts_local(
                    #[trigger] users[j],
                ) && users[j].name@ == name) by {
                    assert(init[j] == users[j]);
                }
                assert(is_first_local(filter, users, name, i));
            }
        }
    }
}

/// Whether the user `i` is the first accepted one of `users` with this name.
pub open spec fn is_first_local(
    filter: UserFilter,
    users: Seq<Passwd>,
    name: Seq<char>,
    i: int,
) -> bool {
    &&& 0 <= i < users.len()
    &&& filter.accepts_local(users[i])
    &&& users[i].name@ == name
    &&& forall|j: int|
        0 <= j < i ==> !(filter.accepts_local(#[trigger] users[j]) && users[j].name@ == name)
}

/// Whatever the accounts service and the user database say, everyone found passes
/// the filter for users of unknown origin, and stands under their login name; and
/// the users to be shown come in the order of their names, each name once.
pub proof fn law_only_accepted_users_are_listed<D: Desktop>(
    filter: UserFilter,
    trace: Seq<UserListing<D>>,
    replies: Seq<ListReply<D>>,
    k: int,
)
    requires
        is_list_run(filter, trace, replies),
        0 <= k <= replies.len(),
    ensures
        trace[k].filter() == filter,
        all_accepted(filter, trace[k].users()),
        crate::user_map::ascending(trace[k].entries()),
        forall|i: int|
            0 <= i < trace[k].entries().len() ==> filter.accepts_cached(
                (#[trigger] trace[k].entries()[i]).user,
            ),
    decreases k,
{
    if k > 0 {
        law_only_accepted_users_are_listed(filter, trace, replies, k - 1);
        let before = trace[k - 1];
        let after = trace[k];
        assert(goes_on_at(trace, replies, k - 1));
        if before.stage() is LocalUsers {
            let users = replies[k - 1]->LocalUsers_0@;
            lemma_with_local_users(before.users(), filter, users);
            crate::user_map::lemma_by_name(after.entries());
            assert forall|i: int| 0 <= i < after.entries().len() implies filter.accepts_cached(
                (#[trigger] after.entries()[i]).user,
            ) by {
                let name = after.entries()[i].user.name@;
                assert(crate::user_map::by_name(after.entries()).dom().contains(name));
            }
        }
    }
}

/// A user that the accounts service remembers stands before local users of the same
/// name. Of the local users the first accepted one of each other name is added, and
/// nobody else.
pub proof fn law_cached_users_take_precedence<D: Desktop>(
    filter: UserFilter,
    trace: Seq<UserListing<D>>,
    replies: Seq<ListReply<D>>,
    k: int,
)
    requires
        is_list_run(filter, trace, replies),
        0 <= k < replies.len(),
        trace[k].stage() is LocalUsers,
    ensures
        replies[k] matches ListReply::LocalUsers(users) && ({
            let cached = trace[k].users();
            let all = crate::user_map::by_name(trace[k + 1].entries());
            &&& cached.submap_of(all)
            &&& forall|i: int|
                0 <= i < users@.len() && filter.accepts_local(#[trigger] users@[i])
                    ==> all.dom().contains(users@[i].name@)
            &&& forall|name: Seq<char>| #[trigger]
                all.dom().contains(name) && !cached.dom().contains(name) ==> exists|i: int|
                    is_first_local(filter, users@, name, i) && all[name] == (UserEntry {
                        user: users@[i],
                        real_name: None,
                        icon_file: None,
                    })
        }),
{
    assert(goes_on_at(trace, replies, k));
    law_only_accepted_users_are_listed(filter, trace, replies, k);
    lemma_with_local_users(trace[k].users(), filter, replies[k]->LocalUsers_0@);
}

/// Settings are asked for only for a user who was just found to own the home directory.
pub proof fn law_settings_are_read_from_own_home_only<D: Desktop>(
    filter: UserFilter,
    trace: Seq<UserListing<D>>,
    replies: Seq<ListReply<D>>,
    k: int,
)
    requires
        is_list_run(filter, trace, replies),
        0 <= k <= replies.len(),
        trace[k].stage() is Load,
    ensures
        k > 0,
        trace[k - 1].stage() == ListStage::Home(trace[k].stage()->Load_0),
        replies[k - 1] == ListReply::<D>::HomeOwner(
            Some(trace[k].entries()[trace[k].stage()->Load_0 as int].user.uid),
        ),
{
    assert(goes_on_at(trace, replies, k - 1));
}

/// Whether the data that came back with settings is that of the user it was asked for.
pub open spec fn loads_identify<D: Desktop>(
    trace: Seq<UserListing<D>>,
    replies: Seq<ListReply<D>>,
) -> bool {
    forall|k: int|
        0 <= k < replies.len() && (#[trigger] trace[k]).stage() is Load ==> (replies[k] matches
            ListReply::LoadConfig(Some(data)) ==> identifies(
            data,
            trace[k].entries()[trace[k].stage()->Load_0 as int],
        ))
}

/// A load of settings for the data that a listing hands out gives back data that
/// still says who the user is.
pub proof fn law_loaded_data_identifies_the_user<D: Desktop>(
    entry: UserEntry,
    data: UserData<D>,
    icon_file: Option<&str>,
    trace: Seq<crate::config_load::ConfigLoad<D>>,
    replies: Seq<crate::config_load::LoadReply<D>>,
    k: int,
)
    requires
        identifies(data, entry),
        crate::config_load::is_config_run(trace, replies),
        trace[0].starts_from(data, icon_file),
        0 <= k <= replies.len(),
    ensures
        identifies(trace[k].data(), entry),
{
    crate::config_load::law_settings_change_at_their_stage_only(
        trace,
        replies,
        crate::config_load::Setting::Icon,
        0,
        k,
    );
}

/// One step keeps those who have been found.
proof fn lemma_step_keeps_found<D: Desktop>(
    before: UserListing<D>,
    reply: ListReply<D>,
    after: UserListing<D>,
)
    requires
        before.is_answered_by(reply),
        before.steps_to(reply, after),
    ensures
        is_searching(after.stage()) ==> is_searching(before.stage())
            && before.users().dom().subset_of(after.users().dom()),
        is_searching(before.stage()) && !is_searching(after.stage())
            ==> before.users().dom().subset_of(crate::user_map::by_name(after.entries()).dom()),
        !is_searching(before.stage()) ==> after.entries() == before.entries(),
{
    if before.stage() is LocalUsers {
        lemma_with_local_users(before.users(), before.filter(), reply->LocalUsers_0@);
    }
}

/// Whoever has been found stays among the users to be shown, if with other data of
/// the same name.
pub proof fn law_found_users_stay<D: Desktop>(
    filter: UserFilter,
    trace: Seq<UserListing<D>>,
    replies: Seq<ListReply<D>>,
    j: int,
    k: int,
)
    requires
        is_list_run(filter, trace, replies),
        0 <= j <= k <= replies.len(),
    ensures
        is_searching(trace[k].stage()) ==> is_searching(trace[j].stage())
            && trace[j].users().dom().subset_of(trace[k].users().dom()),
        is_searching(trace[j].stage()) && !is_searching(trace[k].stage())
            ==> trace[j].users().dom().subset_of(
            crate::user_map::by_name(trace[k].entries()).dom(),
        ),
        !is_searching(trace[j].stage()) ==> trace[k].entries() == trace[j].entries(),
    decreases k,
{
    if j < k {
        law_found_users_stay(filter, trace, replies, j, k - 1);
        assert(goes_on_at(trace, replies, k - 1));
        lemma_step_keeps_found(trace[k - 1], replies[k - 1], trace[k]);
    }
}

/// A user whom the user database knows under the uid of an account that is looked
/// at is found, if accepted, with the name and the icon of the account.
pub proof fn law_accepted_account_is_found<D: Desktop>(
    filter: UserFilter,
    trace: Seq<UserListing<D>>,
    replies: Seq<ListReply<D>>,
    k: int,
    account: Account,
    user: Passwd,
)
    requires
        is_list_run(filter, trace, replies),
        0 <= k < replies.len(),
        (trace[k].stage() matches ListStage::ByUid(_, a) && a == account) || (
        trace[k].stage() matches ListStage::ByName(_, b) && b == account),
        replies[k] == ListReply::<D>::User(Some(user)),
        filter.accepts_cached(user),
    ensures
        trace[k + 1].users().dom().contains(user.name@),
        trace[k + 1].users()[user.name@] == (UserEntry {
            user,
            real_name: account.real_name,
            icon_file: account.icon_file,
        }),
{
    law_only_accepted_users_are_listed(filter, trace, replies, k);
    assert(goes_on_at(trace, replies, k));
}

/// Nothing more is asked about an account of the system or one that is locked.
pub proof fn law_hidden_accounts_are_passed_over<D: Desktop>(
    filter: UserFilter,
    trace: Seq<UserListing<D>>,
    replies: Seq<ListReply<D>>,
    k: int,
)
    requires
        is_list_run(filter, trace, replies),
        0 <= k < replies.len(),
        replies[k] matches ListReply::AccountFlags { system_account, locked } && is_hidden(
            system_account,
            locked,
        ),
    ensures
        trace[k].stage() is Flags,
        trace[k + 1].users() == trace[k].users(),
        trace[k + 1].stage() == trace[k].account_stage(trace[k].stage()->Flags_0 + 1),
{
    assert(goes_on_at(trace, replies, k));
}

/// How many users' data has been collected at a stage.
pub open spec fn collected<D: Desktop>(listing: UserListing<D>) -> int {
    match listing.stage() {
        ListStage::Home(k) => k as int,
        ListStage::Load(k) => k as int,
        ListStage::Done => listing.entries().len() as int,
        _ => 0,
    }
}

/// There is one record for each user, in the order of the login names, and it says
/// who the user is; at the end there is one for everyone.
pub proof fn law_one_record_for_each_user<D: Desktop>(
    filter: UserFilter,
    trace: Seq<UserListing<D>>,
    replies: Seq<ListReply<D>>,
    k: int,
)
    requires
        is_list_run(filter, trace, replies),
        loads_identify(trace, replies),
        0 <= k <= replies.len(),
    ensures
        trace[k].datas().len() == collected(trace[k]),
        collected(trace[k]) <= trace[k].entries().len(),
        forall|i: int|
            0 <= i < trace[k].datas().len() ==> identifies(
                #[trigger] trace[k].datas()[i],
                trace[k].entries()[i],
            ),
        forall|i: int, j: int|
            0 <= i < j < trace[k].datas().len() ==> crate::text::text_lt(
                (#[trigger] trace[k].datas()[i]).name@,
                (#[trigger] trace[k].datas()[j]).name@,
            ),
    decreases k,
{
    law_only_accepted_users_are_listed(filter, trace, replies, k);
    if k > 0 {
        law_one_record_for_each_user(filter, trace, replies, k - 1);
        lemma_positions(filter, trace, replies, k - 1);
        lemma_lengths(trace[k]);
        let before = trace[k - 1];
        let after = trace[k];
        assert(goes_on_at(trace, replies, k - 1));
        assert forall|i: int| 0 <= i < after.datas().len() implies identifies(
            #[trigger] after.datas()[i],
            after.entries()[i],
        ) by {
            if i < before.datas().len() {
                assert(after.datas().len() > before.datas().len() ==> after.datas().drop_last()[i]
                    == after.datas()[i]);
                assert(after.datas()[i] == before.datas()[i]);
                assert(identifies(before.datas()[i], before.entries()[i]));
            }
        }
        assert forall|i: int, j: int| 0 <= i < j < after.datas().len() implies crate::text::text_lt(
            (#[trigger] after.datas()[i]).name@,
            (#[trigger] after.datas()[j]).name@,
        ) by {
            assert(identifies(after.datas()[i], after.entries()[i]));
            assert(identifies(after.datas()[j], after.entries()[j]));
        }
    }
}

/// Accounts and users can be counted.
pub(crate) proof fn lemma_lengths<D: Desktop>(listing: UserListing<D>)
    ensures
        listing.accounts().len() <= usize::MAX,
        listing.entries().len() <= usize::MAX,
{
    assert(listing.accounts.len() == listing.accounts().len());
    assert(listing.entries.len() == listing.entries().len());
}

/// The account or user that a stage is about exists, and no data is collected
/// before all users are known.
pub(crate) proof fn lemma_positions<D: Desktop>(
    filter: UserFilter,
    trace: Seq<UserListing<D>>,
    replies: Seq<ListReply<D>>,
    k: int,
)
    requires
        is_list_run(filter, trace, replies),
        0 <= k <= replies.len(),
    ensures
        ({
            let listing = trace[k];
            match listing.stage() {
                ListStage::CachedUsers => true,
                ListStage::Open(i) => i < listing.accounts().len(),
                ListStage::Flags(i) => i < listing.accounts().len(),
                ListStage::Uid(i) => i < listing.accounts().len(),
                ListStage::Names(i, _) => i < listing.accounts().len(),
                ListStage::ByUid(i, _) => i < listing.accounts().len(),
                ListStage::ByName(i, _) => i < listing.accounts().len(),
                ListStage::LocalUsers => true,
                ListStage::Home(m) => m < listing.entries().len(),
                ListStage::Load(m) => m < listing.entries().len(),
                ListStage::Done => true,
            }
        }),
        is_searching(trace[k].stage()) ==> trace[k].datas().len() == 0,
    decreases k,
{
    lemma_lengths(trace[k]);
    if k > 0 {
        lemma_positions(filter, trace, replies, k - 1);
        assert(goes_on_at(trace, replies, k - 1));
    }
}

/// A listing comes to its end: the number of things it asks for is bounded by the
/// number of accounts and of users.
pub proof fn law_listing_ends<D: Desktop>(
    filter: UserFilter,
    trace: Seq<UserListing<D>>,
    replies: Seq<ListReply<D>>,
    k: int,
)
    requires
        is_list_run(filter, trace, replies),
        0 <= k <= replies.len(),
    ensures
        ({
            let listing = trace[k];
            let n = listing.accounts().len() as int;
            let m = listing.entries().len() as int;
            k <= match listing.stage() {
                ListStage::CachedUsers => 0,
                ListStage::Open(i) => 1 + 6 * i,
                ListStage::Flags(i) => 2 + 6 * i,
                ListStage::Uid(i) => 3 + 6 * i,
                ListStage::Names(i, _) => 4 + 6 * i,
                ListStage::ByUid(i, _) => 5 + 6 * i,
                ListStage::ByName(i, _) => 6 + 6 * i,
                ListStage::LocalUsers => 1 + 6 * n,
                ListStage::Home(i) => 2 + 6 * n + 2 * i,
                ListStage::Load(i) => 3 + 6 * n + 2 * i,
                ListStage::Done => 2 + 6 * n + 2 * m,
            }
        }),
    decreases k,
{
    if k > 0 {
        law_listing_ends(filter, trace, replies, k - 1);
        lemma_positions(filter, trace, replies, k - 1);
        lemma_lengths(trace[k]);
        assert(goes_on_at(trace, replies, k - 1));
    }
}

} // verus!
