//! Which users the greeter offers.

use vstd::prelude::*;

use crate::login_defs::lookup;
use crate::passwd::Passwd;
use crate::path::{file_name_of, same_chars};
use crate::text::{chars_of, parse_u32};

verus! {

/// The uid of the user `nobody`.
pub const NOBODY_UID: u32 = 65534;

/// The lowest uid of a person's account where `/etc/login.defs` names none.
pub const DEFAULT_UID_MIN: u32 = 1000;

/// The highest uid of a local person's account where `/etc/login.defs` names none.
pub const DEFAULT_UID_MAX: u32 = 65000;

/// Tells the accounts of people from those of the system.
#[derive(Clone, Copy, Debug)]
pub struct UserFilter {
    pub uid_min: u32,
    pub uid_max: u32,
}

/// The number that the text of `/etc/login.defs` gives to `name`, or `default`
/// where it gives none that is a `u32`.
pub open spec fn limit(text: Seq<char>, name: Seq<char>, default: u32) -> u32 {
    match crate::login_defs::value_of(text, name) {
        Some(value) => match crate::text::u32_value(value) {
            Some(n) => n,
            None => default,
        },
        None => default,
    }
}

/// Whether a login shell lets its user in: it is not called `false` or `nologin`.
pub open spec fn lets_in(shell: Seq<char>) -> bool {
    &&& crate::path::file_name(shell) != Some("false"@)
    &&& crate::path::file_name(shell) != Some("nologin"@)
}

/// Whether `uid` stands for no one in particular.
pub open spec fn is_reserved(uid: u32) -> bool {
    uid == NOBODY_UID || uid == u32::MAX
}

impl UserFilter {
    /// Whether a user of `/etc/passwd` is offered.
    pub open spec fn accepts_local(self, user: Passwd) -> bool {
        &&& self.uid_min <= user.uid <= self.uid_max
        &&& !is_reserved(user.uid)
        &&& lets_in(user.shell@)
    }

    /// Whether a user that the accounts service remembers is offered.
    pub open spec fn accepts_cached(self, user: Passwd) -> bool {
        &&& self.uid_min <= user.uid
        &&& !is_reserved(user.uid)
        &&& lets_in(user.shell@)
    }

    /// The filter that the text of `/etc/login.defs` describes. `None` stands for
    /// a file that could not be read, and counts as an empty one.
    pub fn new(login_defs: Option<&str>) -> (filter: Self)
        requires
            login_defs matches Some(text) ==> crate::login_defs::is_readable(text@),
        ensures
            filter.uid_min == match login_defs {
                Some(text) => limit(text@, "UID_MIN"@, DEFAULT_UID_MIN),
                None => DEFAULT_UID_MIN,
            },
            filter.uid_max == match login_defs {
                Some(text) => limit(text@, "UID_MAX"@, DEFAULT_UID_MAX),
                None => DEFAULT_UID_MAX,
            },
    {
        match login_defs {
            Some(text) => UserFilter {
                uid_min: Self::limit_of(text, "UID_MIN", DEFAULT_UID_MIN),
                uid_max: Self::limit_of(text, "UID_MAX", DEFAULT_UID_MAX),
            },
            None => UserFilter { uid_min: DEFAULT_UID_MIN, uid_max: DEFAULT_UID_MAX },
        }
    }

    fn limit_of(text: &str, name: &str, default: u32) -> (r: u32)
        requires
            crate::login_defs::is_readable(text@),
        ensures
            r == limit(text@, name@, default),
    {
        match lookup(text, name) {
            Some(value) => match parse_u32(value) {
                Some(n) => n,
                None => default,
            },
            None => default,
        }
    }

    pub fn uid_min(&self) -> (r: u32)
        ensures
            r == self.uid_min,
    {
        self.uid_min
    }

    pub fn uid_max(&self) -> (r: u32)
        ensures
            r == self.uid_max,
    {
        self.uid_max
    }

    /// Whether a login shell lets its user in.
    pub fn has_valid_shell(shell: &str) -> (r: bool)
        ensures
            r == lets_in(shell@),
    {
        match file_name_of(shell) {
            Some(name) => !same_chars(&name, &chars_of("false")) && !same_chars(
                &name,
                &chars_of("nologin"),
            ),
            None => true,
        }
    }

    /// Filter for local enumeration (`/etc/passwd`), within `uid_min..=uid_max`.
    pub fn filter_local(&self, user: &Passwd) -> (r: bool)
        ensures
            r == self.accepts_local(*user),
    {
        if user.uid < self.uid_min || user.uid > self.uid_max || user.uid == NOBODY_UID || user.uid
            == u32::MAX {
            return false;
        }
        Self::has_valid_shell(user.shell.as_str())
    }

    /// Filter for cached and directory service users, whose uids may be mapped
    /// anywhere above `uid_min`.
    pub fn filter_cached(&self, user: &Passwd) -> (r: bool)
        ensures
            r == self.accepts_cached(*user),
    {
        if user.uid < self.uid_min || user.uid == NOBODY_UID || user.uid == u32::MAX {
            return false;
        }
        Self::has_valid_shell(user.shell.as_str())
    }

    /// The filter for users whose origin is not known.
    pub fn filter(&self, user: &Passwd) -> (r: bool)
        ensures
            r == self.accepts_cached(*user),
    {
        self.filter_cached(user)
    }
}

/// Whoever is offered as a local user would also be offered as a cached one.
pub proof fn law_local_implies_cached(filter: UserFilter, user: Passwd)
    requires
        filter.accepts_local(user),
    ensures
        filter.accepts_cached(user),
{
}

/// Being offered as a cached user does not depend on the upper limit.
pub proof fn law_cached_ignores_uid_max(filter: UserFilter, other: UserFilter, user: Passwd)
    requires
        filter.uid_min == other.uid_min,
    ensures
        filter.accepts_cached(user) == other.accepts_cached(user),
{
}

/// Between the limits the two filters agree.
pub proof fn law_filters_agree_within_limits(filter: UserFilter, user: Passwd)
    requires
        user.uid <= filter.uid_max,
    ensures
        filter.accepts_local(user) == filter.accepts_cached(user),
{
}

/// Whatever the limits are, `nobody` and the highest uid are never offered.
pub proof fn law_reserved_uids_are_never_offered(filter: UserFilter, user: Passwd)
    requires
        user.uid == NOBODY_UID || user.uid == u32::MAX,
    ensures
        !filter.accepts_local(user),
        !filter.accepts_cached(user),
{
}

/// Only the last piece of a shell's path counts: a directory in front of it
/// changes nothing.
pub proof fn law_shell_directory_is_ignored(dir: Seq<char>, name: Seq<char>)
    requires
        !name.contains('/'),
        crate::path::is_significant(name),
        name != seq!['.', '.'],
    ensures
        lets_in(dir + seq!['/'] + name) == lets_in(name),
        crate::path::file_name(dir + seq!['/'] + name) == Some(name),
        crate::path::file_name(name) == Some(name),
{
    crate::path::lemma_segments_of_piece(name);
    crate::path::lemma_segments_append(dir, name);
    assert((crate::path::segments(dir) + seq![name]).last() == name);
}

/// Who is offered: everyone whose uid is not below the lower limit, is not that of
/// `nobody` and is not the highest one there is, and whose shell is not called
/// `false` or `nologin`; and as a local user only up to the upper limit.
pub proof fn law_everyone_else_is_offered(filter: UserFilter, user: Passwd)
    ensures
        filter.accepts_cached(user) == (filter.uid_min <= user.uid && user.uid != 65534 && user.uid
            != 4294967295 && crate::path::file_name(user.shell@) != Some("false"@)
            && crate::path::file_name(user.shell@) != Some("nologin"@)),
        filter.accepts_local(user) == (filter.uid_min <= user.uid && user.uid <= filter.uid_max
            && user.uid != 65534 && user.uid != 4294967295 && crate::path::file_name(user.shell@)
            != Some("false"@) && crate::path::file_name(user.shell@) != Some("nologin"@)),
        forall|r: bool|
            #![trigger call_ensures(UserFilter::filter_cached, (&filter, &user), r)]
            call_ensures(UserFilter::filter_cached, (&filter, &user), r) ==> r
                == filter.accepts_cached(user),
        forall|r: bool|
            #![trigger call_ensures(UserFilter::filter, (&filter, &user), r)]
            call_ensures(UserFilter::filter, (&filter, &user), r) ==> r == filter.accepts_cached(
                user,
            ),
        forall|r: bool|
            #![trigger call_ensures(UserFilter::filter_local, (&filter, &user), r)]
            call_ensures(UserFilter::filter_local, (&filter, &user), r) ==> r
                == filter.accepts_local(user),
{
}

/// A shell lets its user in unless its last piece is `false` or `nologin`, letter for
/// letter and whatever comes before it. An empty piece and a `.` at the end of its
/// path count for nothing.
pub proof fn law_shells_are_told_by_their_name(
    shell: &str,
    dir: Option<Seq<char>>,
    name: Seq<char>,
    r: bool,
)
    requires
        call_ensures(UserFilter::has_valid_shell, (shell,), r),
        !name.contains('/'),
        shell@ == match dir {
            Some(dir) => dir + seq!['/'] + name,
            None => name,
        },
    ensures
        name == seq!['f', 'a', 'l', 's', 'e'] ==> !r,
        name == seq!['n', 'o', 'l', 'o', 'g', 'i', 'n'] ==> !r,
        name.len() > 0 && name != seq!['.'] && name != seq!['f', 'a', 'l', 's', 'e'] && name
            != seq!['n', 'o', 'l', 'o', 'g', 'i', 'n'] ==> r,
        name.len() == 0 || name == seq!['.'] ==> match dir {
            Some(dir) => r == lets_in(dir),
            None => r,
        },
{
    reveal_strlit("false");
    reveal_strlit("nologin");
    assert("false"@ =~= seq!['f', 'a', 'l', 's', 'e']);
    assert("nologin"@ =~= seq!['n', 'o', 'l', 'o', 'g', 'i', 'n']);
    assert(!(seq!['f', 'a', 'l', 's', 'e'] =~= seq!['.', '.']));
    assert("false"@.len() == 5 && "nologin"@.len() == 7);
    match dir {
        Some(dir) => {
            crate::path::law_pieces_stand_between_slashes(name, dir, name);
            let s = crate::path::segments(shell@);
            if crate::path::is_significant(name) {
                assert(s.last() == name);
            } else {
                assert(s =~= crate::path::segments(dir));
            }
        },
        None => {
            crate::path::law_pieces_stand_between_slashes(name, name, name);
        },
    }
}

/// Without a file the limits are the usual ones. With one, a limit is what the file
/// says, if that is a number, and the usual one otherwise; neither limit depends on
/// what is said of the other.
pub proof fn law_limits_come_from_the_file(login_defs: Option<&str>, filter: UserFilter)
    requires
        call_ensures(UserFilter::new, (login_defs,), filter),
    ensures
        login_defs is None ==> filter.uid_min == 1000 && filter.uid_max == 65000,
        login_defs matches Some(text) ==> filter.uid_min == match crate::login_defs::value_of(
            text@,
            "UID_MIN"@,
        ) {
            Some(value) => match crate::text::u32_value(value) {
                Some(n) => n,
                None => 1000,
            },
            None => 1000,
        } && filter.uid_max == match crate::login_defs::value_of(text@, "UID_MAX"@) {
            Some(value) => match crate::text::u32_value(value) {
                Some(n) => n,
                None => 65000,
            },
            None => 65000,
        },
        forall|r: u32|
            #![trigger call_ensures(UserFilter::uid_min, (&filter,), r)]
            call_ensures(UserFilter::uid_min, (&filter,), r) ==> r == filter.uid_min,
        forall|r: u32|
            #![trigger call_ensures(UserFilter::uid_max, (&filter,), r)]
            call_ensures(UserFilter::uid_max, (&filter,), r) ==> r == filter.uid_max,
{
}

} // verus!
