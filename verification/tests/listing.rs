use cosmic_greeter_daemon::user_list::{bare_data, get_user_data};
use cosmic_greeter_daemon::user_map::{UserEntry, UserMap};
use cosmic_greeter_daemon::{Desktop, ListReply, ListRequest, Passwd, UserData, UserFilter, UserListing};

struct Plain;

impl Desktop for Plain {
    type Theme = ();
    type ThemeBuilder = ();
    type Color = ();
    type XkbConfig = ();
    type ZoomConfig = ();
    type TimeAppletConfig = ();
}

fn user(uid: u32, name: &str) -> Passwd {
    Passwd {
        name: name.to_string(),
        passwd: None,
        uid,
        gid: uid,
        gecos: Some(format!("{name} of gecos,x")),
        dir: format!("/home/{name}"),
        shell: "/bin/sh".to_string(),
    }
}

fn show(listing: &UserListing<Plain>) -> String {
    match listing.request() {
        Some(ListRequest::CachedUsers) => "cached".to_string(),
        Some(ListRequest::OpenAccount(path)) => format!("open {path}"),
        Some(ListRequest::AccountFlags) => "flags".to_string(),
        Some(ListRequest::AccountUid) => "uid".to_string(),
        Some(ListRequest::AccountNames) => "names".to_string(),
        Some(ListRequest::UserByUid(uid)) => format!("by uid {uid}"),
        Some(ListRequest::UserByName(name)) => format!("by name {name}"),
        Some(ListRequest::LocalUsers) => "local".to_string(),
        Some(ListRequest::HomeOwner { name, dir }) => format!("owner {dir} of {name}"),
        Some(ListRequest::LoadConfig {
            user,
            data,
            icon_file,
        }) => {
            format!("load {} {} {:?}", user.name, data.full_name, icon_file)
        }
        None => "done".to_string(),
    }
}

fn start(paths: &[&str]) -> UserListing<Plain> {
    let filter = UserFilter {
        uid_min: 1000,
        uid_max: 60000,
    };
    let listing = get_user_data(filter);
    assert_eq!(show(&listing), "cached");
    listing.step(ListReply::CachedUsers(Some(
        paths.iter().map(|s| s.to_string()).collect(),
    )))
}

fn flags(system_account: Option<bool>, locked: Option<bool>) -> ListReply<Plain> {
    ListReply::AccountFlags {
        system_account,
        locked,
    }
}

fn names(user: Option<&str>, real: Option<&str>, icon: Option<&str>) -> ListReply<Plain> {
    ListReply::AccountNames {
        user_name: user.map(|s| s.to_string()),
        real_name: real.map(|s| s.to_string()),
        icon_file: icon.map(|s| s.to_string()),
    }
}

/// Takes an account up to the request for the user database.
fn described(listing: UserListing<Plain>, uid: u64, reply: ListReply<Plain>) -> UserListing<Plain> {
    listing
        .step(ListReply::OpenAccount(true))
        .step(flags(None, Some(false)))
        .step(ListReply::AccountUid(Some(uid)))
        .step(reply)
}

#[test]
fn cached_and_local_users_are_merged() {
    let listing = start(&["/u/1", "/u/2"]);
    assert_eq!(show(&listing), "open /u/1");
    let listing = listing.step(ListReply::OpenAccount(true));
    assert_eq!(show(&listing), "flags");
    let listing = listing.step(flags(Some(false), None));
    assert_eq!(show(&listing), "uid");
    let listing = listing.step(ListReply::AccountUid(Some(200004)));
    assert_eq!(show(&listing), "names");
    let listing = listing.step(names(Some("zed"), Some("Zed Z."), Some("/i/zed")));
    assert_eq!(show(&listing), "by uid 200004");
    let listing = listing.step(ListReply::User(Some(user(200004, "zed"))));
    assert_eq!(show(&listing), "open /u/2");
    let listing = described(listing, 1001, names(Some("bob"), Some(""), Some("")));
    let listing = listing.step(ListReply::User(None));
    assert_eq!(show(&listing), "by name bob");
    let listing = listing.step(ListReply::User(Some(user(1001, "bob"))));
    assert_eq!(show(&listing), "local");
    let listing = listing.step(ListReply::LocalUsers(vec![
        user(1002, "zed"),
        user(0, "root"),
        user(200005, "high"),
        user(1003, "amy"),
        user(1004, "amy"),
    ]));
    assert_eq!(show(&listing), "owner /home/amy of amy");
    let listing = listing.step(ListReply::HomeOwner(None));
    assert_eq!(show(&listing), "owner /home/bob of bob");
    let listing = listing.step(ListReply::HomeOwner(Some(0)));
    assert_eq!(show(&listing), "owner /home/zed of zed");
    let listing = listing.step(ListReply::HomeOwner(Some(200004)));
    assert_eq!(show(&listing), "load zed Zed Z. Some(\"/i/zed\")");
    let mut loaded: UserData<Plain> = UserData::from(user(200004, "zed"));
    loaded.icon_opt = Some(vec![1]);
    let listing = listing.step(ListReply::LoadConfig(Some(loaded)));
    assert_eq!(show(&listing), "done");
    let datas = listing.finish();
    let found: Vec<(u32, &str, &str)> = datas
        .iter()
        .map(|d| (d.uid, d.name.as_str(), d.full_name.as_str()))
        .collect();
    assert_eq!(
        found,
        [
            (1003, "amy", "amy of gecos"),
            (1001, "bob", "bob of gecos"),
            (200004, "zed", "zed of gecos"),
        ]
    );
    assert_eq!(datas[2].icon_opt, Some(vec![1]));
}

#[test]
fn accounts_that_are_passed_over() {
    for reply in [flags(Some(true), Some(false)), flags(None, Some(true))] {
        let listing = start(&["/u/1"])
            .step(ListReply::OpenAccount(true))
            .step(reply);
        assert_eq!(show(&listing), "local");
    }
    let listing = start(&["/u/1"]).step(ListReply::OpenAccount(false));
    assert_eq!(show(&listing), "local");
    for uid in [None, Some(4294967296)] {
        let listing = start(&["/u/1"])
            .step(ListReply::OpenAccount(true))
            .step(flags(None, None))
            .step(ListReply::AccountUid(uid));
        assert_eq!(show(&listing), "local");
    }
    let listing = start(&["/u/1"])
        .step(ListReply::OpenAccount(true))
        .step(flags(None, None))
        .step(ListReply::AccountUid(Some(4294967295)));
    assert_eq!(show(&listing), "names");
}

#[test]
fn users_that_are_not_found() {
    let listing = described(start(&["/u/1"]), 1000, names(None, None, None));
    assert_eq!(show(&listing.step(ListReply::User(None))), "local");
    let listing = described(start(&["/u/1"]), 1000, names(Some("ann"), None, None));
    let listing = listing.step(ListReply::User(None));
    assert_eq!(show(&listing), "by name ann");
    let listing = listing.step(ListReply::User(None));
    assert_eq!(show(&listing), "local");
    let listing = listing.step(ListReply::LocalUsers(vec![]));
    assert_eq!(show(&listing), "done");
    assert!(listing.finish().is_empty());
}

#[test]
fn a_refused_user_is_not_looked_up_again() {
    let listing = described(start(&["/u/1"]), 5, names(Some("ann"), None, None));
    let listing = listing.step(ListReply::User(Some(user(5, "ann"))));
    assert_eq!(show(&listing), "local");
    let listing = listing.step(ListReply::LocalUsers(vec![]));
    assert_eq!(show(&listing), "done");
}

#[test]
fn no_accounts_service() {
    let filter = UserFilter {
        uid_min: 1000,
        uid_max: 60000,
    };
    let listing: UserListing<Plain> = get_user_data(filter);
    let listing = listing.step(ListReply::CachedUsers(None));
    assert_eq!(show(&listing), "local");
    let listing = listing.step(ListReply::LocalUsers(vec![user(1000, "ann")]));
    let listing = listing.step(ListReply::HomeOwner(Some(1000)));
    assert_eq!(show(&listing), "load ann ann of gecos None");
    let listing = listing.step(ListReply::LoadConfig(None));
    let datas = listing.finish();
    assert_eq!(datas.len(), 1);
    assert_eq!(datas[0].name, "ann");
    assert!(datas[0].icon_opt.is_none());
}

#[test]
fn a_later_account_replaces_an_earlier_one() {
    let listing = described(start(&["/u/1", "/u/2"]), 1000, names(None, Some("A"), None));
    let listing = listing.step(ListReply::User(Some(user(1000, "ann"))));
    let listing = described(listing, 1001, names(None, Some("B"), None));
    let listing = listing
        .step(ListReply::User(Some(user(1001, "ann"))))
        .step(ListReply::LocalUsers(vec![user(1002, "ann")]))
        .step(ListReply::HomeOwner(None));
    let datas = listing.finish();
    assert_eq!(datas.len(), 1);
    assert_eq!(datas[0].uid, 1001);
    assert_eq!(datas[0].full_name, "B");
}

#[test]
fn other_replies_do_nothing() {
    let listing = start(&["/u/1"]).step(ListReply::HomeOwner(Some(0)));
    assert_eq!(show(&listing), "open /u/1");
}

#[test]
fn users_come_in_the_order_of_their_names() {
    let entry = |uid: u32, name: &str| UserEntry {
        user: user(uid, name),
        real_name: None,
        icon_file: None,
    };
    let mut map = UserMap::new();
    for (uid, name) in [(1, "m"), (2, "z"), (3, "a"), (4, "m"), (5, "")] {
        map.insert(entry(uid, name));
    }
    map.insert_if_absent(entry(6, "a"));
    map.insert_if_absent(entry(7, "b"));
    let found: Vec<u32> = map.into_entries().iter().map(|e| e.user.uid).collect();
    assert_eq!(found, [5, 3, 7, 4, 2]);
}

#[test]
fn data_without_settings() {
    let entry = UserEntry {
        user: user(7, "ann"),
        real_name: Some("Ann".to_string()),
        icon_file: Some("/i".to_string()),
    };
    let data: UserData<Plain> = bare_data(&entry);
    assert_eq!(data.uid, 7);
    assert_eq!(data.full_name, "Ann");
    assert!(data.icon_opt.is_none());
}
