use cosmic_greeter_daemon::run_as_user::run_as_user;
use cosmic_greeter_daemon::{IdentitySwitch, Passwd, SwitchError, SwitchReply};

fn user(name: &str) -> Passwd {
    Passwd {
        name: name.to_string(),
        passwd: None,
        uid: 1000,
        gid: 100,
        gecos: None,
        dir: "/home/ann".to_string(),
        shell: "/bin/sh".to_string(),
    }
}

fn ok() -> SwitchReply {
    SwitchReply::Done(Ok(()))
}

fn refused() -> SwitchReply {
    SwitchReply::Done(Err("EPERM".to_string()))
}

fn expect(switch: &IdentitySwitch, request: &str) {
    assert_eq!(format!("{:?}", switch.request()), request);
}

fn switched(name: &str, home: Option<Vec<u8>>) -> IdentitySwitch {
    let switch = run_as_user(&user(name));
    expect(&switch, "Some(GetHome)");
    let switch = switch.step(SwitchReply::Home(home));
    expect(&switch, "Some(GetGroups)");
    let switch = switch.step(SwitchReply::Groups(Ok(vec![0, 7])));
    expect(&switch, "Some(SetHome(\"/home/ann\"))");
    switch.step(ok())
}

#[test]
fn to_the_user_and_back() {
    let switch = switched("ann", Some(vec![47, 114]));
    expect(&switch, "Some(InitGroups { name: \"ann\", gid: 100 })");
    let switch = switch.step(ok());
    expect(&switch, "Some(SetEgid(100))");
    let switch = switch.step(ok());
    expect(&switch, "Some(SetEuid(1000))");
    let switch = switch.step(ok());
    expect(&switch, "Some(Run)");
    let switch = switch.step(ok());
    expect(&switch, "Some(SetEuid(0))");
    let switch = switch.step(ok());
    expect(&switch, "Some(SetEgid(0))");
    let switch = switch.step(refused());
    expect(&switch, "Some(SetGroups([0, 7]))");
    let switch = switch.step(refused());
    expect(&switch, "Some(RestoreHome(Some([47, 114])))");
    let switch = switch.step(ok());
    expect(&switch, "None");
    assert!(matches!(switch.outcome(), Some(Ok(()))));
}

#[test]
fn an_unset_home_is_unset_again() {
    let mut switch = switched("ann", None);
    for _ in 0..7 {
        switch = switch.step(ok());
    }
    expect(&switch, "Some(RestoreHome(None))");
}

#[test]
fn a_name_with_nul_keeps_no_groups_of_root() {
    let switch = switched("a\0b", None);
    expect(&switch, "Some(SetGroups([100]))");
    expect(&switch.step(ok()), "Some(SetEgid(100))");
}

#[test]
fn refused_groups_keep_no_groups_of_root() {
    let switch = switched("ann", None).step(refused());
    expect(&switch, "Some(SetGroups([100]))");
    expect(&switch.step(ok()), "Some(SetEgid(100))");
}

#[test]
fn groups_that_cannot_be_dropped_end_it() {
    let switch = switched("ann", None).step(refused()).step(refused());
    expect(&switch, "None");
    match switch.outcome() {
        Some(Err(SwitchError::PermissionDenied(error))) => assert_eq!(error, "EPERM"),
        other => panic!("{other:?}"),
    }
}

#[test]
fn unknown_groups_end_it() {
    let switch = run_as_user(&user("ann"))
        .step(SwitchReply::Home(None))
        .step(SwitchReply::Groups(Err("EFAULT".to_string())));
    expect(&switch, "None");
    match switch.outcome() {
        Some(Err(SwitchError::Groups(error))) => assert_eq!(error, "EFAULT"),
        other => panic!("{other:?}"),
    }
}

#[test]
fn a_refused_group_ends_it() {
    let switch = switched("ann", None).step(ok()).step(refused());
    expect(&switch, "None");
    match switch.outcome() {
        Some(Err(SwitchError::PermissionDenied(error))) => assert_eq!(error, "EPERM"),
        other => panic!("{other:?}"),
    }
}

#[test]
fn a_refused_user_sets_the_group_back() {
    let switch = switched("ann", None).step(ok()).step(ok()).step(refused());
    expect(&switch, "Some(SetEgid(0))");
    let switch = switch.step(ok());
    expect(&switch, "None");
    match switch.outcome() {
        Some(Err(SwitchError::PermissionDenied(error))) => assert_eq!(error, "EPERM"),
        other => panic!("{other:?}"),
    }
}

#[test]
fn replies_to_other_calls_are_passed_over() {
    let switch = run_as_user(&user("ann")).step(ok());
    expect(&switch, "Some(GetHome)");
    assert!(switch.outcome().is_none());
}
