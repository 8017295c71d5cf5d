use cosmic_greeter_daemon::login_defs::readable;
use cosmic_greeter_daemon::{Passwd, UserFilter};

fn create_test_user(uid: u32, name: &str, shell: &str) -> Passwd {
    Passwd {
        name: name.to_string(),
        passwd: Some("x".to_string()),
        uid,
        gid: uid,
        gecos: Some(name.to_string()),
        dir: format!("/home/{name}"),
        shell: shell.to_string(),
    }
}

#[test]
fn test_user_filter() {
    let filter = UserFilter {
        uid_min: 1000,
        uid_max: 60000,
    };

    // Standard local user
    let local_user = create_test_user(1000, "alice", "/bin/bash");
    assert!(filter.filter_local(&local_user));
    assert!(filter.filter_cached(&local_user));

    // System user (< UID_MIN)
    let root_user = create_test_user(0, "root", "/bin/bash");
    assert!(!filter.filter_local(&root_user));
    assert!(!filter.filter_cached(&root_user));

    // Daemon user with nologin shell
    let daemon_user = create_test_user(1001, "daemon_acc", "/usr/sbin/nologin");
    assert!(!filter.filter_local(&daemon_user));
    assert!(!filter.filter_cached(&daemon_user));

    // Nobody account
    let nobody_user = create_test_user(65534, "nobody", "/bin/bash");
    assert!(!filter.filter_local(&nobody_user));
    assert!(!filter.filter_cached(&nobody_user));

    // Active Directory / SSSD enterprise user with high UID (e.g. 200004)
    let ad_user = create_test_user(200004, "corp_ad_user", "/bin/bash");
    assert!(!filter.filter_local(&ad_user)); // exceeds standard local UID_MAX
    assert!(filter.filter_cached(&ad_user)); // allowed for cached AD users
}

#[test]
fn limits_are_inclusive() {
    let filter = UserFilter {
        uid_min: 500,
        uid_max: 700,
    };
    assert!(!filter.filter_local(&create_test_user(499, "a", "/bin/sh")));
    assert!(filter.filter_local(&create_test_user(500, "a", "/bin/sh")));
    assert!(filter.filter_local(&create_test_user(700, "a", "/bin/sh")));
    assert!(!filter.filter_local(&create_test_user(701, "a", "/bin/sh")));
    assert!(filter.filter_cached(&create_test_user(701, "a", "/bin/sh")));
    assert_eq!(filter.uid_min(), 500);
    assert_eq!(filter.uid_max(), 700);
}

#[test]
fn reserved_uids_are_refused_whatever_the_limits() {
    let filter = UserFilter {
        uid_min: 0,
        uid_max: u32::MAX,
    };
    for uid in [65534, u32::MAX] {
        let user = create_test_user(uid, "x", "/bin/sh");
        assert!(!filter.filter_local(&user));
        assert!(!filter.filter_cached(&user));
        assert!(!filter.filter(&user));
    }
    assert!(filter.filter_local(&create_test_user(65533, "x", "/bin/sh")));
    assert!(filter.filter_local(&create_test_user(u32::MAX - 1, "x", "/bin/sh")));
}

#[test]
fn filter_is_the_cached_filter() {
    let filter = UserFilter {
        uid_min: 1000,
        uid_max: 2000,
    };
    for uid in [0, 999, 1000, 2000, 2001, 65534] {
        for shell in ["/bin/sh", "/bin/false", ""] {
            let user = create_test_user(uid, "x", shell);
            assert_eq!(filter.filter(&user), filter.filter_cached(&user));
            assert!(!filter.filter_local(&user) || filter.filter_cached(&user));
        }
    }
}

#[test]
fn shells_that_let_no_one_in() {
    for shell in [
        "false",
        "nologin",
        "/bin/false",
        "/usr/sbin/nologin",
        "/bin/false/",
        "/bin//false/.",
        "./nologin",
        "../nologin/./",
    ] {
        assert!(!UserFilter::has_valid_shell(shell), "{shell}");
    }
    for shell in [
        "",
        "/",
        "/bin/bash",
        "/bin/falsey",
        "/bin/False",
        "/nologin/zsh",
        "/bin/false/..",
        "..",
        ".",
        " false",
    ] {
        assert!(UserFilter::has_valid_shell(shell), "{shell}");
    }
}

#[test]
fn limits_without_a_file() {
    let filter = UserFilter::new(None);
    assert_eq!(filter.uid_min(), 1000);
    assert_eq!(filter.uid_max(), 65000);
    let filter = UserFilter::new(Some(""));
    assert_eq!(filter.uid_min(), 1000);
    assert_eq!(filter.uid_max(), 65000);
}

#[test]
fn limits_from_a_file() {
    let text = "# comment\nMAIL_DIR /var/mail\n\nUID_MIN\t\t\t  1500\r\n  UID_MAX 60000  \n#UID_MAX 7\n";
    assert!(readable(text));
    let filter = UserFilter::new(Some(text));
    assert_eq!(filter.uid_min(), 1500);
    assert_eq!(filter.uid_max(), 60000);
}

#[test]
fn later_lines_count() {
    let filter = UserFilter::new(Some("UID_MIN 1\nUID_MIN 2\nUID_MAX 9\nUID_MAX x"));
    assert_eq!(filter.uid_min(), 2);
    assert_eq!(filter.uid_max(), 65000);
}

#[test]
fn lines_without_a_number() {
    for text in [
        "UID_MIN",
        "UID_MIN   ",
        "UID_MIN -5",
        "UID_MIN 10 20",
        "UID_MIN 4294967296",
        "UID_MIN 0x10",
        "uid_min 5",
        "UID_MIN=5",
        " # UID_MIN 5",
    ] {
        assert!(readable(text));
        assert_eq!(UserFilter::new(Some(text)).uid_min(), 1000, "{text}");
    }
    assert_eq!(UserFilter::new(Some("UID_MIN +5")).uid_min(), 5);
    assert_eq!(
        UserFilter::new(Some("UID_MIN 4294967295")).uid_min(),
        4294967295
    );
    assert_eq!(
        UserFilter::new(Some("UID_MIN \u{3000}7")).uid_min(),
        7
    );
}

#[test]
fn texts_that_cannot_be_read() {
    assert!(readable(""));
    assert!(readable("A\u{a0}B".trim_start_matches('A')));
    assert!(readable("#A\u{a0}B\n"));
    assert!(readable("A \u{a0}B"));
    assert!(readable("A\u{a0}\u{3000}\nB 1"));
    assert!(!readable("A\u{a0}B"));
    assert!(!readable("UID_MIN 5\n\u{3000}A\u{3000}B\n"));
}

#[test]
fn whitespace_is_that_of_unicode() {
    for code in 0..=0x10ffffu32 {
        if let Some(c) = char::from_u32(code) {
            let text = format!("A{c}B");
            let breaks = c.is_whitespace() && !c.is_ascii();
            assert_eq!(readable(&text), !breaks, "{code:x}");
        }
    }
}
