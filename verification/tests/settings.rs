use cosmic_greeter_daemon::{
    BgSource, BgState, ConfigLoad, ConfigRead, Desktop, LoadReply, LoadRequest, Passwd, PathMap,
    UserData,
};

#[derive(Clone, Debug)]
struct Plain;

impl Desktop for Plain {
    type Theme = String;
    type ThemeBuilder = u8;
    type Color = (u8, u8, u8);
    type XkbConfig = String;
    type ZoomConfig = u32;
    type TimeAppletConfig = bool;
}

fn user(name: &str, gecos: Option<&str>) -> Passwd {
    Passwd {
        name: name.to_string(),
        passwd: None,
        uid: 1000,
        gid: 100,
        gecos: gecos.map(|s| s.to_string()),
        dir: "/home/x".to_string(),
        shell: "/bin/sh".to_string(),
    }
}

fn data() -> UserData<Plain> {
    UserData::from(user("ann", None))
}

fn paths(list: &[&str]) -> BgState<(u8, u8, u8)> {
    BgState {
        wallpapers: list
            .iter()
            .map(|p| ("all".to_string(), BgSource::Path(p.to_string())))
            .collect(),
    }
}

#[test]
fn names_from_the_user_database() {
    for (gecos, full_name) in [
        (None, "ann"),
        (Some(""), "ann"),
        (Some(",,,"), "ann"),
        (Some("Ann Lee"), "Ann Lee"),
        (Some("Ann Lee,Room 1,,"), "Ann Lee"),
    ] {
        let data: UserData<Plain> = UserData::from(user("ann", gecos));
        assert_eq!(data.uid, 1000);
        assert_eq!(data.name, "ann");
        assert_eq!(data.full_name, full_name);
        assert!(data.icon_opt.is_none());
        assert!(data.theme_opt.is_none());
        assert!(data.theme_builder_opt.is_none());
        assert!(data.bg_state.wallpapers.is_empty());
        assert!(data.bg_path_data.entries().is_empty());
        assert!(data.xkb_config_opt.is_none());
        assert!(!data.time_applet_config);
        assert_eq!(data.accessibility_zoom, 0);
        assert!(data.kdl_output_lists.is_empty());
    }
}

#[test]
fn default_data_is_empty() {
    let data: UserData<Plain> = UserData::default();
    assert_eq!(data.uid, 0);
    assert_eq!(data.name, "");
    assert_eq!(data.full_name, "");
    let state: BgState<u8> = BgState::default();
    assert!(state.wallpapers.is_empty());
}

#[test]
fn wallpapers_are_read_once_and_kept() {
    let mut data = data();
    data.bg_path_data = PathMap::new();
    data.bg_path_data.insert("/old".to_string(), vec![9]);
    data.bg_path_data.insert("/kept".to_string(), vec![8]);
    data.bg_state = paths(&["/kept/", "/a", "/a//", "/b", "/b"]);
    data.bg_state
        .wallpapers
        .push(("x".to_string(), BgSource::Color((1, 2, 3))));
    let load = data.load_wallpapers_as_user();
    assert_eq!(load.request(), Some(&"/a".to_string()));
    let load = load.step(Some(vec![1]));
    assert_eq!(load.request(), Some(&"/b".to_string()));
    let load = load.step(None);
    assert_eq!(load.request(), Some(&"/b".to_string()));
    let load = load.step(None);
    assert_eq!(load.request(), None);
    let data = load.step(Some(vec![7])).finish();
    assert_eq!(data.bg_path_data.get("/kept"), Some(&vec![8]));
    assert_eq!(data.bg_path_data.get("/a"), Some(&vec![1]));
    assert_eq!(data.bg_path_data.entries().len(), 2);
    assert_eq!(data.name, "ann");
}

#[test]
fn a_second_read_may_succeed() {
    let mut data = data();
    data.bg_state = paths(&["/b", "/b"]);
    let load = data.load_wallpapers_as_user().step(None).step(Some(vec![5]));
    assert_eq!(load.request(), None);
    assert_eq!(load.finish().bg_path_data.get("/b"), Some(&vec![5]));
}

fn expect(load: &ConfigLoad<Plain>, request: &str) {
    assert_eq!(format!("{:?}", load.request()), request);
}

#[test]
fn all_settings_are_collected() {
    let load = data().load_config_as_user_with_icon(Some("/icons/ann.png"));
    expect(&load, "Some(IsFile(\"/icons/ann.png\"))");
    let load = load.step(LoadReply::IsFile(true));
    expect(&load, "Some(Icon(\"/icons/ann.png\"))");
    let load = load.step(LoadReply::Icon(Some(vec![1, 2])));
    expect(&load, "Some(ThemeMode)");
    let load = load.step(LoadReply::ThemeMode(ConfigRead::Complete(false)));
    expect(&load, "Some(Theme { is_dark: false })");
    let load = load.step(LoadReply::Theme(ConfigRead::Partial("light".to_string())));
    expect(&load, "Some(ThemeBuilder { is_dark: false })");
    let load = load.step(LoadReply::ThemeBuilder(ConfigRead::Complete(4)));
    expect(&load, "Some(Background)");
    let load = load.step(LoadReply::Background(ConfigRead::Partial(paths(&[
        "/w/1", "/w/2",
    ]))));
    expect(&load, "Some(Wallpaper(\"/w/1\"))");
    let load = load.step(LoadReply::Wallpaper(Some(vec![3])));
    expect(&load, "Some(Wallpaper(\"/w/2\"))");
    let load = load.step(LoadReply::Wallpaper(None));
    expect(&load, "Some(Compositor)");
    let load = load.step(LoadReply::Compositor(ConfigRead::Partial((
        "de".to_string(),
        7,
    ))));
    expect(&load, "Some(Outputs(\"cosmic-comp/outputs.ron\"))");
    let mut document = kdl::KdlDocument::new();
    document.nodes_mut().push(kdl::KdlNode::new("output"));
    let text = document.to_string();
    let load = load.step(LoadReply::Outputs(Some(vec![document])));
    expect(&load, "Some(TimeApplet)");
    let load = load.step(LoadReply::TimeApplet(ConfigRead::Complete(true)));
    assert!(load.request().is_none());
    let data = load.finish();
    assert_eq!(data.name, "ann");
    assert_eq!(data.icon_opt, Some(vec![1, 2]));
    assert_eq!(data.theme_opt.as_deref(), Some("light"));
    assert_eq!(data.theme_builder_opt, Some(4));
    assert_eq!(data.bg_state.wallpapers.len(), 2);
    assert_eq!(data.bg_path_data.get("/w/1"), Some(&vec![3]));
    assert!(!data.bg_path_data.contains("/w/2"));
    assert_eq!(data.xkb_config_opt.as_deref(), Some("de"));
    assert_eq!(data.accessibility_zoom, 7);
    assert!(text.starts_with("output"));
    assert_eq!(data.kdl_output_lists, vec![text]);
    assert!(data.time_applet_config);
}

#[test]
fn settings_that_are_nowhere_are_reset() {
    let mut before = data();
    before.icon_opt = Some(vec![1]);
    before.theme_opt = Some("t".to_string());
    before.theme_builder_opt = Some(1);
    before.bg_state = paths(&["/w"]);
    before.bg_path_data.insert("/w".to_string(), vec![1]);
    before.xkb_config_opt = Some("x".to_string());
    before.time_applet_config = true;
    before.accessibility_zoom = 6;
    before.kdl_output_lists = vec!["k".to_string()];
    let load = before.load_config_as_user();
    expect(&load, "Some(Icon(\"/var/lib/AccountsService/icons/ann\"))");
    let load = load.step(LoadReply::Icon(None));
    let load = load.step(LoadReply::ThemeMode(ConfigRead::Unavailable));
    expect(&load, "Some(Theme { is_dark: true })");
    let load = load.step(LoadReply::Theme(ConfigRead::Unavailable));
    expect(&load, "Some(ThemeBuilder { is_dark: true })");
    let load = load.step(LoadReply::ThemeBuilder(ConfigRead::Unavailable));
    let load = load.step(LoadReply::Background(ConfigRead::Unavailable));
    expect(&load, "Some(Compositor)");
    let load = load.step(LoadReply::Compositor(ConfigRead::Unavailable));
    let load = load.step(LoadReply::Outputs(None));
    let load = load.step(LoadReply::TimeApplet(ConfigRead::Unavailable));
    assert!(load.request().is_none());
    let after = load.finish();
    assert!(after.icon_opt.is_none());
    assert!(after.theme_opt.is_none());
    assert!(after.theme_builder_opt.is_none());
    assert!(after.bg_state.wallpapers.is_empty());
    assert!(after.bg_path_data.entries().is_empty());
    assert!(after.xkb_config_opt.is_none());
    assert!(!after.time_applet_config);
    assert_eq!(after.accessibility_zoom, 6);
    assert!(after.kdl_output_lists.is_empty());
}

#[test]
fn icons_fall_back() {
    let start = || data().load_config_as_user_with_icon(Some("/i"));
    let load = start().step(LoadReply::IsFile(false));
    expect(&load, "Some(Icon(\"/var/lib/AccountsService/icons/ann\"))");
    let load = start()
        .step(LoadReply::IsFile(true))
        .step(LoadReply::Icon(None));
    expect(&load, "Some(Icon(\"/var/lib/AccountsService/icons/ann\"))");
    let load = load.step(LoadReply::Icon(Some(vec![6])));
    expect(&load, "Some(ThemeMode)");
    assert_eq!(load.finish().icon_opt, Some(vec![6]));
}

#[test]
fn an_absolute_name_is_its_own_icon_path() {
    let data: UserData<Plain> = UserData::from(user("/etc/x", None));
    match data.load_config_as_user().request() {
        Some(LoadRequest::Icon(path)) => assert_eq!(path, "/etc/x"),
        other => panic!("{other:?}"),
    }
}

#[test]
fn other_replies_are_passed_over() {
    let load = data().load_config_as_user();
    let load = load.step(LoadReply::TimeApplet(ConfigRead::Complete(true)));
    expect(&load, "Some(Icon(\"/var/lib/AccountsService/icons/ann\"))");
    assert!(!load.finish().time_applet_config);
}

#[test]
fn values_of_reads() {
    assert_eq!(ConfigRead::<u8>::Unavailable.into_value(), None);
    assert_eq!(ConfigRead::Complete(1).into_value(), Some(1));
    assert_eq!(ConfigRead::Partial(2).into_value(), Some(2));
}

fn answer(mut load: ConfigLoad<Plain>) -> UserData<Plain> {
    while let Some(request) = load.request() {
        let reply = match request {
            LoadRequest::IsFile(path) => LoadReply::IsFile(path == "/i"),
            LoadRequest::Icon(path) => LoadReply::Icon(Some(path.into_bytes())),
            LoadRequest::ThemeMode => LoadReply::ThemeMode(ConfigRead::Complete(false)),
            LoadRequest::Theme { is_dark } => {
                LoadReply::Theme(ConfigRead::Complete(format!("dark {is_dark}")))
            }
            LoadRequest::ThemeBuilder { .. } => LoadReply::ThemeBuilder(ConfigRead::Unavailable),
            LoadRequest::Background => {
                LoadReply::Background(ConfigRead::Partial(paths(&["/w/1", "/w/2", "/w/2"])))
            }
            LoadRequest::Wallpaper(path) => {
                LoadReply::Wallpaper(if path == "/w/1" { Some(vec![4]) } else { None })
            }
            LoadRequest::Compositor => LoadReply::Compositor(ConfigRead::Unavailable),
            LoadRequest::Outputs(_) => LoadReply::Outputs(Some(vec![kdl::KdlDocument::new()])),
            LoadRequest::TimeApplet => LoadReply::TimeApplet(ConfigRead::Unavailable),
        };
        load = load.step(reply);
    }
    load.finish()
}

#[test]
fn earlier_settings_do_not_leak() {
    let mut other = data();
    other.uid = 7;
    other.full_name = "Ann".to_string();
    other.icon_opt = Some(vec![1]);
    other.theme_opt = Some("t".to_string());
    other.theme_builder_opt = Some(1);
    other.bg_state = paths(&["/w/2"]);
    other.bg_path_data.insert("/w/2".to_string(), vec![1]);
    other.xkb_config_opt = Some("x".to_string());
    other.time_applet_config = true;
    other.accessibility_zoom = 6;
    other.kdl_output_lists = vec!["k".to_string()];
    let a = answer(data().load_config_as_user_with_icon(Some("/i")));
    let b = answer(other.load_config_as_user_with_icon(Some("/i")));
    assert_eq!(a.icon_opt, Some(b"/i".to_vec()));
    assert_eq!(a.theme_opt.as_deref(), Some("dark false"));
    assert_eq!(a.bg_state.wallpapers.len(), 3);
    assert_eq!(a.icon_opt, b.icon_opt);
    assert_eq!(a.theme_opt, b.theme_opt);
    assert_eq!(a.theme_builder_opt, b.theme_builder_opt);
    assert_eq!(format!("{:?}", a.bg_state), format!("{:?}", b.bg_state));
    assert_eq!(a.xkb_config_opt, b.xkb_config_opt);
    assert_eq!(a.time_applet_config, b.time_applet_config);
    assert_eq!(a.kdl_output_lists, b.kdl_output_lists);
    // What is known of the user, the zoom and the files are not read anew.
    assert_eq!(b.uid, 7);
    assert_eq!(b.full_name, "Ann");
    assert_eq!(b.accessibility_zoom, 6);
    assert!(!a.bg_path_data.contains("/w/2"));
    assert!(b.bg_path_data.contains("/w/2"));
}

#[test]
fn no_icon_is_as_none() {
    let mut before = data();
    before.bg_path_data.insert("/w//1".to_string(), vec![9]);
    before.accessibility_zoom = 3;
    let a = answer(before.clone().load_config_as_user());
    let b = answer(before.load_config_as_user_with_icon(None));
    assert_eq!(
        a.icon_opt,
        Some(b"/var/lib/AccountsService/icons/ann".to_vec())
    );
    assert_eq!(a.bg_path_data.get("/w/1"), Some(&vec![9]));
    assert_eq!(format!("{a:?}"), format!("{b:?}"));
}

#[test]
fn copies_hold_the_same() {
    let data = answer(data().load_config_as_user());
    let copy = data.clone();
    assert_eq!(format!("{data:?}"), format!("{copy:?}"));
    assert_eq!(copy.bg_path_data.get("/w/1"), Some(&vec![4]));
}
