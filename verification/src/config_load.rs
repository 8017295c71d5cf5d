//! Collecting a user's settings.
//!
//! What is read, in what order, and what becomes of it is decided here; whoever
//! drives the load does the reading that it asks for.

use vstd::prelude::*;

use crate::outputs::document_texts;
use crate::path::join;
use crate::user_data::{BgSource, BgState, Desktop, UserData};
use crate::wallpaper_load::WallpaperLoad;

verus! {

/// What came of reading a group of settings.
#[derive(Debug)]
pub enum ConfigRead<T> {
    /// There was nothing to read them from.
    Unavailable,
    /// All of them were read.
    Complete(T),
    /// Some could not be read and have their defaults.
    Partial(T),
}

impl<T> ConfigRead<T> {
    /// The settings, as far as there are any.
    pub open spec fn value(self) -> Option<T> {
        match self {
            ConfigRead::Unavailable => None,
            ConfigRead::Complete(value) => Some(value),
            ConfigRead::Partial(value) => Some(value),
        }
    }

    /// The settings, as far as there are any.
    pub fn into_value(self) -> (r: Option<T>)
        ensures
            r == self.value(),
    {
        match self {
            ConfigRead::Unavailable => None,
            ConfigRead::Complete(value) => Some(value),
            ConfigRead::Partial(value) => Some(value),
        }
    }
}

/// Something to be read for a user, with that user's permissions.
#[derive(Debug)]
pub enum LoadRequest {
    /// Whether the path leads to a regular file.
    IsFile(String),
    /// The bytes of an icon. Symbolic links are not to be followed.
    Icon(String),
    /// Whether the user prefers a dark theme.
    ThemeMode,
    /// The dark or the light theme.
    Theme { is_dark: bool },
    /// What the dark or the light theme is built from.
    ThemeBuilder { is_dark: bool },
    /// The backgrounds.
    Background,
    /// The bytes of the file of a background.
    Wallpaper(String),
    /// The settings of the compositor.
    Compositor,
    /// The lists of outputs in the file with this path below the directory for
    /// state, each as a document.
    Outputs(String),
    /// The settings of the clock.
    TimeApplet,
}

/// What came of a request.
pub enum LoadReply<D: Desktop> {
    IsFile(bool),
    /// `None` where the file could not be read.
    Icon(Option<Vec<u8>>),
    ThemeMode(ConfigRead<bool>),
    Theme(ConfigRead<D::Theme>),
    ThemeBuilder(ConfigRead<D::ThemeBuilder>),
    Background(ConfigRead<BgState<D::Color>>),
    /// `None` where the file could not be read.
    Wallpaper(Option<Vec<u8>>),
    Compositor(ConfigRead<(D::XkbConfig, D::ZoomConfig)>),
    /// `None` where there is no directory for state.
    Outputs(Option<Vec<kdl::KdlDocument>>),
    TimeApplet(ConfigRead<D::TimeAppletConfig>),
}

/// Where a load stands: what it asks for next.
#[derive(Debug)]
pub enum LoadStage {
    /// Whether the icon that the accounts service names is a file.
    IconFile(String),
    /// The icon that the accounts service names.
    NamedIcon(String),
    /// The icon in the place where the accounts service keeps them.
    DefaultIcon,
    ThemeMode,
    Theme(bool),
    ThemeBuilder(bool),
    Background,
    /// The file of this background.
    Wallpaper(usize),
    Compositor,
    Outputs,
    TimeApplet,
    Done,
}

/// The path of the icon that the accounts service keeps for a user.
pub open spec fn default_icon_path(name: Seq<char>) -> Seq<char> {
    crate::path::joined("/var/lib/AccountsService/icons"@, name)
}

/// Whether `reply` answers what a load asks for at `stage`.
pub open spec fn answers<D: Desktop>(stage: LoadStage, reply: LoadReply<D>) -> bool {
    match stage {
        LoadStage::IconFile(_) => reply is IsFile,
        LoadStage::NamedIcon(_) => reply is Icon,
        LoadStage::DefaultIcon => reply is Icon,
        LoadStage::ThemeMode => reply is ThemeMode,
        LoadStage::Theme(_) => reply is Theme,
        LoadStage::ThemeBuilder(_) => reply is ThemeBuilder,
        LoadStage::Background => reply is Background,
        LoadStage::Wallpaper(_) => reply is Wallpaper,
        LoadStage::Compositor => reply is Compositor,
        LoadStage::Outputs => reply is Outputs,
        LoadStage::TimeApplet => reply is TimeApplet,
        LoadStage::Done => false,
    }
}

/// The stage at which the file of the background `next` is asked for; the one
/// after all backgrounds where there is none.
pub open spec fn stage_of_wallpaper(next: Option<usize>) -> LoadStage {
    match next {
        Some(i) => LoadStage::Wallpaper(i),
        None => LoadStage::Compositor,
    }
}

fn wallpaper_stage(next: Option<usize>) -> (r: LoadStage)
    ensures
        r == stage_of_wallpaper(next),
{
    match next {
        Some(i) => LoadStage::Wallpaper(i),
        None => LoadStage::Compositor,
    }
}

/// The state of collecting a user's settings.
pub struct ConfigLoad<D: Desktop> {
    data: UserData<D>,
    stage: LoadStage,
}

impl<D: Desktop> UserData<D> {
    /// Starts collecting the settings of a user whose icon the accounts service
    /// does not name.
    pub fn load_config_as_user(self) -> (load: ConfigLoad<D>)
        ensures
            load.starts_from(self, None),
    {
        self.load_config_as_user_with_icon(None)
    }

    /// Starts collecting the settings of a user. `icon_file_opt` is the path of
    /// the icon that the accounts service names.
    pub fn load_config_as_user_with_icon(self, icon_file_opt: Option<&str>) -> (load: ConfigLoad<D>)
        ensures
            load.starts_from(self, icon_file_opt),
    {
        let mut data = self;
        data.icon_opt = None;
        data.theme_opt = None;
        data.theme_builder_opt = None;
        data.bg_state = BgState { wallpapers: Vec::new() };
        data.xkb_config_opt = None;
        data.time_applet_config = D::TimeAppletConfig::default();
        let stage = match icon_file_opt {
            Some(path) => LoadStage::IconFile(path.to_owned()),
            None => LoadStage::DefaultIcon,
        };
        ConfigLoad { data, stage }
    }
}

impl<D: Desktop> ConfigLoad<D> {
    #[verifier::type_invariant]
    spec fn well_formed(self) -> bool {
        self.stage matches LoadStage::Wallpaper(i) ==> i < self.data.bg_state.wallpapers@.len()
            && self.data.lacks_file(i as int)
    }

    /// The user's data so far.
    pub closed spec fn data(self) -> UserData<D> {
        self.data
    }

    /// Where the load stands.
    pub closed spec fn stage(self) -> LoadStage {
        self.stage
    }

    /// Whether this is the start of a load for `data`: nothing is known of the
    /// settings, except for the files of backgrounds, the zoom and the outputs,
    /// which are as they were.
    pub open spec fn starts_from(self, data: UserData<D>, icon_file: Option<&str>) -> bool {
        &&& self.data() == (UserData {
            icon_opt: None,
            theme_opt: None,
            theme_builder_opt: None,
            bg_state: self.data().bg_state,
            xkb_config_opt: None,
            time_applet_config: self.data().time_applet_config,
            ..data
        })
        &&& self.data().bg_state.wallpapers@.len() == 0
        &&& call_ensures(D::TimeAppletConfig::default, (), self.data().time_applet_config)
        &&& match icon_file {
            Some(path) => self.stage() matches LoadStage::IconFile(p) && p@ == path@,
            None => self.stage() == LoadStage::DefaultIcon,
        }
    }

    /// Whether `after` is what becomes of `self` with `reply`.
    pub open spec fn steps_to(self, reply: LoadReply<D>, after: Self) -> bool {
        let data = self.data();
        match (self.stage(), reply) {
            (LoadStage::IconFile(path), LoadReply::IsFile(is_file)) => {
                &&& after.data() == data
                &&& after.stage() == if is_file {
                    LoadStage::NamedIcon(path)
                } else {
                    LoadStage::DefaultIcon
                }
            },
            (LoadStage::NamedIcon(_), LoadReply::Icon(bytes)) => {
                &&& after.data() == (UserData { icon_opt: bytes, ..data })
                &&& after.stage() == if bytes is Some {
                    LoadStage::ThemeMode
                } else {
                    LoadStage::DefaultIcon
                }
            },
            (LoadStage::DefaultIcon, LoadReply::Icon(bytes)) => {
                &&& after.data() == (UserData { icon_opt: bytes, ..data })
                &&& after.stage() == LoadStage::ThemeMode
            },
            (LoadStage::ThemeMode, LoadReply::ThemeMode(read)) => {
                &&& after.data() == data
                &&& after.stage() == match read.value() {
                    Some(is_dark) => LoadStage::Theme(is_dark),
                    None => LoadStage::Theme(true),
                }
            },
            (LoadStage::Theme(is_dark), LoadReply::Theme(read)) => {
                &&& after.data() == (UserData { theme_opt: read.value(), ..data })
                &&& after.stage() == LoadStage::ThemeBuilder(is_dark)
            },
            (LoadStage::ThemeBuilder(_), LoadReply::ThemeBuilder(read)) => {
                &&& after.data() == (UserData { theme_builder_opt: read.value(), ..data })
                &&& after.stage() == LoadStage::Background
            },
            (LoadStage::Background, LoadReply::Background(read)) => {
                let bg_state = match read.value() {
                    Some(bg_state) => bg_state,
                    None => data.bg_state,
                };
                &&& after.data().differs_in_files_only(UserData { bg_state, ..data })
                &&& after.data().bg_path_data@ == data.bg_path_data@.restrict(bg_state.file_keys())
                &&& after.data().bg_path_data.spellings()
                    == data.bg_path_data.spellings().restrict(bg_state.file_keys())
                &&& exists|next: Option<usize>|
                    #[trigger] after.data().is_next_lacking(0, next) && after.stage()
                        == stage_of_wallpaper(next)
            },
            (LoadStage::Wallpaper(i), LoadReply::Wallpaper(read)) => {
                let key = data.bg_state.file_key(i as int)->0;
                &&& after.data().differs_in_files_only(data)
                &&& after.data().bg_path_data@ == match read {
                    Some(bytes) => data.bg_path_data@.insert(key, bytes@),
                    None => data.bg_path_data@,
                }
                &&& after.data().bg_path_data.spellings() == match read {
                    Some(_) => data.bg_path_data.spellings().insert(
                        key,
                        data.bg_state.file_path(i as int)->0,
                    ),
                    None => data.bg_path_data.spellings(),
                }
                &&& exists|next: Option<usize>|
                    #[trigger] after.data().is_next_lacking(i + 1, next) && after.stage()
                        == stage_of_wallpaper(next)
            },
            (LoadStage::Compositor, LoadReply::Compositor(read)) => {
                &&& after.data() == match read.value() {
                    Some((xkb_config, zoom)) => UserData {
                        xkb_config_opt: Some(xkb_config),
                        accessibility_zoom: zoom,
                        ..data
                    },
                    None => data,
                }
                &&& after.stage() == LoadStage::Outputs
            },
            (LoadStage::Outputs, LoadReply::Outputs(documents)) => {
                &&& after.data() == (UserData {
                    kdl_output_lists: after.data().kdl_output_lists,
                    ..data
                })
                &&& match documents {
                    Some(documents) => crate::outputs::are_texts_of(
                        after.data().kdl_output_lists@,
                        documents@,
                    ),
                    None => after.data().kdl_output_lists@.len() == 0,
                }
                &&& after.stage() == LoadStage::TimeApplet
            },
            (LoadStage::TimeApplet, LoadReply::TimeApplet(read)) => {
                &&& after.data() == match read.value() {
                    Some(config) => UserData { time_applet_config: config, ..data },
                    None => data,
                }
                &&& after.stage() == LoadStage::Done
            },
            _ => after == self,
        }
    }

    /// What is to be read next, `None` at the end.
    pub fn request(&self) -> (r: Option<LoadRequest>)
        ensures
            match self.stage() {
                LoadStage::IconFile(path) => r == Some(LoadRequest::IsFile(path)),
                LoadStage::NamedIcon(path) => r == Some(LoadRequest::Icon(path)),
                LoadStage::DefaultIcon => r matches Some(LoadRequest::Icon(path)) && path@
                    == default_icon_path(self.data().name@),
                LoadStage::ThemeMode => r == Some(LoadRequest::ThemeMode),
                LoadStage::Theme(is_dark) => r == Some(LoadRequest::Theme { is_dark }),
                LoadStage::ThemeBuilder(is_dark) => r == Some(
                    LoadRequest::ThemeBuilder { is_dark },
                ),
                LoadStage::Background => r == Some(LoadRequest::Background),
                LoadStage::Wallpaper(i) => r matches Some(LoadRequest::Wallpaper(path))
                    && self.data().bg_state.wallpapers@[i as int].1
                    == BgSource::<D::Color>::Path(path),
                LoadStage::Compositor => r == Some(LoadRequest::Compositor),
                LoadStage::Outputs => r matches Some(LoadRequest::Outputs(path)) && path@
                    == "cosmic-comp/outputs.ron"@,
                LoadStage::TimeApplet => r == Some(LoadRequest::TimeApplet),
                LoadStage::Done => r is None,
            },
    {
        proof {
            use_type_invariant(self);
        }
        match &self.stage {
            LoadStage::IconFile(path) => Some(LoadRequest::IsFile(path.clone())),
            LoadStage::NamedIcon(path) => Some(LoadRequest::Icon(path.clone())),
            LoadStage::DefaultIcon => Some(
                LoadRequest::Icon(join("/var/lib/AccountsService/icons", self.data.name.as_str())),
            ),
            LoadStage::ThemeMode => Some(LoadRequest::ThemeMode),
            LoadStage::Theme(is_dark) => Some(LoadRequest::Theme { is_dark: *is_dark }),
            LoadStage::ThemeBuilder(is_dark) => Some(
                LoadRequest::ThemeBuilder { is_dark: *is_dark },
            ),
            LoadStage::Background => Some(LoadRequest::Background),
            LoadStage::Wallpaper(i) => match &self.data.bg_state.wallpapers[*i].1 {
                BgSource::Path(path) => Some(LoadRequest::Wallpaper(path.clone())),
                BgSource::Color(_) => None,
            },
            LoadStage::Compositor => Some(LoadRequest::Compositor),
            LoadStage::Outputs => Some(LoadRequest::Outputs("cosmic-comp/outputs.ron".to_owned())),
            LoadStage::TimeApplet => Some(LoadRequest::TimeApplet),
            LoadStage::Done => None,
        }
    }

    /// Goes on with the reply to what was asked for. A reply to something else
    /// is passed over.
    pub fn step(self, reply: LoadReply<D>) -> (after: Self)
        ensures
            self.steps_to(reply, after),
    {
        proof {
            use_type_invariant(&self);
        }
        let mut data = self.data;
        let stage = match (self.stage, reply) {
            (LoadStage::IconFile(path), LoadReply::IsFile(is_file)) => if is_file {
                LoadStage::NamedIcon(path)
            } else {
                LoadStage::DefaultIcon
            },
            (LoadStage::NamedIcon(_), LoadReply::Icon(bytes)) => {
                data.icon_opt = bytes;
                if data.icon_opt.is_some() {
                    LoadStage::ThemeMode
                } else {
                    LoadStage::DefaultIcon
                }
            },
            (LoadStage::DefaultIcon, LoadReply::Icon(bytes)) => {
                data.icon_opt = bytes;
                LoadStage::ThemeMode
            },
            (LoadStage::ThemeMode, LoadReply::ThemeMode(read)) => LoadStage::Theme(
                read.into_value().unwrap_or(true),
            ),
            (LoadStage::Theme(is_dark), LoadReply::Theme(read)) => {
                data.theme_opt = read.into_value();
                LoadStage::ThemeBuilder(is_dark)
            },
            (LoadStage::ThemeBuilder(_), LoadReply::ThemeBuilder(read)) => {
                data.theme_builder_opt = read.into_value();
                LoadStage::Background
            },
            (LoadStage::Background, LoadReply::Background(read)) => {
                match read.into_value() {
                    Some(bg_state) => {
                        data.bg_state = bg_state;
                    },
                    None => {},
                }
                let (loaded, next) = data.load_wallpapers_as_user().into_parts();
                data = loaded;
                wallpaper_stage(next)
            },
            (LoadStage::Wallpaper(i), LoadReply::Wallpaper(read)) => {
                let (loaded, next) = WallpaperLoad::resume(data, i).step(read).into_parts();
                data = loaded;
                wallpaper_stage(next)
            },
            (LoadStage::Compositor, LoadReply::Compositor(read)) => {
                match read.into_value() {
                    Some((xkb_config, zoom)) => {
                        data.xkb_config_opt = Some(xkb_config);
                        data.accessibility_zoom = zoom;
                    },
                    None => {},
                }
                LoadStage::Outputs
            },
            (LoadStage::Outputs, LoadReply::Outputs(documents)) => {
                data.kdl_output_lists = match documents {
                    Some(documents) => document_texts(&documents),
                    None => Vec::new(),
                };
                LoadStage::TimeApplet
            },
            (LoadStage::TimeApplet, LoadReply::TimeApplet(read)) => {
                match read.into_value() {
                    Some(config) => {
                        data.time_applet_config = config;
                    },
                    None => {},
                }
                LoadStage::Done
            },
            (stage, _) => stage,
        };
        ConfigLoad { data, stage }
    }

    /// The user's data so far; all of it once nothing is asked for.
    pub fn finish(self) -> (data: UserData<D>)
        ensures
            data == self.data(),
    {
        self.data
    }
}

/// How far a stage is from the end, the files of all backgrounds taken as one.
pub open spec fn distance(stage: LoadStage) -> int {
    match stage {
        LoadStage::IconFile(_) => 11,
        LoadStage::NamedIcon(_) => 10,
        LoadStage::DefaultIcon => 9,
        LoadStage::ThemeMode => 8,
        LoadStage::Theme(_) => 7,
        LoadStage::ThemeBuilder(_) => 6,
        LoadStage::Background => 5,
        LoadStage::Wallpaper(_) => 4,
        LoadStage::Compositor => 3,
        LoadStage::Outputs => 2,
        LoadStage::TimeApplet => 1,
        LoadStage::Done => 0,
    }
}

/// Whether `trace` is what a load goes through while it gets `replies`, each to
/// what it asks for.
pub open spec fn is_config_run<D: Desktop>(
    trace: Seq<ConfigLoad<D>>,
    replies: Seq<LoadReply<D>>,
) -> bool {
    &&& trace.len() == replies.len() + 1
    &&& forall|k: int| 0 <= k < replies.len() ==> #[trigger] goes_on_at(trace, replies, k)
}

/// Whether the request `k` is answered and the load goes on with the reply.
pub open spec fn goes_on_at<D: Desktop>(
    trace: Seq<ConfigLoad<D>>,
    replies: Seq<LoadReply<D>>,
    k: int,
) -> bool {
    answers(trace[k].stage(), replies[k]) && trace[k].steps_to(replies[k], trace[k + 1])
}

/// What a load changes of a user's data.
pub enum Setting {
    Icon,
    Theme,
    ThemeBuilder,
    Background,
    /// The files of backgrounds.
    Files,
    Compositor,
    Outputs,
    TimeApplet,
}

/// Whether two users' data agree in a setting.
pub open spec fn agree_in<D: Desktop>(setting: Setting, a: UserData<D>, b: UserData<D>) -> bool {
    match setting {
        Setting::Icon => a.icon_opt == b.icon_opt,
        Setting::Theme => a.theme_opt == b.theme_opt,
        Setting::ThemeBuilder => a.theme_builder_opt == b.theme_builder_opt,
        Setting::Background => a.bg_state == b.bg_state,
        Setting::Files => a.bg_path_data == b.bg_path_data,
        Setting::Compositor => a.xkb_config_opt == b.xkb_config_opt && a.accessibility_zoom
            == b.accessibility_zoom,
        Setting::Outputs => a.kdl_output_lists == b.kdl_output_lists,
        Setting::TimeApplet => a.time_applet_config == b.time_applet_config,
    }
}

/// Whether a setting may be read at a stage.
pub open spec fn is_read_at(setting: Setting, stage: LoadStage) -> bool {
    match setting {
        Setting::Icon => stage is NamedIcon || stage is DefaultIcon,
        Setting::Theme => stage is Theme,
        Setting::ThemeBuilder => stage is ThemeBuilder,
        Setting::Background => stage is Background,
        Setting::Files => stage is Background || stage is Wallpaper,
        Setting::Compositor => stage is Compositor,
        Setting::Outputs => stage is Outputs,
        Setting::TimeApplet => stage is TimeApplet,
    }
}

/// One step keeps all but the setting that it is about, and leads closer to the end.
pub(crate) proof fn lemma_config_step<D: Desktop>(
    before: ConfigLoad<D>,
    reply: LoadReply<D>,
    after: ConfigLoad<D>,
)
    requires
        before.steps_to(reply, after),
        answers(before.stage(), reply),
    ensures
        distance(after.stage()) < distance(before.stage()) || (before.stage() matches
            LoadStage::Wallpaper(i) && after.stage() matches LoadStage::Wallpaper(j) && i < j
            < before.data().bg_state.wallpapers@.len()),
        after.data().uid == before.data().uid,
        after.data().name == before.data().name,
        after.data().full_name == before.data().full_name,
        forall|setting: Setting|
            !is_read_at(setting, before.stage()) ==> #[trigger] agree_in(
                setting,
                before.data(),
                after.data(),
            ),
{
    if before.stage() is Wallpaper {
        let i = before.stage()->Wallpaper_0;
        let next = choose|next: Option<usize>|
            #[trigger] after.data().is_next_lacking(i + 1, next) && after.stage()
                == stage_of_wallpaper(next);
        assert(after.data().is_next_lacking(i + 1, next));
    }
}

/// Stages never go back.
pub(crate) proof fn lemma_stages_advance<D: Desktop>(
    trace: Seq<ConfigLoad<D>>,
    replies: Seq<LoadReply<D>>,
    i: int,
    j: int,
)
    requires
        is_config_run(trace, replies),
        0 <= i <= j <= replies.len(),
    ensures
        distance(trace[j].stage()) <= distance(trace[i].stage()),
    decreases j,
{
    if i < j {
        lemma_stages_advance(trace, replies, i, j - 1);
        assert(goes_on_at(trace, replies, j - 1));
        lemma_config_step(trace[j - 1], replies[j - 1], trace[j]);
    }
}

/// Who the user is never changes, and a setting changes only at the stages at
/// which it is read.
pub proof fn law_settings_change_at_their_stage_only<D: Desktop>(
    trace: Seq<ConfigLoad<D>>,
    replies: Seq<LoadReply<D>>,
    setting: Setting,
    i: int,
    j: int,
)
    requires
        is_config_run(trace, replies),
        0 <= i <= j <= replies.len(),
    ensures
        trace[j].data().uid == trace[i].data().uid,
        trace[j].data().name == trace[i].data().name,
        trace[j].data().full_name == trace[i].data().full_name,
        (forall|k: int| i <= k < j ==> !is_read_at(setting, (#[trigger] trace[k]).stage()))
            ==> agree_in(setting, trace[i].data(), trace[j].data()),
    decreases j,
{
    if i < j {
        law_settings_change_at_their_stage_only(trace, replies, setting, i, j - 1);
        assert(goes_on_at(trace, replies, j - 1));
        lemma_config_step(trace[j - 1], replies[j - 1], trace[j]);
        assert(is_read_at(setting, trace[j - 1].stage()) || agree_in(
            setting,
            trace[j - 1].data(),
            trace[j].data(),
        ));
    }
}

/// A setting that is read at one stage keeps the value from there to the end, and
/// has the value from the start until there.
proof fn lemma_read_once<D: Desktop>(
    trace: Seq<ConfigLoad<D>>,
    replies: Seq<LoadReply<D>>,
    setting: Setting,
    i: int,
    j: int,
)
    requires
        is_config_run(trace, replies),
        0 <= i < j <= replies.len(),
        is_read_at(setting, trace[i].stage()),
        !(setting is Files),
    ensures
        trace[i].stage() is DefaultIcon || !(trace[i + 1].stage() is DefaultIcon) ==> agree_in(
            setting,
            trace[i + 1].data(),
            trace[j].data(),
        ),
        !(setting is Icon) ==> agree_in(setting, trace[0].data(), trace[i].data()),
{
    assert(goes_on_at(trace, replies, i));
    lemma_config_step(trace[i], replies[i], trace[i + 1]);
    if trace[i].stage() is DefaultIcon || !(trace[i + 1].stage() is DefaultIcon) {
        assert forall|k: int| i + 1 <= k < j implies !is_read_at(
            setting,
            (#[trigger] trace[k]).stage(),
        ) by {
            lemma_stages_advance(trace, replies, i + 1, k);
        }
        law_settings_change_at_their_stage_only(trace, replies, setting, i + 1, j);
    }
    if !(setting is Icon) {
        assert forall|k: int| 0 <= k < i implies !is_read_at(
            setting,
            (#[trigger] trace[k]).stage(),
        ) by {
            assert(goes_on_at(trace, replies, k));
            lemma_config_step(trace[k], replies[k], trace[k + 1]);
            lemma_stages_advance(trace, replies, k + 1, i);
        }
        law_settings_change_at_their_stage_only(trace, replies, setting, 0, i);
    }
}

/// The setting that a reply is about.
pub open spec fn setting_of<D: Desktop>(reply: LoadReply<D>) -> Option<Setting> {
    match reply {
        LoadReply::IsFile(_) => None,
        LoadReply::Icon(_) => Some(Setting::Icon),
        LoadReply::ThemeMode(_) => None,
        LoadReply::Theme(_) => Some(Setting::Theme),
        LoadReply::ThemeBuilder(_) => Some(Setting::ThemeBuilder),
        LoadReply::Background(_) => Some(Setting::Background),
        LoadReply::Wallpaper(_) => Some(Setting::Files),
        LoadReply::Compositor(_) => Some(Setting::Compositor),
        LoadReply::Outputs(_) => Some(Setting::Outputs),
        LoadReply::TimeApplet(_) => Some(Setting::TimeApplet),
    }
}

/// From the reply to its request to the end of a load, each setting is what that
/// reply carried, whether all of it could be read or not. The one exception is an
/// icon that could not be read and for which another one is tried.
pub proof fn law_settings_are_what_was_read<D: Desktop>(
    trace: Seq<ConfigLoad<D>>,
    replies: Seq<LoadReply<D>>,
    i: int,
    j: int,
)
    requires
        is_config_run(trace, replies),
        0 <= i < j <= replies.len(),
    ensures
        ({
            let data = trace[j].data();
            match replies[i] {
                LoadReply::IsFile(_) => true,
                LoadReply::Icon(bytes) => bytes is Some || trace[i].stage() is DefaultIcon
                    ==> data.icon_opt == bytes,
                LoadReply::ThemeMode(_) => true,
                LoadReply::Theme(read) => data.theme_opt == read.value(),
                LoadReply::ThemeBuilder(read) => data.theme_builder_opt == read.value(),
                LoadReply::Background(read) => read.value() matches Some(bg_state)
                    ==> data.bg_state == bg_state,
                LoadReply::Wallpaper(_) => true,
                LoadReply::Compositor(read) => read.value() matches Some((xkb_config, zoom))
                    ==> data.xkb_config_opt == Some(xkb_config) && data.accessibility_zoom == zoom,
                LoadReply::Outputs(documents) => match documents {
                    Some(documents) => crate::outputs::are_texts_of(
                        data.kdl_output_lists@,
                        documents@,
                    ),
                    None => data.kdl_output_lists@.len() == 0,
                },
                LoadReply::TimeApplet(read) => read.value() matches Some(config)
                    ==> data.time_applet_config == config,
            }
        }),
{
    assert(goes_on_at(trace, replies, i));
    match setting_of(replies[i]) {
        Some(setting) => {
            if !(setting is Files) {
                lemma_read_once(trace, replies, setting, i, j);
            }
        },
        None => {},
    }
}

/// Settings that could not be read from anywhere are at the end what they are for
/// a user of whom nothing is known, but for the zoom, which is left alone.
pub proof fn law_unavailable_settings_are_unset<D: Desktop>(
    data: UserData<D>,
    icon_file: Option<&str>,
    trace: Seq<ConfigLoad<D>>,
    replies: Seq<LoadReply<D>>,
    i: int,
    j: int,
)
    requires
        is_config_run(trace, replies),
        trace[0].starts_from(data, icon_file),
        0 <= i < j <= replies.len(),
    ensures
        match replies[i] {
            LoadReply::Theme(ConfigRead::Unavailable) => trace[j].data().theme_opt is None,
            LoadReply::ThemeBuilder(ConfigRead::Unavailable) =>
                trace[j].data().theme_builder_opt is None,
            LoadReply::Background(ConfigRead::Unavailable) =>
                trace[j].data().bg_state.wallpapers@.len() == 0,
            LoadReply::Compositor(ConfigRead::Unavailable) =>
                trace[j].data().xkb_config_opt is None && trace[j].data().accessibility_zoom
                    == data.accessibility_zoom,
            LoadReply::TimeApplet(ConfigRead::Unavailable) => call_ensures(
                D::TimeAppletConfig::default,
                (),
                trace[j].data().time_applet_config,
            ),
            _ => true,
        },
{
    assert(goes_on_at(trace, replies, i));
    match setting_of(replies[i]) {
        Some(setting) => {
            if !(setting is Files) {
                lemma_read_once(trace, replies, setting, i, j);
            }
        },
        None => {},
    }
}

/// How many files of backgrounds a load has asked for at most.
pub open spec fn files_asked_for<D: Desktop>(load: ConfigLoad<D>) -> int {
    match load.stage() {
        LoadStage::Wallpaper(i) => i as int,
        stage => if distance(stage) < distance(LoadStage::Background) {
            load.data().bg_state.wallpapers@.len() as int
        } else {
            0
        },
    }
}

/// A load comes to its end: besides at most one file for each background it asks
/// for a fixed number of things.
pub proof fn law_config_load_ends<D: Desktop>(
    data: UserData<D>,
    icon_file: Option<&str>,
    trace: Seq<ConfigLoad<D>>,
    replies: Seq<LoadReply<D>>,
    k: int,
)
    requires
        is_config_run(trace, replies),
        trace[0].starts_from(data, icon_file),
        0 <= k <= replies.len(),
    ensures
        k + distance(trace[k].stage()) <= distance(trace[0].stage()) + files_asked_for(
            trace[k],
        ),
        files_asked_for(trace[k]) <= trace[k].data().bg_state.wallpapers@.len(),
    decreases k,
{
    if k > 0 {
        law_config_load_ends(data, icon_file, trace, replies, k - 1);
        assert(goes_on_at(trace, replies, k - 1));
        lemma_config_step(trace[k - 1], replies[k - 1], trace[k]);
        if trace[k - 1].stage() is Background {
            let next = choose|next: Option<usize>|
                #[trigger] trace[k].data().is_next_lacking(0, next) && trace[k].stage()
                    == stage_of_wallpaper(next);
            assert(trace[k].data().is_next_lacking(0, next));
        }
    }
}

/// Once the backgrounds are known, only files of theirs are kept.
pub proof fn law_kept_files_belong_to_backgrounds<D: Desktop>(
    data: UserData<D>,
    icon_file: Option<&str>,
    trace: Seq<ConfigLoad<D>>,
    replies: Seq<LoadReply<D>>,
    k: int,
)
    requires
        is_config_run(trace, replies),
        trace[0].starts_from(data, icon_file),
        0 <= k <= replies.len(),
        distance(trace[k].stage()) < distance(LoadStage::Background),
    ensures
        trace[k].data().bg_path_data@.dom().subset_of(trace[k].data().bg_state.file_keys()),
    decreases k,
{
    assert(k > 0);
    let before = trace[k - 1];
    assert(goes_on_at(trace, replies, k - 1));
    lemma_config_step(before, replies[k - 1], trace[k]);
    if distance(before.stage()) <= 4 {
        law_kept_files_belong_to_backgrounds(data, icon_file, trace, replies, k - 1);
        if before.stage() is Wallpaper {
            lemma_wallpaper_stage(data, icon_file, trace, replies, k - 1);
            let i = before.stage()->Wallpaper_0 as int;
            assert(before.data().bg_state.file_key(i) is Some);
            assert(before.data().bg_state.file_keys().contains(
                before.data().bg_state.file_key(i)->0,
            ));
        }
    }
}

/// A file is asked for only for a background that is made from one that is not kept.
pub(crate) proof fn lemma_wallpaper_stage<D: Desktop>(
    data: UserData<D>,
    icon_file: Option<&str>,
    trace: Seq<ConfigLoad<D>>,
    replies: Seq<LoadReply<D>>,
    k: int,
)
    requires
        is_config_run(trace, replies),
        trace[0].starts_from(data, icon_file),
        0 <= k <= replies.len(),
        trace[k].stage() is Wallpaper,
    ensures
        ({
            let i = trace[k].stage()->Wallpaper_0 as int;
            i < trace[k].data().bg_state.wallpapers@.len() && trace[k].data().lacks_file(i)
        }),
{
    assert(k > 0);
    let before = trace[k - 1];
    assert(goes_on_at(trace, replies, k - 1));
    let after = trace[k].data();
    match before.stage() {
        LoadStage::Background => {
            let next = choose|next: Option<usize>|
                #[trigger] after.is_next_lacking(0, next) && trace[k].stage()
                    == stage_of_wallpaper(next);
            assert(after.is_next_lacking(0, next));
        },
        LoadStage::Wallpaper(i) => {
            let next = choose|next: Option<usize>|
                #[trigger] after.is_next_lacking(i + 1, next) && trace[k].stage()
                    == stage_of_wallpaper(next);
            assert(after.is_next_lacking(i + 1, next));
        },
        _ => {},
    }
}

/// Files of backgrounds that are kept once the backgrounds are known stay as they are.
pub proof fn law_kept_files_stay<D: Desktop>(
    data: UserData<D>,
    icon_file: Option<&str>,
    trace: Seq<ConfigLoad<D>>,
    replies: Seq<LoadReply<D>>,
    i: int,
    j: int,
)
    requires
        is_config_run(trace, replies),
        trace[0].starts_from(data, icon_file),
        0 <= i <= j <= replies.len(),
        distance(trace[i].stage()) < distance(LoadStage::Background),
    ensures
        trace[j].data().bg_state == trace[i].data().bg_state,
        trace[i].data().bg_path_data@.submap_of(trace[j].data().bg_path_data@),
    decreases j,
{
    if i < j {
        law_kept_files_stay(data, icon_file, trace, replies, i, j - 1);
        lemma_stages_advance(trace, replies, i, j - 1);
        let before = trace[j - 1];
        assert(goes_on_at(trace, replies, j - 1));
        lemma_config_step(before, replies[j - 1], trace[j]);
        if before.stage() is Wallpaper {
            lemma_wallpaper_stage(data, icon_file, trace, replies, j - 1);
            let key = before.data().bg_state.file_key(before.stage()->Wallpaper_0 as int)->0;
            assert(!before.data().bg_path_data@.dom().contains(key));
        } else {
            assert(agree_in(Setting::Files, before.data(), trace[j].data()));
        }
        let (a, b, c) = (
            trace[i].data().bg_path_data@,
            before.data().bg_path_data@,
            trace[j].data().bg_path_data@,
        );
        assert(b.submap_of(c));
        assert(a.submap_of(c)) by {
            assert forall|k: crate::path::PathKey| #[trigger]
                a.dom().contains(k) implies c.dom().contains(k) && a[k] == c[k] by {
                assert(b.dom().contains(k));
            }
        }
        assert(agree_in(Setting::Background, before.data(), trace[j].data()));
    }
}

/// What was read of the file of a background is kept to the end.
pub proof fn law_read_wallpapers_are_kept<D: Desktop>(
    data: UserData<D>,
    icon_file: Option<&str>,
    trace: Seq<ConfigLoad<D>>,
    replies: Seq<LoadReply<D>>,
    i: int,
    j: int,
)
    requires
        is_config_run(trace, replies),
        trace[0].starts_from(data, icon_file),
        0 <= i < j <= replies.len(),
        replies[i] matches LoadReply::Wallpaper(Some(_)),
    ensures
        trace[i].stage() is Wallpaper,
        ({
            let key = trace[j].data().bg_state.file_key(trace[i].stage()->Wallpaper_0 as int)->0;
            &&& trace[j].data().bg_path_data@.dom().contains(key)
            &&& trace[j].data().bg_path_data@[key] == replies[i]->Wallpaper_0->0@
        }),
{
    assert(goes_on_at(trace, replies, i));
    lemma_config_step(trace[i], replies[i], trace[i + 1]);
    law_kept_files_stay(data, icon_file, trace, replies, i, j);
    law_kept_files_stay(data, icon_file, trace, replies, i + 1, j);
    let key = trace[i].data().bg_state.file_key(trace[i].stage()->Wallpaper_0 as int)->0;
    assert(trace[i + 1].data().bg_path_data@.dom().contains(key));
}

/// Settings that were read count, whether all of them could be read or not.
pub proof fn law_what_was_read_counts<T>(read: ConfigRead<T>, r: Option<T>)
    requires
        call_ensures(ConfigRead::<T>::into_value, (read,), r),
    ensures
        r == match read {
            ConfigRead::Unavailable => None,
            ConfigRead::Complete(value) => Some(value),
            ConfigRead::Partial(value) => Some(value),
        },
{
}

} // verus!
