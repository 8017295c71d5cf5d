//! A load of settings as whoever drives it sees it: what is asked for, what is
//! answered, and what comes of it.

use vstd::prelude::*;

use crate::config_load::{ConfigLoad, ConfigRead, LoadReply, LoadRequest, LoadStage};
use crate::load_pair::LoadRun;
use crate::user_data::{BgSource, Desktop, UserData};

verus! {

/// Whether `reply` is of the kind that `request` asks for.
pub open spec fn fits<D: Desktop>(request: LoadRequest, reply: LoadReply<D>) -> bool {
    match request {
        LoadRequest::IsFile(_) => reply is IsFile,
        LoadRequest::Icon(_) => reply is Icon,
        LoadRequest::ThemeMode => reply is ThemeMode,
        LoadRequest::Theme { .. } => reply is Theme,
        LoadRequest::ThemeBuilder { .. } => reply is ThemeBuilder,
        LoadRequest::Background => reply is Background,
        LoadRequest::Wallpaper(_) => reply is Wallpaper,
        LoadRequest::Compositor => reply is Compositor,
        LoadRequest::Outputs(_) => reply is Outputs,
        LoadRequest::TimeApplet => reply is TimeApplet,
    }
}

/// What is asked for and answered in a load, and the states that it goes through.
pub struct LoadDialog<D: Desktop> {
    pub states: Seq<ConfigLoad<D>>,
    pub requests: Seq<LoadRequest>,
    pub replies: Seq<LoadReply<D>>,
}

impl<D: Desktop> LoadDialog<D> {
    /// Whether calls of `request` and `step` in turn can go like that, after the
    /// settings of `data` were set out to be loaded.
    pub open spec fn is_for(self, data: UserData<D>, icon_file: Option<&str>) -> bool {
        &&& self.requests.len() == self.replies.len()
        &&& self.states.len() == self.replies.len() + 1
        &&& call_ensures(
            UserData::<D>::load_config_as_user_with_icon,
            (data, icon_file),
            self.states[0],
        ) || (icon_file is None && call_ensures(
            UserData::<D>::load_config_as_user,
            (data,),
            self.states[0],
        ))
        &&& forall|k: int| 0 <= k < self.replies.len() ==> #[trigger] self.goes_on_at(k)
    }

    /// Whether the request `k` is made and answered, and the load goes on with that.
    pub open spec fn goes_on_at(self, k: int) -> bool {
        &&& call_ensures(ConfigLoad::<D>::request, (&self.states[k],), Some(self.requests[k]))
        &&& fits(self.requests[k], self.replies[k])
        &&& call_ensures(
            ConfigLoad::<D>::step,
            (self.states[k], self.replies[k]),
            self.states[k + 1],
        )
    }

    /// Whether nothing more is asked for, and `result` is what comes of it.
    pub open spec fn gives(self, result: UserData<D>) -> bool {
        &&& call_ensures(ConfigLoad::<D>::request, (&self.states.last(),), None)
        &&& call_ensures(ConfigLoad::<D>::finish, (self.states.last(),), result)
    }

    /// The load as a run of its states.
    spec fn run(self) -> LoadRun<D> {
        LoadRun { trace: self.states, replies: self.replies }
    }
}

/// What a dialog says of the run behind it.
proof fn lemma_dialog<D: Desktop>(
    data: UserData<D>,
    icon_file: Option<&str>,
    dialog: LoadDialog<D>,
)
    requires
        dialog.is_for(data, icon_file),
    ensures
        dialog.run().is_for(data, icon_file),
{
    assert forall|k: int| 0 <= k < dialog.replies.len() implies #[trigger]
        crate::config_load::goes_on_at(dialog.states, dialog.replies, k) by {
        assert(dialog.goes_on_at(k));
    }
}

/// The end of a dialog is the end of its run.
proof fn lemma_result<D: Desktop>(dialog: LoadDialog<D>, result: UserData<D>)
    requires
        dialog.gives(result),
    ensures
        dialog.states.last().stage() is Done,
        dialog.states.last().data() == result,
{
}

/// From the theme mode on, both themes are asked for in the same mode.
proof fn lemma_mode_stays<D: Desktop>(
    trace: Seq<ConfigLoad<D>>,
    replies: Seq<LoadReply<D>>,
    i: int,
    j: int,
    is_dark: bool,
)
    requires
        crate::config_load::is_config_run(trace, replies),
        0 <= i < j <= replies.len(),
        replies[i] matches LoadReply::ThemeMode(read) && is_dark == match read {
            ConfigRead::Unavailable => true,
            ConfigRead::Complete(b) => b,
            ConfigRead::Partial(b) => b,
        },
    ensures
        crate::config_load::distance(trace[j].stage()) <= 7,
        trace[j].stage() matches LoadStage::Theme(d) ==> d == is_dark,
        trace[j].stage() matches LoadStage::ThemeBuilder(d) ==> d == is_dark,
    decreases j,
{
    assert(crate::config_load::goes_on_at(trace, replies, j - 1));
    crate::config_load::lemma_config_step(trace[j - 1], replies[j - 1], trace[j]);
    if i < j - 1 {
        lemma_mode_stays(trace, replies, i, j - 1, is_dark);
    }
}

/// The mode that was read decides which theme is loaded, and what it is built from:
/// the dark ones where it says dark or where there is no telling, else the light ones.
pub proof fn law_theme_mode_decides<D: Desktop>(
    data: UserData<D>,
    icon_file: Option<&str>,
    dialog: LoadDialog<D>,
    i: int,
    j: int,
)
    requires
        dialog.is_for(data, icon_file),
        0 <= i < j < dialog.replies.len(),
        dialog.replies[i] is ThemeMode,
    ensures
        ({
            let is_dark = match dialog.replies[i]->ThemeMode_0 {
                ConfigRead::Unavailable => true,
                ConfigRead::Complete(b) => b,
                ConfigRead::Partial(b) => b,
            };
            &&& dialog.requests[j] matches LoadRequest::Theme { is_dark: d } ==> d == is_dark
            &&& dialog.requests[j] matches LoadRequest::ThemeBuilder { is_dark: d } ==> d == is_dark
        }),
{
    lemma_dialog(data, icon_file, dialog);
    assert(dialog.goes_on_at(j));
    let is_dark = match dialog.replies[i]->ThemeMode_0 {
        ConfigRead::Unavailable => true,
        ConfigRead::Complete(b) => b,
        ConfigRead::Partial(b) => b,
    };
    lemma_mode_stays(dialog.states, dialog.replies, i, j, is_dark);
}

/// The order in which things are asked for.
pub open spec fn turn(request: LoadRequest) -> int {
    match request {
        LoadRequest::IsFile(_) => 0,
        LoadRequest::Icon(_) => 1,
        LoadRequest::ThemeMode => 2,
        LoadRequest::Theme { .. } => 3,
        LoadRequest::ThemeBuilder { .. } => 4,
        LoadRequest::Background => 5,
        LoadRequest::Wallpaper(_) => 6,
        LoadRequest::Compositor => 7,
        LoadRequest::Outputs(_) => 8,
        LoadRequest::TimeApplet => 9,
    }
}

/// Things are asked for in their turn, and but for icons and files of backgrounds
/// each at most once.
pub proof fn law_requests_come_in_turn<D: Desktop>(
    data: UserData<D>,
    icon_file: Option<&str>,
    dialog: LoadDialog<D>,
    i: int,
    j: int,
)
    requires
        dialog.is_for(data, icon_file),
        0 <= i < j < dialog.replies.len(),
    ensures
        turn(dialog.requests[i]) < turn(dialog.requests[j]) || (dialog.requests[i] is Icon
            && dialog.requests[j] is Icon) || (dialog.requests[i] is Wallpaper
            && dialog.requests[j] is Wallpaper),
{
    lemma_dialog(data, icon_file, dialog);
    assert(dialog.goes_on_at(i));
    assert(dialog.goes_on_at(j));
    assert(crate::config_load::goes_on_at(dialog.states, dialog.replies, i));
    crate::config_load::lemma_config_step(
        dialog.states[i],
        dialog.replies[i],
        dialog.states[i + 1],
    );
    crate::config_load::lemma_stages_advance(dialog.states, dialog.replies, i + 1, j);
}

/// A load that has come to its end has asked for everything: the mode, the themes,
/// the backgrounds, the compositor, the outputs and the clock.
pub proof fn law_everything_is_asked_for<D: Desktop>(
    data: UserData<D>,
    icon_file: Option<&str>,
    dialog: LoadDialog<D>,
    result: UserData<D>,
)
    requires
        dialog.is_for(data, icon_file),
        dialog.gives(result),
    ensures
        ({
            let n = dialog.requests.len();
            let q = dialog.requests;
            &&& exists|i: int| 0 <= i < n && #[trigger] q[i] is ThemeMode
            &&& exists|i: int| 0 <= i < n && #[trigger] q[i] is Theme
            &&& exists|i: int| 0 <= i < n && #[trigger] q[i] is ThemeBuilder
            &&& exists|i: int| 0 <= i < n && #[trigger] q[i] is Background
            &&& exists|i: int| 0 <= i < n && #[trigger] q[i] is Compositor
            &&& exists|i: int|
                0 <= i < n && (#[trigger] q[i] matches LoadRequest::Outputs(path) && path@
                    == "cosmic-comp/outputs.ron"@)
            &&& exists|i: int| 0 <= i < n && #[trigger] q[i] is TimeApplet
        }),
{
    lemma_dialog(data, icon_file, dialog);
    lemma_result(dialog, result);
    let run = dialog.run();
    let n: int = dialog.replies.len() as int;
    let a: int = crate::load_pair::lemma_goes_through(data, icon_file, run, 8, n);
    assert(dialog.goes_on_at(a));
    assert(dialog.requests[a] is ThemeMode);
    let b: int = crate::load_pair::lemma_goes_through(data, icon_file, run, 7, n);
    assert(dialog.goes_on_at(b));
    assert(dialog.requests[b] is Theme);
    let c: int = crate::load_pair::lemma_goes_through(data, icon_file, run, 6, n);
    assert(dialog.goes_on_at(c));
    assert(dialog.requests[c] is ThemeBuilder);
    let d: int = crate::load_pair::lemma_goes_through(data, icon_file, run, 5, n);
    assert(dialog.goes_on_at(d));
    assert(dialog.requests[d] is Background);
    let e: int = crate::load_pair::lemma_goes_through(data, icon_file, run, 3, n);
    assert(dialog.goes_on_at(e));
    assert(dialog.requests[e] is Compositor);
    let f: int = crate::load_pair::lemma_goes_through(data, icon_file, run, 2, n);
    assert(dialog.goes_on_at(f));
    assert(dialog.requests[f] is Outputs);
    let g: int = crate::load_pair::lemma_goes_through(data, icon_file, run, 1, n);
    assert(dialog.goes_on_at(g));
    assert(dialog.requests[g] is TimeApplet);
}

/// What comes of a load is what was answered: whether all of a setting could be read
/// or only part of it, it is taken over as it is, and what could not be read from
/// anywhere is unset, but for the zoom, which stays. The last icon that was read
/// counts, and each list of outputs becomes its text. Who the user is stays.
pub proof fn law_result_is_what_was_answered<D: Desktop>(
    data: UserData<D>,
    icon_file: Option<&str>,
    dialog: LoadDialog<D>,
    result: UserData<D>,
    i: int,
)
    requires
        dialog.is_for(data, icon_file),
        dialog.gives(result),
        0 <= i < dialog.replies.len(),
    ensures
        result.uid == data.uid,
        result.name == data.name,
        result.full_name == data.full_name,
        match dialog.replies[i] {
            LoadReply::Icon(bytes) => (forall|j: int|
                i < j < dialog.replies.len() ==> !(#[trigger] dialog.replies[j] is Icon))
                ==> result.icon_opt == bytes,
            LoadReply::Theme(ConfigRead::Complete(theme)) => result.theme_opt == Some(theme),
            LoadReply::Theme(ConfigRead::Partial(theme)) => result.theme_opt == Some(theme),
            LoadReply::Theme(ConfigRead::Unavailable) => result.theme_opt is None,
            LoadReply::ThemeBuilder(ConfigRead::Complete(builder)) => result.theme_builder_opt
                == Some(builder),
            LoadReply::ThemeBuilder(ConfigRead::Partial(builder)) => result.theme_builder_opt
                == Some(builder),
            LoadReply::ThemeBuilder(ConfigRead::Unavailable) => result.theme_builder_opt is None,
            LoadReply::Background(ConfigRead::Complete(bg_state)) => result.bg_state == bg_state,
            LoadReply::Background(ConfigRead::Partial(bg_state)) => result.bg_state == bg_state,
            LoadReply::Background(ConfigRead::Unavailable) => result.bg_state.wallpapers@.len()
                == 0,
            LoadReply::Compositor(ConfigRead::Complete((xkb_config, zoom))) => result.xkb_config_opt
                == Some(xkb_config) && result.accessibility_zoom == zoom,
            LoadReply::Compositor(ConfigRead::Partial((xkb_config, zoom))) => result.xkb_config_opt
                == Some(xkb_config) && result.accessibility_zoom == zoom,
            LoadReply::Compositor(ConfigRead::Unavailable) => result.xkb_config_opt is None
                && result.accessibility_zoom == data.accessibility_zoom,
            LoadReply::Outputs(Some(documents)) => result.kdl_output_lists@.len()
                == documents@.len() && forall|m: int|
                0 <= m < documents@.len() ==> (#[trigger] result.kdl_output_lists@[m])@
                    == crate::outputs::kdl_text(documents@[m]),
            LoadReply::Outputs(None) => result.kdl_output_lists@.len() == 0,
            LoadReply::TimeApplet(ConfigRead::Complete(config)) => result.time_applet_config
                == config,
            LoadReply::TimeApplet(ConfigRead::Partial(config)) => result.time_applet_config
                == config,
            LoadReply::TimeApplet(ConfigRead::Unavailable) => call_ensures(
                D::TimeAppletConfig::default,
                (),
                result.time_applet_config,
            ),
            _ => true,
        },
{
    lemma_dialog(data, icon_file, dialog);
    lemma_result(dialog, result);
    let n: int = dialog.replies.len() as int;
    crate::config_load::law_settings_change_at_their_stage_only(
        dialog.states,
        dialog.replies,
        crate::config_load::Setting::Icon,
        0,
        n,
    );
    crate::config_load::law_settings_are_what_was_read(dialog.states, dialog.replies, i, n);
    crate::config_load::law_unavailable_settings_are_unset(
        data,
        icon_file,
        dialog.states,
        dialog.replies,
        i,
        n,
    );
    assert(crate::config_load::goes_on_at(dialog.states, dialog.replies, i));
    if dialog.replies[i] is Icon && dialog.states[i].stage() is NamedIcon && i + 1 < n {
        assert(crate::config_load::goes_on_at(dialog.states, dialog.replies, i + 1));
        assert(dialog.replies[i]->Icon_0 is None ==> dialog.replies[i + 1] is Icon);
    }
}

/// Where the icon of a user comes from. If one is named it is asked whether that is
/// a file, and if so it is read; if nothing was read then, the one in the place for
/// icons is. Nothing more is asked for once an icon was read.
pub proof fn law_icon_is_looked_for<D: Desktop>(
    data: UserData<D>,
    icon_file: Option<&str>,
    dialog: LoadDialog<D>,
    k: int,
)
    requires
        dialog.is_for(data, icon_file),
        0 <= k < dialog.replies.len(),
    ensures
        ({
            let default_path = if data.name@.len() > 0 && data.name@[0] == '/' {
                data.name@
            } else {
                "/var/lib/AccountsService/icons/"@ + data.name@
            };
            let asks_default = |q: LoadRequest|
                q matches LoadRequest::Icon(path) && path@ == default_path;
            &&& k == 0 ==> match icon_file {
                Some(file) => dialog.requests[0] matches LoadRequest::IsFile(path) && path@ == file@,
                None => asks_default(dialog.requests[0]),
            }
            &&& dialog.requests[k] is IsFile ==> k == 0
            &&& k + 1 < dialog.replies.len() ==> match dialog.replies[k] {
                LoadReply::IsFile(true) => icon_file matches Some(file) && (
                dialog.requests[k + 1] matches LoadRequest::Icon(path) && path@ == file@),
                LoadReply::IsFile(false) => asks_default(dialog.requests[k + 1]),
                LoadReply::Icon(Some(_)) => dialog.requests[k + 1] is ThemeMode,
                LoadReply::Icon(None) => if k > 0 && dialog.replies[k - 1] is IsFile
                    && dialog.replies[k - 1]->IsFile_0 {
                    asks_default(dialog.requests[k + 1])
                } else {
                    dialog.requests[k + 1] is ThemeMode
                },
                _ => true,
            }
        }),
{
    lemma_dialog(data, icon_file, dialog);
    let n: int = dialog.replies.len() as int;
    let setting = crate::config_load::Setting::Icon;
    let (states, replies) = (dialog.states, dialog.replies);
    reveal_strlit("/var/lib/AccountsService/icons");
    reveal_strlit("/var/lib/AccountsService/icons/");
    let name = data.name@;
    assert("/var/lib/AccountsService/icons"@ + seq!['/'] + name
        =~= "/var/lib/AccountsService/icons/"@ + name);
    crate::config_load::law_settings_change_at_their_stage_only(states, replies, setting, 0, k);
    assert(dialog.goes_on_at(k));
    assert(crate::config_load::goes_on_at(states, replies, k));
    lemma_named_icon(data, icon_file, dialog, k);
    if k > 0 {
        assert(dialog.goes_on_at(k - 1));
        assert(crate::config_load::goes_on_at(states, replies, k - 1));
        crate::config_load::lemma_config_step(states[k - 1], replies[k - 1], states[k]);
        crate::config_load::lemma_stages_advance(states, replies, 0, k - 1);
    }
    if k + 1 < n {
        crate::config_load::law_settings_change_at_their_stage_only(
            states,
            replies,
            setting,
            0,
            k + 1,
        );
        assert(dialog.goes_on_at(k + 1));
    }
}

/// The path that is asked for as the one that is named is that one.
proof fn lemma_named_icon<D: Desktop>(
    data: UserData<D>,
    icon_file: Option<&str>,
    dialog: LoadDialog<D>,
    k: int,
)
    requires
        dialog.is_for(data, icon_file),
        0 <= k < dialog.replies.len(),
    ensures
        dialog.states[k].stage() matches LoadStage::IconFile(path) ==> k == 0 && (
        icon_file matches Some(file) && path@ == file@),
        dialog.states[k].stage() matches LoadStage::NamedIcon(path) ==> k == 1 && (
        icon_file matches Some(file) && path@ == file@) && dialog.replies[0] matches
            LoadReply::IsFile(true),
        dialog.states[k].stage() is DefaultIcon && k > 0 ==> !(dialog.replies[k - 1] matches
            LoadReply::IsFile(true)),
{
    lemma_dialog(data, icon_file, dialog);
    let (states, replies) = (dialog.states, dialog.replies);
    if k > 0 {
        assert(crate::config_load::goes_on_at(states, replies, k - 1));
        crate::config_load::lemma_stages_advance(states, replies, 0, k - 1);
        crate::config_load::lemma_config_step(states[k - 1], replies[k - 1], states[k]);
        if k > 1 {
            assert(crate::config_load::goes_on_at(states, replies, k - 2));
            crate::config_load::lemma_config_step(states[k - 2], replies[k - 2], states[k - 1]);
            crate::config_load::lemma_stages_advance(states, replies, 0, k - 2);
        }
    }
}

/// A background that a load has come past has its file kept, or it was asked for and
/// could not be read.
proof fn lemma_missing_files<D: Desktop>(
    data: UserData<D>,
    icon_file: Option<&str>,
    trace: Seq<ConfigLoad<D>>,
    replies: Seq<LoadReply<D>>,
    k: int,
    m: int,
)
    requires
        crate::config_load::is_config_run(trace, replies),
        trace[0].starts_from(data, icon_file),
        0 <= k <= replies.len(),
        crate::config_load::distance(trace[k].stage()) < 5,
        0 <= m < crate::config_load::files_asked_for(trace[k]),
        trace[k].data().lacks_file(m),
    ensures
        exists|j: int|
            0 <= j < k && (#[trigger] trace[j]).stage() == LoadStage::Wallpaper(m as usize)
                && replies[j] == LoadReply::<D>::Wallpaper(None),
    decreases k,
{
    assert(k > 0);
    let (before, after) = (trace[k - 1], trace[k]);
    assert(crate::config_load::goes_on_at(trace, replies, k - 1));
    crate::config_load::lemma_config_step(before, replies[k - 1], after);
    match before.stage() {
        LoadStage::Background => {
            let next = choose|next: Option<usize>|
                #[trigger] after.data().is_next_lacking(0, next) && after.stage()
                    == crate::config_load::stage_of_wallpaper(next);
            assert(after.data().is_next_lacking(0, next));
            assert(!after.data().lacks_file(m));
        },
        LoadStage::Wallpaper(i) => {
            let next = choose|next: Option<usize>|
                #[trigger] after.data().is_next_lacking(i + 1, next) && after.stage()
                    == crate::config_load::stage_of_wallpaper(next);
            assert(after.data().is_next_lacking(i + 1, next));
            if m < i {
                assert(before.data().lacks_file(m));
                lemma_missing_files(data, icon_file, trace, replies, k - 1, m);
            } else {
                assert(m == i);
                assert(trace[k - 1].stage() == LoadStage::Wallpaper(m as usize));
                assert(replies[k - 1]->Wallpaper_0 is None);
            }
        },
        _ => {
            assert(crate::config_load::agree_in(
                crate::config_load::Setting::Files,
                before.data(),
                after.data(),
            ));
            assert(crate::config_load::agree_in(
                crate::config_load::Setting::Background,
                before.data(),
                after.data(),
            ));
            lemma_missing_files(data, icon_file, trace, replies, k - 1, m);
        },
    }
}

/// At the end of a load, the file of each background is kept, or it was asked for,
/// for that background, and could not be read.
pub proof fn law_files_of_backgrounds_are_kept_or_unreadable<D: Desktop>(
    data: UserData<D>,
    icon_file: Option<&str>,
    dialog: LoadDialog<D>,
    result: UserData<D>,
    m: int,
    path: String,
)
    requires
        dialog.is_for(data, icon_file),
        dialog.gives(result),
        0 <= m < result.bg_state.wallpapers@.len(),
        result.bg_state.wallpapers@[m].1 == BgSource::<D::Color>::Path(path),
    ensures
        result.bg_path_data@.dom().contains(crate::path::path_key(path@)) || exists|j: int|
            0 <= j < dialog.replies.len() && (#[trigger] dialog.states[j]).stage()
                == LoadStage::Wallpaper(m as usize) && dialog.requests[j]
                == LoadRequest::Wallpaper(path) && dialog.replies[j]
                == LoadReply::<D>::Wallpaper(None),
{
    lemma_dialog(data, icon_file, dialog);
    lemma_result(dialog, result);
    let (states, replies) = (dialog.states, dialog.replies);
    let n: int = replies.len() as int;
    assert(states[n] == states.last());
    assert(result.bg_state.file_path(m) == Some(path@));
    assert(result.bg_state.file_key(m) == Some(crate::path::path_key(path@)));
    if !result.bg_path_data@.dom().contains(crate::path::path_key(path@)) {
        assert(states[n].data().lacks_file(m));
        lemma_missing_files(data, icon_file, states, replies, n, m);
        assert(m < result.bg_state.wallpapers.len());
        let j: int = choose|j: int|
            0 <= j < n && (#[trigger] states[j]).stage() == LoadStage::Wallpaper(m as usize)
                && replies[j] == LoadReply::<D>::Wallpaper(None);
        assert(dialog.goes_on_at(j));
        crate::config_load::law_kept_files_stay(data, icon_file, states, replies, j, n);
        assert(dialog.requests[j] == LoadRequest::Wallpaper(path));
    }
}

/// Until the backgrounds are known the files that are kept are those of before.
proof fn lemma_files_before<D: Desktop>(
    data: UserData<D>,
    icon_file: Option<&str>,
    trace: Seq<ConfigLoad<D>>,
    replies: Seq<LoadReply<D>>,
    k: int,
)
    requires
        crate::config_load::is_config_run(trace, replies),
        trace[0].starts_from(data, icon_file),
        0 <= k <= replies.len(),
        crate::config_load::distance(trace[k].stage()) >= 5,
    ensures
        trace[k].data().bg_path_data == data.bg_path_data,
{
    assert forall|i: int| 0 <= i < k implies !crate::config_load::is_read_at(
        crate::config_load::Setting::Files,
        (#[trigger] trace[i]).stage(),
    ) by {
        assert(crate::config_load::goes_on_at(trace, replies, i));
        crate::config_load::lemma_config_step(trace[i], replies[i], trace[i + 1]);
        crate::config_load::lemma_stages_advance(trace, replies, i + 1, k);
    }
    crate::config_load::law_settings_change_at_their_stage_only(
        trace,
        replies,
        crate::config_load::Setting::Files,
        0,
        k,
    );
}

/// Once the backgrounds are known, what is kept is what was kept before for one of
/// them, or was read.
proof fn lemma_kept_files<D: Desktop>(
    data: UserData<D>,
    icon_file: Option<&str>,
    dialog: LoadDialog<D>,
    k: int,
    key: crate::path::PathKey,
)
    requires
        dialog.is_for(data, icon_file),
        0 <= k <= dialog.replies.len(),
        crate::config_load::distance(dialog.states[k].stage()) < 5,
    ensures
        ({
            let kept = dialog.states[k].data().bg_path_data@;
            let wanted = dialog.states[k].data().bg_state.file_keys().contains(key);
            &&& kept.dom().contains(key) ==> wanted
            &&& wanted && data.bg_path_data@.dom().contains(key) ==> kept.dom().contains(key)
                && kept[key] == data.bg_path_data@[key]
            &&& kept.dom().contains(key) && !data.bg_path_data@.dom().contains(key) ==> exists|j: int|
                0 <= j < k && (#[trigger] dialog.requests[j] matches LoadRequest::Wallpaper(path)
                    && crate::path::path_key(path@) == key) && (
                dialog.replies[j] matches LoadReply::Wallpaper(Some(bytes)) && bytes@ == kept[key])
        }),
    decreases k,
{
    lemma_dialog(data, icon_file, dialog);
    let (trace, replies) = (dialog.states, dialog.replies);
    assert(k > 0);
    let (before, after) = (trace[k - 1], trace[k]);
    assert(dialog.goes_on_at(k - 1));
    assert(crate::config_load::goes_on_at(trace, replies, k - 1));
    crate::config_load::lemma_config_step(before, replies[k - 1], after);
    match before.stage() {
        LoadStage::Background => {
            lemma_files_before(data, icon_file, trace, replies, k - 1);
        },
        LoadStage::Wallpaper(i) => {
            lemma_kept_files(data, icon_file, dialog, k - 1, key);
            crate::config_load::lemma_wallpaper_stage(data, icon_file, trace, replies, k - 1);
            let bg_state = before.data().bg_state;
            let asked = bg_state.file_key(i as int)->0;
            assert(bg_state.file_key(i as int) == Some(asked));
            assert(bg_state.file_keys().contains(asked));
            assert(after.data().bg_state == bg_state);
            if key == asked && replies[k - 1]->Wallpaper_0 is Some {
                assert(dialog.requests[k - 1] is Wallpaper);
                assert(crate::path::path_key(dialog.requests[k - 1]->Wallpaper_0@) == key);
            }
        },
        _ => {
            lemma_kept_files(data, icon_file, dialog, k - 1, key);
            assert(crate::config_load::agree_in(
                crate::config_load::Setting::Files,
                before.data(),
                after.data(),
            ));
            assert(crate::config_load::agree_in(
                crate::config_load::Setting::Background,
                before.data(),
                after.data(),
            ));
        },
    }
}

/// Which files are kept at the end of a load: only such of its backgrounds; those
/// that were kept before, with the bytes that they had; and for the others the bytes
/// that were read when they were asked for.
pub proof fn law_kept_files_are_old_or_read<D: Desktop>(
    data: UserData<D>,
    icon_file: Option<&str>,
    dialog: LoadDialog<D>,
    result: UserData<D>,
    key: crate::path::PathKey,
)
    requires
        dialog.is_for(data, icon_file),
        dialog.gives(result),
    ensures
        ({
            let wanted = exists|m: int|
                0 <= m < result.bg_state.wallpapers@.len() && (
                (#[trigger] result.bg_state.wallpapers@[m]).1 matches BgSource::Path(path)
                    && crate::path::path_key(path@) == key);
            let kept = result.bg_path_data@;
            &&& kept.dom().contains(key) ==> wanted
            &&& wanted && data.bg_path_data@.dom().contains(key) ==> kept.dom().contains(key)
                && kept[key] == data.bg_path_data@[key]
            &&& kept.dom().contains(key) && !data.bg_path_data@.dom().contains(key) ==> exists|j: int|
                0 <= j < dialog.replies.len() && (#[trigger] dialog.requests[j] matches
                    LoadRequest::Wallpaper(path) && crate::path::path_key(path@) == key) && (
                dialog.replies[j] matches LoadReply::Wallpaper(Some(bytes)) && bytes@ == kept[key])
        }),
{
    lemma_dialog(data, icon_file, dialog);
    lemma_result(dialog, result);
    let n: int = dialog.replies.len() as int;
    assert(dialog.states[n] == dialog.states.last());
    lemma_kept_files(data, icon_file, dialog, n, key);
    let bg_state = result.bg_state;
    if bg_state.file_keys().contains(key) {
        let m: int = choose|m: int|
            0 <= m < bg_state.wallpapers@.len() && #[trigger] bg_state.file_key(m) == Some(key);
        assert(bg_state.wallpapers@[m].1 is Path);
    }
    if exists|m: int|
        0 <= m < bg_state.wallpapers@.len() && (
        (#[trigger] bg_state.wallpapers@[m]).1 matches BgSource::Path(path)
            && crate::path::path_key(path@) == key) {
        let m: int = choose|m: int|
            0 <= m < bg_state.wallpapers@.len() && (
            (#[trigger] bg_state.wallpapers@[m]).1 matches BgSource::Path(path)
                && crate::path::path_key(path@) == key);
        assert(bg_state.file_key(m) == Some(key));
        assert(bg_state.file_keys().contains(key));
    }
}

/// A file is asked for only if it is that of a background and is neither kept from
/// before nor was read already. What is read of it is kept to the end, under the
/// path of the background.
pub proof fn law_files_are_read_for_backgrounds<D: Desktop>(
    data: UserData<D>,
    icon_file: Option<&str>,
    dialog: LoadDialog<D>,
    result: UserData<D>,
    j: int,
)
    requires
        dialog.is_for(data, icon_file),
        dialog.gives(result),
        0 <= j < dialog.replies.len(),
        dialog.requests[j] is Wallpaper,
    ensures
        ({
            let path = dialog.requests[j]->Wallpaper_0;
            let key = crate::path::path_key(path@);
            &&& exists|m: int|
                0 <= m < result.bg_state.wallpapers@.len() && (
                #[trigger] result.bg_state.wallpapers@[m]).1 == BgSource::<D::Color>::Path(path)
            &&& !data.bg_path_data@.dom().contains(key)
            &&& forall|i: int|
                0 <= i < j && (#[trigger] dialog.requests[i] matches LoadRequest::Wallpaper(other)
                    && crate::path::path_key(other@) == key) ==> dialog.replies[i]
                    == LoadReply::<D>::Wallpaper(None)
            &&& dialog.replies[j] matches LoadReply::Wallpaper(Some(bytes)) ==> {
                &&& result.bg_path_data@.dom().contains(key)
                &&& result.bg_path_data@[key] == bytes@
                &&& result.bg_path_data.spellings()[key] == path@
            }
        }),
{
    lemma_dialog(data, icon_file, dialog);
    lemma_result(dialog, result);
    let (states, replies) = (dialog.states, dialog.replies);
    let n: int = replies.len() as int;
    assert(states[n] == states.last());
    assert(dialog.goes_on_at(j));
    assert(crate::config_load::goes_on_at(states, replies, j));
    crate::config_load::lemma_config_step(states[j], replies[j], states[j + 1]);
    let path = dialog.requests[j]->Wallpaper_0;
    let key = crate::path::path_key(path@);
    let m: int = states[j].stage()->Wallpaper_0 as int;
    crate::config_load::lemma_wallpaper_stage(data, icon_file, states, replies, j);
    crate::config_load::law_kept_files_stay(data, icon_file, states, replies, j, n);
    assert(result.bg_state.wallpapers@[m].1 == BgSource::<D::Color>::Path(path));
    let bg_state = states[j].data().bg_state;
    assert(bg_state.file_key(m) == Some(key));
    assert(bg_state.file_keys().contains(key));
    lemma_kept_files(data, icon_file, dialog, j, key);
    assert forall|i: int|
        0 <= i < j && (#[trigger] dialog.requests[i] matches LoadRequest::Wallpaper(other)
            && crate::path::path_key(other@) == key) implies replies[i]
        == LoadReply::<D>::Wallpaper(None) by {
        assert(dialog.goes_on_at(i));
        if replies[i]->Wallpaper_0 is Some {
            crate::config_load::lemma_wallpaper_stage(data, icon_file, states, replies, i);
            crate::config_load::law_read_wallpapers_are_kept(
                data,
                icon_file,
                states,
                replies,
                i,
                j,
            );
            crate::config_load::law_kept_files_stay(data, icon_file, states, replies, i, j);
        }
    }
    if replies[j]->Wallpaper_0 is Some {
        crate::config_load::law_read_wallpapers_are_kept(data, icon_file, states, replies, j, n);
        assert(states[j + 1].data().bg_path_data@.dom().contains(key));
        assert(states[j + 1].data().bg_path_data.spellings()[key] == path@);
        lemma_spelling_stays(data, icon_file, dialog, j + 1, n, key);
    }
}

/// A path for which something is kept stays spelled as it is.
proof fn lemma_spelling_stays<D: Desktop>(
    data: UserData<D>,
    icon_file: Option<&str>,
    dialog: LoadDialog<D>,
    i: int,
    j: int,
    key: crate::path::PathKey,
)
    requires
        dialog.is_for(data, icon_file),
        0 <= i <= j <= dialog.replies.len(),
        crate::config_load::distance(dialog.states[i].stage()) < 5,
        dialog.states[i].data().bg_path_data@.dom().contains(key),
    ensures
        dialog.states[j].data().bg_path_data.spellings()[key]
            == dialog.states[i].data().bg_path_data.spellings()[key],
    decreases j,
{
    if i < j {
        lemma_spelling_stays(data, icon_file, dialog, i, j - 1, key);
        lemma_dialog(data, icon_file, dialog);
        let (states, replies) = (dialog.states, dialog.replies);
        assert(crate::config_load::goes_on_at(states, replies, j - 1));
        crate::config_load::lemma_stages_advance(states, replies, i, j - 1);
        crate::config_load::law_kept_files_stay(data, icon_file, states, replies, i, j - 1);
        crate::config_load::lemma_config_step(states[j - 1], replies[j - 1], states[j]);
        if states[j - 1].stage() is Wallpaper {
            crate::config_load::lemma_wallpaper_stage(data, icon_file, states, replies, j - 1);
        } else {
            assert(crate::config_load::agree_in(
                crate::config_load::Setting::Files,
                states[j - 1].data(),
                states[j].data(),
            ));
        }
    }
}

/// A reply to something that was not asked for changes nothing, and neither does any
/// reply once nothing is asked for.
pub proof fn law_other_replies_are_passed_over<D: Desktop>(
    load: ConfigLoad<D>,
    request: Option<LoadRequest>,
    reply: LoadReply<D>,
    after: ConfigLoad<D>,
)
    requires
        call_ensures(ConfigLoad::<D>::request, (&load,), request),
        request matches Some(asked) ==> !fits(asked, reply),
        call_ensures(ConfigLoad::<D>::step, (load, reply), after),
    ensures
        after == load,
{
}

} // verus!
