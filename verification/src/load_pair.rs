//! What two loads of settings have in common when they are answered alike.

use vstd::prelude::*;

use crate::config_load::{ConfigLoad, LoadReply, LoadStage, Setting};
use crate::user_data::{BgSource, BgState, Desktop, UserData};

verus! {

/// Whether two backgrounds are made from the same.
pub open spec fn same_source<C>(a: BgSource<C>, b: BgSource<C>) -> bool {
    match (a, b) {
        (BgSource::Path(p), BgSource::Path(q)) => p@ == q@,
        (BgSource::Color(c), BgSource::Color(d)) => c == d,
        _ => false,
    }
}

/// Whether two users have the same backgrounds on the same outputs.
pub open spec fn same_backgrounds<C>(a: BgState<C>, b: BgState<C>) -> bool {
    &&& a.wallpapers@.len() == b.wallpapers@.len()
    &&& forall|i: int|
        0 <= i < a.wallpapers@.len() ==> (#[trigger] a.wallpapers@[i]).0@ == b.wallpapers@[i].0@
            && same_source(a.wallpapers@[i].1, b.wallpapers@[i].1)
}

/// Whether two files that may not be there hold the same bytes.
pub open spec fn same_bytes(a: Option<Vec<u8>>, b: Option<Vec<u8>>) -> bool {
    match (a, b) {
        (Some(x), Some(y)) => x@ == y@,
        (None, None) => true,
        _ => false,
    }
}

/// Whether two lists hold the same texts.
pub open spec fn same_texts(a: Seq<String>, b: Seq<String>) -> bool {
    &&& a.len() == b.len()
    &&& forall|i: int| 0 <= i < a.len() ==> (#[trigger] a[i])@ == b[i]@
}

/// Whether two users agree on the settings that a load starts anew.
pub open spec fn same_new_settings<D: Desktop>(a: UserData<D>, b: UserData<D>) -> bool {
    &&& same_bytes(a.icon_opt, b.icon_opt)
    &&& a.theme_opt == b.theme_opt
    &&& a.theme_builder_opt == b.theme_builder_opt
    &&& same_backgrounds(a.bg_state, b.bg_state)
    &&& a.xkb_config_opt == b.xkb_config_opt
    &&& a.time_applet_config == b.time_applet_config
}

/// Whether two users agree on what a load does not start anew.
pub open spec fn same_old_data<D: Desktop>(a: UserData<D>, b: UserData<D>) -> bool {
    &&& a.uid == b.uid
    &&& a.name@ == b.name@
    &&& a.full_name@ == b.full_name@
    &&& a.bg_path_data@ == b.bg_path_data@
    &&& a.bg_path_data.spellings() == b.bg_path_data.spellings()
    &&& a.accessibility_zoom == b.accessibility_zoom
    &&& same_texts(a.kdl_output_lists@, b.kdl_output_lists@)
}

/// Whether two loads ask for the same; of files of backgrounds, for the same file
/// and for the same background.
pub open spec fn asks_alike<D: Desktop>(x: ConfigLoad<D>, y: ConfigLoad<D>) -> bool {
    match (x.stage(), y.stage()) {
        (LoadStage::IconFile(p), LoadStage::IconFile(q)) => p@ == q@,
        (LoadStage::NamedIcon(p), LoadStage::NamedIcon(q)) => p@ == q@,
        (LoadStage::DefaultIcon, LoadStage::DefaultIcon) => x.data().name@ == y.data().name@,
        (LoadStage::ThemeMode, LoadStage::ThemeMode) => true,
        (LoadStage::Theme(d), LoadStage::Theme(e)) => d == e,
        (LoadStage::ThemeBuilder(d), LoadStage::ThemeBuilder(e)) => d == e,
        (LoadStage::Background, LoadStage::Background) => true,
        (LoadStage::Wallpaper(i), LoadStage::Wallpaper(j)) => i == j
            && x.data().bg_state.file_path(i as int) == y.data().bg_state.file_path(j as int),
        (LoadStage::Compositor, LoadStage::Compositor) => true,
        (LoadStage::Outputs, LoadStage::Outputs) => true,
        (LoadStage::TimeApplet, LoadStage::TimeApplet) => true,
        _ => false,
    }
}

/// Whether two replies say the same.
pub open spec fn says_the_same<D: Desktop>(a: LoadReply<D>, b: LoadReply<D>) -> bool {
    match (a, b) {
        (LoadReply::IsFile(x), LoadReply::IsFile(y)) => x == y,
        (LoadReply::Icon(x), LoadReply::Icon(y)) => same_bytes(x, y),
        (LoadReply::ThemeMode(x), LoadReply::ThemeMode(y)) => x.value() == y.value(),
        (LoadReply::Theme(x), LoadReply::Theme(y)) => x.value() == y.value(),
        (LoadReply::ThemeBuilder(x), LoadReply::ThemeBuilder(y)) => x.value() == y.value(),
        (LoadReply::Background(x), LoadReply::Background(y)) => match (x.value(), y.value()) {
            (Some(v), Some(w)) => same_backgrounds(v, w),
            (None, None) => true,
            _ => false,
        },
        (LoadReply::Wallpaper(x), LoadReply::Wallpaper(y)) => same_bytes(x, y),
        (LoadReply::Compositor(x), LoadReply::Compositor(y)) => x.value() == y.value(),
        (LoadReply::Outputs(x), LoadReply::Outputs(y)) => match (x, y) {
            (Some(v), Some(w)) => v@ == w@,
            (None, None) => true,
            _ => false,
        },
        (LoadReply::TimeApplet(x), LoadReply::TimeApplet(y)) => x.value() == y.value(),
        _ => false,
    }
}

/// A load that gets an answer to everything it asks for: what it goes through, and
/// the replies.
pub struct LoadRun<D: Desktop> {
    pub trace: Seq<ConfigLoad<D>>,
    pub replies: Seq<LoadReply<D>>,
}

impl<D: Desktop> LoadRun<D> {
    /// Whether this is how a load for `data` can go.
    pub open spec fn is_for(self, data: UserData<D>, icon_file: Option<&str>) -> bool {
        &&& crate::config_load::is_config_run(self.trace, self.replies)
        &&& self.trace[0].starts_from(data, icon_file)
    }

    /// Whether the load has come to its end.
    pub open spec fn is_done(self) -> bool {
        self.trace.last().stage() == LoadStage::Done
    }

    /// Whether the same questions get the same answers in both loads.
    pub open spec fn is_answered_like(self, other: Self) -> bool {
        forall|i: int, j: int|
            0 <= i < self.replies.len() && 0 <= j < other.replies.len() && #[trigger] asks_alike(
                self.trace[i],
                other.trace[j],
            ) ==> says_the_same(self.replies[i], other.replies[j])
    }
}

/// Whether two paths of icons that may not be there are the same.
pub open spec fn same_icon_file(a: Option<&str>, b: Option<&str>) -> bool {
    match (a, b) {
        (Some(x), Some(y)) => x@ == y@,
        (None, None) => true,
        _ => false,
    }
}

/// Whether the default settings of the clock are always the same.
pub open spec fn has_one_default<D: Desktop>() -> bool {
    forall|x: D::TimeAppletConfig, y: D::TimeAppletConfig| #[trigger]
        call_ensures(D::TimeAppletConfig::default, (), x) && #[trigger] call_ensures(
            D::TimeAppletConfig::default,
            (),
            y,
        ) ==> x == y
}

/// Whether two loads stand at the same point with the same settings, and, where
/// `all` says so, with the same data altogether.
spec fn in_step<D: Desktop>(x: ConfigLoad<D>, y: ConfigLoad<D>, all: bool) -> bool {
    &&& asks_alike(x, y) || (x.stage() is Done && y.stage() is Done)
    &&& x.data().name@ == y.data().name@
    &&& same_new_settings(x.data(), y.data())
    &&& all ==> same_old_data(x.data(), y.data())
}

/// The same backgrounds are made from the same files.
proof fn lemma_same_files<C>(a: BgState<C>, b: BgState<C>)
    requires
        same_backgrounds(a, b),
    ensures
        forall|i: int|
            0 <= i < a.wallpapers@.len() ==> #[trigger] a.file_path(i) == b.file_path(i),
        forall|i: int| 0 <= i < a.wallpapers@.len() ==> #[trigger] a.file_key(i) == b.file_key(i),
        a.file_keys() == b.file_keys(),
{
    assert forall|i: int| 0 <= i < a.wallpapers@.len() implies #[trigger] a.file_path(i)
        == b.file_path(i) by {
        assert(a.wallpapers@[i].0@ == b.wallpapers@[i].0@);
    }
    assert forall|i: int| 0 <= i < a.wallpapers@.len() implies #[trigger] a.file_key(i)
        == b.file_key(i) by {
        assert(a.file_path(i) == b.file_path(i));
    }
    assert forall|key: crate::path::PathKey| #[trigger]
        a.file_keys().contains(key) == b.file_keys().contains(key) by {
        if a.file_keys().contains(key) {
            let i: int = choose|i: int|
                0 <= i < a.wallpapers@.len() && #[trigger] a.file_key(i) == Some(key);
            assert(b.file_key(i) == Some(key));
        }
        if b.file_keys().contains(key) {
            let i: int = choose|i: int|
                0 <= i < b.wallpapers@.len() && #[trigger] b.file_key(i) == Some(key);
            assert(a.file_key(i) == Some(key));
        }
    }
    assert(a.file_keys() =~= b.file_keys());
}

/// Users with the same backgrounds and the same files lack the same files.
proof fn lemma_same_next<D: Desktop>(
    a: UserData<D>,
    b: UserData<D>,
    from: int,
    m: Option<usize>,
    n: Option<usize>,
)
    requires
        same_backgrounds(a.bg_state, b.bg_state),
        a.bg_path_data@ == b.bg_path_data@,
        0 <= from,
        a.is_next_lacking(from, m),
        b.is_next_lacking(from, n),
    ensures
        m == n,
{
    lemma_same_files(a.bg_state, b.bg_state);
    assert forall|i: int| 0 <= i < a.bg_state.wallpapers@.len() implies #[trigger] a.lacks_file(i)
        == b.lacks_file(i) by {
        assert(a.bg_state.file_key(i) == b.bg_state.file_key(i));
    }
    match (m, n) {
        (Some(i), Some(j)) => {
            assert(a.lacks_file(i as int) && b.lacks_file(i as int));
            assert(a.lacks_file(j as int) && b.lacks_file(j as int));
        },
        (Some(i), None) => {
            assert(b.lacks_file(i as int));
        },
        (None, Some(j)) => {
            assert(a.lacks_file(j as int));
        },
        (None, None) => {},
    }
}

/// The stage after the files of backgrounds are looked at is the same for both.
proof fn lemma_same_wallpaper_stage<D: Desktop>(x: ConfigLoad<D>, y: ConfigLoad<D>, from: int)
    requires
        same_backgrounds(x.data().bg_state, y.data().bg_state),
        x.data().bg_path_data@ == y.data().bg_path_data@,
        0 <= from,
        exists|next: Option<usize>|
            #[trigger] x.data().is_next_lacking(from, next) && x.stage()
                == crate::config_load::stage_of_wallpaper(next),
        exists|next: Option<usize>|
            #[trigger] y.data().is_next_lacking(from, next) && y.stage()
                == crate::config_load::stage_of_wallpaper(next),
    ensures
        x.stage() == y.stage(),
        asks_alike(x, y),
{
    let m = choose|next: Option<usize>|
        #[trigger] x.data().is_next_lacking(from, next) && x.stage()
            == crate::config_load::stage_of_wallpaper(next);
    let n = choose|next: Option<usize>|
        #[trigger] y.data().is_next_lacking(from, next) && y.stage()
            == crate::config_load::stage_of_wallpaper(next);
    lemma_same_next(x.data(), y.data(), from, m, n);
    lemma_same_files(x.data().bg_state, y.data().bg_state);
    if let Some(i) = m {
        assert(x.data().bg_state.file_path(i as int) == y.data().bg_state.file_path(i as int));
    }
}

/// Two loads in step that are told the same stay in step; of users who differ in
/// more than the name only until the backgrounds are asked for.
proof fn lemma_stay_in_step<D: Desktop>(
    x: ConfigLoad<D>,
    a: LoadReply<D>,
    x2: ConfigLoad<D>,
    y: ConfigLoad<D>,
    b: LoadReply<D>,
    y2: ConfigLoad<D>,
    all: bool,
)
    requires
        in_step(x, y, all),
        crate::config_load::answers(x.stage(), a),
        crate::config_load::answers(y.stage(), b),
        says_the_same(a, b),
        x.steps_to(a, x2),
        y.steps_to(b, y2),
        all || crate::config_load::distance(x.stage()) > crate::config_load::distance(
            LoadStage::Background,
        ),
    ensures
        in_step(x2, y2, all),
{
    if x.stage() is Background {
        lemma_same_files(x2.data().bg_state, y2.data().bg_state);
        assert(x2.data().bg_path_data@ =~= y2.data().bg_path_data@);
        lemma_same_wallpaper_stage(x2, y2, 0);
    } else if x.stage() is Wallpaper {
        let i: usize = x.stage()->Wallpaper_0;
        assert(x.data().bg_state.file_path(i as int) == y.data().bg_state.file_path(i as int));
        assert(x2.data().bg_path_data@ =~= y2.data().bg_path_data@);
        lemma_same_wallpaper_stage(x2, y2, i + 1);
    } else if x.stage() is Outputs {
        assert(same_texts(x2.data().kdl_output_lists@, y2.data().kdl_output_lists@));
    }
}

/// Loads that start alike and are answered alike are in step at every point; those
/// of users who differ in more than the name up to the backgrounds.
proof fn lemma_in_step<D: Desktop>(
    a: UserData<D>,
    icon_a: Option<&str>,
    ra: LoadRun<D>,
    b: UserData<D>,
    icon_b: Option<&str>,
    rb: LoadRun<D>,
    all: bool,
    k: int,
)
    requires
        ra.is_for(a, icon_a),
        rb.is_for(b, icon_b),
        same_icon_file(icon_a, icon_b),
        a.name@ == b.name@,
        all ==> same_old_data(a, b),
        has_one_default::<D>(),
        ra.is_answered_like(rb),
        0 <= k <= ra.replies.len(),
        k <= rb.replies.len(),
        all || crate::config_load::distance(ra.trace[k].stage())
            >= crate::config_load::distance(LoadStage::Background),
    ensures
        in_step(ra.trace[k], rb.trace[k], all),
    decreases k,
{
    if k > 0 {
        assert(crate::config_load::goes_on_at(ra.trace, ra.replies, k - 1));
        assert(crate::config_load::goes_on_at(rb.trace, rb.replies, k - 1));
        crate::config_load::lemma_config_step(ra.trace[k - 1], ra.replies[k - 1], ra.trace[k]);
        lemma_in_step(a, icon_a, ra, b, icon_b, rb, all, k - 1);
        assert(asks_alike(ra.trace[k - 1], rb.trace[k - 1]));
        lemma_stay_in_step(
            ra.trace[k - 1],
            ra.replies[k - 1],
            ra.trace[k],
            rb.trace[k - 1],
            rb.replies[k - 1],
            rb.trace[k],
            all,
        );
    }
}

/// Two loads for users of whom the same is known, answered alike, are at every point
/// at the same stage, and the same is known of both users.
pub proof fn law_loads_of_the_same_data_agree<D: Desktop>(
    a: UserData<D>,
    icon_a: Option<&str>,
    ra: LoadRun<D>,
    b: UserData<D>,
    icon_b: Option<&str>,
    rb: LoadRun<D>,
    k: int,
)
    requires
        ra.is_for(a, icon_a),
        rb.is_for(b, icon_b),
        same_icon_file(icon_a, icon_b),
        same_old_data(a, b),
        has_one_default::<D>(),
        ra.is_answered_like(rb),
        0 <= k <= ra.replies.len(),
        k <= rb.replies.len(),
    ensures
        same_new_settings(ra.trace[k].data(), rb.trace[k].data()),
        same_old_data(ra.trace[k].data(), rb.trace[k].data()),
        asks_alike(ra.trace[k], rb.trace[k]) || (ra.trace[k].stage() is Done
            && rb.trace[k].stage() is Done),
{
    lemma_in_step(a, icon_a, ra, b, icon_b, rb, true, k);
}

/// A load without an icon (`load_config_as_user`) and one that is given `None`
/// (`load_config_as_user_with_icon`), answered alike, agree in everything at every
/// point; and the only icon that they ask for is the one in the default place.
pub proof fn law_load_without_icon_agrees_with_none<D: Desktop>(
    a: UserData<D>,
    ra: LoadRun<D>,
    b: UserData<D>,
    rb: LoadRun<D>,
    k: int,
)
    requires
        ra.is_for(a, None),
        rb.is_for(b, None),
        same_old_data(a, b),
        has_one_default::<D>(),
        ra.is_answered_like(rb),
        0 <= k <= ra.replies.len(),
        k <= rb.replies.len(),
    ensures
        same_new_settings(ra.trace[k].data(), rb.trace[k].data()),
        same_old_data(ra.trace[k].data(), rb.trace[k].data()),
        asks_alike(ra.trace[k], rb.trace[k]) || (ra.trace[k].stage() is Done
            && rb.trace[k].stage() is Done),
        !(ra.trace[k].stage() is IconFile) && !(ra.trace[k].stage() is NamedIcon),
        !(rb.trace[k].stage() is IconFile) && !(rb.trace[k].stage() is NamedIcon),
{
    law_loads_of_the_same_data_agree(a, None, ra, b, None, rb, k);
    crate::config_load::lemma_stages_advance(ra.trace, ra.replies, 0, k);
    crate::config_load::lemma_stages_advance(rb.trace, rb.replies, 0, k);
}

/// A load that is past a stage which every load goes through was at it.
pub(crate) proof fn lemma_goes_through<D: Desktop>(
    data: UserData<D>,
    icon_file: Option<&str>,
    run: LoadRun<D>,
    n: int,
    k: int,
) -> (i: int)
    requires
        run.is_for(data, icon_file),
        0 <= k <= run.replies.len(),
        1 <= n <= 8,
        n != crate::config_load::distance(LoadStage::Wallpaper(0)),
        crate::config_load::distance(run.trace[k].stage()) < n,
    ensures
        0 <= i < k,
        crate::config_load::distance(run.trace[i].stage()) == n,
    decreases k,
{
    assert(k > 0);
    assert(crate::config_load::goes_on_at(run.trace, run.replies, k - 1));
    if crate::config_load::distance(run.trace[k - 1].stage()) < n {
        lemma_goes_through(data, icon_file, run, n, k - 1)
    } else {
        k - 1
    }
}

/// From the backgrounds on, the icon and the themes stay as they are.
proof fn lemma_early_settings_stay<D: Desktop>(run: LoadRun<D>, i: int, j: int)
    requires
        crate::config_load::is_config_run(run.trace, run.replies),
        0 <= i <= j <= run.replies.len(),
        run.trace[i].stage() is Background,
    ensures
        run.trace[j].data().icon_opt == run.trace[i].data().icon_opt,
        run.trace[j].data().theme_opt == run.trace[i].data().theme_opt,
        run.trace[j].data().theme_builder_opt == run.trace[i].data().theme_builder_opt,
{
    assert forall|k: int| i <= k < j implies crate::config_load::distance(
        (#[trigger] run.trace[k]).stage(),
    ) <= crate::config_load::distance(LoadStage::Background) by {
        crate::config_load::lemma_stages_advance(run.trace, run.replies, i, k);
    }
    crate::config_load::law_settings_change_at_their_stage_only(
        run.trace,
        run.replies,
        Setting::Icon,
        i,
        j,
    );
    crate::config_load::law_settings_change_at_their_stage_only(
        run.trace,
        run.replies,
        Setting::Theme,
        i,
        j,
    );
    crate::config_load::law_settings_change_at_their_stage_only(
        run.trace,
        run.replies,
        Setting::ThemeBuilder,
        i,
        j,
    );
}

/// Nothing that was known of a user before a load leaks into what it collects: two
/// loads for users of one name, answered alike, agree at their ends on the icon, the
/// themes, the backgrounds, the keyboard, the clock and the outputs.
pub proof fn law_earlier_settings_do_not_leak<D: Desktop>(
    a: UserData<D>,
    icon_a: Option<&str>,
    ra: LoadRun<D>,
    b: UserData<D>,
    icon_b: Option<&str>,
    rb: LoadRun<D>,
)
    requires
        ra.is_for(a, icon_a),
        rb.is_for(b, icon_b),
        same_icon_file(icon_a, icon_b),
        a.name@ == b.name@,
        has_one_default::<D>(),
        ra.is_answered_like(rb),
        ra.is_done(),
        rb.is_done(),
    ensures
        same_new_settings(ra.trace.last().data(), rb.trace.last().data()),
        same_texts(
            ra.trace.last().data().kdl_output_lists@,
            rb.trace.last().data().kdl_output_lists@,
        ),
{
    let m: int = ra.replies.len() as int;
    let n: int = rb.replies.len() as int;
    let q: int = lemma_goes_through(
        a,
        icon_a,
        ra,
        crate::config_load::distance(LoadStage::Background),
        m,
    );
    if n <= q {
        crate::config_load::lemma_stages_advance(ra.trace, ra.replies, n, q);
        lemma_in_step(a, icon_a, ra, b, icon_b, rb, false, n);
    }
    lemma_in_step(a, icon_a, ra, b, icon_b, rb, false, q);
    lemma_early_settings_stay(ra, q, m);
    lemma_early_settings_stay(rb, q, n);
    lemma_told_the_same(a, icon_a, ra, b, icon_b, rb, q, q);
    let c: int = crate::config_load::distance(LoadStage::Compositor);
    let ca: int = lemma_goes_through(a, icon_a, ra, c, m);
    let cb: int = lemma_goes_through(b, icon_b, rb, c, n);
    lemma_told_the_same(a, icon_a, ra, b, icon_b, rb, ca, cb);
    let o: int = crate::config_load::distance(LoadStage::Outputs);
    let oa: int = lemma_goes_through(a, icon_a, ra, o, m);
    let ob: int = lemma_goes_through(b, icon_b, rb, o, n);
    lemma_told_the_same(a, icon_a, ra, b, icon_b, rb, oa, ob);
    let t: int = crate::config_load::distance(LoadStage::TimeApplet);
    let ta: int = lemma_goes_through(a, icon_a, ra, t, m);
    let tb: int = lemma_goes_through(b, icon_b, rb, t, n);
    lemma_told_the_same(a, icon_a, ra, b, icon_b, rb, ta, tb);
}

/// A setting that two loads were told the same of is the same at their ends.
proof fn lemma_told_the_same<D: Desktop>(
    a: UserData<D>,
    icon_a: Option<&str>,
    ra: LoadRun<D>,
    b: UserData<D>,
    icon_b: Option<&str>,
    rb: LoadRun<D>,
    i: int,
    j: int,
)
    requires
        ra.is_for(a, icon_a),
        rb.is_for(b, icon_b),
        has_one_default::<D>(),
        ra.is_answered_like(rb),
        0 <= i < ra.replies.len(),
        0 <= j < rb.replies.len(),
        asks_alike(ra.trace[i], rb.trace[j]),
    ensures
        ({
            let (x, y) = (ra.trace.last().data(), rb.trace.last().data());
            match ra.trace[i].stage() {
                LoadStage::Background => same_backgrounds(x.bg_state, y.bg_state),
                LoadStage::Compositor => x.xkb_config_opt == y.xkb_config_opt,
                LoadStage::Outputs => same_texts(x.kdl_output_lists@, y.kdl_output_lists@),
                LoadStage::TimeApplet => x.time_applet_config == y.time_applet_config,
                _ => true,
            }
        }),
{
    let m: int = ra.replies.len() as int;
    let n: int = rb.replies.len() as int;
    assert(crate::config_load::goes_on_at(ra.trace, ra.replies, i));
    assert(crate::config_load::goes_on_at(rb.trace, rb.replies, j));
    assert(says_the_same(ra.replies[i], rb.replies[j]));
    crate::config_load::law_settings_are_what_was_read(ra.trace, ra.replies, i, m);
    crate::config_load::law_settings_are_what_was_read(rb.trace, rb.replies, j, n);
    crate::config_load::law_unavailable_settings_are_unset(a, icon_a, ra.trace, ra.replies, i, m);
    crate::config_load::law_unavailable_settings_are_unset(b, icon_b, rb.trace, rb.replies, j, n);
}

} // verus!
