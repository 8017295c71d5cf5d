//! What the greeter shows of a user.

use vstd::prelude::*;

use crate::passwd::Passwd;
use crate::path_map::PathMap;
use crate::text::text_before;

verus! {

/// The kinds of settings that are carried for a user and not looked into.
pub trait Desktop {
    type Theme;

    type ThemeBuilder;

    type Color;

    type XkbConfig;

    type ZoomConfig: Default;

    type TimeAppletConfig: Default;
}

/// What a background is made from.
#[derive(Clone, Debug)]
pub enum BgSource<C> {
    /// The file with this path.
    Path(String),
    /// A color.
    Color(C),
}

/// The backgrounds, each with the output that it is shown on.
#[derive(Clone, Debug)]
pub struct BgState<C> {
    pub wallpapers: Vec<(String, BgSource<C>)>,
}

impl<C> Default for BgState<C> {
    fn default() -> (r: Self)
        ensures
            r.wallpapers@ == Seq::<(String, BgSource<C>)>::empty(),
    {
        BgState { wallpapers: Vec::new() }
    }
}

impl<C> BgState<C> {
    /// What the files that the backgrounds are made from name.
    pub open spec fn file_keys(self) -> Set<crate::path::PathKey> {
        Set::new(
            |key: crate::path::PathKey|
                exists|i: int|
                    0 <= i < self.wallpapers@.len() && #[trigger] self.file_key(i) == Some(key),
        )
    }

    /// The path of the file of the background `i`, if it is made from a file.
    pub open spec fn file_path(self, i: int) -> Option<Seq<char>> {
        match self.wallpapers@[i].1 {
            BgSource::Path(path) => Some(path@),
            BgSource::Color(_) => None,
        }
    }

    /// What the file of the background `i` names, if it is made from a file.
    pub open spec fn file_key(self, i: int) -> Option<crate::path::PathKey> {
        match self.file_path(i) {
            Some(path) => Some(crate::path::path_key(path)),
            None => None,
        }
    }

    /// The paths of the files that the backgrounds are made from.
    pub fn file_paths(&self) -> (r: Vec<String>)
        ensures
            crate::path_map::keys_of(r@) == self.file_keys(),
    {
        let mut r: Vec<String> = Vec::new();
        let mut i: usize = 0;
        while i < self.wallpapers.len()
            invariant
                i <= self.wallpapers.len(),
                forall|j: int|
                    0 <= j < r@.len() ==> self.file_keys().contains(
                        crate::path::path_key((#[trigger] r@[j])@),
                    ),
                forall|j: int|
                    0 <= j < i && #[trigger] self.file_key(j) is Some
                        ==> crate::path_map::keys_of(r@).contains(self.file_key(j)->0),
            decreases self.wallpapers.len() - i,
        {
            let ghost before = r@;
            match &self.wallpapers[i].1 {
                BgSource::Path(path) => {
                    assert(self.file_key(i as int) == Some(crate::path::path_key(path@)));
                    r.push(path.clone());
                    assert forall|j: int|
                        0 <= j < i + 1 && #[trigger] self.file_key(
                            j,
                        ) is Some implies crate::path_map::keys_of(r@).contains(
                        self.file_key(j)->0,
                    ) by {
                        if j < i {
                            let k = choose|k: int|
                                0 <= k < before.len() && crate::path::path_key(
                                    (#[trigger] before[k])@,
                                ) == self.file_key(j)->0;
                            assert(r@[k] == before[k]);
                        } else {
                            assert(crate::path::path_key(r@[r@.len() - 1]@) == self.file_key(j)->0);
                        }
                    }
                },
                BgSource::Color(_) => {},
            }
            i = i + 1;
        }
        assert(crate::path_map::keys_of(r@) =~= self.file_keys()) by {
            assert forall|key: crate::path::PathKey|
                crate::path_map::keys_of(r@).contains(key) implies self.file_keys().contains(
                key,
            ) by {
                let j = choose|j: int|
                    0 <= j < r@.len() && crate::path::path_key((#[trigger] r@[j])@) == key;
                assert(self.file_keys().contains(crate::path::path_key(r@[j]@)));
            }
        }
        r
    }
}

/// What the greeter shows of a user.
#[derive(Clone, Debug)]
pub struct UserData<D: Desktop> {
    pub uid: u32,
    pub name: String,
    pub full_name: String,
    pub icon_opt: Option<Vec<u8>>,
    pub theme_opt: Option<D::Theme>,
    pub theme_builder_opt: Option<D::ThemeBuilder>,
    pub bg_state: BgState<D::Color>,
    pub bg_path_data: PathMap,
    pub xkb_config_opt: Option<D::XkbConfig>,
    pub time_applet_config: D::TimeAppletConfig,
    pub accessibility_zoom: D::ZoomConfig,
    pub kdl_output_lists: Vec<String>,
}

/// The name that the user database gives a person: the first field of the
/// `gecos` text, or the login name where that is empty.
pub open spec fn full_name_of(user: Passwd) -> Seq<char> {
    let field = match user.gecos {
        Some(gecos) => crate::text::first_piece(gecos@, ','),
        None => Seq::empty(),
    };
    if field.len() == 0 {
        user.name@
    } else {
        field
    }
}

impl<D: Desktop> UserData<D> {
    /// Whether nothing but the identity of the user is known.
    pub open spec fn has_no_settings(self) -> bool {
        &&& self.icon_opt is None
        &&& self.theme_opt is None
        &&& self.theme_builder_opt is None
        &&& self.bg_state.wallpapers@.len() == 0
        &&& self.bg_path_data@ == Map::<crate::path::PathKey, Seq<u8>>::empty()
        &&& self.bg_path_data.spellings() == Map::<crate::path::PathKey, Seq<char>>::empty()
        &&& self.xkb_config_opt is None
        &&& call_ensures(D::TimeAppletConfig::default, (), self.time_applet_config)
        &&& call_ensures(D::ZoomConfig::default, (), self.accessibility_zoom)
        &&& self.kdl_output_lists@.len() == 0
    }
}

impl<D: Desktop> Default for UserData<D> {
    fn default() -> (r: Self)
        ensures
            r.uid == 0,
            r.name@.len() == 0,
            r.full_name@.len() == 0,
            r.has_no_settings(),
    {
        UserData {
            uid: 0,
            name: String::new(),
            full_name: String::new(),
            icon_opt: None,
            theme_opt: None,
            theme_builder_opt: None,
            bg_state: BgState { wallpapers: Vec::new() },
            bg_path_data: PathMap::new(),
            xkb_config_opt: None,
            time_applet_config: D::TimeAppletConfig::default(),
            accessibility_zoom: D::ZoomConfig::default(),
            kdl_output_lists: Vec::new(),
        }
    }
}

// What comes of a conversion is stated on `from` itself: there is no telling a
// `String` in a specification other than by its text.
impl<D: Desktop> vstd::std_specs::convert::FromSpecImpl<Passwd> for UserData<D> {
    open spec fn obeys_from_spec() -> bool {
        false
    }

    open spec fn from_spec(user: Passwd) -> Self {
        arbitrary()
    }
}

impl<D: Desktop> From<Passwd> for UserData<D> {
    fn from(user: Passwd) -> (r: Self)
        ensures
            r.uid == user.uid,
            r.name@ == user.name@,
            r.full_name@ == full_name_of(user),
            r.has_no_settings(),
    {
        Self::of_user(user)
    }
}

impl<D: Desktop> UserData<D> {
    /// What the user database says of a user.
    pub(crate) fn of_user(user: Passwd) -> (r: Self)
        ensures
            r.uid == user.uid,
            r.name@ == user.name@,
            r.full_name@ == full_name_of(user),
            r.has_no_settings(),
    {
        let mut full_name = match &user.gecos {
            Some(gecos) => text_before(gecos.as_str(), ','),
            None => String::new(),
        };
        if full_name.as_str().is_empty() {
            full_name = user.name.clone();
        }
        let mut data = Self::default();
        data.uid = user.uid;
        data.name = user.name;
        data.full_name = full_name;
        data
    }
}

/// A user with a login name has a name to be shown, and one from the `gecos` text
/// has no comma in it.
pub proof fn law_full_name_is_one_field(user: Passwd)
    ensures
        user.name@.len() > 0 ==> full_name_of(user).len() > 0,
        full_name_of(user) == user.name@ || !full_name_of(user).contains(','),
{
    match user.gecos {
        Some(gecos) => {
            crate::text::lemma_position_first(gecos@, ',');
        },
        None => {},
    }
}

/// A `gecos` text without a comma is the name to be shown.
pub proof fn law_plain_gecos_is_the_full_name(user: Passwd)
    requires
        user.gecos matches Some(gecos) && gecos@.len() > 0 && !gecos@.contains(','),
    ensures
        full_name_of(user) == user.gecos->0@,
{
    let gecos = user.gecos->0@;
    crate::text::lemma_position_first(gecos, ',');
    crate::text::lemma_position(gecos, ',', gecos.len() as int);
    assert(gecos.take(gecos.len() as int) == gecos);
}

/// However a `gecos` text is taken apart at a comma, the name to be shown is what
/// comes before the first one, whole and unchanged; and it is the login name where
/// that is empty or there is no `gecos` text. Nothing else is known of the user.
pub proof fn law_full_name_is_what_gecos_starts_with<D: Desktop>(
    user: Passwd,
    head: Seq<char>,
    tail: Seq<char>,
    data: UserData<D>,
)
    requires
        call_ensures(<UserData<D> as From<Passwd>>::from, (user,), data),
        user.gecos matches Some(gecos) ==> gecos@ == head + tail && !head.contains(',') && (
        tail.len() == 0 || tail[0] == ','),
    ensures
        user.gecos is Some && head.len() > 0 ==> data.full_name@ == head,
        user.gecos is None || head.len() == 0 ==> data.full_name@ == user.name@,
        full_name_of(user) == data.full_name@,
        data.uid == user.uid,
        data.name@ == user.name@,
        data.icon_opt is None,
        data.theme_opt is None,
        data.theme_builder_opt is None,
        data.bg_state.wallpapers@.len() == 0,
        data.bg_path_data@.dom() == Set::<crate::path::PathKey>::empty(),
        data.xkb_config_opt is None,
        call_ensures(D::TimeAppletConfig::default, (), data.time_applet_config),
        call_ensures(D::ZoomConfig::default, (), data.accessibility_zoom),
        data.kdl_output_lists@.len() == 0,
{
    if let Some(gecos) = user.gecos {
        assert forall|i: int| 0 <= i < head.len() implies gecos@[i] != ',' by {
            assert(head.contains(head[i]));
        }
        crate::text::lemma_position(gecos@, ',', head.len() as int);
        assert(gecos@.take(head.len() as int) =~= head);
    }
}

/// Of no one in particular nothing is known.
pub proof fn law_default_data_is_empty<D: Desktop>(data: UserData<D>)
    requires
        call_ensures(<UserData<D> as Default>::default, (), data),
    ensures
        data.uid == 0,
        data.name@.len() == 0,
        data.full_name@.len() == 0,
        data.icon_opt is None,
        data.theme_opt is None,
        data.theme_builder_opt is None,
        data.bg_state.wallpapers@.len() == 0,
        data.bg_path_data@.dom() == Set::<crate::path::PathKey>::empty(),
        data.xkb_config_opt is None,
        call_ensures(D::TimeAppletConfig::default, (), data.time_applet_config),
        call_ensures(D::ZoomConfig::default, (), data.accessibility_zoom),
        data.kdl_output_lists@.len() == 0,
{
}

} // verus!
