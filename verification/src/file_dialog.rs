//! The reading of the files of backgrounds as whoever drives it sees it: which files
//! are asked for, what is read of them, and what comes of it.

use vstd::prelude::*;

use crate::user_data::{BgSource, Desktop, UserData};
use crate::wallpaper_load::WallpaperLoad;

verus! {

/// What is asked for and read, and the states that the load goes through.
pub struct FileDialog<D: Desktop> {
    pub states: Seq<WallpaperLoad<D>>,
    pub paths: Seq<String>,
    pub reads: Seq<Option<Vec<u8>>>,
}

impl<D: Desktop> FileDialog<D> {
    /// Whether calls of `request` and `step` in turn can go like that, after the
    /// files of the backgrounds of `data` were set out to be read.
    pub open spec fn is_for(self, data: UserData<D>) -> bool {
        &&& self.paths.len() == self.reads.len()
        &&& self.states.len() == self.reads.len() + 1
        &&& call_ensures(UserData::<D>::load_wallpapers_as_user, (data,), self.states[0])
        &&& forall|k: int| 0 <= k < self.reads.len() ==> #[trigger] self.goes_on_at(k)
    }

    /// Whether the file `k` is asked for and read, and the load goes on with that.
    pub open spec fn goes_on_at(self, k: int) -> bool {
        &&& call_ensures(WallpaperLoad::<D>::request, (&self.states[k],), Some(&self.paths[k]))
        &&& call_ensures(
            WallpaperLoad::<D>::step,
            (self.states[k], self.reads[k]),
            self.states[k + 1],
        )
    }

    /// Whether nothing more is asked for, and `result` is what comes of it.
    pub open spec fn gives(self, result: UserData<D>) -> bool {
        &&& call_ensures(WallpaperLoad::<D>::request, (&self.states.last(),), None)
        &&& call_ensures(WallpaperLoad::<D>::finish, (self.states.last(),), result)
    }
}

/// What a dialog says of the run behind it.
proof fn lemma_dialog<D: Desktop>(data: UserData<D>, dialog: FileDialog<D>)
    requires
        dialog.is_for(data),
    ensures
        crate::wallpaper_load::is_wallpaper_run(dialog.states, dialog.reads),
        dialog.states[0].starts_from(data),
{
    assert forall|k: int| 0 <= k < dialog.reads.len() implies (
    #[trigger] dialog.states[k]).next() is Some && dialog.states[k].steps_to(
        dialog.reads[k],
        dialog.states[k + 1],
    ) by {
        assert(dialog.goes_on_at(k));
    }
}

/// At the end, the file of each background is kept, or it was asked for, for that
/// background, and could not be read.
pub proof fn law_files_are_kept_or_unreadable<D: Desktop>(
    data: UserData<D>,
    dialog: FileDialog<D>,
    result: UserData<D>,
    m: int,
    path: String,
)
    requires
        dialog.is_for(data),
        dialog.gives(result),
        0 <= m < data.bg_state.wallpapers@.len(),
        data.bg_state.wallpapers@[m].1 == BgSource::<D::Color>::Path(path),
    ensures
        result.bg_path_data@.dom().contains(crate::path::path_key(path@)) || exists|j: int|
            0 <= j < dialog.reads.len() && (#[trigger] dialog.states[j]).next() == Some(m as usize)
                && dialog.paths[j] == path && dialog.reads[j] is None,
{
    lemma_dialog(data, dialog);
    let (states, reads) = (dialog.states, dialog.reads);
    let n: int = reads.len() as int;
    assert(states[n] == states.last());
    crate::wallpaper_load::law_only_files_of_backgrounds_are_kept(data, states, reads, n);
    assert(result.bg_state.file_path(m) == Some(path@));
    assert(result.bg_state.file_key(m) == Some(crate::path::path_key(path@)));
    if !result.bg_path_data@.dom().contains(crate::path::path_key(path@)) {
        assert(states[n].data().lacks_file(m));
        crate::wallpaper_load::law_missing_files_were_unreadable(data, states, reads, n, m);
        assert(m < data.bg_state.wallpapers.len());
        let j: int = choose|j: int|
            0 <= j < n && (#[trigger] states[j]).next() == Some(m as usize) && reads[j] is None;
        assert(dialog.goes_on_at(j));
        crate::wallpaper_load::law_only_files_of_backgrounds_are_kept(data, states, reads, j);
        assert(dialog.paths[j] == path);
    }
}

/// What is kept is what was kept before for a background, or was read.
proof fn lemma_kept_files<D: Desktop>(
    data: UserData<D>,
    dialog: FileDialog<D>,
    k: int,
    key: crate::path::PathKey,
)
    requires
        dialog.is_for(data),
        0 <= k <= dialog.reads.len(),
    ensures
        ({
            let kept = dialog.states[k].data().bg_path_data@;
            let wanted = data.bg_state.file_keys().contains(key);
            &&& kept.dom().contains(key) ==> wanted
            &&& wanted && data.bg_path_data@.dom().contains(key) ==> kept.dom().contains(key)
                && kept[key] == data.bg_path_data@[key]
            &&& kept.dom().contains(key) && !data.bg_path_data@.dom().contains(key) ==> exists|j: int|
                0 <= j < k && crate::path::path_key((#[trigger] dialog.paths[j])@) == key && (
                dialog.reads[j] matches Some(bytes) && bytes@ == kept[key])
        }),
    decreases k,
{
    lemma_dialog(data, dialog);
    let (states, reads) = (dialog.states, dialog.reads);
    crate::wallpaper_load::law_only_files_of_backgrounds_are_kept(data, states, reads, k);
    if data.bg_state.file_keys().contains(key) && data.bg_path_data@.dom().contains(key) {
        crate::wallpaper_load::law_wanted_files_stay(data, states, reads, k, key);
    }
    if k > 0 {
        lemma_kept_files(data, dialog, k - 1, key);
        assert(dialog.goes_on_at(k - 1));
        assert(states[k - 1].steps_to(reads[k - 1], states[k]));
        crate::wallpaper_load::law_only_files_of_backgrounds_are_kept(data, states, reads, k - 1);
        let i: int = states[k - 1].next()->0 as int;
        assert(states[k - 1].data().bg_state.file_key(i) == Some(
            crate::path::path_key(dialog.paths[k - 1]@),
        ));
    }
}

/// Nothing of a user changes but the files that are kept. These are only such of the
/// backgrounds: those that were kept before, with the bytes that they had, and for
/// the others the bytes that were read when they were asked for.
pub proof fn law_files_are_old_or_read<D: Desktop>(
    data: UserData<D>,
    dialog: FileDialog<D>,
    result: UserData<D>,
    key: crate::path::PathKey,
)
    requires
        dialog.is_for(data),
        dialog.gives(result),
    ensures
        result == (UserData { bg_path_data: result.bg_path_data, ..data }),
        ({
            let wanted = exists|m: int|
                0 <= m < data.bg_state.wallpapers@.len() && (
                (#[trigger] data.bg_state.wallpapers@[m]).1 matches BgSource::Path(path)
                    && crate::path::path_key(path@) == key);
            let kept = result.bg_path_data@;
            &&& kept.dom().contains(key) ==> wanted
            &&& wanted && data.bg_path_data@.dom().contains(key) ==> kept.dom().contains(key)
                && kept[key] == data.bg_path_data@[key]
            &&& kept.dom().contains(key) && !data.bg_path_data@.dom().contains(key) ==> exists|j: int|
                0 <= j < dialog.reads.len() && crate::path::path_key((#[trigger] dialog.paths[j])@)
                    == key && (dialog.reads[j] matches Some(bytes) && bytes@ == kept[key])
        }),
{
    lemma_dialog(data, dialog);
    let n: int = dialog.reads.len() as int;
    assert(dialog.states[n] == dialog.states.last());
    crate::wallpaper_load::law_only_files_of_backgrounds_are_kept(
        data,
        dialog.states,
        dialog.reads,
        n,
    );
    lemma_kept_files(data, dialog, n, key);
    let bg_state = data.bg_state;
    if bg_state.file_keys().contains(key) {
        let m: int = choose|m: int|
            0 <= m < bg_state.wallpapers@.len() && #[trigger] bg_state.file_key(m) == Some(key);
        assert(bg_state.wallpapers@[m].1 is Path);
    }
    if exists|m: int|
        0 <= m < bg_state.wallpapers@.len() && (
        (#[trigger] bg_state.wallpapers@[m]).1 matches BgSource::Path(path)
            && crate::path::path_key(path@) == key) {
        let m: int = choose|m: int|
            0 <= m < bg_state.wallpapers@.len() && (
            (#[trigger] bg_state.wallpapers@[m]).1 matches BgSource::Path(path)
                && crate::path::path_key(path@) == key);
        assert(bg_state.file_key(m) == Some(key));
        assert(bg_state.file_keys().contains(key));
    }
}

/// A file is asked for only if it is that of a background and is neither kept from
/// before nor was read already, and what is read of it is kept to the end. The files
/// are asked for in the order of the backgrounds.
pub proof fn law_files_are_asked_for_when_lacking<D: Desktop>(
    data: UserData<D>,
    dialog: FileDialog<D>,
    result: UserData<D>,
    j: int,
)
    requires
        dialog.is_for(data),
        dialog.gives(result),
        0 <= j < dialog.reads.len(),
    ensures
        ({
            let path = dialog.paths[j];
            let key = crate::path::path_key(path@);
            &&& dialog.states[j].next() matches Some(m) && m < data.bg_state.wallpapers@.len()
                && data.bg_state.wallpapers@[m as int].1 == BgSource::<D::Color>::Path(path)
            &&& !data.bg_path_data@.dom().contains(key)
            &&& forall|i: int|
                0 <= i < j && crate::path::path_key((#[trigger] dialog.paths[i])@) == key
                    ==> dialog.reads[i] is None
            &&& dialog.reads[j] matches Some(bytes) ==> result.bg_path_data@.dom().contains(key)
                && result.bg_path_data@[key] == bytes@
            &&& j + 1 < dialog.reads.len() ==> dialog.states[j].next()->0
                < dialog.states[j + 1].next()->0
        }),
{
    lemma_dialog(data, dialog);
    let (states, reads) = (dialog.states, dialog.reads);
    let n: int = reads.len() as int;
    assert(states[n] == states.last());
    assert(dialog.goes_on_at(j));
    let path = dialog.paths[j];
    let key = crate::path::path_key(path@);
    crate::wallpaper_load::law_only_files_of_backgrounds_are_kept(data, states, reads, j);
    crate::wallpaper_load::lemma_run_step(data, states, reads, j);
    let m: int = states[j].next()->0 as int;
    assert(data.bg_state.file_key(m) == Some(key));
    assert(data.bg_state.file_keys().contains(key));
    lemma_kept_files(data, dialog, j, key);
    assert forall|i: int|
        0 <= i < j && crate::path::path_key((#[trigger] dialog.paths[i])@)
            == key implies reads[i] is None by {
        if reads[i] is Some {
            assert(dialog.goes_on_at(i));
            crate::wallpaper_load::lemma_run_step(data, states, reads, i);
            crate::wallpaper_load::law_read_files_are_kept(data, states, reads, i, j);
        }
    }
    if reads[j] is Some {
        crate::wallpaper_load::law_read_files_are_kept(data, states, reads, j, n);
    }
    if j + 1 < n {
        assert(dialog.goes_on_at(j + 1));
        assert(states[j].steps_to(reads[j], states[j + 1]));
    }
}

} // verus!
