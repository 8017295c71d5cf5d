//! Reading the files that a user's backgrounds are made from.
//!
//! Which files are read, in what order, and what is kept of them is decided
//! here; whoever drives the load reads each file that it asks for.

use vstd::prelude::*;

use crate::user_data::{BgSource, Desktop, UserData};

verus! {

impl<D: Desktop> UserData<D> {
    /// Whether the background `i` is made from a file that has not been read.
    pub open spec fn lacks_file(self, i: int) -> bool {
        self.bg_state.file_key(i) matches Some(key) && !self.bg_path_data@.dom().contains(key)
    }

    /// Whether `next` is the first background from `from` on whose file has not
    /// been read, `None` where there is none left.
    pub open spec fn is_next_lacking(self, from: int, next: Option<usize>) -> bool {
        let n = self.bg_state.wallpapers@.len();
        match next {
            Some(i) => from <= i < n && self.lacks_file(i as int) && forall|j: int|
                from <= j < i ==> !#[trigger] self.lacks_file(j),
            None => forall|j: int| from <= j < n ==> !#[trigger] self.lacks_file(j),
        }
    }

    /// Whether `self` is `before` with other files of backgrounds kept.
    pub open spec fn differs_in_files_only(self, before: Self) -> bool {
        self == (UserData { bg_path_data: self.bg_path_data, ..before })
    }

    fn next_lacking(&self, from: usize) -> (r: Option<usize>)
        requires
            from <= self.bg_state.wallpapers@.len(),
        ensures
            self.is_next_lacking(from as int, r),
    {
        let mut i: usize = from;
        while i < self.bg_state.wallpapers.len()
            invariant
                from <= i <= self.bg_state.wallpapers@.len(),
                forall|j: int| from <= j < i ==> !#[trigger] self.lacks_file(j),
            decreases self.bg_state.wallpapers@.len() - i,
        {
            match &self.bg_state.wallpapers[i].1 {
                BgSource::Path(path) => {
                    if !self.bg_path_data.contains(path.as_str()) {
                        assert(self.lacks_file(i as int));
                        return Some(i);
                    }
                },
                BgSource::Color(_) => {},
            }
            i = i + 1;
        }
        None
    }

    /// Starts reading the files of the backgrounds: what is kept for other paths
    /// is dropped, and the files that are not kept yet are to be read.
    pub fn load_wallpapers_as_user(self) -> (load: WallpaperLoad<D>)
        ensures
            load.starts_from(self),
    {
        let mut data = self;
        let paths = data.bg_state.file_paths();
        data.bg_path_data.retain(&paths);
        let next = data.next_lacking(0);
        WallpaperLoad { data, next }
    }
}

/// The state of reading the files of a user's backgrounds.
pub struct WallpaperLoad<D: Desktop> {
    data: UserData<D>,
    next: Option<usize>,
}

impl<D: Desktop> WallpaperLoad<D> {
    #[verifier::type_invariant]
    spec fn well_formed(self) -> bool {
        self.next matches Some(i) ==> i < self.data.bg_state.wallpapers@.len()
            && self.data.lacks_file(i as int)
    }

    /// The user's data so far.
    pub closed spec fn data(self) -> UserData<D> {
        self.data
    }

    /// The background whose file is to be read, `None` at the end.
    pub closed spec fn next(self) -> Option<usize> {
        self.next
    }

    /// Whether this is the start of a load for `data`.
    pub open spec fn starts_from(self, data: UserData<D>) -> bool {
        &&& self.data().differs_in_files_only(data)
        &&& self.data().bg_path_data@ == data.bg_path_data@.restrict(data.bg_state.file_keys())
        &&& self.data().bg_path_data.spellings() == data.bg_path_data.spellings().restrict(
            data.bg_state.file_keys(),
        )
        &&& self.data().is_next_lacking(0, self.next())
    }

    /// Whether `after` is what becomes of `self` when the file that it asks for
    /// has been read, `None` standing for a file that could not be read.
    pub open spec fn steps_to(self, read: Option<Vec<u8>>, after: Self) -> bool {
        match self.next() {
            Some(i) => {
                let key = self.data().bg_state.file_key(i as int)->0;
                &&& after.data().differs_in_files_only(self.data())
                &&& after.data().bg_path_data@ == match read {
                    Some(bytes) => self.data().bg_path_data@.insert(key, bytes@),
                    None => self.data().bg_path_data@,
                }
                &&& after.data().bg_path_data.spellings() == match read {
                    Some(_) => self.data().bg_path_data.spellings().insert(
                        key,
                        self.data().bg_state.file_path(i as int)->0,
                    ),
                    None => self.data().bg_path_data.spellings(),
                }
                &&& after.data().is_next_lacking(i + 1, after.next())
            },
            None => after == self,
        }
    }

    /// The path of the file to read, `None` at the end.
    pub fn request(&self) -> (r: Option<&String>)
        ensures
            match r {
                Some(path) => self.next() is Some && self.data().bg_state.wallpapers@[
                self.next()->0 as int].1 == BgSource::<D::Color>::Path(*path),
                None => self.next() is None,
            },
    {
        proof {
            use_type_invariant(self);
        }
        match self.next {
            Some(i) => match &self.data.bg_state.wallpapers[i].1 {
                BgSource::Path(path) => Some(path),
                BgSource::Color(_) => {
                    assert(!self.data.lacks_file(i as int));
                    None
                },
            },
            None => None,
        }
    }

    /// Goes on with what was read of the file asked for.
    pub fn step(self, read: Option<Vec<u8>>) -> (after: Self)
        ensures
            self.steps_to(read, after),
    {
        proof {
            use_type_invariant(&self);
        }
        match self.next {
            Some(i) => {
                let mut data = self.data;
                match read {
                    Some(bytes) => {
                        let path = match &data.bg_state.wallpapers[i].1 {
                            BgSource::Path(path) => path.clone(),
                            BgSource::Color(_) => String::new(),
                        };
                        data.bg_path_data.insert(path, bytes);
                    },
                    None => {},
                }
                assert(i < data.bg_state.wallpapers.len());
                let next = data.next_lacking(i + 1);
                WallpaperLoad { data, next }
            },
            None => self,
        }
    }

    /// The load for `data` that asks for the file of the background `i`.
    pub(crate) fn resume(data: UserData<D>, i: usize) -> (load: Self)
        requires
            i < data.bg_state.wallpapers@.len(),
            data.lacks_file(i as int),
        ensures
            load.data() == data,
            load.next() == Some(i),
    {
        WallpaperLoad { data, next: Some(i) }
    }

    /// The user's data so far, and the background whose file is to be read.
    pub(crate) fn into_parts(self) -> (r: (UserData<D>, Option<usize>))
        ensures
            r.0 == self.data(),
            r.1 == self.next(),
    {
        (self.data, self.next)
    }

    /// The user's data so far; all of it once nothing is asked for.
    pub fn finish(self) -> (data: UserData<D>)
        ensures
            data == self.data(),
    {
        self.data
    }
}

/// Whether `trace` is what a load goes through while the files that it asks for
/// are read as `reads` says.
pub open spec fn is_wallpaper_run<D: Desktop>(
    trace: Seq<WallpaperLoad<D>>,
    reads: Seq<Option<Vec<u8>>>,
) -> bool {
    &&& trace.len() == reads.len() + 1
    &&& forall|k: int|
        0 <= k < reads.len() ==> (#[trigger] trace[k]).next() is Some && trace[k].steps_to(
            reads[k],
            trace[k + 1],
        )
}

/// The background up to which a load has come.
pub open spec fn progress<D: Desktop>(load: WallpaperLoad<D>) -> int {
    match load.next() {
        Some(i) => i as int,
        None => load.data().bg_state.wallpapers@.len() as int,
    }
}

pub(crate) proof fn lemma_run_step<D: Desktop>(
    data: UserData<D>,
    trace: Seq<WallpaperLoad<D>>,
    reads: Seq<Option<Vec<u8>>>,
    k: int,
)
    requires
        is_wallpaper_run(trace, reads),
        trace[0].starts_from(data),
        0 <= k <= reads.len(),
    ensures
        trace[k].data().differs_in_files_only(data),
        trace[k].next() matches Some(i) ==> i < data.bg_state.wallpapers@.len()
            && trace[k].data().lacks_file(i as int),
        k <= progress(trace[k]) <= data.bg_state.wallpapers@.len(),
        trace[k].data().bg_path_data@.dom().subset_of(data.bg_state.file_keys()),
    decreases k,
{
    if k > 0 {
        lemma_run_step(data, trace, reads, k - 1);
        let before = trace[k - 1];
        assert(before.steps_to(reads[k - 1], trace[k]));
        let i = before.next()->0 as int;
        assert(data.bg_state.file_key(i) is Some);
        assert(data.bg_state.file_keys().contains(data.bg_state.file_key(i)->0));
    }
}

/// A load changes nothing of a user but the files that are kept, and it keeps
/// only files of the user's backgrounds.
pub proof fn law_only_files_of_backgrounds_are_kept<D: Desktop>(
    data: UserData<D>,
    trace: Seq<WallpaperLoad<D>>,
    reads: Seq<Option<Vec<u8>>>,
    k: int,
)
    requires
        is_wallpaper_run(trace, reads),
        trace[0].starts_from(data),
        0 <= k <= reads.len(),
    ensures
        trace[k].data().differs_in_files_only(data),
        trace[k].data().bg_path_data@.dom().subset_of(data.bg_state.file_keys()),
{
    lemma_run_step(data, trace, reads, k);
}

/// A load comes to its end: it asks for a file at most once for each background.
pub proof fn law_wallpaper_load_ends<D: Desktop>(
    data: UserData<D>,
    trace: Seq<WallpaperLoad<D>>,
    reads: Seq<Option<Vec<u8>>>,
)
    requires
        is_wallpaper_run(trace, reads),
        trace[0].starts_from(data),
    ensures
        reads.len() <= data.bg_state.wallpapers@.len(),
{
    lemma_run_step(data, trace, reads, reads.len() as int);
}

/// What is kept stays: no file that is kept is asked for again, or replaced.
pub proof fn law_kept_files_are_not_read_again<D: Desktop>(
    data: UserData<D>,
    trace: Seq<WallpaperLoad<D>>,
    reads: Seq<Option<Vec<u8>>>,
    j: int,
    k: int,
)
    requires
        is_wallpaper_run(trace, reads),
        trace[0].starts_from(data),
        0 <= j <= k <= reads.len(),
    ensures
        trace[j].data().bg_path_data@.submap_of(trace[k].data().bg_path_data@),
        trace[k].next() matches Some(i) ==> !trace[j].data().bg_path_data@.dom().contains(
            data.bg_state.file_key(i as int)->0,
        ),
    decreases k,
{
    lemma_run_step(data, trace, reads, k);
    if j < k {
        law_kept_files_are_not_read_again(data, trace, reads, j, k - 1);
        lemma_run_step(data, trace, reads, k - 1);
        assert(trace[k - 1].steps_to(reads[k - 1], trace[k]));
    }
}

/// A file that the user had kept and that is still the file of a background is
/// kept as it was.
pub proof fn law_wanted_files_stay<D: Desktop>(
    data: UserData<D>,
    trace: Seq<WallpaperLoad<D>>,
    reads: Seq<Option<Vec<u8>>>,
    k: int,
    key: crate::path::PathKey,
)
    requires
        is_wallpaper_run(trace, reads),
        trace[0].starts_from(data),
        0 <= k <= reads.len(),
        data.bg_path_data@.dom().contains(key),
        data.bg_state.file_keys().contains(key),
    ensures
        trace[k].data().bg_path_data@.dom().contains(key),
        trace[k].data().bg_path_data@[key] == data.bg_path_data@[key],
{
    law_kept_files_are_not_read_again(data, trace, reads, 0, k);
    assert(trace[0].data().bg_path_data@.dom().contains(key));
    assert(trace[0].data().bg_path_data@[key] == data.bg_path_data@[key]);
}

/// What was read of a file is kept to the end.
pub proof fn law_read_files_are_kept<D: Desktop>(
    data: UserData<D>,
    trace: Seq<WallpaperLoad<D>>,
    reads: Seq<Option<Vec<u8>>>,
    j: int,
    k: int,
)
    requires
        is_wallpaper_run(trace, reads),
        trace[0].starts_from(data),
        0 <= j < k <= reads.len(),
        reads[j] is Some,
    ensures
        ({
            let key = data.bg_state.file_key(trace[j].next()->0 as int)->0;
            &&& trace[k].data().bg_path_data@.dom().contains(key)
            &&& trace[k].data().bg_path_data@[key] == reads[j]->0@
        }),
{
    let key = data.bg_state.file_key(trace[j].next()->0 as int)->0;
    lemma_run_step(data, trace, reads, j);
    assert(trace[j].steps_to(reads[j], trace[j + 1]));
    law_kept_files_are_not_read_again(data, trace, reads, j + 1, k);
    assert(trace[j + 1].data().bg_path_data@.dom().contains(key));
    assert(trace[j + 1].data().bg_path_data@[key] == reads[j]->0@);
}

/// A file of a background that a load has come past is kept, or it was asked
/// for and could not be read.
pub proof fn law_missing_files_were_unreadable<D: Desktop>(
    data: UserData<D>,
    trace: Seq<WallpaperLoad<D>>,
    reads: Seq<Option<Vec<u8>>>,
    k: int,
    m: int,
)
    requires
        is_wallpaper_run(trace, reads),
        trace[0].starts_from(data),
        0 <= k <= reads.len(),
        0 <= m < progress(trace[k]),
        trace[k].data().lacks_file(m),
    ensures
        exists|j: int|
            0 <= j < k && (#[trigger] trace[j]).next() == Some(m as usize) && reads[j] is None,
    decreases k,
{
    lemma_run_step(data, trace, reads, k);
    if k > 0 {
        lemma_run_step(data, trace, reads, k - 1);
        let before = trace[k - 1];
        assert(before.steps_to(reads[k - 1], trace[k]));
        let i = before.next()->0 as int;
        if m < i {
            law_kept_files_are_not_read_again(data, trace, reads, k - 1, k);
            assert(before.data().lacks_file(m));
            law_missing_files_were_unreadable(data, trace, reads, k - 1, m);
        } else {
            assert(m == i);
            assert(trace[k - 1].next() == Some(m as usize));
        }
    }
}

} // verus!
