use vstd::prelude::*;

verus! {

/// The extension that marks a file as playable media.
pub open spec fn media_extension() -> Seq<char> {
    seq!['.', 'm', 'p', '3']
}

/// A path names playable media when it ends with the media extension.
pub open spec fn is_playable_path(p: Seq<char>) -> bool {
    p.len() >= media_extension().len()
        && p.subrange(p.len() - media_extension().len(), p.len() as int) == media_extension()
}

/// Whether the file at `path` is playable media (by its name).
pub fn is_playable(path: &str) -> (r: bool)
    ensures
        r == is_playable_path(path@),
{
    let n = path.unicode_len();
    if n < 4 {
        return false;
    }
    let ok = path.get_char(n - 4) == '.' && path.get_char(n - 3) == 'm'
        && path.get_char(n - 2) == 'p' && path.get_char(n - 1) == '3';
    assert(ok <==> path@.subrange(n - 4, n as int) =~= media_extension());
    ok
}

/// One entry of a directory listing: its full path, and whether it is itself
/// a directory.
pub struct DirEntry {
    pub path: String,
    pub is_dir: bool,
}

/// The character sequences of a sequence of strings.
pub open spec fn texts(v: Seq<String>) -> Seq<Seq<char>> {
    v.map_values(|s: String| s@)
}

/// The paths of the playable files among `entries`, in listing order.
pub open spec fn playable_files(entries: Seq<DirEntry>) -> Seq<Seq<char>>
    decreases entries.len(),
{
    if entries.len() == 0 {
        Seq::empty()
    } else {
        let rest = playable_files(entries.drop_last());
        let e = entries.last();
        if !e.is_dir && is_playable_path(e.path@) {
            rest.push(e.path@)
        } else {
            rest
        }
    }
}

/// The paths of the subdirectories among `entries`, in listing order.
pub open spec fn subdirectories(entries: Seq<DirEntry>) -> Seq<Seq<char>>
    decreases entries.len(),
{
    if entries.len() == 0 {
        Seq::empty()
    } else {
        let rest = subdirectories(entries.drop_last());
        let e = entries.last();
        if e.is_dir {
            rest.push(e.path@)
        } else {
            rest
        }
    }
}

/// Sorts one directory listing: appends each playable file to `song_paths`
/// and each subdirectory, still to be listed, to `pending_dirs`. Other files
/// (cover art, metadata) are ignored.
pub fn resolve_music_files(
    song_paths: &mut Vec<String>,
    pending_dirs: &mut Vec<String>,
    entries: &Vec<DirEntry>,
)
    ensures
        texts(final(song_paths)@) == texts(old(song_paths)@) + playable_files(entries@),
        texts(final(pending_dirs)@) == texts(old(pending_dirs)@) + subdirectories(entries@),
{
    let ghost songs0 = texts(song_paths@);
    let ghost dirs0 = texts(pending_dirs@);
    let mut i: usize = 0;
    while i < entries.len()
        invariant
            i <= entries@.len(),
            texts(song_paths@) == songs0 + playable_files(entries@.take(i as int)),
            texts(pending_dirs@) == dirs0 + subdirectories(entries@.take(i as int)),
        decreases entries@.len() - i,
    {
        let e = &entries[i];
        proof {
            assert(entries@.take(i + 1).drop_last() =~= entries@.take(i as int));
            assert(entries@.take(i + 1).last() == entries@[i as int]);
        }
        let ghost songs_before = song_paths@;
        let ghost dirs_before = pending_dirs@;
        if e.is_dir {
            pending_dirs.push(e.path.clone());
            assert(texts(pending_dirs@) =~= texts(dirs_before).push(e.path@));
        } else if is_playable(e.path.as_str()) {
            song_paths.push(e.path.clone());
            assert(texts(song_paths@) =~= texts(songs_before).push(e.path@));
        }
        i = i + 1;
    }
    assert(entries@.take(entries@.len() as int) =~= entries@);
}

} // verus!

verus! {

/// A walk over a library's directory tree with an explicit stack of
/// directories still to list, gathering the playable files found.
pub struct LibraryScan {
    pending: Vec<String>,
    songs: Vec<String>,
}

impl LibraryScan {
    pub closed spec fn pending_of(&self) -> Seq<Seq<char>> {
        texts(self.pending@)
    }

    pub closed spec fn songs_of(&self) -> Seq<Seq<char>> {
        texts(self.songs@)
    }

    /// A walk that starts at the directory `root`.
    pub fn new(root: String) -> (r: LibraryScan)
        ensures
            r.pending_of() == seq![root@],
            r.songs_of() == Seq::<Seq<char>>::empty(),
    {
        let mut pending: Vec<String> = Vec::new();
        pending.push(root);
        let r = LibraryScan { pending, songs: Vec::new() };
        assert(r.pending_of() =~= seq![root@]);
        assert(r.songs_of() =~= Seq::<Seq<char>>::empty());
        r
    }

    /// The next directory to list, taken off the stack; `None` once the
    /// whole tree has been listed.
    pub fn next_dir(&mut self) -> (r: Option<String>)
        ensures
            final(self).songs_of() == old(self).songs_of(),
            old(self).pending_of().len() == 0 ==> r is None && final(self).pending_of() == old(
                self,
            ).pending_of(),
            old(self).pending_of().len() > 0 ==> (r matches Some(d) && d@ == old(
                self,
            ).pending_of().last() && final(self).pending_of() == old(self).pending_of().drop_last()),
    {
        let ghost before = self.pending@;
        let r = self.pending.pop();
        assert(texts(self.pending@) =~= texts(before).drop_last() || before.len() == 0);
        r
    }

    /// Takes the listing of the directory last handed out: its playable
    /// files join the songs found, its subdirectories the stack.
    pub fn add_listing(&mut self, entries: &Vec<DirEntry>)
        ensures
            final(self).songs_of() == old(self).songs_of() + playable_files(entries@),
            final(self).pending_of() == old(self).pending_of() + subdirectories(entries@),
    {
        resolve_music_files(&mut self.songs, &mut self.pending, entries);
    }

    /// The playable files found, in the order they were found.
    pub fn into_songs(self) -> (r: Vec<String>)
        ensures
            texts(r@) == self.songs_of(),
    {
        self.songs
    }
}

} // verus!
