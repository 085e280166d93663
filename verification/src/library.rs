//! The music library: the songs of a directory tree, kept by id.

use vstd::prelude::*;

use crate::listing::{path_part, push_path};
use crate::order::{ints, key_at, order_by_keys, positions};
use crate::playlist::seq_less;
use crate::song::{path_components, path_components_spec, Song, SongId};
use crate::text::{chars_equal, chars_of};

verus! {

/// The songs of `s` by id, a later song standing over an earlier one with
/// the same id.
pub open spec fn song_map(s: Seq<Song>) -> Map<SongId, Song>
    decreases s.len(),
{
    if s.len() == 0 {
        Map::empty()
    } else {
        song_map(s.drop_last()).insert(s.last().id_view(), s.last())
    }
}

/// No two songs of `s` share an id.
pub open spec fn distinct_ids(s: Seq<Song>) -> bool {
    forall|i: int, j: int| 0 <= i < j < s.len() ==> s[i].id_view() != s[j].id_view()
}

proof fn lemma_song_map_keys(s: Seq<Song>, id: SongId)
    ensures
        song_map(s).contains_key(id) <==> exists|i: int| 0 <= i < s.len() && s[i].id_view() == id,
    decreases s.len(),
{
    if s.len() > 0 {
        lemma_song_map_keys(s.drop_last(), id);
        if song_map(s).contains_key(id) && s.last().id_view() != id {
            let i = choose|i: int| 0 <= i < s.len() - 1 && s.drop_last()[i].id_view() == id;
            assert(s[i].id_view() == id);
        }
        if exists|i: int| 0 <= i < s.len() && s[i].id_view() == id {
            let i = choose|i: int| 0 <= i < s.len() && s[i].id_view() == id;
            if i < s.len() - 1 {
                assert(s.drop_last()[i].id_view() == id);
            }
        }
    }
}

proof fn lemma_song_map_value(s: Seq<Song>, i: int)
    requires
        distinct_ids(s),
        0 <= i < s.len(),
    ensures
        song_map(s).contains_key(s[i].id_view()),
        song_map(s)[s[i].id_view()] == s[i],
    decreases s.len(),
{
    if i < s.len() - 1 {
        assert(distinct_ids(s.drop_last()));
        assert(s.drop_last()[i] == s[i]);
        lemma_song_map_value(s.drop_last(), i);
    }
}

proof fn lemma_song_map_len(s: Seq<Song>)
    requires
        distinct_ids(s),
    ensures
        song_map(s).dom().finite(),
        song_map(s).dom().len() == s.len(),
    decreases s.len(),
{
    if s.len() > 0 {
        assert(distinct_ids(s.drop_last()));
        lemma_song_map_len(s.drop_last());
        lemma_song_map_keys(s.drop_last(), s.last().id_view());
        if song_map(s.drop_last()).contains_key(s.last().id_view()) {
            let i = choose|i: int| 0 <= i < s.len() - 1 && s.drop_last()[i].id_view() == s.last().id_view();
            assert(s[i].id_view() == s[s.len() - 1].id_view());
        }
    }
}

proof fn lemma_song_map_update(s: Seq<Song>, i: int, x: Song)
    requires
        distinct_ids(s),
        0 <= i < s.len(),
        x.id_view() == s[i].id_view(),
    ensures
        distinct_ids(s.update(i, x)),
        song_map(s.update(i, x)) == song_map(s).insert(x.id_view(), x),
    decreases s.len(),
{
    let t = s.update(i, x);
    assert(distinct_ids(t)) by {
        assert forall|a: int, b: int| 0 <= a < b < t.len() implies t[a].id_view() != t[b].id_view() by {
            assert(s[a].id_view() != s[b].id_view());
        }
    }
    if i == s.len() - 1 {
        assert(t.drop_last() =~= s.drop_last());
        assert(song_map(t) =~= song_map(s).insert(x.id_view(), x));
    } else {
        assert(distinct_ids(s.drop_last()));
        assert(t.drop_last() =~= s.drop_last().update(i, x));
        lemma_song_map_update(s.drop_last(), i, x);
        assert(s.last().id_view() != x.id_view());
        assert(song_map(t) =~= song_map(s).insert(x.id_view(), x));
    }
}

/// A song's place in path order: its path, component by component.
pub open spec fn path_key(song: Song) -> Seq<int> {
    path_part(path_components_spec(song.path_view()))
}

/// What inserting a song did: added it, or found a song with its id
/// already there and kept that one.
#[derive(Debug, Clone, Copy, PartialEq, Eq)]
pub enum InsertOutcome {
    Inserted(SongId),
    Collision { existing: SongId },
}

/// The songs of a library and the directory it was read from.
pub struct Library {
    root: String,
    songs: Vec<Song>,
}

impl Library {
    #[verifier::type_invariant]
    spec fn well_formed(&self) -> bool {
        distinct_ids(self.songs@)
    }

    /// The songs by id.
    pub closed spec fn view(&self) -> Map<SongId, Song> {
        song_map(self.songs@)
    }

    /// The directory the library was read from.
    pub closed spec fn root_view(&self) -> Seq<char> {
        self.root@
    }

    /// A library of `root` with no songs.
    pub fn empty(root: String) -> (r: Library)
        ensures
            r.view() == Map::<SongId, Song>::empty(),
            r.root_view() == root@,
    {
        Library { root, songs: Vec::new() }
    }

    /// The directory the library was read from.
    pub fn root(&self) -> (r: &str)
        ensures
            r@ == self.root_view(),
    {
        self.root.as_str()
    }

    fn find(&self, id: SongId) -> (r: Option<usize>)
        ensures
            match r {
                Some(i) => i < self.songs@.len() && self.songs@[i as int].id_view() == id,
                None => forall|i: int| 0 <= i < self.songs@.len() ==> self.songs@[i].id_view() != id,
            },
    {
        let mut i: usize = 0;
        while i < self.songs.len()
            invariant
                i <= self.songs@.len(),
                forall|k: int| 0 <= k < i ==> self.songs@[k].id_view() != id,
            decreases self.songs@.len() - i,
        {
            if self.songs[i].id() == id {
                return Some(i);
            }
            i = i + 1;
        }
        None
    }

    /// The song with id `id`, if the library holds one.
    pub fn get(&self, id: SongId) -> (r: Option<&Song>)
        ensures
            match r {
                Some(s) => self.view().contains_key(id) && *s == self.view()[id],
                None => !self.view().contains_key(id),
            },
    {
        proof {
            use_type_invariant(self);
            lemma_song_map_keys(self.songs@, id);
        }
        match self.find(id) {
            Some(i) => {
                proof {
                    lemma_song_map_value(self.songs@, i as int);
                }
                Some(&self.songs[i])
            },
            None => None,
        }
    }

    /// Whether the library holds a song with id `id`.
    pub fn contains(&self, id: SongId) -> (r: bool)
        ensures
            r == self.view().contains_key(id),
    {
        proof {
            lemma_song_map_keys(self.songs@, id);
        }
        self.find(id).is_some()
    }

    /// How many songs the library holds.
    pub fn len(&self) -> (r: usize)
        ensures
            self.view().dom().finite(),
            r == self.view().dom().len(),
    {
        proof {
            use_type_invariant(self);
            lemma_song_map_len(self.songs@);
        }
        self.songs.len()
    }

    /// Whether the library holds no song.
    pub fn is_empty(&self) -> (r: bool)
        ensures
            r == (self.view().dom().len() == 0),
    {
        self.len() == 0
    }

    /// The songs, each once, in the order they were added.
    pub fn songs(&self) -> (r: &[Song])
        ensures
            distinct_ids(r@),
            song_map(r@) == self.view(),
    {
        proof {
            use_type_invariant(self);
        }
        self.songs.as_slice()
    }

    /// The ids of the songs, each once.
    pub fn ids(&self) -> (r: Vec<SongId>)
        ensures
            r@.no_duplicates(),
            forall|id: SongId| #[trigger] r@.contains(id) <==> self.view().contains_key(id),
            r@.len() == self.view().dom().len(),
    {
        proof {
            use_type_invariant(self);
            lemma_song_map_len(self.songs@);
        }
        let mut out: Vec<SongId> = Vec::new();
        let mut i: usize = 0;
        while i < self.songs.len()
            invariant
                i <= self.songs@.len(),
                distinct_ids(self.songs@),
                out@.len() == i,
                forall|k: int| 0 <= k < i ==> #[trigger] out@[k] == self.songs@[k].id_view(),
            decreases self.songs@.len() - i,
        {
            out.push(self.songs[i].id());
            i = i + 1;
        }
        proof {
            assert forall|a: int, b: int| 0 <= a < b < out@.len() implies out@[a] != out@[b] by {
                assert(self.songs@[a].id_view() != self.songs@[b].id_view());
            }
            assert forall|id: SongId| #[trigger] out@.contains(id) <==> self.view().contains_key(id) by {
                lemma_song_map_keys(self.songs@, id);
                if self.view().contains_key(id) {
                    let k = choose|k: int| 0 <= k < self.songs@.len() && self.songs@[k].id_view() == id;
                    assert(out@[k] == id);
                }
            }
        }
        out
    }

    /// Adds `song`, unless a song with its id is already there; that one
    /// is kept and nothing changes.
    pub fn insert(&mut self, song: Song) -> (r: InsertOutcome)
        ensures
            old(self).view().contains_key(song.id_view()) ==> r == (InsertOutcome::Collision {
                existing: song.id_view(),
            }) && final(self).view() == old(self).view(),
            !old(self).view().contains_key(song.id_view()) ==> r == InsertOutcome::Inserted(song.id_view())
                && final(self).view() == old(self).view().insert(song.id_view(), song),
            final(self).root_view() == old(self).root_view(),
    {
        proof {
            use_type_invariant(&*self);
            lemma_song_map_keys(self.songs@, song.id_view());
        }
        let id = song.id();
        if self.find(id).is_some() {
            return InsertOutcome::Collision { existing: id };
        }
        let Library { root, mut songs } = self.take();
        let ghost before = songs@;
        songs.push(song);
        proof {
            assert(songs@.drop_last() =~= before);
        }
        *self = Library { root, songs };
        InsertOutcome::Inserted(id)
    }

    /// Puts `song` in place of the song with its id, if there is one.
    pub fn replace(&mut self, song: Song) -> (r: bool)
        ensures
            r == old(self).view().contains_key(song.id_view()),
            r ==> final(self).view() == old(self).view().insert(song.id_view(), song),
            !r ==> final(self).view() == old(self).view(),
            final(self).root_view() == old(self).root_view(),
    {
        proof {
            use_type_invariant(&*self);
            lemma_song_map_keys(self.songs@, song.id_view());
        }
        let i = match self.find(song.id()) {
            Some(i) => i,
            None => return false,
        };
        let Library { root, mut songs } = self.take();
        proof {
            lemma_song_map_update(songs@, i as int, song);
        }
        songs.set(i, song);
        *self = Library { root, songs };
        true
    }

    /// The ids of the songs in the order of their paths, compared
    /// component by component ([`path_key`]); every song is there.
    pub fn ids_by_path(&self) -> (r: Vec<SongId>)
        ensures
            r@.len() == self.view().dom().len(),
            forall|x: int| 0 <= x < r@.len() ==> self.view().contains_key(#[trigger] r@[x]),
            forall|id: SongId| self.view().contains_key(id) ==> r@.contains(id),
            forall|x: int, y: int|
                0 <= x < y < r@.len() ==> !seq_less(
                    path_key(self.view()[#[trigger] r@[y]]),
                    path_key(self.view()[#[trigger] r@[x]]),
                ),
    {
        proof {
            use_type_invariant(self);
            lemma_song_map_len(self.songs@);
        }
        let songs = &self.songs;
        let mut keys: Vec<Vec<u64>> = Vec::new();
        let mut i: usize = 0;
        while i < songs.len()
            invariant
                i <= songs@.len(),
                keys@.len() == i,
                forall|k: int| 0 <= k < i ==> #[trigger] ints(keys@[k]@) == path_key(songs@[k]),
            decreases songs@.len() - i,
        {
            let comps = path_components(songs[i].path());
            let mut key: Vec<u64> = Vec::new();
            assert(ints(key@) =~= Seq::<int>::empty());
            push_path(&mut key, &comps);
            assert(ints(key@) =~= path_key(songs@[i as int]));
            keys.push(key);
            i = i + 1;
        }
        let order = order_by_keys(&keys);
        let mut out: Vec<SongId> = Vec::new();
        let mut k: usize = 0;
        while k < order.len()
            invariant
                k <= order@.len(),
                order@.len() == songs@.len(),
                keys@.len() == songs@.len(),
                forall|q: int| 0 <= q < order@.len() ==> #[trigger] order@[q] < songs@.len(),
                out@.len() == k,
                forall|q: int| 0 <= q < k ==> #[trigger] out@[q] == songs@[order@[q] as int].id_view(),
            decreases order@.len() - k,
        {
            out.push(songs[order[k]].id());
            k = k + 1;
        }
        proof {
            broadcast use vstd::seq_lib::group_to_multiset_ensures;

            let s = songs@;
            assert forall|x: int| 0 <= x < out@.len() implies self.view().contains_key(#[trigger] out@[x]) by {
                lemma_song_map_value(s, order@[x] as int);
            }
            assert forall|id: SongId| self.view().contains_key(id) implies out@.contains(id) by {
                lemma_song_map_keys(s, id);
                let j = choose|j: int| 0 <= j < s.len() && s[j].id_view() == id;
                assert(positions(s.len()).contains(j as usize)) by {
                    assert(positions(s.len())[j] == j as usize);
                }
                assert(order@.to_multiset().contains(j as usize));
                assert(order@.contains(j as usize));
                let q = choose|q: int| 0 <= q < order@.len() && order@[q] == j as usize;
                assert(out@[q] == id);
            }
            assert forall|x: int, y: int| 0 <= x < y < out@.len() implies !seq_less(
                path_key(self.view()[#[trigger] out@[y]]),
                path_key(self.view()[#[trigger] out@[x]]),
            ) by {
                lemma_song_map_value(s, order@[x] as int);
                lemma_song_map_value(s, order@[y] as int);
                assert(key_at(keys@, order@[x]) == path_key(s[order@[x] as int]));
                assert(key_at(keys@, order@[y]) == path_key(s[order@[y] as int]));
            }
        }
        out
    }

    fn take(&mut self) -> (r: Library)
        ensures
            r.songs@ == old(self).songs@,
            r.root@ == old(self).root@,
            distinct_ids(r.songs@),
    {
        proof {
            use_type_invariant(&*self);
        }
        let mut r = Library { root: String::new(), songs: Vec::new() };
        std::mem::swap(&mut r, self);
        proof {
            use_type_invariant(&r);
        }
        r
    }
}

/// The warning when two files give the same song id: none when it is the
/// same file twice, else both paths, the first kept.
pub open spec fn collision_warning_spec(kept: Seq<char>, skipped: Seq<char>) -> Option<Seq<char>> {
    if kept == skipped {
        None
    } else {
        Some("song id collision between "@ + kept + " and "@ + skipped + " -- kept the first, skipped the second"@)
    }
}

/// See [`collision_warning_spec`].
pub fn collision_warning(kept: &str, skipped: &str) -> (r: Option<String>)
    ensures
        match r {
            Some(w) => collision_warning_spec(kept@, skipped@) == Some(w@),
            None => collision_warning_spec(kept@, skipped@) is None,
        },
{
    let a = chars_of(kept);
    let b = chars_of(skipped);
    if chars_equal(a.as_slice(), b.as_slice()) {
        return None;
    }
    let out = "song id collision between ".to_string().concat(kept).concat(" and ").concat(skipped).concat(
        " -- kept the first, skipped the second",
    );
    Some(out)
}

/// What adding a scanned song came to: whether it was skipped for a
/// collision, and the warning to give.
#[derive(Debug, Clone, PartialEq, Eq)]
pub struct ScannedSong {
    pub skipped: bool,
    pub warning: Option<String>,
}

/// Adds a song found by a scan: a song whose id is taken is skipped, the
/// first one kept, with a warning when the two paths differ.
pub fn add_scanned(library: &mut Library, song: Song) -> (r: ScannedSong)
    ensures
        !old(library).view().contains_key(song.id_view()) ==> !r.skipped && r.warning is None
            && final(library).view() == old(library).view().insert(song.id_view(), song),
        old(library).view().contains_key(song.id_view()) ==> {
            &&& r.skipped
            &&& final(library).view() == old(library).view()
            &&& match r.warning {
                Some(w) => collision_warning_spec(
                    old(library).view()[song.id_view()].path_view(),
                    song.path_view(),
                ) == Some(w@),
                None => collision_warning_spec(
                    old(library).view()[song.id_view()].path_view(),
                    song.path_view(),
                ) is None,
            }
        },
        final(library).root_view() == old(library).root_view(),
{
    let id = song.id();
    let warning = match library.get(id) {
        Some(kept) => collision_warning(kept.path(), song.path()),
        None => None,
    };
    match library.insert(song) {
        InsertOutcome::Inserted(_) => ScannedSong { skipped: false, warning: None },
        InsertOutcome::Collision { .. } => ScannedSong { skipped: true, warning },
    }
}

} // verus!
