//! The order a panel lists its songs in, and the rows that come of it:
//! grouped by artist or by directory, ordered within each group by the
//! chosen sort; or, for a search, by relevance.

use vstd::prelude::*;

use crate::fuzzy::FuzzyQuery;
use crate::layout::{
    artist_rows, artist_rows_spec, artist_views, dir_rows, dir_rows_spec, dir_views, row_views,
    Row, RowView,
};
use crate::order::{all_below, in_key_order, ints, order_by_keys, positions};
use crate::playlist::{lemma_seq_less_irreflexive, seq_less};
use crate::row_cache::{Category, Sort};
use crate::song::{
    component_views, display_artist, display_title, parent_of, path_components,
    path_components_spec, path_parent, path_without_root, query_score, strip_root, Song, SongId,
};
use crate::text::{chars_equal, chars_of, str_lowercase};

verus! {

// ---------------------------------------------------------------------------
// Sort keys
// ---------------------------------------------------------------------------

/// A text as part of a sort key: each character's code raised by two, then
/// a 1, so that a text comes before every longer text it begins.
pub open spec fn text_part(s: Seq<char>) -> Seq<int> {
    Seq::new(s.len(), |i: int| (s[i] as u32) as int + 2).push(1)
}

/// The code points of `s`.
pub open spec fn code_points(s: Seq<char>) -> Seq<int> {
    Seq::new(s.len(), |i: int| (s[i] as u32) as int)
}

/// A key that starts with a text orders by that text first, character by
/// character, a text before the longer texts it begins; what follows the
/// text decides only between equal texts.
pub proof fn lemma_text_orders_first(a: Seq<char>, b: Seq<char>, x: Seq<int>, y: Seq<int>)
    ensures
        seq_less(text_part(a) + x, text_part(b) + y) == (seq_less(code_points(a), code_points(b)) || (
        code_points(a) == code_points(b) && seq_less(x, y))),
    decreases a.len(),
{
    let (ka, kb) = (text_part(a) + x, text_part(b) + y);
    if a.len() == 0 && b.len() == 0 {
        assert(ka.drop_first() =~= x);
        assert(kb.drop_first() =~= y);
        assert(code_points(a) =~= code_points(b));
    } else if a.len() == 0 {
        assert(ka[0] == 1);
        assert(kb[0] == (b[0] as u32) as int + 2);
    } else if b.len() == 0 {
        assert(ka[0] == (a[0] as u32) as int + 2);
        assert(kb[0] == 1);
        assert(code_points(a).len() != code_points(b).len());
    } else {
        assert(ka[0] == (a[0] as u32) as int + 2);
        assert(kb[0] == (b[0] as u32) as int + 2);
        assert(code_points(a)[0] == (a[0] as u32) as int);
        assert(code_points(b)[0] == (b[0] as u32) as int);
        if ka[0] == kb[0] {
            let (ta, tb) = (a.drop_first(), b.drop_first());
            assert(ka.drop_first() =~= text_part(ta) + x);
            assert(kb.drop_first() =~= text_part(tb) + y);
            assert(code_points(a).drop_first() =~= code_points(ta));
            assert(code_points(b).drop_first() =~= code_points(tb));
            lemma_text_orders_first(ta, tb, x, y);
            if code_points(ta) == code_points(tb) {
                assert(code_points(a).len() == code_points(b).len());
                assert forall|i: int| 0 <= i < code_points(a).len() implies code_points(a)[i]
                    == code_points(b)[i] by {
                    if i > 0 {
                        assert(code_points(a)[i] == code_points(ta)[i - 1]);
                        assert(code_points(b)[i] == code_points(tb)[i - 1]);
                    }
                }
                assert(code_points(a) =~= code_points(b));
            }
            if code_points(a) == code_points(b) {
                assert(code_points(ta) =~= code_points(tb));
            }
        } else {
            assert(code_points(a) != code_points(b));
        }
    }
}

/// A path component as part of a sort key: its kind, raised by two, then
/// its text.
pub open spec fn component_part(c: (u8, Seq<char>)) -> Seq<int> {
    seq![c.0 as int + 2] + text_part(c.1)
}

/// The components of `l`, one after another.
pub open spec fn components_part(l: Seq<(u8, Seq<char>)>) -> Seq<int>
    decreases l.len(),
{
    if l.len() == 0 {
        Seq::empty()
    } else {
        components_part(l.drop_last()) + component_part(l.last())
    }
}

/// A path as part of a sort key: its components, then a 0, so that a path
/// comes before the paths below it.
pub open spec fn path_part(l: Seq<(u8, Seq<char>)>) -> Seq<int> {
    components_part(l).push(0)
}

/// The kinds and code points of a list of path components.
pub open spec fn component_codes(l: Seq<(u8, Seq<char>)>) -> Seq<(u8, Seq<int>)> {
    Seq::new(l.len(), |i: int| (l[i].0, code_points(l[i].1)))
}

/// Paths compared component by component: by kind, then by text; a path
/// before the longer paths it begins.
pub open spec fn components_less(a: Seq<(u8, Seq<char>)>, b: Seq<(u8, Seq<char>)>) -> bool
    decreases a.len(),
{
    if b.len() == 0 {
        false
    } else if a.len() == 0 {
        true
    } else if a[0].0 != b[0].0 {
        a[0].0 < b[0].0
    } else if code_points(a[0].1) != code_points(b[0].1) {
        seq_less(code_points(a[0].1), code_points(b[0].1))
    } else {
        components_less(a.drop_first(), b.drop_first())
    }
}

proof fn lemma_components_part_front(l: Seq<(u8, Seq<char>)>)
    requires
        l.len() > 0,
    ensures
        components_part(l) == component_part(l[0]) + components_part(l.drop_first()),
    decreases l.len(),
{
    if l.len() == 1 {
        assert(l.drop_last() =~= Seq::<(u8, Seq<char>)>::empty());
        assert(l.drop_first() =~= Seq::<(u8, Seq<char>)>::empty());
        assert(components_part(l.drop_last()) == Seq::<int>::empty());
        assert(components_part(l.drop_first()) == Seq::<int>::empty());
        assert(components_part(l) =~= component_part(l[0]));
        assert(component_part(l[0]) + components_part(l.drop_first()) =~= component_part(l[0]));
    } else {
        lemma_components_part_front(l.drop_last());
        assert(l.drop_last().drop_first() =~= l.drop_first().drop_last());
        assert(l.drop_first().last() == l.last());
        assert(components_part(l) =~= component_part(l[0]) + components_part(l.drop_first()));
    }
}

proof fn lemma_same_head(k: int, s: Seq<int>, t: Seq<int>)
    ensures
        seq_less(seq![k] + s, seq![k] + t) == seq_less(s, t),
{
    assert((seq![k] + s).drop_first() =~= s);
    assert((seq![k] + t).drop_first() =~= t);
}

/// A key that starts with a path orders by that path first, component by
/// component; what follows the path decides only between equal paths.
pub proof fn lemma_path_orders_first(
    a: Seq<(u8, Seq<char>)>,
    b: Seq<(u8, Seq<char>)>,
    x: Seq<int>,
    y: Seq<int>,
)
    ensures
        seq_less(path_part(a) + x, path_part(b) + y) == (components_less(a, b) || (component_codes(a)
            == component_codes(b) && seq_less(x, y))),
    decreases a.len(),
{
    let (ka, kb) = (path_part(a) + x, path_part(b) + y);
    let (ca, cb) = (component_codes(a), component_codes(b));
    if a.len() == 0 {
        assert(ka =~= seq![0int] + x);
        if b.len() == 0 {
            assert(kb =~= seq![0int] + y);
            lemma_same_head(0, x, y);
            assert(ca =~= cb);
        } else {
            lemma_components_part_front(b);
            assert(kb[0] == b[0].0 as int + 2);
            assert(ca.len() != cb.len());
            assert(seq_less(ka, kb));
        }
    } else {
        lemma_components_part_front(a);
        assert(ka[0] == a[0].0 as int + 2);
        if b.len() == 0 {
            assert(kb =~= seq![0int] + y);
            assert(ca.len() != cb.len());
            assert(!seq_less(ka, kb));
        } else {
            lemma_components_part_front(b);
            let (ra, rb) = (path_part(a.drop_first()) + x, path_part(b.drop_first()) + y);
            assert(ka =~= seq![a[0].0 as int + 2] + (text_part(a[0].1) + ra));
            assert(kb =~= seq![b[0].0 as int + 2] + (text_part(b[0].1) + rb));
            assert(ca[0] == (a[0].0, code_points(a[0].1)));
            assert(cb[0] == (b[0].0, code_points(b[0].1)));
            if a[0].0 == b[0].0 {
                lemma_same_head(a[0].0 as int + 2, text_part(a[0].1) + ra, text_part(b[0].1) + rb);
                lemma_text_orders_first(a[0].1, b[0].1, ra, rb);
                lemma_path_orders_first(a.drop_first(), b.drop_first(), x, y);
                assert(ca.drop_first() =~= component_codes(a.drop_first()));
                assert(cb.drop_first() =~= component_codes(b.drop_first()));
                if code_points(a[0].1) == code_points(b[0].1) {
                    lemma_seq_less_irreflexive(code_points(a[0].1));
                    if component_codes(a.drop_first()) == component_codes(b.drop_first()) {
                        assert(ca.len() == cb.len());
                        assert forall|i: int| 0 <= i < ca.len() implies ca[i] == cb[i] by {
                            if i > 0 {
                                assert(ca[i] == ca.drop_first()[i - 1]);
                                assert(cb[i] == cb.drop_first()[i - 1]);
                            }
                        }
                        assert(ca =~= cb);
                    } else {
                        assert(ca != cb);
                    }
                } else {
                    assert(ca[0] != cb[0]);
                    assert(ca != cb);
                }
            } else {
                assert(ca[0] != cb[0]);
                assert(ca != cb);
                assert(ka[0] != kb[0]);
            }
        }
    }
}

/// The title a song is sorted by.
pub open spec fn title_key(song: Song) -> Seq<char> {
    str_lowercase(display_title(song.path_view(), song.metadata_view()))
}

/// The artist a song is sorted and grouped by.
pub open spec fn artist_key(song: Song) -> Seq<char> {
    str_lowercase(display_artist(song.metadata_view()))
}

/// The directories a song lies in, below the library's `root` (below the
/// file system's root when it lies elsewhere).
pub open spec fn relative_dirs(path: Seq<char>, root: Seq<char>) -> Seq<(u8, Seq<char>)> {
    let rel = match path_without_root(path, root) {
        Some(r) => r,
        None => path,
    };
    match path_parent(rel) {
        Some(p) => path_components_spec(p),
        None => Seq::empty(),
    }
}

/// The order within a group: by title; by length, then title; by artist,
/// then title; by path; or newest first, then by path.
pub open spec fn within_key(song: Song, sort: Sort) -> Seq<int> {
    match sort {
        Sort::Title => text_part(title_key(song)),
        Sort::Duration => seq![
            song.metadata_view().duration_secs as int,
            song.metadata_view().duration_nanos as int,
        ] + text_part(title_key(song)),
        Sort::Artist => text_part(artist_key(song)) + text_part(title_key(song)),
        Sort::Path => path_part(path_components_spec(song.path_view())),
        Sort::DateModified => seq![u64::MAX - song.modified_view()] + path_part(
            path_components_spec(song.path_view()),
        ),
    }
}

/// What a song is listed by: its group (artist, or directory below
/// `root`), then its place within the group.
pub open spec fn listing_key(song: Song, category: Category, sort: Sort, root: Seq<char>) -> Seq<int> {
    match category {
        Category::Ungrouped => within_key(song, sort),
        Category::Artist => text_part(artist_key(song)) + within_key(song, sort),
        Category::Path => path_part(relative_dirs(song.path_view(), root)) + within_key(song, sort),
    }
}

fn push_text(out: &mut Vec<u64>, s: &str)
    ensures
        ints(final(out)@) == ints(old(out)@) + text_part(s@),
{
    let chars = chars_of(s);
    let ghost start = ints(out@);
    let mut i: usize = 0;
    while i < chars.len()
        invariant
            i <= chars@.len(),
            chars@ == s@,
            ints(out@) == start + Seq::new(i as nat, |k: int| (chars@[k] as u32) as int + 2),
        decreases chars@.len() - i,
    {
        let c = chars[i];
        let code: u64 = (c as u32) as u64 + 2;
        let ghost before = out@;
        out.push(code);
        proof {
            assert(ints(before.push(code)) =~= ints(before).push(code as int));
            assert(start + Seq::new((i + 1) as nat, |k: int| (chars@[k] as u32) as int + 2) =~= (start + Seq::new(
                i as nat,
                |k: int| (chars@[k] as u32) as int + 2,
            )).push((chars@[i as int] as u32) as int + 2));
        }
        i = i + 1;
    }
    let ghost before = out@;
    out.push(1);
    proof {
        assert(ints(before.push(1)) =~= ints(before).push(1));
        assert(text_part(s@) =~= Seq::new(chars@.len(), |k: int| (chars@[k] as u32) as int + 2).push(1));
        assert(start + text_part(s@) =~= (start + Seq::new(chars@.len(), |k: int| (chars@[k] as u32) as int + 2)).push(
            1,
        ));
    }
}

pub(crate) fn push_path(out: &mut Vec<u64>, comps: &Vec<(u8, String)>)
    ensures
        ints(final(out)@) == ints(old(out)@) + path_part(component_views(comps@)),
{
    let ghost start = ints(out@);
    let ghost all = component_views(comps@);
    let mut i: usize = 0;
    while i < comps.len()
        invariant
            i <= comps@.len(),
            all == component_views(comps@),
            ints(out@) == start + components_part(all.take(i as int)),
        decreases comps@.len() - i,
    {
        let kind = comps[i].0;
        let code: u64 = kind as u64 + 2;
        let ghost before = out@;
        out.push(code);
        assert(ints(before.push(code)) =~= ints(before).push(kind as int + 2));
        push_text(out, comps[i].1.as_str());
        proof {
            assert(all.take(i + 1).drop_last() =~= all.take(i as int));
            assert(all.take(i + 1).last() == all[i as int]);
            assert(all[i as int] == (kind, comps@[i as int].1@));
            assert(start + components_part(all.take(i + 1)) =~= start + components_part(all.take(i as int))
                + component_part(all[i as int]));
            assert(ints(out@) =~= start + components_part(all.take(i as int)) + component_part(all[i as int]));
        }
        i = i + 1;
    }
    assert(all.take(comps@.len() as int) =~= all);
    let ghost before = out@;
    out.push(0);
    assert(ints(before.push(0)) =~= ints(before).push(0));
    assert(start + path_part(all) =~= (start + components_part(all)).push(0));
}

fn relative_dirs_of(path: &str, root: &str) -> (r: Vec<(u8, String)>)
    ensures
        component_views(r@) == relative_dirs(path@, root@),
{
    let stripped = strip_root(path, root);
    let rel: &str = match &stripped {
        Some(r) => r.as_str(),
        None => path,
    };
    match parent_of(rel) {
        Some(p) => path_components(p.as_str()),
        None => {
            let none: Vec<(u8, String)> = Vec::new();
            assert(component_views(none@) =~= Seq::<(u8, Seq<char>)>::empty());
            none
        },
    }
}

fn push_within(out: &mut Vec<u64>, song: &Song, sort: Sort)
    ensures
        ints(final(out)@) == ints(old(out)@) + within_key(*song, sort),
{
    match sort {
        Sort::Title => push_text(out, song.sort_title()),
        Sort::Duration => {
            let ghost start = ints(out@);
            let secs = song.metadata().duration_secs;
            let nanos = song.metadata().duration_nanos as u64;
            out.push(secs);
            out.push(nanos);
            assert(ints(out@) =~= start + seq![secs as int, nanos as int]);
            push_text(out, song.sort_title());
            assert(ints(out@) =~= start + (seq![secs as int, nanos as int] + text_part(title_key(*song))));
        },
        Sort::Artist => {
            let ghost start = ints(out@);
            push_text(out, song.sort_artist());
            push_text(out, song.sort_title());
            assert(ints(out@) =~= start + (text_part(artist_key(*song)) + text_part(title_key(*song))));
        },
        Sort::Path => push_path(out, &path_components(song.path())),
        Sort::DateModified => {
            let ghost start = ints(out@);
            let newest_first: u64 = u64::MAX - song.modified();
            out.push(newest_first);
            assert(ints(out@) =~= start + seq![newest_first as int]);
            push_path(out, &path_components(song.path()));
            assert(ints(out@) =~= start + (seq![u64::MAX - song.modified_view()] + path_part(
                path_components_spec(song.path_view()),
            )));
        },
    }
}

fn listing_key_of(song: &Song, category: Category, sort: Sort, root: &str) -> (r: Vec<u64>)
    ensures
        ints(r@) == listing_key(*song, category, sort, root@),
{
    let mut out: Vec<u64> = Vec::new();
    assert(ints(out@) =~= Seq::<int>::empty());
    match category {
        Category::Ungrouped => {},
        Category::Artist => push_text(&mut out, song.sort_artist()),
        Category::Path => push_path(&mut out, &relative_dirs_of(song.path(), root)),
    }
    push_within(&mut out, song, sort);
    proof {
        match category {
            Category::Ungrouped => assert(ints(out@) =~= within_key(*song, sort)),
            Category::Artist => assert(ints(out@) =~= text_part(artist_key(*song)) + within_key(*song, sort)),
            Category::Path => assert(ints(out@) =~= path_part(relative_dirs(song.path_view(), root@))
                + within_key(*song, sort)),
        }
    }
    out
}

// ---------------------------------------------------------------------------
// Rows
// ---------------------------------------------------------------------------

/// The songs behind a list of references.
pub open spec fn song_values(songs: Seq<&Song>) -> Seq<Song> {
    Seq::new(songs.len(), |i: int| *songs[i])
}

/// `order` lists each position of `songs` once, smaller keys first (songs
/// with equal keys in either order).
pub open spec fn ordered_by(songs: Seq<Song>, order: Seq<usize>, key: spec_fn(Song) -> Seq<int>) -> bool {
    &&& order.len() == songs.len()
    &&& order.to_multiset() == positions(songs.len()).to_multiset()
    &&& all_below(order, songs.len())
    &&& forall|x: int, y: int|
        0 <= x < y < order.len() ==> !seq_less(
            key(songs[#[trigger] order[y] as int]),
            key(songs[#[trigger] order[x] as int]),
        )
}

/// Sorted by artist, with or without artist groups, a song whose artist
/// (in lower case, compared character by character, a text before the
/// longer texts it begins) comes strictly before another's is listed
/// first; between equal artists the title decides.
pub proof fn lemma_artist_sort_lists_by_artist_then_title(
    songs: Seq<Song>,
    order: Seq<usize>,
    category: Category,
    root: Seq<char>,
    x: int,
    y: int,
)
    requires
        category == Category::Ungrouped || category == Category::Artist,
        ordered_by(songs, order, (|s: Song| listing_key(s, category, Sort::Artist, root))),
        0 <= x < y < order.len(),
    ensures
        ({
            let (a, b) = (songs[order[x] as int], songs[order[y] as int]);
            &&& !seq_less(code_points(artist_key(b)), code_points(artist_key(a)))
            &&& code_points(artist_key(a)) == code_points(artist_key(b)) ==> !seq_less(
                code_points(title_key(b)),
                code_points(title_key(a)),
            )
        }),
{
    let (a, b) = (songs[order[x] as int], songs[order[y] as int]);
    let key = |s: Song| listing_key(s, category, Sort::Artist, root);
    assert(!seq_less(key(b), key(a)));
    let wa = text_part(artist_key(a)) + text_part(title_key(a));
    let wb = text_part(artist_key(b)) + text_part(title_key(b));
    if category == Category::Ungrouped {
        assert(key(a) == wa);
        assert(key(b) == wb);
    } else {
        assert(key(a) == text_part(artist_key(a)) + wa);
        assert(key(b) == text_part(artist_key(b)) + wb);
        lemma_text_orders_first(artist_key(b), artist_key(a), wb, wa);
    }
    lemma_text_orders_first(artist_key(b), artist_key(a), text_part(title_key(b)), text_part(title_key(a)));
    assert(text_part(title_key(a)) + Seq::<int>::empty() =~= text_part(title_key(a)));
    assert(text_part(title_key(b)) + Seq::<int>::empty() =~= text_part(title_key(b)));
    lemma_text_orders_first(title_key(b), title_key(a), Seq::<int>::empty(), Seq::<int>::empty());
}

/// The texts of a list of path components.
pub open spec fn component_names(l: Seq<(u8, Seq<char>)>) -> Seq<Seq<char>> {
    Seq::new(l.len(), |i: int| l[i].1)
}

/// The rows for `songs` taken in `order`: one flat list; a heading for
/// each artist; or a heading for each directory, the songs indented below.
pub open spec fn listing_rows(songs: Seq<Song>, order: Seq<usize>, category: Category, root: Seq<char>) -> Seq<
    RowView,
> {
    match category {
        Category::Ungrouped => Seq::new(
            order.len(),
            |i: int| RowView::Song(songs[order[i] as int].id_view(), 0),
        ),
        Category::Artist => artist_rows_spec(
            Seq::new(
                order.len(),
                |i: int|
                    (songs[order[i] as int].id_view(), display_artist(songs[order[i] as int].metadata_view())),
            ),
        ),
        Category::Path => dir_rows_spec(
            Seq::new(
                order.len(),
                |i: int|
                    (
                        songs[order[i] as int].id_view(),
                        component_names(relative_dirs(songs[order[i] as int].path_view(), root)),
                    ),
            ),
        ),
    }
}

fn names_of(comps: &Vec<(u8, String)>) -> (r: Vec<String>)
    ensures
        Seq::new(r@.len(), |k: int| r@[k]@) == component_names(component_views(comps@)),
{
    let mut out: Vec<String> = Vec::new();
    let mut i: usize = 0;
    while i < comps.len()
        invariant
            i <= comps@.len(),
            out@.len() == i,
            forall|k: int| 0 <= k < i ==> #[trigger] out@[k]@ == comps@[k].1@,
        decreases comps@.len() - i,
    {
        out.push(comps[i].1.clone());
        i = i + 1;
    }
    assert(Seq::new(out@.len(), |k: int| out@[k]@) =~= component_names(component_views(comps@)));
    out
}

/// The rows a panel shows for `songs`, grouped by `category` and ordered
/// by `sort` within each group; directories are taken below `root`.
pub fn build_rows(songs: &[&Song], category: Category, sort: Sort, root: &str) -> (r: Vec<Row>)
    ensures
        exists|order: Seq<usize>|
            #![trigger listing_rows(song_values(songs@), order, category, root@)]
            ordered_by(
                song_values(songs@),
                order,
                (|s: Song| listing_key(s, category, sort, root@)),
            ) && row_views(r@) == listing_rows(song_values(songs@), order, category, root@),
{
    let ghost all = song_values(songs@);
    let mut keys: Vec<Vec<u64>> = Vec::new();
    let mut i: usize = 0;
    while i < songs.len()
        invariant
            i <= songs@.len(),
            all == song_values(songs@),
            keys@.len() == i,
            forall|k: int| 0 <= k < i ==> #[trigger] ints(keys@[k]@) == listing_key(all[k], category, sort, root@),
        decreases songs@.len() - i,
    {
        keys.push(listing_key_of(songs[i], category, sort, root));
        i = i + 1;
    }
    let order = order_by_keys(&keys);
    let ghost key = |s: Song| listing_key(s, category, sort, root@);
    proof {
        assert forall|x: int, y: int| 0 <= x < y < order@.len() implies !seq_less(
            key(all[#[trigger] order@[y] as int]),
            key(all[#[trigger] order@[x] as int]),
        ) by {
            assert(order@[x] < keys@.len() && order@[y] < keys@.len());
            assert(ints(keys@[order@[x] as int]@) == key(all[order@[x] as int]));
            assert(ints(keys@[order@[y] as int]@) == key(all[order@[y] as int]));
        }
        assert(ordered_by(all, order@, key));
    }
    let rows = match category {
        Category::Ungrouped => {
            let mut rows: Vec<Row> = Vec::new();
            let mut k: usize = 0;
            while k < order.len()
                invariant
                    k <= order@.len(),
                    all == song_values(songs@),
                    all_below(order@, songs@.len()),
                    row_views(rows@) =~= Seq::new(
                        k as nat,
                        |j: int| RowView::Song(all[order@[j] as int].id_view(), 0),
                    ),
                decreases order@.len() - k,
            {
                let song = songs[order[k]];
                proof {
                    assert(order@[k as int] < songs@.len());
                    assert(*song == all[order@[k as int] as int]);
                }
                let ghost before = rows@;
                rows.push(Row::Song(song.id(), 0));
                assert(row_views(rows@) =~= row_views(before).push(
                    RowView::Song(all[order@[k as int] as int].id_view(), 0),
                ));
                k = k + 1;
                assert(row_views(rows@) =~= Seq::new(
                    k as nat,
                    |j: int| RowView::Song(all[order@[j] as int].id_view(), 0),
                ));
            }
            rows
        },
        Category::Artist => {
            let mut pairs: Vec<(SongId, String)> = Vec::new();
            let mut k: usize = 0;
            while k < order.len()
                invariant
                    k <= order@.len(),
                    all == song_values(songs@),
                    all_below(order@, songs@.len()),
                    pairs@.len() == k,
                    forall|j: int|
                        0 <= j < k ==> #[trigger] artist_views(pairs@)[j] == (
                            all[order@[j] as int].id_view(),
                            display_artist(all[order@[j] as int].metadata_view()),
                        ),
                decreases order@.len() - k,
            {
                let song = songs[order[k]];
                proof {
                    assert(order@[k as int] < songs@.len());
                    assert(*song == all[order@[k as int] as int]);
                }
                let ghost before = pairs@;
                let artist = song.artist().to_string();
                assert(artist@ == display_artist(all[order@[k as int] as int].metadata_view()));
                pairs.push((song.id(), artist));
                assert(artist_views(pairs@) =~= artist_views(before).push(
                    (all[order@[k as int] as int].id_view(), display_artist(all[order@[k as int] as int].metadata_view())),
                ));
                k = k + 1;
                assert forall|j: int| 0 <= j < k implies #[trigger] artist_views(pairs@)[j] == (
                    all[order@[j] as int].id_view(),
                    display_artist(all[order@[j] as int].metadata_view()),
                ) by {
                    if j < k - 1 {
                        assert(artist_views(pairs@)[j] == (pairs@[j].0, pairs@[j].1@));
                    }
                }
            }
            assert(artist_views(pairs@) =~= Seq::new(
                order@.len(),
                |i: int| (all[order@[i] as int].id_view(), display_artist(all[order@[i] as int].metadata_view())),
            ));
            artist_rows(pairs.as_slice())
        },
        Category::Path => {
            let mut pairs: Vec<(SongId, Vec<String>)> = Vec::new();
            let mut k: usize = 0;
            while k < order.len()
                invariant
                    k <= order@.len(),
                    all == song_values(songs@),
                    all_below(order@, songs@.len()),
                    pairs@.len() == k,
                    forall|j: int|
                        0 <= j < k ==> #[trigger] dir_views(pairs@)[j] == (
                            all[order@[j] as int].id_view(),
                            component_names(relative_dirs(all[order@[j] as int].path_view(), root@)),
                        ),
                decreases order@.len() - k,
            {
                let song = songs[order[k]];
                proof {
                    assert(order@[k as int] < songs@.len());
                    assert(*song == all[order@[k as int] as int]);
                }
                let ghost before = pairs@;
                let names = names_of(&relative_dirs_of(song.path(), root));
                pairs.push((song.id(), names));
                assert(dir_views(pairs@) =~= dir_views(before).push(
                    (
                        all[order@[k as int] as int].id_view(),
                        component_names(relative_dirs(all[order@[k as int] as int].path_view(), root@)),
                    ),
                ));
                k = k + 1;
                assert forall|j: int| 0 <= j < k implies #[trigger] dir_views(pairs@)[j] == (
                    all[order@[j] as int].id_view(),
                    component_names(relative_dirs(all[order@[j] as int].path_view(), root@)),
                ) by {
                    assert(dir_views(pairs@)[j] == (
                        pairs@[j].0,
                        Seq::new(pairs@[j].1@.len(), |m: int| pairs@[j].1@[m]@),
                    ));
                }
            }
            assert(dir_views(pairs@) =~= Seq::new(
                order@.len(),
                |i: int|
                    (
                        all[order@[i] as int].id_view(),
                        component_names(relative_dirs(all[order@[i] as int].path_view(), root@)),
                    ),
            ));
            dir_rows(pairs.as_slice())
        },
    };
    assert(ordered_by(all, order@, key) && row_views(rows@) == listing_rows(all, order@, category, root@));
    rows
}

/// The heading a song falls under: none when the list is not grouped;
/// its artist; or the innermost directory it lies in below `root` (none
/// for a song directly in the root).
pub open spec fn group_label_spec(song: Song, category: Category, root: Seq<char>) -> Option<Seq<char>> {
    match category {
        Category::Ungrouped => None,
        Category::Artist => Some(display_artist(song.metadata_view())),
        Category::Path => {
            let dirs = relative_dirs(song.path_view(), root);
            if dirs.len() == 0 {
                None
            } else {
                Some(dirs.last().1)
            }
        },
    }
}

/// See [`group_label_spec`].
pub fn group_label(song: &Song, category: Category, root: &str) -> (r: Option<String>)
    ensures
        match r {
            Some(t) => group_label_spec(*song, category, root@) == Some(t@),
            None => group_label_spec(*song, category, root@) is None,
        },
{
    match category {
        Category::Ungrouped => None,
        Category::Artist => Some(song.artist().to_string()),
        Category::Path => {
            let dirs = relative_dirs_of(song.path(), root);
            if dirs.len() == 0 {
                None
            } else {
                let last = dirs.len() - 1;
                assert(component_views(dirs@)[last as int] == (dirs@[last as int].0, dirs@[last as int].1@));
                Some(dirs[last].1.clone())
            }
        },
    }
}

// ---------------------------------------------------------------------------
// Search results
// ---------------------------------------------------------------------------

/// A song's score against a search.
pub open spec fn song_score(song: Song, query: FuzzyQuery) -> Option<u32> {
    query_score(song.fields(), query.terms_view(), query.phrase_view())
}

/// The songs of `songs` that match the search, in their order.
pub open spec fn matching(songs: Seq<Song>, query: FuzzyQuery) -> Seq<Song>
    decreases songs.len(),
{
    if songs.len() == 0 {
        Seq::empty()
    } else {
        let rest = matching(songs.drop_last(), query);
        if song_score(songs.last(), query) is Some {
            rest.push(songs.last())
        } else {
            rest
        }
    }
}

/// What search results are ordered by: the higher score first, then the
/// title.
pub open spec fn relevance_key(song: Song, query: FuzzyQuery) -> Seq<int> {
    seq![u32::MAX - song_score(song, query).unwrap()] + text_part(title_key(song))
}

/// `order` lists the songs of `songs` once each, by relevance to `query`.
pub open spec fn ordered_by_relevance(songs: Seq<Song>, order: Seq<usize>, query: FuzzyQuery) -> bool {
    ordered_by(songs, order, (|s: Song| relevance_key(s, query)))
}

/// The songs that match `query`, the best match first and equal scores
/// by title.
pub fn fuzzy_filter_and_sort<'a>(songs: &[&'a Song], query: &FuzzyQuery) -> (r: Vec<&'a Song>)
    ensures
        exists|order: Seq<usize>|
            #![trigger ordered_by_relevance(matching(song_values(songs@), *query), order, *query)]
            ordered_by_relevance(matching(song_values(songs@), *query), order, *query) && song_values(r@) == Seq::new(
                order.len(),
                |i: int| matching(song_values(songs@), *query)[order[i] as int],
            ),
{
    let ghost all = song_values(songs@);
    let mut found: Vec<&'a Song> = Vec::new();
    let mut keys: Vec<Vec<u64>> = Vec::new();
    let mut i: usize = 0;
    while i < songs.len()
        invariant
            i <= songs@.len(),
            all == song_values(songs@),
            song_values(found@) == matching(all.take(i as int), *query),
            keys@.len() == found@.len(),
            forall|k: int|
                0 <= k < keys@.len() ==> #[trigger] ints(keys@[k]@) == relevance_key(*found@[k], *query),
        decreases songs@.len() - i,
    {
        let song = songs[i];
        assert(all.take(i + 1).drop_last() =~= all.take(i as int));
        assert(all.take(i + 1).last() == *song);
        match song.fuzzy_score(query) {
            Some(score) => {
                let mut key: Vec<u64> = Vec::new();
                let best_first: u64 = (u32::MAX - score) as u64;
                key.push(best_first);
                assert(ints(key@) =~= seq![best_first as int]);
                push_text(&mut key, song.sort_title());
                assert(ints(key@) =~= relevance_key(*song, *query));
                let ghost before = found@;
                found.push(song);
                keys.push(key);
                assert(song_values(found@) =~= song_values(before).push(*song));
            },
            None => {},
        }
        i = i + 1;
    }
    assert(all.take(songs@.len() as int) =~= all);
    let order = order_by_keys(&keys);
    let ghost matched = matching(all, *query);
    let ghost key = |s: Song| relevance_key(s, *query);
    proof {
        assert forall|x: int, y: int| 0 <= x < y < order@.len() implies !seq_less(
            key(matched[#[trigger] order@[y] as int]),
            key(matched[#[trigger] order@[x] as int]),
        ) by {
            assert(order@[x] < keys@.len() && order@[y] < keys@.len());
            assert(matched[order@[x] as int] == *found@[order@[x] as int]);
            assert(matched[order@[y] as int] == *found@[order@[y] as int]);
        }
        assert(ordered_by(matched, order@, key));
    }
    let mut out: Vec<&'a Song> = Vec::new();
    let mut k: usize = 0;
    while k < order.len()
        invariant
            k <= order@.len(),
            all_below(order@, found@.len()),
            matched == song_values(found@),
            song_values(out@) =~= Seq::new(k as nat, |j: int| matched[order@[j] as int]),
        decreases order@.len() - k,
    {
        let song = found[order[k]];
        proof {
            assert(order@[k as int] < found@.len());
            assert(*song == matched[order@[k as int] as int]);
        }
        let ghost before = out@;
        out.push(song);
        assert(song_values(out@) =~= song_values(before).push(matched[order@[k as int] as int]));
        k = k + 1;
        assert(song_values(out@) =~= Seq::new(k as nat, |j: int| matched[order@[j] as int]));
    }
    assert(ordered_by_relevance(matched, order@, *query) && song_values(out@) == Seq::new(
        order@.len(),
        |i: int| matched[order@[i] as int],
    ));
    out
}

/// One row for each of `songs`, in their order.
pub fn build_relevance_rows(songs: &[&Song]) -> (r: Vec<Row>)
    ensures
        row_views(r@) == Seq::new(songs@.len(), |i: int| RowView::Song(songs@[i].id_view(), 0)),
{
    let mut rows: Vec<Row> = Vec::new();
    let mut k: usize = 0;
    while k < songs.len()
        invariant
            k <= songs@.len(),
            row_views(rows@) =~= Seq::new(k as nat, |j: int| RowView::Song(songs@[j].id_view(), 0)),
        decreases songs@.len() - k,
    {
        let ghost before = rows@;
        rows.push(Row::Song(songs[k].id(), 0));
        assert(row_views(rows@) =~= row_views(before).push(RowView::Song(songs@[k as int].id_view(), 0)));
        k = k + 1;
    }
    rows
}

// ---------------------------------------------------------------------------
// Songs by artist
// ---------------------------------------------------------------------------

/// The ids of the songs of `songs`, other than `exclude`, whose sort
/// artist is `artist`, in their order.
pub open spec fn ids_with_artist(songs: Seq<Song>, artist: Seq<char>, exclude: SongId) -> Seq<SongId>
    decreases songs.len(),
{
    if songs.len() == 0 {
        Seq::empty()
    } else {
        let rest = ids_with_artist(songs.drop_last(), artist, exclude);
        let last = songs.last();
        if last.id_view() != exclude && artist_key(last) == artist {
            rest.push(last.id_view())
        } else {
            rest
        }
    }
}

/// See [`ids_with_artist`].
pub fn ids_with_artist_key(songs: &[&Song], artist_sort_key: &str, exclude: SongId) -> (r: Vec<SongId>)
    ensures
        r@ == ids_with_artist(song_values(songs@), artist_sort_key@, exclude),
{
    let ghost all = song_values(songs@);
    let wanted = chars_of(artist_sort_key);
    let mut out: Vec<SongId> = Vec::new();
    let mut i: usize = 0;
    while i < songs.len()
        invariant
            i <= songs@.len(),
            all == song_values(songs@),
            wanted@ == artist_sort_key@,
            out@ == ids_with_artist(all.take(i as int), artist_sort_key@, exclude),
        decreases songs@.len() - i,
    {
        let song = songs[i];
        assert(all.take(i + 1).drop_last() =~= all.take(i as int));
        assert(all.take(i + 1).last() == *song);
        let artist = chars_of(song.sort_artist());
        let id = song.id();
        if !(id == exclude) && chars_equal(artist.as_slice(), wanted.as_slice()) {
            out.push(id);
        }
        i = i + 1;
    }
    assert(all.take(songs@.len() as int) =~= all);
    out
}

/// How many songs of `songs`, other than `exclude`, have the sort artist
/// `artist_sort_key`.
pub fn count_matching_artist(songs: &[&Song], artist_sort_key: &str, exclude: SongId) -> (r: usize)
    ensures
        r == ids_with_artist(song_values(songs@), artist_sort_key@, exclude).len(),
{
    ids_with_artist_key(songs, artist_sort_key, exclude).len()
}

} // verus!
