//! Which playlists the song menu offers when songs are to be added to a
//! playlist or removed from one.

use vstd::prelude::*;

use crate::playlist::{holds, same_id, without_song, Mutated, PlaylistId, PlaylistStore, PlaylistView};
use crate::strings::{add_batch_message, batch_message_spec, remove_batch_message, status_kind_for, StatusKind};
use crate::keymap::{modal_lookup, modal_lookup_spec, KeyCode, KeyModifiers, ModalKey};
use crate::song::{decimal_digits, decimal_usize, SongId};
use crate::text::{chars_of, string_from_chars, trim, trim_seq};

verus! {

/// The playlists the menu lists, the first one selected.
#[derive(Debug, Clone, PartialEq, Eq)]
pub enum PlaylistPicker {
    /// Adding: the playlists to choose from, and those left out because
    /// the songs are already there (or the playlist is the one on view).
    Add { options: Vec<PlaylistId>, pinned: Vec<PlaylistId>, selected: usize },
    /// Removing: the playlists that hold some of the songs.
    Remove { options: Vec<PlaylistId>, selected: usize },
}

/// Playlist `pid` holds every one of `songs`.
pub open spec fn holds_all(map: Map<PlaylistId, PlaylistView>, pid: PlaylistId, songs: Seq<SongId>) -> bool {
    forall|k: int| 0 <= k < songs.len() ==> holds(map, pid, #[trigger] songs[k])
}

/// Playlist `pid` holds at least one of `songs`.
pub open spec fn holds_any(map: Map<PlaylistId, PlaylistView>, pid: PlaylistId, songs: Seq<SongId>) -> bool {
    exists|k: int| 0 <= k < songs.len() && holds(map, pid, #[trigger] songs[k])
}

/// The identifiers of `ids` for which `keep` holds, in their order.
pub open spec fn kept(ids: Seq<PlaylistId>, keep: spec_fn(PlaylistId) -> bool) -> Seq<PlaylistId>
    decreases ids.len(),
{
    if ids.len() == 0 {
        Seq::empty()
    } else {
        let rest = kept(ids.drop_last(), keep);
        if keep(ids.last()) {
            rest.push(ids.last())
        } else {
            rest
        }
    }
}

/// The playlists left out of the add menu: the one on view, then every
/// other playlist, in listing order, that already holds all the songs.
pub open spec fn pinned_spec(
    map: Map<PlaylistId, PlaylistView>,
    sorted: Seq<PlaylistId>,
    viewing: Option<PlaylistId>,
    songs: Seq<SongId>,
) -> Seq<PlaylistId> {
    let first = match viewing {
        Some(v) => seq![v],
        None => Seq::empty(),
    };
    first + kept(sorted, (|id: PlaylistId| Some(id) != viewing && holds_all(map, id, songs)))
}

/// The playlists the add menu offers: every other one, in listing order.
pub open spec fn add_options_spec(
    map: Map<PlaylistId, PlaylistView>,
    sorted: Seq<PlaylistId>,
    viewing: Option<PlaylistId>,
    songs: Seq<SongId>,
) -> Seq<PlaylistId> {
    kept(sorted, (|id: PlaylistId| Some(id) != viewing && !holds_all(map, id, songs)))
}

/// The playlists the remove menu offers: those holding any of the songs.
pub open spec fn remove_options_spec(
    map: Map<PlaylistId, PlaylistView>,
    sorted: Seq<PlaylistId>,
    songs: Seq<SongId>,
) -> Seq<PlaylistId> {
    kept(sorted, (|id: PlaylistId| holds_any(map, id, songs)))
}

fn holds_every(playlists: &PlaylistStore, id: PlaylistId, songs: &[SongId]) -> (r: bool)
    ensures
        r == holds_all(playlists.playlists_view(), id, songs@),
{
    let mut k: usize = 0;
    while k < songs.len()
        invariant
            k <= songs@.len(),
            forall|j: int| 0 <= j < k ==> holds(playlists.playlists_view(), id, #[trigger] songs@[j]),
        decreases songs@.len() - k,
    {
        if !playlists.contains(id, songs[k]) {
            return false;
        }
        k = k + 1;
    }
    true
}

fn holds_some(playlists: &PlaylistStore, id: PlaylistId, songs: &[SongId]) -> (r: bool)
    ensures
        r == holds_any(playlists.playlists_view(), id, songs@),
{
    let mut k: usize = 0;
    while k < songs.len()
        invariant
            k <= songs@.len(),
            forall|j: int| 0 <= j < k ==> !holds(playlists.playlists_view(), id, #[trigger] songs@[j]),
        decreases songs@.len() - k,
    {
        if playlists.contains(id, songs[k]) {
            assert(holds(playlists.playlists_view(), id, songs@[k as int]));
            return true;
        }
        k = k + 1;
    }
    false
}

/// The add menu for `songs`: the playlists they can be added to, the one
/// on view and those already holding every song left out; none when no
/// playlist is left to offer.
pub fn add_to_playlist_picker(
    playlists: &PlaylistStore,
    currently_viewing: Option<PlaylistId>,
    songs: &[SongId],
) -> (r: Option<PlaylistPicker>)
    ensures
        ({
            let map = playlists.playlists_view();
            let sorted = playlists.sorted_view();
            let options = add_options_spec(map, sorted, currently_viewing, songs@);
            match r {
                Some(PlaylistPicker::Add { options: o, pinned: p, selected }) => {
                    &&& o@ == options
                    &&& p@ == pinned_spec(map, sorted, currently_viewing, songs@)
                    &&& selected == 0
                    &&& options.len() > 0
                },
                Some(PlaylistPicker::Remove { .. }) => false,
                None => options.len() == 0,
            }
        }),
{
    let ghost map = playlists.playlists_view();
    let sorted = playlists.ids_sorted_by_name();
    let ghost take_pinned = |id: PlaylistId| Some(id) != currently_viewing && holds_all(map, id, songs@);
    let ghost take_option = |id: PlaylistId| Some(id) != currently_viewing && !holds_all(map, id, songs@);
    let mut pinned: Vec<PlaylistId> = Vec::new();
    match currently_viewing {
        Some(v) => pinned.push(v),
        None => {},
    }
    let ghost first = pinned@;
    let mut options: Vec<PlaylistId> = Vec::new();
    let mut i: usize = 0;
    while i < sorted.len()
        invariant
            i <= sorted@.len(),
            sorted@ == playlists.sorted_view(),
            map == playlists.playlists_view(),
            first == match currently_viewing {
                Some(v) => seq![v],
                None => Seq::<PlaylistId>::empty(),
            },
            take_pinned == (|id: PlaylistId| Some(id) != currently_viewing && holds_all(map, id, songs@)),
            take_option == (|id: PlaylistId| Some(id) != currently_viewing && !holds_all(map, id, songs@)),
            pinned@ == first + kept(sorted@.take(i as int), take_pinned),
            options@ == kept(sorted@.take(i as int), take_option),
        decreases sorted@.len() - i,
    {
        let id = sorted[i];
        assert(sorted@.take(i + 1).drop_last() =~= sorted@.take(i as int));
        assert(sorted@.take(i + 1).last() == id);
        let viewed = match currently_viewing {
            Some(v) => same_id(&v, &id),
            None => false,
        };
        if !viewed {
            if holds_every(playlists, id, songs) {
                pinned.push(id);
                assert(pinned@ =~= first + kept(sorted@.take(i + 1), take_pinned));
            } else {
                options.push(id);
            }
        }
        i = i + 1;
    }
    assert(sorted@.take(sorted@.len() as int) =~= sorted@);
    if options.len() == 0 {
        return None;
    }
    Some(PlaylistPicker::Add { options, pinned, selected: 0 })
}

/// The remove menu for `songs`: the playlists holding any of them; none
/// when no playlist holds one.
pub fn remove_from_playlist_picker(playlists: &PlaylistStore, songs: &[SongId]) -> (r: Option<
    PlaylistPicker,
>)
    ensures
        ({
            let options = remove_options_spec(playlists.playlists_view(), playlists.sorted_view(), songs@);
            match r {
                Some(PlaylistPicker::Remove { options: o, selected }) => {
                    &&& o@ == options
                    &&& selected == 0
                    &&& options.len() > 0
                },
                Some(PlaylistPicker::Add { .. }) => false,
                None => options.len() == 0,
            }
        }),
{
    let ghost map = playlists.playlists_view();
    let sorted = playlists.ids_sorted_by_name();
    let ghost take_option = |id: PlaylistId| holds_any(map, id, songs@);
    let mut options: Vec<PlaylistId> = Vec::new();
    let mut i: usize = 0;
    while i < sorted.len()
        invariant
            i <= sorted@.len(),
            sorted@ == playlists.sorted_view(),
            map == playlists.playlists_view(),
            take_option == (|id: PlaylistId| holds_any(map, id, songs@)),
            options@ == kept(sorted@.take(i as int), take_option),
        decreases sorted@.len() - i,
    {
        let id = sorted[i];
        assert(sorted@.take(i + 1).drop_last() =~= sorted@.take(i as int));
        assert(sorted@.take(i + 1).last() == id);
        if holds_some(playlists, id, songs) {
            options.push(id);
        }
        i = i + 1;
    }
    assert(sorted@.take(sorted@.len() as int) =~= sorted@);
    if options.len() == 0 {
        return None;
    }
    Some(PlaylistPicker::Remove { options, selected: 0 })
}

/// The actions of the song menu.
#[derive(Debug, Clone, Copy, PartialEq, Eq, Structural)]
pub enum ChooseActionField {
    AddToPlaylist,
    RemoveFromPlaylist,
    CreatePlaylist,
}

/// Some song of `songs` is in some playlist.
pub open spec fn any_listed(map: Map<PlaylistId, PlaylistView>, songs: Seq<SongId>) -> bool {
    exists|k: int, pid: PlaylistId| 0 <= k < songs.len() && #[trigger] holds(map, pid, songs[k])
}

/// The actions the song menu offers for `songs`, in order: adding when
/// there is a playlist, removing when one of the songs is in a playlist,
/// and creating a playlist always.
pub fn visible_choose_action_fields(playlists: &PlaylistStore, songs: &[SongId]) -> (r: Vec<ChooseActionField>)
    ensures
        r@ == (if playlists.sorted_view().len() > 0 {
            seq![ChooseActionField::AddToPlaylist]
        } else {
            Seq::empty()
        }) + (if any_listed(playlists.playlists_view(), songs@) {
            seq![ChooseActionField::RemoveFromPlaylist]
        } else {
            Seq::empty()
        }) + seq![ChooseActionField::CreatePlaylist],
{
    let mut fields: Vec<ChooseActionField> = Vec::new();
    if !playlists.is_empty() {
        fields.push(ChooseActionField::AddToPlaylist);
    }
    let mut listed = false;
    let mut k: usize = 0;
    while k < songs.len()
        invariant
            k <= songs@.len(),
            listed == exists|j: int, pid: PlaylistId|
                0 <= j < k && #[trigger] holds(playlists.playlists_view(), pid, songs@[j]),
        decreases songs@.len() - k,
    {
        let ids = playlists.containing(songs[k]);
        if ids.len() > 0 {
            assert(ids@.contains(ids@[0]));
            assert(holds(playlists.playlists_view(), ids@[0], songs@[k as int]));
            listed = true;
        } else {
            assert forall|pid: PlaylistId| !holds(playlists.playlists_view(), pid, songs@[k as int]) by {
                if holds(playlists.playlists_view(), pid, songs@[k as int]) {
                    assert(ids@.contains(pid));
                }
            }
        }
        k = k + 1;
    }
    if listed {
        fields.push(ChooseActionField::RemoveFromPlaylist);
    }
    fields.push(ChooseActionField::CreatePlaylist);
    assert(fields@ =~= (if playlists.sorted_view().len() > 0 {
        seq![ChooseActionField::AddToPlaylist]
    } else {
        Seq::empty()
    }) + (if any_listed(playlists.playlists_view(), songs@) {
        seq![ChooseActionField::RemoveFromPlaylist]
    } else {
        Seq::empty()
    }) + seq![ChooseActionField::CreatePlaylist]);
    fields
}

/// Which of the two menus a list of playlists belongs to.
#[derive(Debug, Clone, Copy, PartialEq, Eq, Structural)]
pub enum PickerKind {
    Add,
    Remove,
}

fn copy_ids(ids: &[PlaylistId]) -> (r: Vec<PlaylistId>)
    ensures
        r@ == ids@,
{
    let mut out: Vec<PlaylistId> = Vec::new();
    let mut k: usize = 0;
    while k < ids.len()
        invariant
            k <= ids@.len(),
            out@ == ids@.take(k as int),
        decreases ids@.len() - k,
    {
        out.push(ids[k]);
        k = k + 1;
        assert(out@ =~= ids@.take(k as int));
    }
    assert(ids@.take(ids@.len() as int) =~= ids@);
    out
}

/// A menu of `kind` offering `options`, with `pinned` left out (none when
/// not given; a remove menu has none) and `selected` chosen.
pub fn rebuild_picker(kind: PickerKind, options: &[PlaylistId], pinned: Option<Vec<PlaylistId>>, selected: usize) -> (r:
    PlaylistPicker)
    ensures
        match kind {
            PickerKind::Add => r matches PlaylistPicker::Add { options: o, pinned: p, selected: s } && o@
                == options@ && s == selected && p@ == match pinned {
                Some(v) => v@,
                None => Seq::<PlaylistId>::empty(),
            },
            PickerKind::Remove => r matches PlaylistPicker::Remove { options: o, selected: s } && o@ == options@
                && s == selected,
        },
{
    match kind {
        PickerKind::Add => PlaylistPicker::Add {
            options: copy_ids(options),
            pinned: match pinned {
                Some(v) => v,
                None => Vec::new(),
            },
            selected,
        },
        PickerKind::Remove => PlaylistPicker::Remove { options: copy_ids(options), selected },
    }
}

/// Adding `songs` one after another to a playlist holding `list`: what it
/// then holds, and how many songs were new to it.
pub open spec fn add_each(list: Seq<SongId>, songs: Seq<SongId>) -> (Seq<SongId>, nat)
    decreases songs.len(),
{
    if songs.len() == 0 {
        (list, 0)
    } else {
        let (l, n) = add_each(list, songs.drop_last());
        if l.contains(songs.last()) {
            (l, n)
        } else {
            (l.push(songs.last()), n + 1)
        }
    }
}

/// Removing `songs` one after another from a playlist holding `list`: what
/// it then holds, and how many songs it held.
pub open spec fn remove_each(list: Seq<SongId>, songs: Seq<SongId>) -> (Seq<SongId>, nat)
    decreases songs.len(),
{
    if songs.len() == 0 {
        (list, 0)
    } else {
        let (l, n) = remove_each(list, songs.drop_last());
        if l.contains(songs.last()) {
            (without_song(l, songs.last()), n + 1)
        } else {
            (l, n)
        }
    }
}

/// What a choice in a menu of `kind` does to a playlist holding `list`.
pub open spec fn apply_each(kind: PickerKind, list: Seq<SongId>, songs: Seq<SongId>) -> (Seq<SongId>, nat) {
    match kind {
        PickerKind::Add => add_each(list, songs),
        PickerKind::Remove => remove_each(list, songs),
    }
}

/// The report on a choice: the batch message for how many songs changed
/// the playlist called `name`.
pub open spec fn choice_message(kind: PickerKind, done: nat, total: nat, name: Seq<char>) -> Seq<char> {
    match kind {
        PickerKind::Add => batch_message_spec("added"@, "to"@, "already in"@, done, total, name),
        PickerKind::Remove => batch_message_spec("removed"@, "from"@, "not in"@, done, total, name),
    }
}

/// Applies a choice in the menu: adds each of `songs` to playlist `target`
/// or removes each from it, and reports how many actually changed it (as
/// news when none did, as a success otherwise). A playlist that is gone
/// is left alone and reported under an empty name.
pub fn apply_picker_choice(store: &mut PlaylistStore, kind: PickerKind, target: PlaylistId, songs: &[SongId]) -> (r: (
    String,
    StatusKind,
))
    ensures
        !old(store).playlists_view().contains_key(target) ==> {
            &&& *final(store) == *old(store)
            &&& r.0@ == choice_message(kind, 0, songs@.len(), Seq::empty())
            &&& r.1 == StatusKind::Info
        },
        old(store).playlists_view().contains_key(target) ==> {
            let before = old(store).playlists_view()[target];
            let (after, done) = apply_each(kind, before.songs, songs@);
            &&& final(store).playlists_view() == old(store).playlists_view().insert(
                target,
                PlaylistView { songs: after, ..before },
            )
            &&& final(store).sorted_view() == old(store).sorted_view()
            &&& r.0@ == choice_message(kind, done, songs@.len(), before.name)
            &&& r.1 == if done == 0 {
                StatusKind::Info
            } else {
                StatusKind::Success
            }
        },
{
    let name = match store.get(target) {
        Some(p) => p.name().to_string(),
        None => {
            let message = match kind {
                PickerKind::Add => add_batch_message(0, songs.len(), ""),
                PickerKind::Remove => remove_batch_message(0, songs.len(), ""),
            };
            proof {
                reveal_strlit("");
            }
            return (message, status_kind_for(0));
        },
    };
    let ghost start = old(store).playlists_view();
    let ghost before = start[target];
    let mut done: usize = 0;
    let mut i: usize = 0;
    while i < songs.len()
        invariant
            i <= songs@.len(),
            done <= i,
            start.contains_key(target),
            before == start[target],
            store.playlists_view() == start.insert(
                target,
                PlaylistView { songs: apply_each(kind, before.songs, songs@.take(i as int)).0, ..before },
            ),
            store.sorted_view() == old(store).sorted_view(),
            done == apply_each(kind, before.songs, songs@.take(i as int)).1,
        decreases songs@.len() - i,
    {
        let song = songs[i];
        let ghost prev = store.playlists_view();
        proof {
            assert(songs@.take(i + 1).drop_last() =~= songs@.take(i as int));
            assert(songs@.take(i + 1).last() == song);
            assert(prev.contains_key(target));
            assert(prev[target].songs == apply_each(kind, before.songs, songs@.take(i as int)).0);
        }
        let changed = match kind {
            PickerKind::Add => store.add_song(target, song),
            PickerKind::Remove => store.remove_song(target, song),
        };
        match changed {
            Mutated::Yes => {
                done = done + 1;
            },
            Mutated::No => {},
        }
        proof {
            assert(store.playlists_view() =~= start.insert(
                target,
                PlaylistView { songs: apply_each(kind, before.songs, songs@.take(i + 1)).0, ..before },
            ));
        }
        i = i + 1;
    }
    assert(songs@.take(songs@.len() as int) =~= songs@);
    let message = match kind {
        PickerKind::Add => add_batch_message(done, songs.len(), name.as_str()),
        PickerKind::Remove => remove_batch_message(done, songs.len(), name.as_str()),
    };
    (message, status_kind_for(done))
}

// ---------------------------------------------------------------------------
// The song menu, key by key
// ---------------------------------------------------------------------------

/// The song menu: the song it acts on (or the selected songs, when a batch
/// is selected), the action selected, the name typed for a new playlist,
/// and the list of playlists open for adding or removing, if any.
#[derive(Debug)]
pub struct SongMenu {
    pub song: SongId,
    pub batch: Option<Vec<SongId>>,
    pub selected: ChooseActionField,
    pub name_input: String,
    pub picker: Option<PlaylistPicker>,
}

/// What a key in the song menu reports.
#[derive(Debug, Clone, PartialEq, Eq)]
pub enum MenuEffect {
    Nothing,
    Status(String, StatusKind),
}

/// The songs the menu acts on.
pub open spec fn menu_songs(song: SongId, batch: Option<Vec<SongId>>) -> Seq<SongId> {
    match batch {
        Some(v) => v@,
        None => seq![song],
    }
}

/// The position of `f` in `fields`, if it is there, else -1.
pub open spec fn field_position<T>(fields: Seq<T>, f: T) -> int
    decreases fields.len(),
{
    if fields.len() == 0 {
        -1
    } else if fields[0] == f {
        0
    } else {
        let rest = field_position(fields.drop_first(), f);
        if rest < 0 {
            -1
        } else {
            rest + 1
        }
    }
}

/// The action one step on from `current` among `fields`, forwards or
/// backwards, wrapping; the first one when `current` is not among them.
pub open spec fn cycle_spec<T>(fields: Seq<T>, current: T, forward: bool) -> T {
    let n = fields.len() as int;
    let i = field_position(fields, current);
    if n == 0 {
        current
    } else if i < 0 {
        fields[0]
    } else if forward {
        fields[(i + 1) % n]
    } else {
        fields[(i + n - 1) % n]
    }
}

pub(crate) proof fn lemma_field_position<T>(fields: Seq<T>, f: T)
    ensures
        -1 <= field_position(fields, f) < fields.len(),
        field_position(fields, f) >= 0 ==> fields[field_position(fields, f)] == f,
        field_position(fields, f) < 0 ==> !fields.contains(f),
    decreases fields.len(),
{
    if fields.len() > 0 && fields[0] != f {
        lemma_field_position(fields.drop_first(), f);
        if field_position(fields.drop_first(), f) < 0 {
            assert forall|k: int| 0 <= k < fields.len() implies fields[k] != f by {
                if k > 0 {
                    assert(fields[k] == fields.drop_first()[k - 1]);
                }
            }
        }
    }
}

fn cycle_field(fields: &Vec<ChooseActionField>, current: ChooseActionField, forward: bool) -> (r: ChooseActionField)
    ensures
        r == cycle_spec(fields@, current, forward),
{
    let n = fields.len();
    if n == 0 {
        return current;
    }
    let mut i: usize = 0;
    while i < n && !(fields[i] == current)
        invariant
            n == fields@.len(),
            i <= n,
            forall|k: int| 0 <= k < i ==> fields@[k] != current,
        decreases n - i,
    {
        i = i + 1;
    }
    proof {
        lemma_field_position(fields@, current);
        let p = field_position(fields@, current);
        if i < n {
            if p >= 0 {
                if p < i {
                    assert(fields@[p] == current);
                }
                if p > i {
                    lemma_first_position(fields@, current, i as int);
                }
            } else {
                assert(fields@.contains(current));
            }
        } else if p >= 0 {
            assert(fields@[p] == current);
        }
    }
    if i == n {
        fields[0]
    } else if forward {
        fields[(i + 1) % n]
    } else {
        let back = if i == 0 {
            n - 1
        } else {
            i - 1
        };
        proof {
            if i == 0 {
                vstd::arithmetic::div_mod::lemma_small_mod((n - 1) as nat, n as nat);
            } else {
                vstd::arithmetic::div_mod::lemma_mod_add_multiples_vanish((i - 1) as int, n as int);
                vstd::arithmetic::div_mod::lemma_small_mod((i - 1) as nat, n as nat);
            }
        }
        fields[back]
    }
}

pub(crate) proof fn lemma_first_position<T>(fields: Seq<T>, f: T, i: int)
    requires
        0 <= i < fields.len(),
        fields[i] == f,
    ensures
        0 <= field_position(fields, f) <= i,
    decreases fields.len(),
{
    if fields[0] != f {
        assert(fields.drop_first()[i - 1] == f);
        lemma_first_position(fields.drop_first(), f, i - 1);
    }
}

/// In a list without repeats, an item is found at its own position.
pub proof fn lemma_position_of_item<T>(fields: Seq<T>, j: int)
    requires
        fields.no_duplicates(),
        0 <= j < fields.len(),
    ensures
        field_position(fields, fields[j]) == j,
{
    lemma_first_position(fields, fields[j], j);
    lemma_field_position(fields, fields[j]);
}

/// Moving the focus one step on and then one step back, or back and then
/// on, returns it to where it was, for any list of fields without repeats
/// that holds it.
pub proof fn lemma_cycle_back_undoes_forward<T>(fields: Seq<T>, current: T)
    requires
        fields.no_duplicates(),
        fields.contains(current),
    ensures
        cycle_spec(fields, cycle_spec(fields, current, true), false) == current,
        cycle_spec(fields, cycle_spec(fields, current, false), true) == current,
{
    let n = fields.len() as int;
    let i = choose|i: int| 0 <= i < n && fields[i] == current;
    lemma_position_of_item(fields, i);
    let k = if i + 1 < n { i + 1 } else { 0 };
    assert((i + 1) % n == k) by {
        if i + 1 < n {
            vstd::arithmetic::div_mod::lemma_small_mod((i + 1) as nat, n as nat);
        } else {
            vstd::arithmetic::div_mod::lemma_mod_self_0(n);
        }
    }
    lemma_position_of_item(fields, k);
    assert((k + n - 1) % n == i) by {
        if i + 1 < n {
            vstd::arithmetic::div_mod::lemma_mod_add_multiples_vanish(i, n);
            vstd::arithmetic::div_mod::lemma_small_mod(i as nat, n as nat);
        } else {
            vstd::arithmetic::div_mod::lemma_small_mod((n - 1) as nat, n as nat);
        }
    }
    let b = if i > 0 { i - 1 } else { n - 1 };
    assert((i + n - 1) % n == b) by {
        if i > 0 {
            vstd::arithmetic::div_mod::lemma_mod_add_multiples_vanish(i - 1, n);
            vstd::arithmetic::div_mod::lemma_small_mod((i - 1) as nat, n as nat);
        } else {
            vstd::arithmetic::div_mod::lemma_small_mod((n - 1) as nat, n as nat);
        }
    }
    lemma_position_of_item(fields, b);
    assert((b + 1) % n == i) by {
        if i > 0 {
            vstd::arithmetic::div_mod::lemma_small_mod(i as nat, n as nat);
        } else {
            vstd::arithmetic::div_mod::lemma_mod_self_0(n);
        }
    }
}

/// The selection one row on in a list of `len`, forwards or backwards,
/// wrapping.
pub open spec fn step_in(selected: usize, len: usize, forward: bool) -> usize {
    if forward {
        (((selected % len) + 1) % (len as int)) as usize
    } else {
        (((selected % len) + len - 1) % (len as int)) as usize
    }
}

/// What a key does in the song menu with its list of playlists open:
/// cancelling goes back to choosing an action; Tab, Shift-Tab, the arrows,
/// `j` and `k` move through the list, wrapping; Enter applies the choice
/// to the playlist selected (see [`apply_picker_choice`]), reports it and
/// closes the menu; other keys change nothing.
pub open spec fn picker_delta(code: KeyCode, mods: KeyModifiers) -> int {
    match modal_lookup_spec(code, mods) {
        Some(ModalKey::NextField) => 1,
        Some(ModalKey::PrevField) => -1,
        _ => match code {
            KeyCode::Char('j') => 1,
            KeyCode::Char('k') => -1,
            _ => 0,
        },
    }
}

/// The step a key takes through the menu's actions: Tab, Shift-Tab and
/// the arrows always; `j` and `k` unless a name is being typed.
pub open spec fn action_delta(code: KeyCode, mods: KeyModifiers, typing: bool) -> int {
    match modal_lookup_spec(code, mods) {
        Some(ModalKey::NextField) => 1,
        Some(ModalKey::PrevField) => -1,
        _ => if typing {
            0
        } else {
            match code {
                KeyCode::Char('j') => 1,
                KeyCode::Char('k') => -1,
                _ => 0,
            }
        },
    }
}

/// The message on creating a playlist called `name` with `count` songs.
pub open spec fn created_message(name: Seq<char>, count: nat) -> Seq<char> {
    if count > 1 {
        "created \""@ + name + "\" and added "@ + decimal_digits(count) + " songs"@
    } else {
        "created \""@ + name + "\" and added the song"@
    }
}

fn songs_of(song: SongId, batch: &Option<Vec<SongId>>) -> (r: Vec<SongId>)
    ensures
        r@ == menu_songs(song, *batch),
{
    match batch {
        Some(v) => {
            let mut out: Vec<SongId> = Vec::new();
            let mut k: usize = 0;
            while k < v.len()
                invariant
                    k <= v@.len(),
                    out@ == v@.take(k as int),
                decreases v@.len() - k,
            {
                out.push(v[k]);
                k = k + 1;
                assert(out@ =~= v@.take(k as int));
            }
            assert(v@.take(v@.len() as int) =~= v@);
            out
        },
        None => {
            let mut out: Vec<SongId> = Vec::new();
            out.push(song);
            assert(out@ =~= seq![song]);
            out
        },
    }
}

/// `m` is the menu `from` with `selected` selected and `name` typed.
pub open spec fn menu_like(m: SongMenu, from: SongMenu, selected: ChooseActionField, name: Seq<char>) -> bool {
    &&& m.song == from.song
    &&& m.batch == from.batch
    &&& m.selected == selected
    &&& m.name_input@ == name
}

/// The options and selection of a list of playlists.
pub open spec fn picker_options(p: PlaylistPicker) -> (Seq<PlaylistId>, usize) {
    match p {
        PlaylistPicker::Add { options, selected, .. } => (options@, selected),
        PlaylistPicker::Remove { options, selected } => (options@, selected),
    }
}

/// The kind of a list of playlists.
pub open spec fn picker_kind(p: PlaylistPicker) -> PickerKind {
    match p {
        PlaylistPicker::Add { .. } => PickerKind::Add,
        PlaylistPicker::Remove { .. } => PickerKind::Remove,
    }
}

/// `q` is the list `p` with `selected` selected.
pub open spec fn picker_moved(q: PlaylistPicker, p: PlaylistPicker, selected: usize) -> bool {
    match (q, p) {
        (
            PlaylistPicker::Add { options: o1, pinned: n1, selected: s1 },
            PlaylistPicker::Add { options: o2, pinned: n2, .. },
        ) => o1@ == o2@ && n1@ == n2@ && s1 == selected,
        (PlaylistPicker::Remove { options: o1, selected: s1 }, PlaylistPicker::Remove { options: o2, .. }) => o1@
            == o2@ && s1 == selected,
        _ => false,
    }
}

/// The actions the menu offers for `songs` with `store`'s playlists.
pub open spec fn visible_fields_spec(store: PlaylistStore, songs: Seq<SongId>) -> Seq<ChooseActionField> {
    (if store.sorted_view().len() > 0 {
        seq![ChooseActionField::AddToPlaylist]
    } else {
        Seq::empty()
    }) + (if any_listed(store.playlists_view(), songs) {
        seq![ChooseActionField::RemoveFromPlaylist]
    } else {
        Seq::empty()
    }) + seq![ChooseActionField::CreatePlaylist]
}

/// What a key does in the song menu while its list of playlists is open:
/// Esc goes back to choosing an action; Tab, Shift-Tab, the arrows, `j`
/// and `k` move through the list, wrapping; Enter applies the choice to
/// the playlist selected ([`apply_picker_choice`]), reports it and closes
/// the menu; other keys change nothing.
pub open spec fn picker_step_ensures(
    menu: SongMenu,
    p: PlaylistPicker,
    code: KeyCode,
    mods: KeyModifiers,
    before: PlaylistStore,
    after: PlaylistStore,
    r: (Option<SongMenu>, MenuEffect),
) -> bool {
    let mk = modal_lookup_spec(code, mods);
    let d = picker_delta(code, mods);
    let (options, sel) = picker_options(p);
    let songs = menu_songs(menu.song, menu.batch);
    if mk == Some(ModalKey::Cancel) {
        &&& r.0 matches Some(m) && menu_like(m, menu, menu.selected, menu.name_input@) && m.picker is None
        &&& r.1 == MenuEffect::Nothing
        &&& after == before
    } else if d != 0 && options.len() > 0 {
        &&& match r.0 {
            Some(m) => menu_like(m, menu, menu.selected, menu.name_input@) && match m.picker {
                Some(q) => picker_moved(q, p, step_in(sel, options.len() as usize, d > 0)),
                None => false,
            },
            None => false,
        }
        &&& r.1 == MenuEffect::Nothing
        &&& after == before
    } else if mk == Some(ModalKey::Confirm) {
        &&& r.0 is None
        &&& if sel < options.len() {
            let target = options[sel as int];
            if before.playlists_view().contains_key(target) {
                let old_view = before.playlists_view()[target];
                let (list, done) = apply_each(picker_kind(p), old_view.songs, songs);
                &&& after.playlists_view() == before.playlists_view().insert(
                    target,
                    PlaylistView { songs: list, ..old_view },
                )
                &&& after.sorted_view() == before.sorted_view()
                &&& r.1 matches MenuEffect::Status(t, k) && t@ == choice_message(
                    picker_kind(p),
                    done,
                    songs.len(),
                    old_view.name,
                ) && k == if done == 0 {
                    StatusKind::Info
                } else {
                    StatusKind::Success
                }
            } else {
                &&& after == before
                &&& r.1 matches MenuEffect::Status(t, k) && t@ == choice_message(
                    picker_kind(p),
                    0,
                    songs.len(),
                    Seq::empty(),
                ) && k == StatusKind::Info
            }
        } else {
            r.1 == MenuEffect::Nothing && after == before
        }
    } else {
        &&& r.0 matches Some(m) && menu_like(m, menu, menu.selected, menu.name_input@) && m.picker == Some(p)
        &&& r.1 == MenuEffect::Nothing
        &&& after == before
    }
}

fn picker_step(
    song: SongId,
    batch: Option<Vec<SongId>>,
    selected: ChooseActionField,
    name_input: String,
    p: PlaylistPicker,
    code: KeyCode,
    mods: KeyModifiers,
    playlists: &mut PlaylistStore,
) -> (r: (Option<SongMenu>, MenuEffect))
    ensures
        picker_step_ensures(
            SongMenu { song, batch, selected, name_input, picker: Some(p) },
            p,
            code,
            mods,
            *old(playlists),
            *final(playlists),
            r,
        ),
{
    let ghost menu = SongMenu { song, batch, selected, name_input, picker: Some(p) };
    let mk = modal_lookup(code, mods);
    if mk == Some(ModalKey::Cancel) {
        return (Some(SongMenu { song, batch, selected, name_input, picker: None }), MenuEffect::Nothing);
    }
    let delta: i8 = match mk {
        Some(ModalKey::NextField) => 1,
        Some(ModalKey::PrevField) => -1,
        _ => match code {
            KeyCode::Char('j') => 1,
            KeyCode::Char('k') => -1,
            _ => 0,
        },
    };
    let (len, sel) = match &p {
        PlaylistPicker::Add { options, selected, .. } => (options.len(), *selected),
        PlaylistPicker::Remove { options, selected } => (options.len(), *selected),
    };
    if delta != 0 && len > 0 {
        let moved = if delta > 0 {
            ((sel % len) + 1) % len
        } else {
            let m = sel % len;
            proof {
                if m == 0 {
                    vstd::arithmetic::div_mod::lemma_small_mod((len - 1) as nat, len as nat);
                } else {
                    vstd::arithmetic::div_mod::lemma_mod_add_multiples_vanish((m - 1) as int, len as int);
                    vstd::arithmetic::div_mod::lemma_small_mod((m - 1) as nat, len as nat);
                }
            }
            if m == 0 {
                len - 1
            } else {
                m - 1
            }
        };
        let q = match p {
            PlaylistPicker::Add { options, pinned, .. } => PlaylistPicker::Add { options, pinned, selected: moved },
            PlaylistPicker::Remove { options, .. } => PlaylistPicker::Remove { options, selected: moved },
        };
        return (Some(SongMenu { song, batch, selected, name_input, picker: Some(q) }), MenuEffect::Nothing);
    }
    if mk == Some(ModalKey::Confirm) {
        let (kind, target) = match &p {
            PlaylistPicker::Add { options, selected, .. } => (
                PickerKind::Add,
                if *selected < options.len() {
                    Some(options[*selected])
                } else {
                    None
                },
            ),
            PlaylistPicker::Remove { options, selected } => (
                PickerKind::Remove,
                if *selected < options.len() {
                    Some(options[*selected])
                } else {
                    None
                },
            ),
        };
        match target {
            Some(t) => {
                let songs = songs_of(song, &batch);
                let (message, status) = apply_picker_choice(playlists, kind, t, songs.as_slice());
                return (None, MenuEffect::Status(message, status));
            },
            None => return (None, MenuEffect::Nothing),
        }
    }
    (Some(SongMenu { song, batch, selected, name_input, picker: Some(p) }), MenuEffect::Nothing)
}

/// `s` with its last character dropped, if it has one.
pub open spec fn without_last(s: Seq<char>) -> Seq<char> {
    if s.len() > 0 {
        s.drop_last()
    } else {
        s
    }
}

/// What a key does in the song menu while an action is being chosen.
/// Esc closes the menu. Tab, Shift-Tab and the arrows, and `j` and `k`
/// unless a name is being typed, move through the actions offered,
/// wrapping. With "create playlist" selected, Enter creates a playlist
/// under the trimmed name typed and adds the songs to it (a blank name is
/// refused with an error), Backspace deletes the last character typed and
/// any other character is typed. With "add" or "remove" selected, Enter
/// opens the list of playlists to choose from, or says why there is none.
/// Other keys change nothing.
pub open spec fn choose_step_ensures(
    menu: SongMenu,
    code: KeyCode,
    mods: KeyModifiers,
    viewing: Option<PlaylistId>,
    before: PlaylistStore,
    after: PlaylistStore,
    r: (Option<SongMenu>, MenuEffect),
) -> bool {
    let mk = modal_lookup_spec(code, mods);
    let typing = menu.selected == ChooseActionField::CreatePlaylist;
    let d = action_delta(code, mods, typing);
    let songs = menu_songs(menu.song, menu.batch);
    let name = menu.name_input@;
    let keep = (r.0 matches Some(m) && menu_like(m, menu, menu.selected, name) && m.picker is None);
    if mk == Some(ModalKey::Cancel) {
        r.0 is None && r.1 == MenuEffect::Nothing && after == before
    } else if d != 0 {
        &&& r.0 matches Some(m) && menu_like(
            m,
            menu,
            cycle_spec(visible_fields_spec(before, songs), menu.selected, d > 0),
            name,
        ) && m.picker is None
        &&& r.1 == MenuEffect::Nothing
        &&& after == before
    } else if typing {
        match code {
            KeyCode::Enter => {
                let trimmed = trim_seq(name);
                if trimmed.len() == 0 {
                    &&& keep
                    &&& r.1 matches MenuEffect::Status(t, k) && t@ == "playlist name can't be empty"@ && k
                        == StatusKind::Error
                    &&& after == before
                } else {
                    &&& r.0 is None
                    &&& r.1 matches MenuEffect::Status(t, k) && t@ == created_message(trimmed, songs.len())
                        && k == StatusKind::Success
                    &&& exists|id: PlaylistId|
                        after.playlists_view() == before.playlists_view().insert(
                            id,
                            PlaylistView { id, name: trimmed, songs: add_each(Seq::empty(), songs).0 },
                        )
                }
            },
            KeyCode::Backspace => r.0 matches Some(m) && menu_like(m, menu, menu.selected, without_last(name))
                && m.picker is None && r.1 == MenuEffect::Nothing && after == before,
            KeyCode::Char(c) => r.0 matches Some(m) && menu_like(m, menu, menu.selected, name.push(c))
                && m.picker is None && r.1 == MenuEffect::Nothing && after == before,
            _ => keep && r.1 == MenuEffect::Nothing && after == before,
        }
    } else if code == KeyCode::Enter && menu.selected == ChooseActionField::AddToPlaylist {
        let map = before.playlists_view();
        let sorted = before.sorted_view();
        let options = add_options_spec(map, sorted, viewing, songs);
        &&& after == before
        &&& if options.len() > 0 {
            &&& r.0 matches Some(m) && menu_like(m, menu, menu.selected, name)
            &&& r.0->Some_0.picker matches Some(PlaylistPicker::Add { options: o, pinned: q, selected: s })
                && o@ == options && q@ == pinned_spec(map, sorted, viewing, songs) && s == 0
            &&& r.1 == MenuEffect::Nothing
        } else {
            &&& keep
            &&& r.1 matches MenuEffect::Status(t, k) && t@
                == "no other playlists to add to -- select Create Playlist instead"@ && k == StatusKind::Info
        }
    } else if code == KeyCode::Enter && menu.selected == ChooseActionField::RemoveFromPlaylist {
        let options = remove_options_spec(before.playlists_view(), before.sorted_view(), songs);
        &&& after == before
        &&& if options.len() > 0 {
            &&& r.0 matches Some(m) && menu_like(m, menu, menu.selected, name)
            &&& r.0->Some_0.picker matches Some(PlaylistPicker::Remove { options: o, selected: s })
                && o@ == options && s == 0
            &&& r.1 == MenuEffect::Nothing
        } else {
            &&& keep
            &&& r.1 matches MenuEffect::Status(t, k) && t@ == (if menu.batch is Some {
                "none of the selected songs are in a playlist"@
            } else {
                "song is not in any playlist"@
            }) && k == StatusKind::Info
        }
    } else {
        keep && r.1 == MenuEffect::Nothing && after == before
    }
}


fn created_status(name: &str, count: usize) -> (r: String)
    ensures
        r@ == created_message(name@, count as nat),
{
    proof {
        reveal_strlit("created \"");
        reveal_strlit("\" and added ");
        reveal_strlit(" songs");
        reveal_strlit("\" and added the song");
    }
    let head = "created \"".to_string();
    let with_name = head.concat(name);
    if count > 1 {
        let digits = decimal_usize(count);
        let a = with_name.concat("\" and added ");
        let b = a.concat(digits.as_str());
        b.concat(" songs")
    } else {
        with_name.concat("\" and added the song")
    }
}

fn choose_step(
    song: SongId,
    batch: Option<Vec<SongId>>,
    selected: ChooseActionField,
    name_input: String,
    code: KeyCode,
    mods: KeyModifiers,
    playlists: &mut PlaylistStore,
    viewing: Option<PlaylistId>,
) -> (r: (Option<SongMenu>, MenuEffect))
    ensures
        choose_step_ensures(
            SongMenu { song, batch, selected, name_input, picker: None },
            code,
            mods,
            viewing,
            *old(playlists),
            *final(playlists),
            r,
        ),
{
    let mk = modal_lookup(code, mods);
    if mk == Some(ModalKey::Cancel) {
        return (None, MenuEffect::Nothing);
    }
    let typing = selected == ChooseActionField::CreatePlaylist;
    let delta: i8 = match mk {
        Some(ModalKey::NextField) => 1,
        Some(ModalKey::PrevField) => -1,
        _ => if typing {
            0
        } else {
            match code {
                KeyCode::Char('j') => 1,
                KeyCode::Char('k') => -1,
                _ => 0,
            }
        },
    };
    if delta != 0 {
        let songs = songs_of(song, &batch);
        let fields = visible_choose_action_fields(playlists, songs.as_slice());
        let next = cycle_field(&fields, selected, delta > 0);
        return (Some(SongMenu { song, batch, selected: next, name_input, picker: None }), MenuEffect::Nothing);
    }
    if typing {
        match code {
            KeyCode::Enter => {
                let trimmed_chars = chars_of(trim(name_input.as_str()));
                if trimmed_chars.len() == 0 {
                    let message = "playlist name can't be empty".to_string();
                    return (
                        Some(SongMenu { song, batch, selected, name_input, picker: None }),
                        MenuEffect::Status(message, StatusKind::Error),
                    );
                }
                let trimmed = string_from_chars(&trimmed_chars);
                let songs = songs_of(song, &batch);
                let ghost start = playlists.playlists_view();
                let id = playlists.create(trimmed.as_str());
                let ghost made = playlists.playlists_view();
                let _ = apply_picker_choice(playlists, PickerKind::Add, id, songs.as_slice());
                proof {
                    assert(made.contains_key(id));
                    assert(playlists.playlists_view() =~= start.insert(
                        id,
                        PlaylistView { id, name: trimmed@, songs: add_each(Seq::empty(), songs@).0 },
                    ));
                }
                let message = created_status(trimmed.as_str(), songs.len());
                (None, MenuEffect::Status(message, StatusKind::Success))
            },
            KeyCode::Backspace => {
                let mut chars = chars_of(name_input.as_str());
                if chars.len() > 0 {
                    chars.pop();
                }
                let typed = string_from_chars(&chars);
                (Some(SongMenu { song, batch, selected, name_input: typed, picker: None }), MenuEffect::Nothing)
            },
            KeyCode::Char(c) => {
                let mut chars = chars_of(name_input.as_str());
                chars.push(c);
                let typed = string_from_chars(&chars);
                (Some(SongMenu { song, batch, selected, name_input: typed, picker: None }), MenuEffect::Nothing)
            },
            _ => (Some(SongMenu { song, batch, selected, name_input, picker: None }), MenuEffect::Nothing),
        }
    } else {
        match code {
            KeyCode::Enter => match selected {
                ChooseActionField::AddToPlaylist => {
                    let songs = songs_of(song, &batch);
                    match add_to_playlist_picker(playlists, viewing, songs.as_slice()) {
                        Some(p) => (
                            Some(SongMenu { song, batch, selected, name_input, picker: Some(p) }),
                            MenuEffect::Nothing,
                        ),
                        None => {
                            let message = "no other playlists to add to -- select Create Playlist instead".to_string();
                            (
                                Some(SongMenu { song, batch, selected, name_input, picker: None }),
                                MenuEffect::Status(message, StatusKind::Info),
                            )
                        },
                    }
                },
                ChooseActionField::RemoveFromPlaylist => {
                    let songs = songs_of(song, &batch);
                    match remove_from_playlist_picker(playlists, songs.as_slice()) {
                        Some(p) => (
                            Some(SongMenu { song, batch, selected, name_input, picker: Some(p) }),
                            MenuEffect::Nothing,
                        ),
                        None => {
                            let message = if batch.is_some() {
                                "none of the selected songs are in a playlist".to_string()
                            } else {
                                "song is not in any playlist".to_string()
                            };
                            (
                                Some(SongMenu { song, batch, selected, name_input, picker: None }),
                                MenuEffect::Status(message, StatusKind::Info),
                            )
                        },
                    }
                },
                ChooseActionField::CreatePlaylist => (
                    Some(SongMenu { song, batch, selected, name_input, picker: None }),
                    MenuEffect::Nothing,
                ),
            },
            _ => (Some(SongMenu { song, batch, selected, name_input, picker: None }), MenuEffect::Nothing),
        }
    }
}

/// The song menu as it opens on `song`, or on the selected songs `batch`:
/// adding is selected when there is a playlist, creating one otherwise,
/// with no name typed and no list open.
pub fn open_song_menu(playlists: &PlaylistStore, song: SongId, batch: Option<Vec<SongId>>) -> (r: SongMenu)
    ensures
        r.song == song,
        r.batch == batch,
        r.selected == if playlists.sorted_view().len() == 0 {
            ChooseActionField::CreatePlaylist
        } else {
            ChooseActionField::AddToPlaylist
        },
        r.name_input@ == Seq::<char>::empty(),
        r.picker is None,
{
    let selected = if playlists.is_empty() {
        ChooseActionField::CreatePlaylist
    } else {
        ChooseActionField::AddToPlaylist
    };
    SongMenu { song, batch, selected, name_input: String::new(), picker: None }
}

/// What a key does in the song menu: with its list of playlists open, as
/// [`picker_step_ensures`] says; while an action is chosen, as
/// [`choose_step_ensures`] says. `viewing` is the playlist on screen, which
/// the list for adding leaves out. The menu that comes back, if any, is the
/// menu after the key; `None` closes it.
pub fn song_menu_step(
    menu: SongMenu,
    code: KeyCode,
    mods: KeyModifiers,
    playlists: &mut PlaylistStore,
    viewing: Option<PlaylistId>,
) -> (r: (Option<SongMenu>, MenuEffect))
    ensures
        (match menu.picker {
            Some(p) => picker_step_ensures(menu, p, code, mods, *old(playlists), *final(playlists), r),
            None => choose_step_ensures(menu, code, mods, viewing, *old(playlists), *final(playlists), r),
        }),
{
    let SongMenu { song, batch, selected, name_input, picker } = menu;
    match picker {
        Some(p) => picker_step(song, batch, selected, name_input, p, code, mods, playlists),
        None => choose_step(song, batch, selected, name_input, code, mods, playlists, viewing),
    }
}

} // verus!
