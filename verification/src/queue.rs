//! The play queue: the songs in their base order, the order they play in
//! (shuffled or not), a cursor into that order, and songs queued to play
//! next ahead of it.

use std::collections::VecDeque;

use vstd::prelude::*;

use crate::random;
use crate::song::SongId;

verus! {

broadcast use vstd::std_specs::vecdeque::group_vec_dequeue_axioms;

/// What is playing: the song under the cursor, or a song that was queued to
/// play next.
#[derive(Debug, Clone, Copy, PartialEq, Eq, Structural)]
pub enum NowPlaying {
    Queued,
    Priority(SongId),
}

/// The abstract state of a [`Queue`].
pub struct QueueModel {
    /// The songs in the order they were given.
    pub base: Seq<SongId>,
    /// The order the songs play in (the base order, or a shuffle of it).
    pub order: Seq<SongId>,
    /// The position in `order` of the song most recently played from it.
    pub cursor: Option<usize>,
    /// What is playing now, if anything.
    pub playing: Option<NowPlaying>,
    /// Songs queued to play next, in the order they will play.
    pub priority: Seq<SongId>,
}

/// The song at `position` in `order`, if there is one.
pub open spec fn song_at(order: Seq<SongId>, position: usize) -> Option<SongId> {
    if position < order.len() {
        Some(order[position as int])
    } else {
        None
    }
}

/// `position` is where `id` first occurs in `order`, or `None` where it
/// does not occur at all.
pub open spec fn is_first_position(order: Seq<SongId>, id: SongId, position: Option<usize>) -> bool {
    match position {
        Some(p) => p < order.len() && order[p as int] == id && forall|q: int|
            0 <= q < p ==> order[q] != id,
        None => forall|q: int| 0 <= q < order.len() ==> order[q] != id,
    }
}

/// How many steps forward, wrapping at the end, `position` lies from
/// `start` in an order of `len` songs.
pub open spec fn steps_forward(position: int, start: int, len: int) -> int {
    if position >= start {
        position - start
    } else {
        position + len - start
    }
}

/// Where playback of the order goes on after the cursor: one past it, or
/// the start when there is none.
pub open spec fn resume_start(cursor: Option<usize>, len: int) -> int {
    match cursor {
        Some(p) => (p + 1) % len,
        None => 0,
    }
}

impl QueueModel {
    /// The queue's invariant: the order is a rearrangement of the base
    /// order, the cursor lies inside the order, and a song playing from the
    /// order has a cursor.
    pub open spec fn wf(self) -> bool {
        &&& self.order.to_multiset() == self.base.to_multiset()
        &&& self.order.len() == self.base.len()
        &&& self.order.len() <= usize::MAX
        &&& (self.cursor matches Some(p) ==> p < self.order.len())
        &&& (self.playing == Some(NowPlaying::Queued) ==> self.cursor is Some)
    }

    /// The song under the cursor, whatever is playing.
    pub open spec fn cursor_song(self) -> Option<SongId> {
        match self.cursor {
            Some(p) => song_at(self.order, p),
            None => None,
        }
    }

    /// The song that is playing.
    pub open spec fn current(self) -> Option<SongId> {
        match self.playing {
            None => None,
            Some(NowPlaying::Priority(id)) => Some(id),
            Some(NowPlaying::Queued) => self.cursor_song(),
        }
    }

    /// The position in the order of the song playing from it.
    pub open spec fn current_position(self) -> Option<usize> {
        if self.playing == Some(NowPlaying::Queued) {
            self.cursor
        } else {
            None
        }
    }

    /// Playing the song at `position` of the order.
    pub open spec fn play_at(self, position: usize) -> (QueueModel, Option<SongId>) {
        if position >= self.order.len() {
            (self, None)
        } else {
            (
                QueueModel {
                    cursor: Some(position),
                    playing: Some(NowPlaying::Queued),
                    ..self
                },
                Some(self.order[position as int]),
            )
        }
    }

    /// Advancing: the first queued song if there is one, else the song after
    /// the cursor, wrapping to the start.
    pub open spec fn next(self) -> (QueueModel, Option<SongId>) {
        if self.priority.len() > 0 {
            (
                QueueModel {
                    playing: Some(NowPlaying::Priority(self.priority[0])),
                    priority: self.priority.drop_first(),
                    ..self
                },
                Some(self.priority[0]),
            )
        } else if self.order.len() == 0 {
            (QueueModel { cursor: None, playing: None, ..self }, None)
        } else {
            let p = resume_start(self.cursor, self.order.len() as int);
            (
                QueueModel {
                    cursor: Some(p as usize),
                    playing: Some(NowPlaying::Queued),
                    ..self
                },
                Some(self.order[p]),
            )
        }
    }

    /// Stepping back: the song before the cursor, wrapping to the end (the
    /// last song when there is no cursor). Queued songs are left alone.
    pub open spec fn previous(self) -> (QueueModel, Option<SongId>) {
        if self.order.len() == 0 {
            (QueueModel { cursor: None, playing: None, ..self }, None)
        } else {
            let p: int = match self.cursor {
                Some(c) => if c == 0 {
                    self.order.len() - 1
                } else {
                    c - 1
                },
                None => self.order.len() - 1,
            };
            (
                QueueModel {
                    cursor: Some(p as usize),
                    playing: Some(NowPlaying::Queued),
                    ..self
                },
                Some(self.order[p]),
            )
        }
    }

    /// The state and the song after `n` calls of `next`; the song is `None`
    /// when `n` is 0.
    pub open spec fn next_n(self, n: nat) -> (QueueModel, Option<SongId>)
        decreases n,
    {
        if n == 0 {
            (self, None)
        } else {
            self.next_n((n - 1) as nat).0.next()
        }
    }

    /// The songs that the next `n` calls of `next` would play: the queued
    /// songs first, then the order from where `next` resumes it (after the
    /// cursor, or from the start when there is none), wrapping. Also when
    /// nothing plays.
    pub open spec fn upcoming(self, n: nat) -> Seq<SongId> {
        let queued = self.priority.take(
            if n < self.priority.len() {
                n as int
            } else {
                self.priority.len() as int
            },
        );
        if queued.len() >= n || self.order.len() == 0 {
            queued
        } else {
            let len = self.order.len() as int;
            let start = resume_start(self.cursor, len);
            queued + Seq::new(
                (n - queued.len()) as nat,
                |k: int| self.order[(start + k) % len],
            )
        }
    }
}

/// The play queue.
pub struct Queue {
    base: Vec<SongId>,
    order: Vec<SongId>,
    cursor: Option<usize>,
    playing: Option<NowPlaying>,
    priority: VecDeque<SongId>,
}

impl View for Queue {
    type V = QueueModel;

    closed spec fn view(&self) -> QueueModel {
        QueueModel {
            base: self.base@,
            order: self.order@,
            cursor: self.cursor,
            playing: self.playing,
            priority: self.priority@,
        }
    }
}

/// A copy of `ids`, element by element.
fn copy_ids(ids: &[SongId]) -> (r: Vec<SongId>)
    ensures
        r@ == ids@,
{
    let mut out: Vec<SongId> = Vec::new();
    let mut i: usize = 0;
    while i < ids.len()
        invariant
            i <= ids@.len(),
            out@ == ids@.take(i as int),
        decreases ids@.len() - i,
    {
        out.push(ids[i]);
        i = i + 1;
        assert(out@ =~= ids@.take(i as int));
    }
    assert(ids@.take(ids@.len() as int) =~= ids@);
    out
}

/// Where `id` first occurs in `order`.
fn first_position(order: &Vec<SongId>, id: SongId) -> (r: Option<usize>)
    ensures
        is_first_position(order@, id, r),
{
    let mut i: usize = 0;
    while i < order.len()
        invariant
            i <= order@.len(),
            forall|q: int| 0 <= q < i ==> order@[q] != id,
        decreases order@.len() - i,
    {
        if order[i] == id {
            return Some(i);
        }
        i = i + 1;
    }
    None
}

proof fn lemma_mod_step(a: int, m: int)
    requires
        m > 0,
        a >= 0,
    ensures
        ((a % m) + 1) % m == (a + 1) % m,
{
    vstd::arithmetic::div_mod::lemma_add_mod_noop(a, 1, m);
    vstd::arithmetic::div_mod::lemma_mod_twice(a, m);
    if m == 1 {
        assert(1int % 1 == 0);
    } else {
        vstd::arithmetic::div_mod::lemma_small_mod(1, m as nat);
    }
}

impl Queue {
    #[verifier::type_invariant]
    spec fn well_formed(&self) -> bool {
        self@.wf()
    }

    /// Moves the whole queue out, leaving an empty one behind.
    fn take(&mut self) -> (r: Queue)
        ensures
            r@ == old(self)@,
            r@.wf(),
    {
        proof {
            use_type_invariant(&*self);
        }
        let mut r = Queue::new(Vec::new());
        std::mem::swap(&mut r, self);
        r
    }

    /// A queue over `songs`, in their order, with nothing playing.
    pub fn new(songs: Vec<SongId>) -> (r: Queue)
        ensures
            r@ == (QueueModel {
                base: songs@,
                order: songs@,
                cursor: None,
                playing: None,
                priority: Seq::empty(),
            }),
    {
        assert(songs.len() == songs@.len());
        Queue {
            base: copy_ids(songs.as_slice()),
            order: songs,
            cursor: None,
            playing: None,
            priority: VecDeque::new(),
        }
    }

    /// Whether the base order is exactly `ids`.
    pub fn has_base(&self, ids: &[SongId]) -> (r: bool)
        ensures
            r == (self@.base == ids@),
    {
        if self.base.len() != ids.len() {
            assert(self@.base.len() != ids@.len());
            return false;
        }
        let mut i: usize = 0;
        while i < ids.len()
            invariant
                i <= ids@.len(),
                self.base@.len() == ids@.len(),
                forall|q: int| 0 <= q < i ==> self.base@[q] == ids@[q],
            decreases ids@.len() - i,
        {
            if self.base[i] != ids[i] {
                return false;
            }
            i = i + 1;
        }
        assert(self.base@ =~= ids@);
        true
    }

    /// Adds `id` at the end of both the base order and the play order.
    pub fn insert(&mut self, id: SongId)
        ensures
            final(self)@ == (QueueModel {
                base: old(self)@.base.push(id),
                order: old(self)@.order.push(id),
                ..old(self)@
            }),
    {
        proof {
            use_type_invariant(&*self);
        }
        let ghost old_base = self.base@;
        let ghost old_order = self.order@;
        let Queue { mut base, mut order, cursor, playing, priority } = self.take();
        base.push(id);
        order.push(id);
        proof {
            broadcast use vstd::seq_lib::group_seq_properties;
            assert(old_base.push(id).to_multiset() == old_base.to_multiset().insert(id));
            assert(old_order.push(id).to_multiset() == old_order.to_multiset().insert(id));
            assert(order.len() == order@.len());
        }
        *self = Queue { base, order, cursor, playing, priority };
    }

    /// How many songs the order holds.
    pub fn len(&self) -> (r: usize)
        ensures
            r == self@.order.len(),
    {
        self.order.len()
    }

    /// Whether the order holds no song.
    pub fn is_empty(&self) -> (r: bool)
        ensures
            r == (self@.order.len() == 0),
    {
        self.order.len() == 0
    }

    /// The song that is playing.
    pub fn current_id(&self) -> (r: Option<SongId>)
        ensures
            r == self@.current(),
    {
        match self.playing {
            None => None,
            Some(NowPlaying::Priority(id)) => Some(id),
            Some(NowPlaying::Queued) => match self.cursor {
                Some(p) => self.song_at(p),
                None => None,
            },
        }
    }

    /// Forgets what is playing and where the cursor stands.
    pub fn clear_current(&mut self)
        ensures
            final(self)@ == (QueueModel { cursor: None, playing: None, ..old(self)@ }),
    {
        proof {
            use_type_invariant(&*self);
        }
        let ghost before = self@;
        let Queue { base, order, priority, .. } = self.take();
        *self = Queue { base, order, cursor: None, playing: None, priority };
        assert(self@ =~= (QueueModel { cursor: None, playing: None, ..before }));
    }

    /// The songs queued to play next.
    pub fn priority_queue(&self) -> (r: &VecDeque<SongId>)
        ensures
            r@ == self@.priority,
    {
        &self.priority
    }

    /// Queues `song` to play after the songs already queued.
    pub fn queue_next(&mut self, song: SongId)
        ensures
            final(self)@ == (QueueModel { priority: old(self)@.priority.push(song), ..old(self)@ }),
    {
        proof {
            use_type_invariant(&*self);
        }
        let Queue { base, order, cursor, playing, mut priority } = self.take();
        priority.push_back(song);
        *self = Queue { base, order, cursor, playing, priority };
    }

    fn song_at(&self, position: usize) -> (r: Option<SongId>)
        ensures
            r == song_at(self@.order, position),
    {
        if position < self.order.len() {
            Some(self.order[position])
        } else {
            None
        }
    }

    fn current_song_id(&self) -> (r: Option<SongId>)
        ensures
            r == self@.cursor_song(),
    {
        match self.cursor {
            Some(p) => self.song_at(p),
            None => None,
        }
    }

    /// Puts the order in the arrangement that `picks` make of it (see
    /// [`random::fisher_yates_spec`]), keeping the cursor on the song it
    /// was on.
    pub fn shuffle_with(&mut self, picks: &[usize])
        requires
            random::valid_picks(picks@, old(self)@.order.len()),
        ensures
            final(self)@.base == old(self)@.base,
            final(self)@.order == random::fisher_yates_spec(old(self)@.order, picks@),
            final(self)@.order.to_multiset() == old(self)@.order.to_multiset(),
            final(self)@.playing == old(self)@.playing,
            final(self)@.priority == old(self)@.priority,
            match old(self)@.cursor_song() {
                Some(id) => is_first_position(final(self)@.order, id, final(self)@.cursor),
                None => final(self)@.cursor is None,
            },
            final(self)@.cursor_song() == old(self)@.cursor_song(),
            final(self)@.current() == old(self)@.current(),
            final(self)@.wf(),
    {
        proof {
            use_type_invariant(&*self);
        }
        let current = self.current_song_id();
        let mut order = copy_ids(self.order.as_slice());
        random::fisher_yates(&mut order, picks);
        self.reposition(order, current);
    }

    /// Puts the order in a random arrangement of the same songs (the one
    /// some random picks make of it), keeping the cursor on the song it was
    /// on.
    pub fn shuffle(&mut self)
        ensures
            exists|picks: Seq<usize>|
                random::valid_picks(picks, old(self)@.order.len()) && final(self)@.order
                    == random::fisher_yates_spec(old(self)@.order, picks),
            final(self)@.base == old(self)@.base,
            final(self)@.order.to_multiset() == old(self)@.order.to_multiset(),
            final(self)@.playing == old(self)@.playing,
            final(self)@.priority == old(self)@.priority,
            match old(self)@.cursor_song() {
                Some(id) => is_first_position(final(self)@.order, id, final(self)@.cursor),
                None => final(self)@.cursor is None,
            },
            final(self)@.cursor_song() == old(self)@.cursor_song(),
            final(self)@.current() == old(self)@.current(),
            final(self)@.wf(),
    {
        let picks = random::draw_picks(self.order.len());
        self.shuffle_with(picks.as_slice());
    }

    /// The queue's model is well formed; every queue keeps it so.
    pub fn affirm_well_formed(&self)
        ensures
            self@.wf(),
    {
        proof {
            use_type_invariant(self);
        }
    }

    /// Puts the order back to the base order, keeping the cursor on the song
    /// it was on.
    pub fn unshuffle(&mut self)
        ensures
            final(self)@.base == old(self)@.base,
            final(self)@.order == old(self)@.base,
            final(self)@.playing == old(self)@.playing,
            final(self)@.priority == old(self)@.priority,
            match old(self)@.cursor_song() {
                Some(id) => is_first_position(final(self)@.order, id, final(self)@.cursor),
                None => final(self)@.cursor is None,
            },
            final(self)@.cursor_song() == old(self)@.cursor_song(),
            final(self)@.current() == old(self)@.current(),
            final(self)@.wf(),
    {
        proof {
            use_type_invariant(&*self);
        }
        let current = self.current_song_id();
        let order = copy_ids(self.base.as_slice());
        self.reposition(order, current);
    }

    /// Installs `order` and moves the cursor to the first occurrence of the
    /// song it was on.
    fn reposition(&mut self, order: Vec<SongId>, current: Option<SongId>)
        requires
            order@.to_multiset() == old(self)@.base.to_multiset(),
            order@.len() == old(self)@.base.len(),
            current == old(self)@.cursor_song(),
        ensures
            final(self)@.base == old(self)@.base,
            final(self)@.order == order@,
            final(self)@.playing == old(self)@.playing,
            final(self)@.priority == old(self)@.priority,
            match current {
                Some(id) => is_first_position(order@, id, final(self)@.cursor),
                None => final(self)@.cursor is None,
            },
            final(self)@.cursor_song() == current,
            final(self)@.current() == old(self)@.current(),
    {
        proof {
            use_type_invariant(&*self);
        }
        let ghost before = self@;
        let cursor = match current {
            Some(id) => first_position(&order, id),
            None => None,
        };
        proof {
            if let Some(id) = current {
                broadcast use vstd::seq_lib::group_to_multiset_ensures;

                let p = before.cursor.unwrap();
                assert(before.order[p as int] == id);
                assert(before.order.contains(id));
                assert(before.order.to_multiset().count(id) > 0);
                assert(order@.to_multiset().count(id) > 0);
                broadcast use vstd::seq_lib::group_seq_properties;
                assert(order@.contains(id));
                assert(cursor is Some);
            }
        }
        let Queue { base, playing, priority, .. } = self.take();
        *self = Queue { base, order, cursor, playing, priority };
    }

    /// Plays the next song: the first queued one if any, else the one after
    /// the cursor, wrapping to the start.
    pub fn next(&mut self) -> (r: Option<SongId>)
        ensures
            (final(self)@, r) == old(self)@.next(),
    {
        proof {
            use_type_invariant(&*self);
        }
        let ghost before = self@;
        let Queue { base, order, cursor, playing, mut priority } = self.take();
        if let Some(song) = priority.pop_front() {
            *self = Queue { base, order, cursor, playing: Some(NowPlaying::Priority(song)), priority };
            assert(self@ =~= before.next().0);
            return Some(song);
        }
        let len = order.len();
        if len == 0 {
            *self = Queue { base, order, cursor: None, playing: None, priority };
            assert(self@ =~= before.next().0);
            return None;
        }
        let position = match cursor {
            Some(p) => (p + 1) % len,
            None => 0,
        };
        let song = order[position];
        *self = Queue {
            base,
            order,
            cursor: Some(position),
            playing: Some(NowPlaying::Queued),
            priority,
        };
        assert(self@ =~= before.next().0);
        Some(song)
    }

    /// Plays the song before the cursor, wrapping to the end.
    pub fn previous(&mut self) -> (r: Option<SongId>)
        ensures
            (final(self)@, r) == old(self)@.previous(),
    {
        proof {
            use_type_invariant(&*self);
        }
        let ghost before = self@;
        let Queue { base, order, cursor, priority, .. } = self.take();
        let len = order.len();
        if len == 0 {
            *self = Queue { base, order, cursor: None, playing: None, priority };
            assert(self@ =~= before.previous().0);
            return None;
        }
        let position = match cursor {
            Some(0) | None => len - 1,
            Some(p) => p - 1,
        };
        let song = order[position];
        *self = Queue {
            base,
            order,
            cursor: Some(position),
            playing: Some(NowPlaying::Queued),
            priority,
        };
        assert(self@ =~= before.previous().0);
        Some(song)
    }

    /// Plays the song at `order_position` of the order; nothing changes when
    /// there is no such position.
    pub fn play_at(&mut self, order_position: usize) -> (r: Option<SongId>)
        ensures
            (final(self)@, r) == old(self)@.play_at(order_position),
    {
        proof {
            use_type_invariant(&*self);
        }
        let ghost before = self@;
        if order_position >= self.order.len() {
            return None;
        }
        let song = self.order[order_position];
        let Queue { base, order, priority, .. } = self.take();
        *self = Queue {
            base,
            order,
            cursor: Some(order_position),
            playing: Some(NowPlaying::Queued),
            priority,
        };
        assert(self@ =~= before.play_at(order_position).0);
        Some(song)
    }

    /// Plays the occurrence of `id` nearest after the cursor (from the start
    /// when there is no cursor), wrapping; nothing changes when the order
    /// does not hold `id`.
    pub fn play_id(&mut self, id: SongId) -> (r: Option<SongId>)
        ensures
            old(self)@.order.contains(id) ==> {
                let len = old(self)@.order.len() as int;
                let start = resume_start(old(self)@.cursor, len);
                &&& r == Some(id)
                &&& final(self)@.current_position() matches Some(t)
                &&& (final(self)@, r) == old(self)@.play_at(t)
                &&& old(self)@.order[t as int] == id
                &&& forall|q: int|
                    0 <= q < len && old(self)@.order[q] == id ==> steps_forward(t as int, start, len)
                        <= steps_forward(q, start, len)
            },
            !old(self)@.order.contains(id) ==> r is None && final(self)@ == old(self)@,
    {
        proof {
            use_type_invariant(&*self);
        }
        let len = self.order.len();
        if len == 0 {
            return None;
        }
        let start = match self.cursor {
            Some(p) => (p + 1) % len,
            None => 0,
        };
        let mut best: Option<usize> = None;
        let mut best_steps: usize = 0;
        let mut position: usize = 0;
        while position < len
            invariant
                len == self.order@.len(),
                start < len,
                start == resume_start(self@.cursor, len as int),
                position <= len,
                match best {
                    Some(t) => {
                        &&& t < position
                        &&& self.order@[t as int] == id
                        &&& best_steps == steps_forward(t as int, start as int, len as int)
                        &&& forall|q: int|
                            0 <= q < position && self.order@[q] == id ==> best_steps <= steps_forward(
                                q,
                                start as int,
                                len as int,
                            )
                    },
                    None => forall|q: int| 0 <= q < position ==> self.order@[q] != id,
                },
            decreases len - position,
        {
            if self.order[position] == id {
                let steps = if position >= start {
                    position - start
                } else {
                    position + (len - start)
                };
                match best {
                    Some(_) => {
                        if steps < best_steps {
                            best = Some(position);
                            best_steps = steps;
                        }
                    },
                    None => {
                        best = Some(position);
                        best_steps = steps;
                    },
                }
            }
            position = position + 1;
        }
        match best {
            Some(t) => {
                assert(self@.order.contains(id));
                self.play_at(t)
            },
            None => {
                proof {
                    if self@.order.contains(id) {
                        let q = choose|q: int| 0 <= q < self@.order.len() && self@.order[q] == id;
                        assert(self.order@[q] != id);
                    }
                }
                None
            },
        }
    }

    /// Calls `next` `n` times and returns what the last call played; does
    /// nothing when `n` is 0.
    pub fn play_upcoming(&mut self, n: usize) -> (r: Option<SongId>)
        ensures
            (final(self)@, r) == old(self)@.next_n(n as nat),
    {
        if n == 0 {
            return None;
        }
        let ghost start = self@;
        let mut result: Option<SongId> = None;
        let mut k: usize = 0;
        while k < n
            invariant
                k <= n,
                (self@, result) == start.next_n(k as nat),
            decreases n - k,
        {
            result = self.next();
            k = k + 1;
        }
        result
    }

    /// The songs the next `n` calls of `next` would play (see
    /// [`QueueModel::upcoming`]).
    pub fn upcoming(&self, n: usize) -> (r: Vec<SongId>)
        ensures
            r@ == self@.upcoming(n as nat),
    {
        proof {
            use_type_invariant(self);
        }
        let ghost model = self@;
        let mut out: Vec<SongId> = Vec::new();
        let mut i: usize = 0;
        while i < self.priority.len() && i < n
            invariant
                i <= self.priority@.len(),
                i <= n,
                out@ == self.priority@.take(i as int),
            decreases n - i,
        {
            out.push(self.priority[i]);
            i = i + 1;
            assert(out@ =~= self.priority@.take(i as int));
        }
        let ghost queued = out@;
        assert(queued =~= model.priority.take(
            if n < model.priority.len() {
                n as int
            } else {
                model.priority.len() as int
            },
        ));
        if out.len() >= n || self.order.len() == 0 {
            return out;
        }
        let len = self.order.len();
        let first = match self.cursor {
            Some(p) => (p + 1) % len,
            None => 0,
        };
        let mut position = first;
        let mut k: usize = 0;
        proof {
            vstd::arithmetic::div_mod::lemma_small_mod(first as nat, len as nat);
        }
        let remaining = n - out.len();
        while k < remaining
            invariant
                len == self.order@.len(),
                len > 0,
                first == resume_start(self@.cursor, len as int),
                remaining == n - queued.len(),
                k <= remaining,
                position == (first + k) % (len as int),
                out@ == queued + Seq::new(k as nat, |j: int| self.order@[(first + j) % (len as int)]),
            decreases remaining - k,
        {
            out.push(self.order[position]);
            proof {
                lemma_mod_step(first + k, len as int);
            }
            position = (position + 1) % len;
            k = k + 1;
            assert(out@ =~= queued + Seq::new(
                k as nat,
                |j: int| self.order@[(first + j) % (len as int)],
            ));
        }
        out
    }

    /// The songs in their base order.
    pub fn ordered_ids(&self) -> (r: Vec<SongId>)
        ensures
            r@ == self@.base,
    {
        copy_ids(self.base.as_slice())
    }

    /// Whether `id` is one of the queue's songs.
    pub fn contains(&self, id: SongId) -> (r: bool)
        ensures
            r == self@.base.contains(id),
    {
        let mut i: usize = 0;
        while i < self.base.len()
            invariant
                i <= self.base@.len(),
                forall|q: int| 0 <= q < i ==> self.base@[q] != id,
            decreases self.base@.len() - i,
        {
            if self.base[i] == id {
                return true;
            }
            i = i + 1;
        }
        false
    }

    /// The position in the order of the song playing from it.
    pub fn current_position(&self) -> (r: Option<usize>)
        ensures
            r == self@.current_position(),
    {
        match self.playing {
            Some(NowPlaying::Queued) => self.cursor,
            _ => None,
        }
    }
}

/// While the queued songs last, each call of `next` plays the next of them
/// and leaves the order and the cursor alone.
proof fn lemma_next_n_through_priority(m: QueueModel, j: nat)
    requires
        j <= m.priority.len(),
    ensures
        m.next_n(j).0 == (QueueModel {
            priority: m.priority.skip(j as int),
            playing: if j == 0 {
                m.playing
            } else {
                Some(NowPlaying::Priority(m.priority[j - 1]))
            },
            ..m
        }),
        m.next_n(j).1 == if j == 0 {
            None
        } else {
            Some(m.priority[j - 1])
        },
    decreases j,
{
    if j == 0 {
        assert(m.priority.skip(0) =~= m.priority);
    } else {
        lemma_next_n_through_priority(m, (j - 1) as nat);
        let prev = m.next_n((j - 1) as nat).0;
        assert(prev.priority[0] == m.priority[j - 1]);
        assert(prev.priority.drop_first() =~= m.priority.skip(j as int));
    }
}

/// Once the queued songs are used up, the `j`-th call of `next` plays the
/// song `j - plen - 1` steps after where the order resumes, wrapping.
proof fn lemma_next_n_through_order(m: QueueModel, j: nat)
    requires
        m.order.len() > 0,
        m.order.len() <= usize::MAX,
        j > m.priority.len(),
    ensures
        ({
            let len = m.order.len() as int;
            let p = (resume_start(m.cursor, len) + (j - m.priority.len() - 1)) % len;
            &&& m.next_n(j).0 == (QueueModel {
                cursor: Some(p as usize),
                playing: Some(NowPlaying::Queued),
                priority: Seq::empty(),
                ..m
            })
            &&& m.next_n(j).1 == Some(m.order[p])
        }),
    decreases j,
{
    let len = m.order.len() as int;
    let start = resume_start(m.cursor, len);
    let plen = m.priority.len();
    if j == plen + 1 {
        lemma_next_n_through_priority(m, plen);
        assert(m.priority.skip(plen as int) =~= Seq::<SongId>::empty());
        vstd::arithmetic::div_mod::lemma_small_mod(start as nat, len as nat);
    } else {
        lemma_next_n_through_order(m, (j - 1) as nat);
        let i = j - plen - 2;
        lemma_mod_step(start + i, len);
    }
}

impl QueueModel {
    /// Stepping back right after stepping forward returns to the same state
    /// when nothing is queued and a song of the order is playing.
    pub proof fn lemma_previous_undoes_next(self)
        requires
            self.wf(),
            self.priority.len() == 0,
            self.playing == Some(NowPlaying::Queued),
        ensures
            self.next().0.previous().0 == self,
            self.next().0.previous().1 == self.current(),
    {
        let len = self.order.len() as int;
        let p = self.cursor.unwrap() as int;
        if p + 1 < len {
            vstd::arithmetic::div_mod::lemma_small_mod((p + 1) as nat, len as nat);
        } else {
            vstd::arithmetic::div_mod::lemma_mod_self_0(len);
        }
    }

    /// Stepping forward right after stepping back returns to the same state
    /// when nothing is queued and a song of the order is playing.
    pub proof fn lemma_next_undoes_previous(self)
        requires
            self.wf(),
            self.priority.len() == 0,
            self.playing == Some(NowPlaying::Queued),
        ensures
            self.previous().0.next().0 == self,
            self.previous().0.next().1 == self.current(),
    {
        let len = self.order.len() as int;
        let p = self.cursor.unwrap() as int;
        if p == 0 {
            vstd::arithmetic::div_mod::lemma_mod_self_0(len);
        } else {
            vstd::arithmetic::div_mod::lemma_small_mod(p as nat, len as nat);
        }
    }

    /// `upcoming(n)` lists, in order, exactly what the next `n` calls of
    /// `next` play, whenever there is something to play: the queued songs
    /// cover `n`, or the order is not empty (also when nothing plays).
    pub proof fn lemma_upcoming_previews_next(self, n: nat)
        requires
            self.wf(),
            n <= self.priority.len() || self.order.len() > 0,
        ensures
            self.upcoming(n).len() == n,
            forall|k: int| 0 <= k < n ==> Some(#[trigger] self.upcoming(n)[k]) == self.next_n((k + 1) as nat).1,
    {
        let plen = self.priority.len();
        assert forall|k: int| 0 <= k < n implies Some(#[trigger] self.upcoming(n)[k]) == self.next_n((k + 1) as nat).1 by {
            if k < plen {
                lemma_next_n_through_priority(self, (k + 1) as nat);
            } else {
                lemma_next_n_through_order(self, (k + 1) as nat);
            }
        }
    }
}

} // verus!
