//! Where a seek lands, and jumping ahead in the queue.

use vstd::prelude::*;

use crate::playlist::{same_id, PlaylistId};
use crate::queue::{Queue, QueueModel};
use crate::song::{parse_usize, parse_usize_spec, SongId};
use crate::text::chars_of;

verus! {

/// A position in a track: whole seconds and the nanoseconds beyond them.
#[derive(Debug, Clone, Copy, PartialEq, Eq, Structural)]
pub struct Position {
    pub secs: u64,
    pub nanos: u32,
}

/// The position `delta_secs` seconds from `position`: forwards as far as
/// asked, backwards no further than the start. Nothing when there is no
/// position.
pub fn seek_target(position: Option<Position>, delta_secs: i64) -> (r: Option<Position>)
    requires
        delta_secs > i64::MIN,
        position matches Some(p) ==> (delta_secs >= 0 ==> p.secs + delta_secs <= u64::MAX),
    ensures
        position is None ==> r is None,
        position matches Some(p) ==> {
            &&& r is Some
            &&& delta_secs >= 0 ==> r == Some(Position { secs: (p.secs + delta_secs) as u64, nanos: p.nanos })
            &&& delta_secs < 0 && p.secs >= -delta_secs ==> r == Some(
                Position { secs: (p.secs + delta_secs) as u64, nanos: p.nanos },
            )
            &&& delta_secs < 0 && p.secs < -delta_secs ==> r == Some(Position { secs: 0, nanos: 0 })
        },
{
    let p = match position {
        Some(p) => p,
        None => return None,
    };
    if delta_secs >= 0 {
        Some(Position { secs: p.secs + delta_secs as u64, nanos: p.nanos })
    } else {
        let back = (-delta_secs) as u64;
        if p.secs >= back {
            Some(Position { secs: p.secs - back, nanos: p.nanos })
        } else {
            Some(Position { secs: 0, nanos: 0 })
        }
    }
}

/// What jumping ahead in Up Next comes to: the song to play, or why there
/// is none.
#[derive(Debug, Clone, PartialEq, Eq)]
pub enum UpNextJump {
    Play(SongId),
    Refused(String),
}

/// Jumps to position `typed` of Up Next (counting from 1), as typed: the
/// queue plays on that many times ([`Queue::play_upcoming`]) and the song
/// it lands on is played; position 0, an empty Up Next and text that is
/// no position are refused with their reasons, the queue unchanged.
pub fn jump_to_upcoming(queue: &mut Queue, typed: &str) -> (r: UpNextJump)
    ensures
        match parse_usize_spec(typed@) {
            Some(n) => if n == 0 {
                &&& r matches UpNextJump::Refused(t) && t@ == "Up Next positions start at 1"@
                &&& final(queue)@ == old(queue)@
            } else {
                &&& final(queue)@ == old(queue)@.next_n(n as nat).0
                &&& match old(queue)@.next_n(n as nat).1 {
                    Some(id) => r == UpNextJump::Play(id),
                    None => r matches UpNextJump::Refused(t) && t@ == "Up Next is empty"@,
                }
            },
            None => {
                &&& r matches UpNextJump::Refused(t) && t@ == "invalid Up Next position"@
                &&& final(queue)@ == old(queue)@
            },
        },
{
    let chars = chars_of(typed);
    match parse_usize(chars.as_slice()) {
        Some(0) => UpNextJump::Refused("Up Next positions start at 1".to_string()),
        Some(n) => match queue.play_upcoming(n) {
            Some(id) => UpNextJump::Play(id),
            None => UpNextJump::Refused("Up Next is empty".to_string()),
        },
        None => UpNextJump::Refused("invalid Up Next position".to_string()),
    }
}

/// What the play queue was built from: the whole library, or a playlist.
#[derive(Debug, Clone, Copy, PartialEq, Eq)]
pub enum QueueSource {
    Library,
    Playlist(PlaylistId),
}

fn same_source(a: QueueSource, b: QueueSource) -> (r: bool)
    ensures
        r == (a == b),
{
    match (a, b) {
        (QueueSource::Library, QueueSource::Library) => true,
        (QueueSource::Playlist(x), QueueSource::Playlist(y)) => same_id(&x, &y),
        _ => false,
    }
}

/// The queue to play a song from a list shown in `order`, built from
/// `wanted`: the queue as it is when it was built from `wanted` over that
/// very order (so a shuffle and what is queued next survive), else a new
/// queue over `order` with nothing playing.
pub fn queue_for(queue: Queue, current: QueueSource, wanted: QueueSource, order: Vec<SongId>) -> (r: Queue)
    ensures
        current == wanted && queue@.base == order@ ==> r@ == queue@,
        !(current == wanted && queue@.base == order@) ==> r@ == (QueueModel {
            base: order@,
            order: order@,
            cursor: None,
            playing: None,
            priority: Seq::empty(),
        }),
{
    if same_source(current, wanted) && queue.has_base(order.as_slice()) {
        queue
    } else {
        Queue::new(order)
    }
}

} // verus!
