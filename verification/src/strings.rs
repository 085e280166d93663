//! User-visible copy and the conventions it follows: status text is lower
//! case without a final period, failures start with "failed to", and a
//! count never gets "(s)" but a proper plural.

use vstd::prelude::*;

use crate::song::{decimal_digits, decimal_usize};

verus! {

pub const SELECT_SONG_FIRST: &'static str = "select a song first";

pub const NOTHING_PLAYING: &'static str = "nothing is playing";

pub const CLEARED_SEARCH: &'static str = "cleared search";

/// What a song with no usable label is called.
pub const UNTITLED_SONG: &'static str = "this song";

/// What a playlist with no usable name is called.
pub const UNTITLED_PLAYLIST: &'static str = "this playlist";

/// `suffix`, unless `count` is exactly one.
pub fn plural<'a>(count: usize, suffix: &'a str) -> (r: &'a str)
    ensures
        count == 1 ==> r@ == ""@,
        count != 1 ==> r == suffix,
{
    if count == 1 {
        ""
    } else {
        suffix
    }
}

/// How a status message is shown.
#[derive(Debug, Clone, Copy, PartialEq, Eq, Structural)]
pub enum StatusKind {
    Info,
    Success,
    Error,
}

/// A batch that changed nothing is news; one that changed something is a
/// success.
pub fn status_kind_for(count: usize) -> (r: StatusKind)
    ensures
        count == 0 ==> r == StatusKind::Info,
        count != 0 ==> r == StatusKind::Success,
{
    if count == 0 {
        StatusKind::Info
    } else {
        StatusKind::Success
    }
}

/// The report on applying `verb` to `total` songs and a playlist `name`,
/// of which `done` changed it: the `noop` wording when none did, the
/// short form for a single song, a count when all did, and "n of t"
/// otherwise.
pub open spec fn batch_message_spec(
    verb: Seq<char>,
    prep: Seq<char>,
    noop: Seq<char>,
    done: nat,
    total: nat,
    name: Seq<char>,
) -> Seq<char> {
    let quoted = " \""@ + name + "\""@;
    if done == 0 {
        noop + quoted
    } else if done == 1 && total == 1 {
        verb + " "@ + prep + quoted
    } else if done == total {
        verb + " "@ + decimal_digits(done) + " songs "@ + prep + quoted
    } else {
        verb + " "@ + decimal_digits(done) + " of "@ + decimal_digits(total) + " songs "@ + prep
            + quoted
    }
}

/// See [`batch_message_spec`].
pub fn batch_message(verb: &str, prep: &str, noop: &str, done: usize, total: usize, name: &str) -> (r:
    String)
    ensures
        r@ == batch_message_spec(verb@, prep@, noop@, done as nat, total as nat, name@),
{
    if done == 0 {
        let out = noop.to_string();
        let out = out.concat(" \"");
        let out = out.concat(name);
        return out.concat("\"");
    }
    let out = verb.to_string();
    let out = out.concat(" ");
    if done == 1 && total == 1 {
        let out = out.concat(prep);
        let out = out.concat(" \"");
        let out = out.concat(name);
        return out.concat("\"");
    }
    let count = decimal_usize(done);
    let out = out.concat(count.as_str());
    let out = if done == total {
        out
    } else {
        let out = out.concat(" of ");
        let of_total = decimal_usize(total);
        out.concat(of_total.as_str())
    };
    let out = out.concat(" songs ");
    let out = out.concat(prep);
    let out = out.concat(" \"");
    let out = out.concat(name);
    out.concat("\"")
}

/// The report on adding songs to a playlist.
pub fn add_batch_message(added: usize, total: usize, name: &str) -> (r: String)
    ensures
        r@ == batch_message_spec("added"@, "to"@, "already in"@, added as nat, total as nat, name@),
{
    batch_message("added", "to", "already in", added, total, name)
}

/// The report on removing songs from a playlist.
pub fn remove_batch_message(removed: usize, total: usize, name: &str) -> (r: String)
    ensures
        r@ == batch_message_spec("removed"@, "from"@, "not in"@, removed as nat, total as nat, name@),
{
    batch_message("removed", "from", "not in", removed, total, name)
}

} // verus!
