//! Changing to another library directory: the pending playlist changes are
//! saved before the new directory's playlists are read, and the status line
//! reports what the scan found.

use vstd::prelude::*;

use crate::playlist::{PlaylistStore, SaveOutcome};
use crate::song::{decimal_digits, decimal_usize};
use crate::strings::StatusKind;

verus! {

/// `"s"` unless `count` is one.
pub open spec fn plural_s(count: usize) -> Seq<char> {
    if count == 1 {
        Seq::empty()
    } else {
        "s"@
    }
}

/// The status line after scanning a directory: how many songs were loaded
/// from `root`, then, where they apply, how many files were skipped, how
/// many missing songs left the playlists, how many warnings wait for the
/// end of the session, the warning from remembering the directory, and
/// the error from stopping the previous playback.
pub open spec fn dir_scan_message(
    songs: usize,
    root: Seq<char>,
    skipped: usize,
    removed: usize,
    warnings: usize,
    save_warning: Option<Seq<char>>,
    stop_error: Option<Seq<char>>,
) -> Seq<char> {
    "loaded "@ + decimal_digits(songs as nat) + " song"@ + plural_s(songs) + " from "@ + root + (if skipped
        > 0 {
        " ("@ + decimal_digits(skipped as nat) + " skipped)"@
    } else {
        Seq::empty()
    }) + (if removed > 0 {
        ", removed "@ + decimal_digits(removed as nat) + " missing song"@ + plural_s(removed)
            + " from playlists"@
    } else {
        Seq::empty()
    }) + (if warnings > 0 {
        ", "@ + decimal_digits(warnings as nat) + " warning"@ + plural_s(warnings)
            + " \u{2014} see the output after quitting"@
    } else {
        Seq::empty()
    }) + (match save_warning {
        Some(w) => ", warning: "@ + w,
        None => Seq::empty(),
    }) + (match stop_error {
        Some(e) => " (failed to stop previous playback cleanly: "@ + e + ")"@,
        None => Seq::empty(),
    })
}

fn plural_text(count: usize) -> (r: &'static str)
    ensures
        r@ == plural_s(count),
{
    if count == 1 {
        proof {
            reveal_strlit("");
        }
        ""
    } else {
        proof {
            reveal_strlit("s");
        }
        "s"
    }
}

fn skipped_part(skipped: usize) -> (r: String)
    ensures
        r@ == if skipped > 0 {
            " ("@ + decimal_digits(skipped as nat) + " skipped)"@
        } else {
            Seq::empty()
        },
{
    if skipped > 0 {
        let o = " (".to_string();
        let o = o.concat(decimal_usize(skipped).as_str());
        o.concat(" skipped)")
    } else {
        String::new()
    }
}

fn removed_part(removed: usize) -> (r: String)
    ensures
        r@ == if removed > 0 {
            ", removed "@ + decimal_digits(removed as nat) + " missing song"@ + plural_s(removed)
                + " from playlists"@
        } else {
            Seq::empty()
        },
{
    if removed > 0 {
        let o = ", removed ".to_string();
        let o = o.concat(decimal_usize(removed).as_str());
        let o = o.concat(" missing song");
        let o = o.concat(plural_text(removed));
        o.concat(" from playlists")
    } else {
        String::new()
    }
}

fn warnings_part(warnings: usize) -> (r: String)
    ensures
        r@ == if warnings > 0 {
            ", "@ + decimal_digits(warnings as nat) + " warning"@ + plural_s(warnings)
                + " \u{2014} see the output after quitting"@
        } else {
            Seq::empty()
        },
{
    if warnings > 0 {
        let o = ", ".to_string();
        let o = o.concat(decimal_usize(warnings).as_str());
        let o = o.concat(" warning");
        let o = o.concat(plural_text(warnings));
        o.concat(" \u{2014} see the output after quitting")
    } else {
        String::new()
    }
}

fn save_part(save_warning: Option<&str>) -> (r: String)
    ensures
        r@ == match save_warning {
            Some(w) => ", warning: "@ + w@,
            None => Seq::empty(),
        },
{
    match save_warning {
        Some(w) => ", warning: ".to_string().concat(w),
        None => String::new(),
    }
}

fn stop_part(stop_error: Option<&str>) -> (r: String)
    ensures
        r@ == match stop_error {
            Some(e) => " (failed to stop previous playback cleanly: "@ + e@ + ")"@,
            None => Seq::empty(),
        },
{
    match stop_error {
        Some(e) => {
            let o = " (failed to stop previous playback cleanly: ".to_string();
            let o = o.concat(e);
            o.concat(")")
        },
        None => String::new(),
    }
}

/// See [`dir_scan_message`]; the report is a success unless stopping the
/// previous playback failed.
pub fn dir_scan_report(
    songs: usize,
    root: &str,
    skipped: usize,
    removed: usize,
    warnings: usize,
    save_warning: Option<&str>,
    stop_error: Option<&str>,
) -> (r: (String, StatusKind))
    ensures
        r.0@ == dir_scan_message(
            songs,
            root@,
            skipped,
            removed,
            warnings,
            match save_warning {
                Some(w) => Some(w@),
                None => None,
            },
            match stop_error {
                Some(e) => Some(e@),
                None => None,
            },
        ),
        r.1 == if stop_error is Some {
            StatusKind::Error
        } else {
            StatusKind::Success
        },
{
    let out = "loaded ".to_string();
    let out = out.concat(decimal_usize(songs).as_str());
    let out = out.concat(" song");
    let out = out.concat(plural_text(songs));
    let out = out.concat(" from ");
    let out = out.concat(root);
    let out = out.concat(skipped_part(skipped).as_str());
    let out = out.concat(removed_part(removed).as_str());
    let out = out.concat(warnings_part(warnings).as_str());
    let out = out.concat(save_part(save_warning).as_str());
    let out = out.concat(stop_part(stop_error).as_str());
    let kind = match stop_error {
        Some(_) => StatusKind::Error,
        None => StatusKind::Success,
    };
    (out, kind)
}

/// Replaces the playlist store on a change of directory: first the old
/// store's pending changes are saved with `save` (as
/// [`PlaylistStore::flush`] does), then the new directory's store is read
/// with `load`, which is told how the save went, and takes the old one's
/// place. Returns how the save went.
pub fn switch_store<F, G>(store: &mut PlaylistStore, save: F, load: G) -> (r: SaveOutcome) where
    F: FnOnce(&PlaylistStore) -> SaveOutcome,
    G: FnOnce(&SaveOutcome) -> PlaylistStore,

    requires
        old(store).is_dirty() ==> save.requires((&*old(store),)),
        forall|o: SaveOutcome| load.requires((&o,)),
    ensures
        !old(store).is_dirty() ==> r == SaveOutcome::NothingToSave,
        old(store).is_dirty() ==> save.ensures((&*old(store),), r),
        load.ensures((&r,), *final(store)),
{
    let outcome = store.flush(save);
    let next = load(&outcome);
    *store = next;
    outcome
}

} // verus!
