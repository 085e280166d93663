//! The rows a panel shows, kept until something they depend on changes.

use vstd::prelude::*;

use crate::layout::{row_views, Row, RowView};
use crate::playlist::PlaylistId;
use crate::text::{chars_equal, chars_of};

verus! {

/// The two panels.
#[derive(Debug, Clone, Copy, PartialEq, Eq, Structural)]
pub enum Panel {
    Library,
    Playlists,
}

/// What the playlists panel shows: the list of playlists, or one of them.
#[derive(Debug, Clone, Copy, PartialEq, Eq)]
pub enum PlaylistView {
    Browsing,
    Viewing(PlaylistId),
}

/// How songs are grouped (`Ungrouped`: one flat list).
#[derive(Debug, Clone, Copy, PartialEq, Eq, Structural)]
pub enum Category {
    Ungrouped,
    Artist,
    Path,
}

/// How songs are ordered within a group.
#[derive(Debug, Clone, Copy, PartialEq, Eq, Structural)]
pub enum Sort {
    Title,
    Duration,
    Artist,
    Path,
    DateModified,
}

/// Everything the rows depend on.
pub struct RowsKey {
    pub panel: Panel,
    pub view: PlaylistView,
    pub category: Category,
    pub sort: Sort,
    pub query: String,
    pub library_revision: u64,
    pub playlists_revision: u64,
}

/// Whether two keys name the same rows.
pub open spec fn same_key(a: RowsKey, b: RowsKey) -> bool {
    &&& a.panel == b.panel
    &&& a.view == b.view
    &&& a.category == b.category
    &&& a.sort == b.sort
    &&& a.query@ == b.query@
    &&& a.library_revision == b.library_revision
    &&& a.playlists_revision == b.playlists_revision
}

/// Whether two views of the playlists panel are the same.
fn same_view(a: &PlaylistView, b: &PlaylistView) -> (r: bool)
    ensures
        r == (*a == *b),
{
    match (a, b) {
        (PlaylistView::Browsing, PlaylistView::Browsing) => true,
        (PlaylistView::Viewing(x), PlaylistView::Viewing(y)) => {
            let mut i: usize = 0;
            while i < 16
                invariant
                    i <= 16,
                    *a == PlaylistView::Viewing(*x),
                    *b == PlaylistView::Viewing(*y),
                    forall|q: int| 0 <= q < i ==> x.bytes()[q] == y.bytes()[q],
                decreases 16 - i,
            {
                let bx = x.byte_at(i);
                let by = y.byte_at(i);
                if bx != by {
                    return false;
                }
                i = i + 1;
            }
            proof {
                PlaylistId::lemma_bytes_determine(*x, *y);
            }
            true
        },
        _ => false,
    }
}

/// The rows last built and what they were built for.
pub struct RowCache {
    rows: Vec<Row>,
    key: Option<RowsKey>,
}

impl RowCache {
    /// What the rows were built for.
    pub closed spec fn key_view(&self) -> Option<RowsKey> {
        self.key
    }

    /// The rows last built.
    pub closed spec fn rows_view(&self) -> Seq<RowView> {
        row_views(self.rows@)
    }

    /// A cache holding nothing.
    pub fn new() -> (r: RowCache)
        ensures
            r.key_view() is None,
            r.rows_view().len() == 0,
    {
        RowCache { rows: Vec::new(), key: None }
    }

    /// Forgets what the rows were built for, so they are built again.
    pub fn invalidate(&mut self)
        ensures
            final(self).key_view() is None,
            final(self).rows_view() == old(self).rows_view(),
    {
        self.key = None;
    }

    /// Whether the rows were built for `key`.
    pub fn is_current(&self, key: &RowsKey) -> (r: bool)
        ensures
            r == (self.key_view() matches Some(k) && same_key(k, *key)),
    {
        match &self.key {
            None => false,
            Some(k) => {
                k.panel == key.panel && same_view(&k.view, &key.view) && k.category == key.category
                    && k.sort == key.sort && chars_equal(
                    chars_of(k.query.as_str()).as_slice(),
                    chars_of(key.query.as_str()).as_slice(),
                ) && k.library_revision == key.library_revision && k.playlists_revision
                    == key.playlists_revision
            },
        }
    }

    /// Keeps `rows`, built for `key`.
    pub fn store(&mut self, rows: Vec<Row>, key: RowsKey)
        ensures
            final(self).key_view() == Some(key),
            final(self).rows_view() == row_views(rows@),
    {
        self.rows = rows;
        self.key = Some(key);
    }

    /// The rows last built, whether or not they are current.
    pub fn rows_unchecked(&self) -> (r: &[Row])
        ensures
            row_views(r@) == self.rows_view(),
    {
        self.rows.as_slice()
    }
}

} // verus!
