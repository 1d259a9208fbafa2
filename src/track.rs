//! Track records: identity by path, display text of each column, and the
//! order of each column.

use std::cmp::Ordering;
use vstd::prelude::*;
use vstd::std_specs::cmp::PartialEqSpec;

use crate::text::{
    compare_text, duration_text, format_duration, lower_of, lowercase, text_order,
};

verus! {

/// The columns a track can be shown and sorted by.
#[derive(Clone, Copy, Debug, PartialEq, Eq, Structural, Hash)]
pub enum CachedField {
    Title,
    Artist,
    Album,
    Year,
    Genre,
    Duration,
}

/// The tag items the library reads from a file's tag.
#[derive(Clone, Copy, Debug, PartialEq, Eq, Structural, Hash)]
pub enum TagKey {
    TrackTitle,
    TrackArtist,
    AlbumTitle,
    Year,
    Genre,
    Lyrics,
}

/// The column that shows a tag item, if any does.
pub open spec fn field_of_key(k: TagKey) -> Option<CachedField> {
    match k {
        TagKey::TrackTitle => Some(CachedField::Title),
        TagKey::TrackArtist => Some(CachedField::Artist),
        TagKey::AlbumTitle => Some(CachedField::Album),
        TagKey::Year => Some(CachedField::Year),
        TagKey::Genre => Some(CachedField::Genre),
        TagKey::Lyrics => None,
    }
}

/// The tag item a column comes from, if it comes from one.
pub open spec fn key_of_field(f: CachedField) -> Option<TagKey> {
    match f {
        CachedField::Title => Some(TagKey::TrackTitle),
        CachedField::Artist => Some(TagKey::TrackArtist),
        CachedField::Album => Some(TagKey::AlbumTitle),
        CachedField::Year => Some(TagKey::Year),
        CachedField::Genre => Some(TagKey::Genre),
        CachedField::Duration => None,
    }
}

impl CachedField {
    /// The column that shows tag item `key`; `None` for an item that no
    /// column shows.
    pub fn from_tag_key(key: TagKey) -> (r: Option<CachedField>)
        ensures
            r == field_of_key(key),
    {
        match key {
            TagKey::TrackTitle => Some(CachedField::Title),
            TagKey::TrackArtist => Some(CachedField::Artist),
            TagKey::AlbumTitle => Some(CachedField::Album),
            TagKey::Year => Some(CachedField::Year),
            TagKey::Genre => Some(CachedField::Genre),
            TagKey::Lyrics => None,
        }
    }

    /// The tag item this column comes from; `None` for the duration, which
    /// comes from the audio stream.
    pub fn tag_key(self) -> (r: Option<TagKey>)
        ensures
            r == key_of_field(self),
    {
        match self {
            CachedField::Title => Some(TagKey::TrackTitle),
            CachedField::Artist => Some(TagKey::TrackArtist),
            CachedField::Album => Some(TagKey::AlbumTitle),
            CachedField::Year => Some(TagKey::Year),
            CachedField::Genre => Some(TagKey::Genre),
            CachedField::Duration => None,
        }
    }
}

/// A track's metadata as mathematical values.
pub struct TrackView {
    pub path: Seq<char>,
    pub title: Option<Seq<char>>,
    pub artist: Option<Seq<char>>,
    pub album: Option<Seq<char>>,
    pub year: Option<Seq<char>>,
    pub genre: Option<Seq<char>>,
    pub duration: nat,
}

/// The view of an optional string.
pub open spec fn opt_view(o: Option<String>) -> Option<Seq<char>> {
    match o {
        Some(s) => Some(s@),
        None => None,
    }
}

/// A resolved catalog entry. Its identity is its path alone; the other
/// fields are metadata that may be missing.
#[derive(Clone, Debug)]
pub struct Track {
    pub path: String,
    pub title: Option<String>,
    pub artist: Option<String>,
    pub album: Option<String>,
    pub year: Option<String>,
    pub genre: Option<String>,
    /// Length in whole seconds.
    pub duration: u64,
}

impl View for Track {
    type V = TrackView;

    open spec fn view(&self) -> TrackView {
        TrackView {
            path: self.path@,
            title: opt_view(self.title),
            artist: opt_view(self.artist),
            album: opt_view(self.album),
            year: opt_view(self.year),
            genre: opt_view(self.genre),
            duration: self.duration as nat,
        }
    }
}

impl PartialEq for Track {
    fn eq(&self, other: &Track) -> (r: bool) {
        self.path == other.path
    }
}

impl vstd::std_specs::cmp::PartialEqSpecImpl for Track {
    open spec fn obeys_eq_spec() -> bool {
        true
    }

    open spec fn eq_spec(&self, other: &Track) -> bool {
        self.path@ == other.path@
    }
}

impl Eq for Track {}

/// Relies on `String`'s `Hash`: feeds the string's bytes to the hasher.
pub assume_specification<H: std::hash::Hasher>[ <String as std::hash::Hash>::hash::<H> ](
    s: &String,
    state: &mut H,
);

impl std::hash::Hash for Track {
    fn hash<H: std::hash::Hasher>(&self, state: &mut H) {
        self.path.hash(state);
    }
}

/// Two tracks are the same track exactly when their paths are equal,
/// whatever their other fields hold.
pub proof fn lemma_identity_by_path(a: Track, b: Track)
    ensures
        a.eq_spec(&b) <==> a.path@ == b.path@,
        a.path@ == b.path@ ==> b.eq_spec(&a),
{
}

/// What `Path::file_name` gives for a path: its last component, if any.
pub uninterp spec fn base_name_of(path: Seq<char>) -> Option<Seq<char>>;

/// Relies on `std::path::Path::file_name`: the final component of a path,
/// `None` when the path ends in `..` or is a root.
#[verifier::external_body]
fn base_name(path: &str) -> (r: Option<String>)
    ensures
        opt_view(r) == base_name_of(path@),
{
    std::path::Path::new(path).file_name().map(|n| n.to_string_lossy().into_owned())
}

/// The text of an optional field, empty when it is missing.
pub open spec fn or_empty(o: Option<Seq<char>>) -> Seq<char> {
    match o {
        Some(s) => s,
        None => Seq::empty(),
    }
}

/// The title shown for a track: its tag title, else the file's base name.
pub open spec fn display_title(t: TrackView) -> Seq<char> {
    match t.title {
        Some(s) => s,
        None => or_empty(base_name_of(t.path)),
    }
}

/// The text a column shows for a track.
pub open spec fn field_text(t: TrackView, f: CachedField) -> Seq<char> {
    match f {
        CachedField::Title => display_title(t),
        CachedField::Artist => or_empty(t.artist),
        CachedField::Album => or_empty(t.album),
        CachedField::Year => or_empty(t.year),
        CachedField::Genre => or_empty(t.genre),
        CachedField::Duration => duration_text(t.duration),
    }
}

/// Numeric order of two naturals.
pub open spec fn num_order(a: nat, b: nat) -> Ordering {
    if a < b {
        Ordering::Less
    } else if a > b {
        Ordering::Greater
    } else {
        Ordering::Equal
    }
}

/// How two tracks are ordered in a column: title and artist by their
/// lowercased text, duration by number of seconds, other columns not at
/// all.
pub open spec fn column_order(a: TrackView, b: TrackView, f: CachedField) -> Ordering {
    match f {
        CachedField::Title | CachedField::Artist => text_order(
            lower_of(field_text(a, f)),
            lower_of(field_text(b, f)),
        ),
        CachedField::Duration => num_order(a.duration, b.duration),
        _ => Ordering::Equal,
    }
}

fn text_or_empty(o: &Option<String>) -> (r: String)
    ensures
        r@ == or_empty(opt_view(*o)),
{
    match o {
        Some(s) => s.clone(),
        None => String::new(),
    }
}

impl Track {
    /// A track with the given path and metadata.
    pub fn new(
        path: String,
        title: Option<String>,
        artist: Option<String>,
        album: Option<String>,
        year: Option<String>,
        genre: Option<String>,
        duration: u64,
    ) -> (r: Track)
        ensures
            r.path == path,
            r.title == title,
            r.artist == artist,
            r.album == album,
            r.year == year,
            r.genre == genre,
            r.duration == duration,
    {
        Track { path, title, artist, album, year, genre, duration }
    }

    /// The title shown for this track: the tag title when there is one,
    /// else the base name of its path (empty when the path has none).
    pub fn display_title(&self) -> (r: String)
        ensures
            r@ == display_title(self@),
    {
        match &self.title {
            Some(t) => t.clone(),
            None => match base_name(self.path.as_str()) {
                Some(n) => n,
                None => String::new(),
            },
        }
    }

    /// The text this track shows in column `field`.
    pub fn cached_field_string(&self, field: CachedField) -> (r: String)
        ensures
            r@ == field_text(self@, field),
    {
        match field {
            CachedField::Title => self.display_title(),
            CachedField::Artist => text_or_empty(&self.artist),
            CachedField::Album => text_or_empty(&self.album),
            CachedField::Year => text_or_empty(&self.year),
            CachedField::Genre => text_or_empty(&self.genre),
            CachedField::Duration => format_duration(self.duration),
        }
    }

    /// Orders this track against `other` in column `column`: title and
    /// artist by their lowercased text, duration numerically, and the
    /// remaining columns as equal.
    pub fn compare_by(&self, other: &Track, column: CachedField) -> (r: Ordering)
        ensures
            r == column_order(self@, other@, column),
    {
        match column {
            CachedField::Title | CachedField::Artist => {
                let a = lowercase(self.cached_field_string(column).as_str());
                let b = lowercase(other.cached_field_string(column).as_str());
                compare_text(a.as_str(), b.as_str())
            },
            CachedField::Duration => {
                if self.duration < other.duration {
                    Ordering::Less
                } else if self.duration > other.duration {
                    Ordering::Greater
                } else {
                    Ordering::Equal
                }
            },
            _ => Ordering::Equal,
        }
    }
}

/// Sorting by title ignores case as `to_lowercase` does: titles that lowercase
/// alike compare equal; sorting by duration compares the seconds alone and
/// ignores every text field.
pub proof fn lemma_sort_keys(a: TrackView, b: TrackView, a2: TrackView, b2: TrackView)
    ensures
        lower_of(display_title(a)) == lower_of(display_title(b)) ==> column_order(
            a,
            b,
            CachedField::Title,
        ) == Ordering::Equal,
        column_order(a, b, CachedField::Duration) == num_order(a.duration, b.duration),
        a.duration == a2.duration && b.duration == b2.duration ==> column_order(
            a,
            b,
            CachedField::Duration,
        ) == column_order(a2, b2, CachedField::Duration),
{
    crate::text::lemma_text_order_equal(lower_of(display_title(a)), lower_of(display_title(b)));
}

} // verus!
