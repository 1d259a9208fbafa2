//! The metadata cache: one CSV row per track with the columns `path`,
//! `title`, `artist`, `album`, `year`, `genre` and `duration_seconds`.
//! Missing text fields are written empty. Loading is best effort: a row
//! that does not read as a track is dropped and the rest are kept.

use vstd::prelude::*;

use crate::text::{decimal, decimal_text, decimal_u64, lemma_decimal_round_trip, parse_decimal};
use crate::track::{opt_view, or_empty, Track, TrackView};

verus! {

/// The names of the cache's columns, in order.
pub open spec fn header_row() -> Seq<Seq<char>> {
    seq![
        "path"@,
        "title"@,
        "artist"@,
        "album"@,
        "year"@,
        "genre"@,
        "duration_seconds"@,
    ]
}

/// The cache row of a track.
pub open spec fn row_of(t: TrackView) -> Seq<Seq<char>> {
    seq![
        t.path,
        or_empty(t.title),
        or_empty(t.artist),
        or_empty(t.album),
        or_empty(t.year),
        or_empty(t.genre),
        decimal(t.duration),
    ]
}

/// A text field as read back: empty means missing.
pub open spec fn field_of_text(s: Seq<char>) -> Option<Seq<char>> {
    if s.len() == 0 {
        None
    } else {
        Some(s)
    }
}

/// The track a cache row stands for: a row of seven fields whose last is an
/// unsigned 64-bit decimal; any other row stands for none.
pub open spec fn track_of_row(r: Seq<Seq<char>>) -> Option<TrackView> {
    if r.len() == 7 && decimal_u64(r[6]) is Some {
        Some(
            TrackView {
                path: r[0],
                title: field_of_text(r[1]),
                artist: field_of_text(r[2]),
                album: field_of_text(r[3]),
                year: field_of_text(r[4]),
                genre: field_of_text(r[5]),
                duration: decimal_u64(r[6])->0 as nat,
            },
        )
    } else {
        None
    }
}

/// The tracks that a sequence of read records gives, in order: each record
/// that was read and stands for a track gives it; the others give nothing.
pub open spec fn tracks_of_records(recs: Seq<Option<Seq<Seq<char>>>>) -> Seq<TrackView>
    decreases recs.len(),
{
    if recs.len() == 0 {
        Seq::empty()
    } else {
        let rest = tracks_of_records(recs.drop_last());
        match recs.last() {
            Some(r) => match track_of_row(r) {
                Some(t) => rest.push(t),
                None => rest,
            },
            None => rest,
        }
    }
}

/// The views of a sequence of tracks.
pub open spec fn views(ts: Seq<Track>) -> Seq<TrackView> {
    ts.map_values(|t: Track| t@)
}

/// A track whose present text fields are all non-empty: the cache writes a
/// missing field and an empty one alike.
pub open spec fn no_empty_fields(t: TrackView) -> bool {
    &&& t.title != Some(Seq::<char>::empty())
    &&& t.artist != Some(Seq::<char>::empty())
    &&& t.album != Some(Seq::<char>::empty())
    &&& t.year != Some(Seq::<char>::empty())
    &&& t.genre != Some(Seq::<char>::empty())
}

/// The records that reading back the rows of `ts` gives.
pub open spec fn records_of(ts: Seq<TrackView>) -> Seq<Option<Seq<Seq<char>>>> {
    ts.map_values(|t: TrackView| Some(row_of(t)))
}

/// The errors of writing the cache.
#[derive(Clone, Copy, Debug, PartialEq, Eq, Structural)]
pub enum CacheError {
    /// The CSV writer failed.
    Encode,
}

/// The sequence of rows written so far to a CSV writer.
pub uninterp spec fn csv_rows_written(w: CsvSink) -> Seq<Seq<Seq<char>>>;

/// The bytes that a default CSV writer produces for a sequence of rows.
pub uninterp spec fn csv_text(rows: Seq<Seq<Seq<char>>>) -> Seq<u8>;

/// The data records that a default CSV reader finds in some bytes, after the
/// header row: each one read, or `None` where reading it failed.
pub uninterp spec fn csv_records(bytes: Seq<u8>) -> Seq<Option<Seq<Seq<char>>>>;

/// A CSV writer with the default settings over an in-memory buffer.
#[verifier::external_body]
pub struct CsvSink {
    inner: csv::Writer<Vec<u8>>,
}

#[verifier::external_type_specification]
#[verifier::external_body]
pub struct ExCsvError(csv::Error);

/// Relies on `csv::Writer::from_writer`: a writer with the default settings
/// over an empty buffer, nothing written yet.
#[verifier::external_body]
fn new_csv_writer() -> (w: CsvSink)
    ensures
        csv_rows_written(w) == Seq::<Seq<Seq<char>>>::empty(),
{
    CsvSink { inner: csv::Writer::from_writer(Vec::new()) }
}

/// Relies on `csv::Writer::write_record` into an in-memory buffer. Writing
/// to a `Vec` never fails, so the only error is a row whose number of
/// fields differs from the first row's; on success the row is appended to
/// what was written and the writer is handed back.
#[verifier::external_body]
fn write_csv_row(w: CsvSink, row: &Vec<String>) -> (r: Result<CsvSink, csv::Error>)
    ensures
        r is Ok ==> csv_rows_written(r->Ok_0) == csv_rows_written(w).push(row.deep_view()),
        csv_rows_written(w).len() == 0 || row@.len() == csv_rows_written(w)[0].len() ==> r is Ok,
{
    let mut w = w;
    match w.inner.write_record(row) {
        Ok(()) => Ok(w),
        Err(e) => Err(e),
    }
}

/// Relies on `csv::Writer::into_inner`: flushes into the in-memory buffer,
/// which cannot fail, and hands the buffer back. It then holds the text of
/// every row written, and nothing when no row was.
#[verifier::external_body]
fn finish_csv(w: CsvSink) -> (r: Result<Vec<u8>, csv::Error>)
    ensures
        r is Ok,
        r->Ok_0@ == csv_text(csv_rows_written(w)),
        csv_rows_written(w).len() == 0 ==> r->Ok_0@.len() == 0,
{
    w.inner.into_inner().map_err(|e| csv::Error::from(e.into_error()))
}

/// Relies on `csv::Reader::records` over a reader with the default settings,
/// which takes the first row as the header: each data record with its
/// fields, or `None` for one that failed to read.
#[verifier::external_body]
fn read_csv_records(bytes: &[u8]) -> (r: Vec<Option<Vec<String>>>)
    ensures
        r.deep_view() == csv_records(bytes@),
{
    csv::Reader::from_reader(bytes)
        .records()
        .map(|rec| rec.ok().map(|rec| rec.iter().map(String::from).collect()))
        .collect()
}

fn text_field(o: &Option<String>) -> (r: String)
    ensures
        r@ == or_empty(opt_view(*o)),
{
    match o {
        Some(s) => s.clone(),
        None => String::new(),
    }
}

fn field_from_text(s: &String) -> (r: Option<String>)
    ensures
        opt_view(r) == field_of_text(s@),
{
    if s.as_str().unicode_len() == 0 {
        None
    } else {
        Some(s.clone())
    }
}

/// The names of the cache's columns.
pub fn cache_header() -> (r: Vec<String>)
    ensures
        r.deep_view() == header_row(),
{
    let mut r: Vec<String> = Vec::new();
    r.push(String::from_str("path"));
    r.push(String::from_str("title"));
    r.push(String::from_str("artist"));
    r.push(String::from_str("album"));
    r.push(String::from_str("year"));
    r.push(String::from_str("genre"));
    r.push(String::from_str("duration_seconds"));
    assert(r.deep_view() =~= header_row());
    r
}

/// The cache row of a track: its path, its five text fields (empty where
/// missing) and its duration in decimal seconds.
pub fn track_to_row(t: &Track) -> (r: Vec<String>)
    ensures
        r.deep_view() == row_of(t@),
{
    let mut r: Vec<String> = Vec::new();
    r.push(t.path.clone());
    r.push(text_field(&t.title));
    r.push(text_field(&t.artist));
    r.push(text_field(&t.album));
    r.push(text_field(&t.year));
    r.push(text_field(&t.genre));
    r.push(decimal_text(t.duration));
    assert(r.deep_view() =~= row_of(t@));
    r
}

/// The track a cache row stands for: `None` unless the row has seven fields
/// and the last is an unsigned 64-bit decimal. Empty text fields read as
/// missing.
pub fn track_from_row(row: &Vec<String>) -> (r: Option<Track>)
    ensures
        match r {
            Some(t) => track_of_row(row.deep_view()) == Some(t@),
            None => track_of_row(row.deep_view()) is None,
        },
{
    if row.len() != 7 {
        return None;
    }
    let ghost rv = row.deep_view();
    assert(forall|i: int| 0 <= i < 7 ==> rv[i] == (#[trigger] row@[i])@);
    match parse_decimal(row[6].as_str()) {
        None => None,
        Some(duration) => {
            let t = Track {
                path: row[0].clone(),
                title: field_from_text(&row[1]),
                artist: field_from_text(&row[2]),
                album: field_from_text(&row[3]),
                year: field_from_text(&row[4]),
                genre: field_from_text(&row[5]),
                duration,
            };
            Some(t)
        },
    }
}

/// The tracks that the read records give, in order: a record that failed
/// to read, or that does not stand for a track, is dropped.
pub fn tracks_from_records(recs: &Vec<Option<Vec<String>>>) -> (r: Vec<Track>)
    ensures
        views(r@) == tracks_of_records(recs.deep_view()),
{
    let mut out: Vec<Track> = Vec::new();
    let ghost rv = recs.deep_view();
    for i in 0..recs.len()
        invariant
            rv == recs.deep_view(),
            views(out@) == tracks_of_records(rv.take(i as int)),
    {
        assert(rv.take(i as int + 1).drop_last() =~= rv.take(i as int));
        assert(rv[i as int] == recs@[i as int].deep_view());
        match &recs[i] {
            Some(row) => {
                match track_from_row(row) {
                    Some(t) => {
                        out.push(t);
                        assert(views(out@) =~= tracks_of_records(rv.take(i as int + 1)));
                    },
                    None => {},
                }
            },
            None => {},
        }
    }
    assert(rv.take(recs.len() as int) =~= rv);
    out
}

/// The cache file's bytes for `tracks`: nothing for no tracks, else the
/// header row, then one row per track in order. Writing into memory does
/// not fail.
pub fn encode_cache(tracks: &Vec<Track>) -> (r: Result<Vec<u8>, CacheError>)
    ensures
        r is Ok,
        tracks@.len() == 0 ==> r->Ok_0@.len() == 0,
        tracks@.len() > 0 ==> r->Ok_0@ == csv_text(
            seq![header_row()] + views(tracks@).map_values(|t: TrackView| row_of(t)),
        ),
{
    let w = new_csv_writer();
    if tracks.len() == 0 {
        return match finish_csv(w) {
            Ok(b) => Ok(b),
            Err(_) => Err(CacheError::Encode),
        };
    }
    let header = cache_header();
    let mut w = match write_csv_row(w, &header) {
        Ok(w) => w,
        Err(_) => {
            return Err(CacheError::Encode);
        },
    };
    for i in 0..tracks.len()
        invariant
            csv_rows_written(w) == seq![header_row()] + views(tracks@.take(i as int)).map_values(
                |t: TrackView| row_of(t),
            ),
    {
        let row = track_to_row(&tracks[i]);
        assert(csv_rows_written(w)[0] == header_row());
        assert(row.deep_view().len() == row@.len());
        assert(row_of(tracks@[i as int]@).len() == 7);
        assert(header_row().len() == 7);
        w = match write_csv_row(w, &row) {
            Ok(w) => w,
            Err(_) => {
                return Err(CacheError::Encode);
            },
        };
        assert(views(tracks@.take(i as int + 1)).map_values(|t: TrackView| row_of(t))
            =~= views(tracks@.take(i as int)).map_values(|t: TrackView| row_of(t)).push(
            row_of(tracks@[i as int]@),
        ));
    }
    assert(tracks@.take(tracks.len() as int) =~= tracks@);
    match finish_csv(w) {
        Ok(b) => Ok(b),
        Err(_) => Err(CacheError::Encode),
    }
}

/// The tracks that the cache file's bytes hold: every data record that
/// reads as a track, in order; the others are dropped.
pub fn decode_cache(bytes: &[u8]) -> (r: Vec<Track>)
    ensures
        views(r@) == tracks_of_records(csv_records(bytes@)),
{
    let recs = read_csv_records(bytes);
    tracks_from_records(&recs)
}


/// Reading the records of two runs one after the other gives the tracks of
/// the first run, then those of the second.
pub proof fn lemma_tracks_of_concat(a: Seq<Option<Seq<Seq<char>>>>, b: Seq<Option<Seq<Seq<char>>>>)
    ensures
        tracks_of_records(a + b) == tracks_of_records(a) + tracks_of_records(b),
    decreases b.len(),
{
    if b.len() == 0 {
        assert(a + b =~= a);
        assert(tracks_of_records(b) =~= Seq::<TrackView>::empty());
        assert(tracks_of_records(a) + tracks_of_records(b) =~= tracks_of_records(a));
    } else {
        lemma_tracks_of_concat(a, b.drop_last());
        assert((a + b).drop_last() =~= a + b.drop_last());
        assert((a + b).last() == b.last());
        let ta = tracks_of_records(a);
        let tb = tracks_of_records(b.drop_last());
        if let Some(r) = b.last() {
            if let Some(t) = track_of_row(r) {
                assert((ta + tb).push(t) =~= ta + tb.push(t));
            }
        }
    }
}

/// A record that was read and stands for a track.
pub open spec fn record_reads(rec: Option<Seq<Seq<char>>>) -> bool {
    match rec {
        Some(r) => track_of_row(r) is Some,
        None => false,
    }
}

/// When every record reads as a track, there are as many tracks as records.
pub proof fn lemma_all_valid_count(recs: Seq<Option<Seq<Seq<char>>>>)
    requires
        forall|k: int|
            0 <= k < recs.len() ==> record_reads(#[trigger] recs[k]),
    ensures
        tracks_of_records(recs).len() == recs.len(),
    decreases recs.len(),
{
    if recs.len() > 0 {
        assert forall|k: int| 0 <= k < recs.drop_last().len() implies record_reads(#[trigger] recs.drop_last()[k]) by {
            assert(recs.drop_last()[k] == recs[k]);
        }
        lemma_all_valid_count(recs.drop_last());
        assert(recs[recs.len() - 1] == recs.last());
    }
}

proof fn lemma_field_round_trip(o: Option<Seq<char>>)
    requires
        o != Some(Seq::<char>::empty()),
    ensures
        field_of_text(or_empty(o)) == o,
{
    if let Some(s) = o {
        if s.len() == 0 {
            assert(s =~= Seq::<char>::empty());
        }
    }
}

/// Reading back the rows written for any sequence of tracks gives the same
/// tracks, field for field and in order, as long as no present text field
/// is empty (the cache writes a missing field and an empty one alike).
pub proof fn lemma_cache_round_trip(ts: Seq<TrackView>)
    requires
        forall|k: int| 0 <= k < ts.len() ==> no_empty_fields(#[trigger] ts[k]),
        forall|k: int| 0 <= k < ts.len() ==> #[trigger] ts[k].duration <= u64::MAX,
    ensures
        tracks_of_records(records_of(ts)) == ts,
    decreases ts.len(),
{
    if ts.len() > 0 {
        let t = ts.last();
        assert(ts[ts.len() - 1] == t);
        assert forall|k: int| 0 <= k < ts.drop_last().len() implies no_empty_fields(
            #[trigger] ts.drop_last()[k],
        ) && ts.drop_last()[k].duration <= u64::MAX by {
            assert(ts.drop_last()[k] == ts[k]);
        }
        lemma_cache_round_trip(ts.drop_last());
        assert(records_of(ts).drop_last() =~= records_of(ts.drop_last()));
        lemma_decimal_round_trip(t.duration as u64);
        let r = row_of(t);
        assert(no_empty_fields(ts[ts.len() - 1]));
        lemma_field_round_trip(t.title);
        lemma_field_round_trip(t.artist);
        lemma_field_round_trip(t.album);
        lemma_field_round_trip(t.year);
        lemma_field_round_trip(t.genre);
        assert(track_of_row(r) == Some(t));
        assert(ts.drop_last().push(t) =~= ts);
    }
}

/// A cache with one corrupted record among rows that all read as tracks
/// loads exactly the tracks of those rows: the corrupted record is dropped
/// and the load goes on.
pub proof fn lemma_corrupt_record_dropped(
    good: Seq<Seq<Seq<char>>>,
    bad: Option<Seq<Seq<char>>>,
    i: int,
)
    requires
        forall|k: int| 0 <= k < good.len() ==> track_of_row(#[trigger] good[k]) is Some,
        bad matches Some(r) ==> track_of_row(r) is None,
        0 <= i <= good.len(),
    ensures
        tracks_of_records(good.map_values(|r: Seq<Seq<char>>| Some(r)).insert(i, bad))
            == tracks_of_records(good.map_values(|r: Seq<Seq<char>>| Some(r))),
        tracks_of_records(good.map_values(|r: Seq<Seq<char>>| Some(r)).insert(i, bad)).len()
            == good.len(),
{
    let recs = good.map_values(|r: Seq<Seq<char>>| Some(r));
    let pre = recs.take(i);
    let post = recs.skip(i);
    assert(recs.insert(i, bad) =~= pre + seq![bad] + post);
    assert(recs =~= pre + post);
    lemma_tracks_of_concat(pre + seq![bad], post);
    lemma_tracks_of_concat(pre, seq![bad]);
    lemma_tracks_of_concat(pre, post);
    assert(seq![bad].drop_last() =~= Seq::<Option<Seq<Seq<char>>>>::empty());
    assert(tracks_of_records(Seq::<Option<Seq<Seq<char>>>>::empty()) == Seq::<TrackView>::empty());
    assert(seq![bad].last() == bad);
    assert(tracks_of_records(seq![bad]) =~= Seq::<TrackView>::empty());
    assert(tracks_of_records(pre) + tracks_of_records(seq![bad]) =~= tracks_of_records(pre));
    assert forall|k: int| 0 <= k < recs.len() implies record_reads(#[trigger] recs[k]) by {
        assert(recs[k] == Some(good[k]));
    }
    lemma_all_valid_count(recs);
}

} // verus!
