use minim::import::{initial_catalog, Catalog, ImportError, ImportScheduler, StartupSource, BATCH_SIZE};
use minim::tags::ExtractionError;
use minim::track::Track;

fn paths(n: usize) -> Vec<String> {
    (0..n).map(|i| format!("/lib/{i}.mp3")).collect()
}

fn resolved(path: &str) -> Track {
    Track::new(path.to_string(), None, None, None, None, None, 1)
}

#[test]
fn drain_takes_ceil_batches_then_nothing() {
    let mut s = ImportScheduler::new(paths(250));
    let mut catalog = Catalog::new();
    let mut sizes = Vec::new();
    loop {
        let batch = s.take_batch(100);
        if batch.is_empty() {
            break;
        }
        sizes.push(batch.len());
        let results: Vec<Result<Track, ExtractionError>> = batch.iter().map(|p| Ok(resolved(p))).collect();
        s.absorb_batch(&mut catalog, results).unwrap();
    }
    assert_eq!(sizes, vec![100, 100, 50]);
    assert!(s.is_done());
    assert!(s.take_batch(100).is_empty());
    assert_eq!(s.remaining_len(), 0);
    assert_eq!(catalog.len(), 250);
    assert_eq!(catalog.get(0).unwrap().path, "/lib/0.mp3");
    assert_eq!(catalog.get(249).unwrap().path, "/lib/249.mp3");
    assert!(catalog.get(250).is_none());
}

#[test]
fn drain_exact_multiple() {
    let mut s = ImportScheduler::new(paths(200));
    assert_eq!(s.tick().len(), BATCH_SIZE);
    assert_eq!(s.pending(), BATCH_SIZE);
    let mut c = Catalog::new();
    s.absorb_batch(&mut c, (0..100).map(|_| Err(ExtractionError::Unreadable)).collect()).unwrap();
    assert_eq!(s.tick().len(), BATCH_SIZE);
    assert_eq!(s.remaining_len(), 0);
    assert!(!s.is_done());
    s.absorb_batch(&mut c, (0..100).map(|_| Err(ExtractionError::NoTags)).collect()).unwrap();
    assert!(s.is_done());
    assert!(s.tick().is_empty());
    assert_eq!(s.failed(), 200);
    assert_eq!(c.len(), 0);
}

#[test]
fn empty_backlog_tick_is_noop() {
    let mut s = ImportScheduler::new(Vec::new());
    assert!(s.tick().is_empty());
    assert!(s.is_done());
    assert_eq!(s.failed(), 0);
}

#[test]
fn failures_are_counted_and_excluded() {
    let mut s = ImportScheduler::new(paths(5));
    let mut c = Catalog::new();
    let batch = s.take_batch(3);
    assert_eq!(batch, vec!["/lib/0.mp3", "/lib/1.mp3", "/lib/2.mp3"]);
    let results = vec![
        Ok(resolved(&batch[0])),
        Err(ExtractionError::Unreadable),
        Ok(resolved(&batch[2])),
    ];
    assert_eq!(s.absorb_batch(&mut c, results), Ok(2));
    assert_eq!(s.failed(), 1);
    assert_eq!(c.len(), 2);
    assert_eq!(c.get(1).unwrap().path, "/lib/2.mp3");
    let rest = s.take_batch(3);
    assert_eq!(rest, vec!["/lib/3.mp3", "/lib/4.mp3"]);
    assert_eq!(s.absorb_batch(&mut c, vec![Err(ExtractionError::NoTags), Ok(resolved(&rest[1]))]), Ok(1));
    assert_eq!(s.failed(), 2);
    let got: Vec<&str> = c.tracks().iter().map(|t| t.path.as_str()).collect();
    assert_eq!(got, vec!["/lib/0.mp3", "/lib/2.mp3", "/lib/4.mp3"]);
}

#[test]
fn mismatched_results_are_refused() {
    let mut s = ImportScheduler::new(paths(3));
    let mut c = Catalog::new();
    let _ = s.take_batch(2);
    assert_eq!(s.absorb_batch(&mut c, vec![Ok(resolved("/x"))]), Err(ImportError::BatchMismatch));
    assert_eq!(c.len(), 0);
    assert_eq!(s.pending(), 2);
    assert_eq!(s.remaining_len(), 1);
}

#[test]
fn catalog_append_keeps_duplicates() {
    let mut c = Catalog::from_tracks(vec![resolved("/a")]);
    c.append(vec![resolved("/a"), resolved("/b")]);
    assert_eq!(c.len(), 3);
    assert_eq!(c.get(2).unwrap().path, "/b");
}

#[test]
fn startup_uses_cache_only_when_enabled_and_read() {
    let (c, src) = initial_catalog(true, Some(vec![resolved("/a"), resolved("/b")]));
    assert_eq!(src, StartupSource::Cache);
    assert_eq!(c.len(), 2);
    let (c, src) = initial_catalog(false, Some(vec![resolved("/a")]));
    assert_eq!(src, StartupSource::Scan);
    assert_eq!(c.len(), 0);
    let (c, src) = initial_catalog(true, None);
    assert_eq!(src, StartupSource::Scan);
    assert_eq!(c.len(), 0);
}
