use std::cmp::Ordering;

use minim::queue::{PlaybackError, PlaybackQueue, QueueEntry, QueueField, TrackEndLatch};
use minim::track::Track;

fn t(path: &str, title: Option<&str>) -> Track {
    Track::new(path.to_string(), title.map(String::from), None, None, None, None, 1)
}

#[test]
fn cursor_counts_completions() {
    let mut q = PlaybackQueue::new();
    for i in 0..5 {
        assert_eq!(q.enqueue_if_opened(t(&format!("/{i}"), None), true), Ok(i + 1));
    }
    for k in 1..=3 {
        assert!(q.advance_cursor());
        assert_eq!(q.queue_index(), k);
    }
    assert_eq!(q.enqueue_if_opened(t("/late", None), true), Ok(6));
    assert_eq!(q.queue_index(), 3);
    assert!(q.queue_index() <= q.len());
    assert_eq!(q.current().unwrap().path, "/3");
}

#[test]
fn cursor_stops_at_end_of_queue() {
    let mut q = PlaybackQueue::new();
    assert!(q.current().is_none());
    assert!(!q.advance_cursor());
    assert_eq!(q.queue_index(), 0);
    q.enqueue_if_opened(t("/a", None), true).unwrap();
    assert_eq!(q.current().unwrap().path, "/a");
    assert!(q.advance_cursor());
    assert!(!q.advance_cursor());
    assert_eq!(q.queue_index(), 1);
    assert!(q.current().is_none());
}

#[test]
fn failed_open_changes_nothing() {
    let mut q = PlaybackQueue::new();
    q.enqueue_if_opened(t("/a", None), true).unwrap();
    q.enqueue_if_opened(t("/b", None), true).unwrap();
    q.advance_cursor();
    let (len, idx) = (q.len(), q.queue_index());
    assert_eq!(q.enqueue_if_opened(t("/broken", None), false), Err(PlaybackError::OpenFailed));
    assert_eq!(q.len(), len);
    assert_eq!(q.queue_index(), idx);
    assert_eq!(q.current().unwrap().path, "/b");
}

#[test]
fn latch_fires_once() {
    let mut l = TrackEndLatch::new();
    assert!(!l.observe(false));
    assert!(l.observe(true));
    assert!(!l.observe(true));
    assert!(!l.observe(false));
}

#[test]
fn queue_entry_columns() {
    let e = QueueEntry::new(12, t("/m/song.mp3", None));
    assert_eq!(e.to_column(QueueField::Index), "12");
    assert_eq!(e.to_column(QueueField::Track), "song.mp3");
    let f = QueueEntry::new(3, t("/m/other.mp3", Some("Zebra")));
    assert_eq!(f.to_column(QueueField::Track), "Zebra");
    assert_eq!(f.compare(&e, QueueField::Index), Ordering::Less);
    assert_eq!(e.compare(&f, QueueField::Index), Ordering::Greater);
    assert_eq!(f.compare(&e, QueueField::Track), Ordering::Less);
    let g = QueueEntry::new(4, t("/x", Some("zebra")));
    assert_eq!(f.compare(&g, QueueField::Track), Ordering::Less);
}
