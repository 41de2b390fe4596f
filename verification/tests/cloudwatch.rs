use metrique::cloudwatch::{
    split_lines, CwLogsStreamConfig, CwLogsStreamEvent, CwLogsStreamObserver, LogBatcher,
    NoOpObserver, WorkerCommand, MAX_BATCH_EVENTS,
};
use std::sync::{Arc, Mutex};
use tokio::sync::mpsc;

#[derive(Clone, Default)]
struct Recorder(Arc<Mutex<Vec<String>>>);

impl CwLogsStreamObserver for Recorder {
    fn observe(&self, event: &CwLogsStreamEvent) {
        self.0.lock().unwrap().push(format!("{:?}", event));
    }
}

impl Recorder {
    fn events(&self) -> Vec<String> {
        self.0.lock().unwrap().clone()
    }
}

fn batcher(capacity: usize) -> (LogBatcher, mpsc::Receiver<WorkerCommand>, Recorder) {
    let (tx, rx) = mpsc::channel(capacity);
    let recorder = Recorder::default();
    let observer: Box<dyn CwLogsStreamObserver> = Box::new(recorder.clone());
    (LogBatcher::new(tx, Arc::new(observer)), rx, recorder)
}

fn received(rx: &mut mpsc::Receiver<WorkerCommand>) -> Vec<Vec<String>> {
    let mut out = Vec::new();
    while let Ok(cmd) = rx.try_recv() {
        if let WorkerCommand::PutLogEvents(events) = cmd {
            out.push(events.into_iter().map(|e| e.message).collect());
        }
    }
    out
}

#[test]
fn split_lines_matches_str_lines() {
    for s in [
        "",
        "\n",
        "a",
        "a\n",
        "a\r\nb\n\nbaz\r",
        "foo\r\nbar\n\nbaz\r",
        "\r\n\r\n",
        "x\ry\nz",
        "{\"a\":1}\n{\"b\":2}\n",
        "héllo\nwörld",
    ] {
        let expected: Vec<String> = s.lines().map(|l| l.to_string()).collect();
        assert_eq!(split_lines(s), expected, "input {s:?}");
    }
}

#[test]
fn default_config() {
    let c = CwLogsStreamConfig::default();
    assert_eq!(c.channel_capacity, 5);
    assert!(c.auto_create);
}

#[test]
fn lines_become_events_and_flush_sends_partial_batch() {
    let (mut b, mut rx, rec) = batcher(5);
    b.push_formatted(b"{\"a\":1}\n\n{\"b\":2}\n".to_vec(), 7);
    assert_eq!(b.batch_len(), 2);
    assert_eq!(b.batch_bytes(), 2 * (7 + 26));
    assert!(received(&mut rx).is_empty());
    b.flush();
    assert_eq!(b.batch_len(), 0);
    assert_eq!(b.batch_bytes(), 0);
    assert_eq!(received(&mut rx), vec![vec!["{\"a\":1}".to_string(), "{\"b\":2}".to_string()]]);
    // Flushing an empty batch sends nothing.
    b.flush();
    assert!(received(&mut rx).is_empty());
    assert!(rec.events().is_empty());
}

#[test]
fn timestamps_are_kept() {
    let (tx, mut rx) = mpsc::channel(5);
    let observer: Box<dyn CwLogsStreamObserver> = Box::new(NoOpObserver);
    let mut b = LogBatcher::new(tx, Arc::new(observer));
    b.push_formatted(b"x\n".to_vec(), 1234);
    b.flush();
    match rx.try_recv() {
        Ok(WorkerCommand::PutLogEvents(events)) => {
            assert_eq!(events.len(), 1);
            assert_eq!(events[0].message, "x");
            assert_eq!(events[0].timestamp, 1234);
        }
        _ => panic!("expected a batch"),
    }
}

#[test]
fn batch_is_sent_when_event_count_limit_reached() {
    let (mut b, mut rx, _rec) = batcher(5);
    let mut text = String::new();
    for _ in 0..(MAX_BATCH_EVENTS + 1) {
        text.push_str("e\n");
    }
    b.push_formatted(text.into_bytes(), 0);
    let got = received(&mut rx);
    assert_eq!(got.len(), 1);
    assert_eq!(got[0].len(), MAX_BATCH_EVENTS);
    assert_eq!(b.batch_len(), 1);
}

#[test]
fn batch_is_sent_when_byte_limit_reached() {
    let (mut b, mut rx, _rec) = batcher(5);
    let big = "x".repeat(500_000);
    let text = format!("{big}\n{big}\n{big}\n");
    b.push_formatted(text.into_bytes(), 0);
    let got = received(&mut rx);
    assert_eq!(got.len(), 1);
    assert_eq!(got[0].len(), 2);
    assert_eq!(b.batch_len(), 1);
    assert_eq!(b.batch_bytes(), 500_026);
}

#[test]
fn byte_limit_counts_utf8_bytes_not_characters() {
    // 300_000 two-byte characters: 600_000 bytes per line, so two lines
    // do not fit in one request although they hold 600_000 characters.
    let (mut b, mut rx, _rec) = batcher(5);
    let wide = "é".repeat(300_000);
    let text = format!("{wide}\n{wide}\n");
    b.push_formatted(text.into_bytes(), 0);
    let got = received(&mut rx);
    assert_eq!(got.len(), 1);
    assert_eq!(got[0].len(), 1);
    assert_eq!(b.batch_bytes(), 600_026);
}

#[test]
fn oversized_events_are_reported_and_skipped() {
    let (mut b, mut rx, rec) = batcher(5);
    let huge = "y".repeat(1_048_577);
    let text = format!("small\n{huge}\nafter\n");
    b.push_formatted(text.into_bytes(), 0);
    assert_eq!(rec.events(), vec!["EventOversized".to_string()]);
    b.flush();
    assert_eq!(received(&mut rx), vec![vec!["small".to_string(), "after".to_string()]]);
}

#[test]
fn event_of_exactly_the_limit_is_kept() {
    let (mut b, _rx, rec) = batcher(5);
    let exact = "z".repeat(1_048_576);
    b.push_formatted(exact.into_bytes(), 0);
    assert!(rec.events().is_empty());
    assert_eq!(b.batch_len(), 1);
    assert_eq!(b.batch_bytes(), 1_048_576 + 26);
}

#[test]
fn invalid_utf8_is_reported_and_dropped() {
    let (mut b, _rx, rec) = batcher(5);
    b.push_formatted(vec![b'a', 0xff, b'\n'], 0);
    assert_eq!(rec.events(), vec!["InvalidUtf8".to_string()]);
    assert_eq!(b.batch_len(), 0);
}

#[test]
fn backpressure_drops_and_reports() {
    let (mut b, mut rx, rec) = batcher(1);
    let big = "x".repeat(600_000);
    // Each line forces the previous one out; the channel holds only one batch.
    for _ in 0..4 {
        b.push_formatted(format!("{big}\n").into_bytes(), 0);
    }
    assert_eq!(
        rec.events(),
        vec![
            "BatchDropped { event_count: 1 }".to_string(),
            "BatchDropped { event_count: 1 }".to_string()
        ]
    );
    let got = received(&mut rx);
    assert_eq!(got.len(), 1);
    assert!(!b.is_shut_down());
    // Every accepted event is received, reported dropped, or still batched.
    let dropped = rec.events().len();
    let received_events: usize = got.iter().map(|batch| batch.len()).sum();
    assert_eq!(received_events + dropped + b.batch_len(), 4);
}

#[test]
fn final_line_ending_is_optional() {
    assert_eq!(split_lines("a\nb"), split_lines("a\nb\n"));
    assert_eq!(split_lines("a\nb"), split_lines("a\nb\r\n"));
    assert_eq!(split_lines("a\nb"), vec!["a".to_string(), "b".to_string()]);
}

#[test]
fn closed_channel_shuts_the_batcher_down() {
    let (mut b, rx, rec) = batcher(5);
    drop(rx);
    b.push_formatted(b"one\n".to_vec(), 0);
    assert!(!b.is_shut_down());
    b.flush();
    assert!(b.is_shut_down());
    assert_eq!(b.batch_len(), 0);
    b.push_formatted(b"two\n".to_vec(), 0);
    assert_eq!(rec.events(), vec!["EntryDroppedAfterShutdown".to_string()]);
    assert_eq!(b.batch_len(), 0);
}

#[test]
fn close_hands_over_the_rest() {
    let (mut b, mut rx, _rec) = batcher(5);
    b.push_formatted(b"last\n".to_vec(), 0);
    b.close();
    assert!(b.is_shut_down());
    assert_eq!(received(&mut rx), vec![vec!["last".to_string()]]);
}

#[test]
fn next_formatted_stamps_current_time() {
    let (mut b, mut rx, _rec) = batcher(5);
    b.next_formatted(b"now\n".to_vec());
    b.flush();
    match rx.try_recv() {
        Ok(WorkerCommand::PutLogEvents(events)) => assert!(events[0].timestamp > 0),
        _ => panic!("expected a batch"),
    }
}
