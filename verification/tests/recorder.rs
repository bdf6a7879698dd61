use bark_timeline::clock;
use bark_timeline::codec::Timestamp;
use bark_timeline::detector::ChunkDecision;
use bark_timeline::recorder::{EventRecorder, RecorderAction};

fn ts() -> Timestamp {
    Timestamp::new(2024, 6, 1, 14, 5, 9).expect("valid")
}

#[test]
fn start_opens_a_sink_named_after_the_timestamp() {
    let mut r = EventRecorder::new();
    let action = r.on_decision(ChunkDecision::StartEvent, &ts());
    assert_eq!(
        action,
        RecorderAction::OpenAndAppend { filename: b"bark_20240601_02_05_09_pm.wav".to_vec() }
    );
    assert!(r.recording);
}

#[test]
fn continue_appends_and_finish_closes() {
    let mut r = EventRecorder::new();
    r.on_decision(ChunkDecision::StartEvent, &ts());
    assert_eq!(r.on_decision(ChunkDecision::ContinueEvent, &ts()), RecorderAction::Append);
    assert_eq!(r.on_decision(ChunkDecision::FinishEvent, &ts()), RecorderAction::AppendAndClose);
    assert!(!r.recording);
}

#[test]
fn decisions_without_an_open_sink_do_nothing() {
    let mut r = EventRecorder::new();
    assert_eq!(r.on_decision(ChunkDecision::ContinueEvent, &ts()), RecorderAction::Nothing);
    assert_eq!(r.on_decision(ChunkDecision::FinishEvent, &ts()), RecorderAction::Nothing);
    assert_eq!(r.on_decision(ChunkDecision::Ignore, &ts()), RecorderAction::Nothing);
    assert!(!r.recording);
}

#[test]
fn reset_drops_the_open_event() {
    let mut r = EventRecorder::new();
    r.on_decision(ChunkDecision::StartEvent, &ts());
    r.reset();
    assert!(!r.recording);
    // capture continues: the next start opens a fresh sink
    match r.on_decision(ChunkDecision::StartEvent, &ts()) {
        RecorderAction::OpenAndAppend { .. } => {},
        other => panic!("expected a new sink, got {:?}", other),
    }
}

#[test]
fn clock_reports_a_valid_timestamp() {
    let (ts, _epoch) = clock::now_timestamp().expect("clock in codec range");
    assert!(ts.month >= 1 && ts.month <= 12);
    assert!(ts.day >= 1 && ts.day <= 31);
    assert!(ts.hour <= 23 && ts.minute <= 59 && ts.second <= 59);
}

#[test]
fn local_epoch_rejects_impossible_dates() {
    assert!(clock::local_epoch_of(2024, 2, 30, 0, 0, 0).is_none());
    assert!(clock::local_epoch_of(2024, 1, 1, 25, 0, 0).is_none());
}

#[test]
fn event_epochs_tracks_event_count() {
    let events = Vec::new();
    assert!(clock::event_epochs(&events).is_empty());
}
