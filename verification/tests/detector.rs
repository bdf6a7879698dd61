use bark_timeline::detector::{
    peak_amplitude, AmplitudeEventDetector, ChunkDecision, DetectorConfig, DetectorPhase,
};

fn default_detector() -> AmplitudeEventDetector {
    AmplitudeEventDetector::new(DetectorConfig::default())
}

fn loud() -> Vec<i16> {
    vec![3000, -4000, 100]
}

fn quiet() -> Vec<i16> {
    vec![100, -50, 20]
}

#[test]
fn peak_is_largest_absolute_sample() {
    assert_eq!(peak_amplitude(&vec![]), 0);
    assert_eq!(peak_amplitude(&vec![5, -9, 3]), 9);
    assert_eq!(peak_amplitude(&vec![i16::MIN, 100]), 32767);
    assert_eq!(peak_amplitude(&vec![i16::MAX]), 32767);
}

#[test]
fn single_burst_closes_after_silence_timeout() {
    let mut d = default_detector();
    assert_eq!(d.process_chunk(&loud(), 0), ChunkDecision::StartEvent);
    assert_eq!(d.event_start_ms, 0);
    // silence keeps the event open while the elapsed gap is within the timeout
    assert_eq!(d.process_chunk(&quiet(), 1000), ChunkDecision::ContinueEvent);
    assert_eq!(d.process_chunk(&quiet(), 5000), ChunkDecision::ContinueEvent);
    // one more millisecond of silence exceeds it
    assert_eq!(d.process_chunk(&quiet(), 5001), ChunkDecision::FinishEvent);
    assert_eq!(d.phase, DetectorPhase::Idle);
    // afterwards silence starts nothing
    assert_eq!(d.process_chunk(&quiet(), 6000), ChunkDecision::Ignore);
}

#[test]
fn bursts_within_timeout_stay_one_event() {
    let mut d = default_detector();
    let mut starts = 0;
    let mut finishes = 0;
    // loud at t=0 and t=4000 (within the five-second timeout), silence after
    let script: Vec<(bool, u64)> = vec![
        (true, 0),
        (false, 2000),
        (true, 4000),
        (false, 8999),
        (false, 9001),
        (false, 20000),
    ];
    for (is_loud, t) in script {
        let chunk = if is_loud { loud() } else { quiet() };
        match d.process_chunk(&chunk, t) {
            ChunkDecision::StartEvent => starts += 1,
            ChunkDecision::FinishEvent => finishes += 1,
            _ => {},
        }
    }
    assert_eq!(starts, 1);
    assert_eq!(finishes, 1);
}

#[test]
fn threshold_is_strict() {
    let mut d = default_detector();
    // a peak exactly at the threshold is not loud
    assert_eq!(d.process_chunk(&vec![1638, -1638], 0), ChunkDecision::Ignore);
    assert_eq!(d.process_chunk(&vec![1639], 1), ChunkDecision::StartEvent);
}

#[test]
fn quiet_tail_chunks_are_still_captured() {
    let mut d = default_detector();
    assert_eq!(d.process_chunk(&loud(), 0), ChunkDecision::StartEvent);
    // every chunk of the active event is written, loud or not
    assert_eq!(d.process_chunk(&quiet(), 100), ChunkDecision::ContinueEvent);
    assert_eq!(d.process_chunk(&loud(), 200), ChunkDecision::ContinueEvent);
    assert_eq!(d.last_loud_ms, 200);
}

#[test]
fn reset_returns_to_idle() {
    let mut d = default_detector();
    assert_eq!(d.process_chunk(&loud(), 0), ChunkDecision::StartEvent);
    d.reset();
    assert_eq!(d.phase, DetectorPhase::Idle);
    assert_eq!(d.process_chunk(&loud(), 100), ChunkDecision::StartEvent);
}

#[test]
fn injected_thresholds_are_honoured() {
    let config = DetectorConfig { threshold: 10, silence_timeout_ms: 50 };
    let mut d = AmplitudeEventDetector::new(config);
    assert_eq!(d.process_chunk(&vec![11], 0), ChunkDecision::StartEvent);
    assert_eq!(d.process_chunk(&vec![0], 50), ChunkDecision::ContinueEvent);
    assert_eq!(d.process_chunk(&vec![0], 51), ChunkDecision::FinishEvent);
}
