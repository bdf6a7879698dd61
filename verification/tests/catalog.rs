use bark_timeline::catalog::{build_catalog, AudioEvent, ScanEntry};
use bark_timeline::codec::Timestamp;

fn wav_bytes(samples: &[i16], sample_rate: u32, channels: u16) -> Vec<u8> {
    let spec = hound::WavSpec {
        channels,
        sample_rate,
        bits_per_sample: 16,
        sample_format: hound::SampleFormat::Int,
    };
    let mut cursor = std::io::Cursor::new(Vec::new());
    {
        let mut writer = hound::WavWriter::new(&mut cursor, spec).expect("writer");
        for &s in samples {
            writer.write_sample(s).expect("sample");
        }
        writer.finalize().expect("finalize");
    }
    cursor.into_inner()
}

fn entry(path: &str, name: &str, payload: Option<Vec<u8>>) -> ScanEntry {
    ScanEntry { path: path.as_bytes().to_vec(), name: name.as_bytes().to_vec(), payload }
}

#[test]
fn catalog_decodes_duration_and_stats() {
    let samples: Vec<i16> = vec![1000; 4000];
    let entries = vec![entry(
        "barks/bark_20240101_03_30_05_pm.wav",
        "bark_20240101_03_30_05_pm.wav",
        Some(wav_bytes(&samples, 8000, 1)),
    )];
    let events = build_catalog(entries);
    assert_eq!(events.len(), 1);
    let e = &events[0];
    assert_eq!(
        e.timestamp,
        Timestamp { year: 2024, month: 1, day: 1, hour: 15, minute: 30, second: 5 }
    );
    // 4000 frames at 8000 Hz is half a second
    assert_eq!(e.duration_ms, 500);
    let st = e.stats.clone().expect("summary");
    assert_eq!(st.min, 1000);
    assert_eq!(st.median, 1000);
    assert_eq!(st.max, 1000);
}

#[test]
fn stereo_duration_counts_frames() {
    // 4000 interleaved samples over two channels are 2000 frames
    let samples: Vec<i16> = vec![500; 4000];
    let entries = vec![entry(
        "barks/bark_20240101_01_00_00_am.wav",
        "bark_20240101_01_00_00_am.wav",
        Some(wav_bytes(&samples, 8000, 2)),
    )];
    let events = build_catalog(entries);
    assert_eq!(events[0].duration_ms, 250);
}

#[test]
fn malformed_names_are_excluded() {
    let entries = vec![
        entry("barks/bark_not_a_date.wav", "bark_not_a_date.wav", Some(wav_bytes(&[1], 8000, 1))),
        entry(
            "barks/notabark_20240101_1_00_00_am.wav",
            "notabark_20240101_1_00_00_am.wav",
            Some(wav_bytes(&[1], 8000, 1)),
        ),
        entry(
            "barks/bark_20240102_01_00_00_am.wav",
            "bark_20240102_01_00_00_am.wav",
            Some(wav_bytes(&[1], 8000, 1)),
        ),
    ];
    let events = build_catalog(entries);
    assert_eq!(events.len(), 1);
    assert_eq!(events[0].timestamp.day, 2);
}

#[test]
fn unreadable_payload_keeps_the_event() {
    let entries = vec![
        entry("barks/bark_20240101_01_00_00_am.wav", "bark_20240101_01_00_00_am.wav", None),
        entry(
            "barks/bark_20240102_01_00_00_am.wav",
            "bark_20240102_01_00_00_am.wav",
            Some(vec![1, 2, 3]),
        ),
    ];
    let events = build_catalog(entries);
    assert_eq!(events.len(), 2);
    for e in &events {
        assert_eq!(e.duration_ms, 0);
        assert!(e.stats.is_none());
    }
}

#[test]
fn empty_payload_has_no_summary_but_keeps_event() {
    let entries = vec![entry(
        "barks/bark_20240101_01_00_00_am.wav",
        "bark_20240101_01_00_00_am.wav",
        Some(wav_bytes(&[], 8000, 1)),
    )];
    let events = build_catalog(entries);
    assert_eq!(events.len(), 1);
    assert_eq!(events[0].duration_ms, 0);
    assert!(events[0].stats.is_none());
}

#[test]
fn events_sort_by_timestamp_then_path() {
    let wav = wav_bytes(&[1], 8000, 1);
    let entries = vec![
        entry("b/bark_20240103_01_00_00_am.wav", "bark_20240103_01_00_00_am.wav", Some(wav.clone())),
        entry("b/bark_20240101_01_00_00_am.wav", "bark_20240101_01_00_00_am.wav", Some(wav.clone())),
        entry("a/bark_20240103_01_00_00_am.wav", "bark_20240103_01_00_00_am.wav", Some(wav.clone())),
        entry("b/bark_20240102_01_00_00_pm.wav", "bark_20240102_01_00_00_pm.wav", Some(wav)),
    ];
    let events = build_catalog(entries);
    let paths: Vec<String> =
        events.iter().map(|e| String::from_utf8(e.path.clone()).unwrap()).collect();
    assert_eq!(
        paths,
        vec![
            "b/bark_20240101_01_00_00_am.wav".to_string(),
            "b/bark_20240102_01_00_00_pm.wav".to_string(),
            "a/bark_20240103_01_00_00_am.wav".to_string(),
            "b/bark_20240103_01_00_00_am.wav".to_string(),
        ]
    );
}

fn same_events(a: &[AudioEvent], b: &[AudioEvent]) -> bool {
    a.len() == b.len()
        && a.iter().zip(b.iter()).all(|(x, y)| {
            x.timestamp == y.timestamp
                && x.path == y.path
                && x.duration_ms == y.duration_ms
                && x.stats == y.stats
        })
}

#[test]
fn scanning_twice_in_any_order_is_identical() {
    let wav1 = wav_bytes(&[100, -200, 300], 8000, 1);
    let wav2 = wav_bytes(&[5000; 16000], 16000, 1);
    let e1 = entry("barks/bark_20240101_01_00_00_am.wav", "bark_20240101_01_00_00_am.wav", Some(wav1));
    let e2 = entry("barks/bark_20240101_01_00_00_pm.wav", "bark_20240101_01_00_00_pm.wav", Some(wav2));
    let e3 = entry("barks/bark_20231231_11_59_59_pm.wav", "bark_20231231_11_59_59_pm.wav", None);
    let e4 = entry("barks/skipme.wav", "skipme.wav", None);
    let first = build_catalog(vec![e1.clone(), e2.clone(), e3.clone(), e4.clone()]);
    let second = build_catalog(vec![e4, e2, e3, e1]);
    assert!(same_events(&first, &second));
    assert_eq!(first.len(), 3);
}

#[test]
fn empty_directory_yields_empty_catalog() {
    let events = build_catalog(Vec::new());
    assert!(events.is_empty());
}
