use bark_timeline::catalog::{build_catalog, ScanEntry};
use bark_timeline::timeline::{
    day_group_starts, first_event_on_day, max_visible_peak, TimelineWindow,
};

fn window(start_s: i64, end_s: i64) -> TimelineWindow {
    TimelineWindow::new(start_s, end_s).expect("well-formed window")
}

#[test]
fn pan_shifts_both_bounds() {
    let mut w = window(0, 100);
    w.pan(10);
    assert_eq!(w, window(10, 110));
    w.pan(-50);
    assert_eq!(w, window(-40, 60));
}

#[test]
fn pan_out_of_range_is_a_no_op() {
    let mut w = window(349_999_999_000, 350_000_000_000);
    let before = w;
    w.pan(5_000_000_000);
    assert_eq!(w, before);
}

#[test]
fn zoom_out_doubles_around_the_centre() {
    let mut w = window(1000, 2000);
    w.zoom(2, 1, 1, 2);
    assert_eq!(w, window(500, 2500));
}

#[test]
fn zoom_round_trip_restores_the_window() {
    let mut w = window(1000, 2000);
    w.zoom(2, 1, 1, 2);
    w.zoom(1, 2, 1, 2);
    assert_eq!(w, window(1000, 2000));
    // an odd duration and an off-centre pivot round-trip exactly as well
    let mut v = window(0, 5);
    v.zoom(3, 1, 1, 3);
    v.zoom(1, 3, 1, 3);
    assert_eq!(v, window(0, 5));
}

#[test]
fn degenerate_zoom_is_rejected() {
    let mut w = window(0, 5);
    let before = w;
    // the requested window would be under one second
    w.zoom(1, 1000, 1, 2);
    assert_eq!(w, before);
}

#[test]
fn project_maps_linearly_into_the_window() {
    let w = window(0, 100);
    assert_eq!(w.project(0), Some(0));
    assert_eq!(w.project(50), Some(500_000));
    assert_eq!(w.project(100), Some(1_000_000));
    assert_eq!(w.project(-1), None);
    assert_eq!(w.project(101), None);
}

#[test]
fn tick_interval_never_drops_below_fifteen_minutes() {
    // a five-minute window with room for ten labels still gets the floor
    let w = window(0, 300);
    assert_eq!(w.tick_interval_mins(800, 80), 15);
}

#[test]
fn tick_interval_adapts_to_the_window() {
    // 24 hours with ten labels: ceiling(1440 / 10) = 144, rounded up to 150
    let day = window(0, 86_400);
    assert_eq!(day.tick_interval_mins(800, 80), 150);
    // a week with ten labels: ceiling(10080 / 10) = 1008, rounded up to 1020
    let week = window(0, 604_800);
    assert_eq!(week.tick_interval_mins(800, 80), 1020);
    // fewer labels force a coarser interval
    assert_eq!(day.tick_interval_mins(160, 80), 720);
}

#[test]
fn tick_marks_are_the_multiples_inside_the_window() {
    let w = window(0, 3600);
    assert_eq!(w.tick_marks_s(15), vec![0, 900, 1800, 2700, 3600]);
    let v = window(-1000, 1000);
    assert_eq!(v.tick_marks_s(15), vec![-900, 0, 900]);
    let narrow = window(100, 700);
    assert_eq!(narrow.tick_marks_s(15), Vec::<i64>::new());
}

#[test]
fn presets_span_the_documented_ranges() {
    assert_eq!(TimelineWindow::last_hour(10_000), Some(window(6_400, 10_000)));
    assert_eq!(TimelineWindow::last_day(100_000), Some(window(13_600, 100_000)));
    assert_eq!(TimelineWindow::last_week(1_000_000), Some(window(395_200, 1_000_000)));
}

#[test]
fn default_view_starts_before_the_first_event_of_today() {
    assert_eq!(TimelineWindow::default_view(Some(50_000), 60_000), Some(window(48_800, 60_000)));
    // no event today: fall back to the last 24 hours
    assert_eq!(TimelineWindow::default_view(None, 60_000), Some(window(-26_400, 60_000)));
    // an event after "now" cannot open the window: same fallback
    assert_eq!(TimelineWindow::default_view(Some(70_000), 60_000), Some(window(-26_400, 60_000)));
}

fn sample_events() -> Vec<bark_timeline::catalog::AudioEvent> {
    let spec = hound::WavSpec {
        channels: 1,
        sample_rate: 8000,
        bits_per_sample: 16,
        sample_format: hound::SampleFormat::Int,
    };
    let mut mk = |name: &str, amplitude: i16| {
        let mut cursor = std::io::Cursor::new(Vec::new());
        {
            let mut writer = hound::WavWriter::new(&mut cursor, spec).expect("writer");
            writer.write_sample(amplitude).expect("sample");
            writer.finalize().expect("finalize");
        }
        ScanEntry {
            path: format!("barks/{}", name).into_bytes(),
            name: name.as_bytes().to_vec(),
            payload: Some(cursor.into_inner()),
        }
    };
    build_catalog(vec![
        mk("bark_20240101_01_00_00_am.wav", 1000),
        mk("bark_20240102_01_00_00_am.wav", 3000),
        mk("bark_20240102_02_00_00_am.wav", 2000),
    ])
}

#[test]
fn first_event_on_day_finds_the_earliest() {
    let events = sample_events();
    assert_eq!(first_event_on_day(&events, 2024, 1, 2), Some(1));
    assert_eq!(first_event_on_day(&events, 2024, 1, 1), Some(0));
    assert_eq!(first_event_on_day(&events, 2024, 1, 3), None);
}

#[test]
fn day_groups_start_at_each_new_day() {
    let events = sample_events();
    // one event on 2024-01-01, two on 2024-01-02
    assert_eq!(day_group_starts(&events), vec![true, true, false]);
    assert_eq!(day_group_starts(&Vec::new()), Vec::<bool>::new());
}

#[test]
fn max_visible_peak_ignores_events_outside_the_window() {
    let events = sample_events();
    let epochs: Vec<Option<i64>> = vec![Some(100), Some(200), Some(300)];
    let w = window(150, 400);
    // only the second and third events are visible; the loudest has peak 3000
    assert_eq!(max_visible_peak(&events, &epochs, &w), 3000);
    let narrow = window(250, 400);
    assert_eq!(max_visible_peak(&events, &epochs, &narrow), 2000);
    let none = window(1000, 2000);
    assert_eq!(max_visible_peak(&events, &epochs, &none), 0);
    let unknown: Vec<Option<i64>> = vec![None, None, None];
    assert_eq!(max_visible_peak(&events, &unknown, &w), 0);
}
