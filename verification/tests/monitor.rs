use gping::aggregate::App;
use gping::events::{Action, Event, KeyCode, KeyInput, Update};
use gping::ring::RingBuffer;
use gping::series::{Sample, SourceSeries};

#[test]
fn ring_buffer_keeps_last_items() {
    let mut rb: RingBuffer<u64> = RingBuffer::new(3);
    for v in 1..=5u64 {
        rb.push(v);
    }
    assert_eq!(rb.len(), 3);
    assert_eq!(rb.snapshot(), vec![3, 4, 5]);
}

#[test]
fn ring_buffer_below_capacity_keeps_everything() {
    let mut rb: RingBuffer<u64> = RingBuffer::new(4);
    rb.push(7);
    rb.push(8);
    assert_eq!(rb.len(), 2);
    assert_eq!(rb.snapshot(), vec![7, 8]);
}

#[test]
fn sequence_counts_every_update() {
    let mut s = SourceSeries::new(2);
    s.update(Some(5));
    s.update(None);
    s.update(None);
    s.update(Some(7));
    assert_eq!(s.sequence, 4);
}

#[test]
fn window_width_is_updates_capped_at_capacity() {
    let mut s = SourceSeries::new(3);
    s.update(Some(1));
    s.update(Some(2));
    assert_eq!(s.window_max - s.window_min, 2);
    for _ in 0..5 {
        s.update(None);
    }
    assert_eq!(s.window_max - s.window_min, 3);
}

#[test]
fn x_axis_bounds_is_union_envelope() {
    let mut app = App::new(2, 3);
    for _ in 0..5 {
        app.update(0, Some(10));
    }
    app.update(1, Some(10));
    // source 0 covers [2, 5]; source 1 covers [0, 1]
    assert_eq!(app.x_axis_bounds(), (0, 5));
}

#[test]
fn y_axis_bounds_excludes_timeouts() {
    let mut app = App::new(1, 4);
    app.update(0, Some(100));
    app.update(0, None);
    app.update(0, Some(200));
    let (lo, hi) = app.y_axis_bounds();
    assert_eq!(lo, 100 - 200 / 10);
    assert_eq!(hi, 200 + 200 / 10);
}

#[test]
fn y_axis_bounds_defaults_without_finite_samples() {
    let mut app = App::new(1, 4);
    app.update(0, None);
    app.update(0, None);
    assert_eq!(app.y_axis_bounds(), (0, 1));
    let fresh = App::new(1, 4);
    assert_eq!(fresh.y_axis_bounds(), (0, 1));
}

#[test]
fn histogram_stats_exclude_timeouts() {
    let mut app = App::new(1, 10);
    app.update(0, Some(10));
    app.update(0, Some(20));
    app.update(0, Some(30));
    app.update(0, None);
    let stats = app.stats();
    assert_eq!(stats.len(), 1);
    assert_eq!(stats[0].minimum().unwrap(), 10);
    assert_eq!(stats[0].maximum().unwrap(), 30);
}

#[test]
fn oversized_values_drop_from_stats() {
    let mut app = App::new(1, 4);
    app.update(0, Some(50));
    app.update(0, Some(60_000_000_001));
    let stats = app.stats();
    assert_eq!(stats[0].minimum().unwrap(), 50);
    // the drop leaves the buckets alone, but the maximum query fails after
    // it and reads out as zero
    assert_eq!(app.stats_summary(), vec![(50, 0)]);
}

#[test]
fn summary_reports_min_and_max() {
    let mut app = App::new(1, 10);
    app.update(0, Some(10));
    app.update(0, Some(20));
    app.update(0, Some(30));
    app.update(0, None);
    assert_eq!(app.stats_summary(), vec![(10, 30)]);
}

#[test]
fn summary_is_zero_with_nothing_recorded() {
    let mut app = App::new(2, 4);
    app.update(0, None);
    assert_eq!(app.stats_summary(), vec![(0, 0), (0, 0)]);
}

#[test]
fn values_above_linear_range_quantize() {
    let mut app = App::new(1, 4);
    app.update(0, Some(2000));
    // 2000 lies above the histogram's linear bucket range and reads back as
    // its bucket's nominal value
    assert_eq!(app.stats_summary(), vec![(2001, 2001)]);
}

#[test]
fn single_source_scenario() {
    let mut s = SourceSeries::new(3);
    s.update(Some(1000));
    s.update(Some(2000));
    s.update(Some(3000));
    s.update(Some(4000));
    let snap = s.buffer.snapshot();
    assert_eq!(
        snap,
        vec![
            Sample { sequence: 2, micros: 2000 },
            Sample { sequence: 3, micros: 3000 },
            Sample { sequence: 4, micros: 4000 },
        ]
    );
    assert_eq!(s.window_min, 1);
    assert_eq!(s.window_max, 4);
}

#[test]
fn labels_render_seven_ticks() {
    let app = App::new(1, 3);
    let labels = app.y_axis_labels(0, 6000);
    assert_eq!(labels.len(), 7);
    assert_eq!(labels[0], "0ns");
    assert_eq!(labels[1], "1ms");
    assert_eq!(labels[2], "2ms");
    assert_eq!(labels[3], "3ms");
    assert_eq!(labels[4], "4ms");
    assert_eq!(labels[5], "5ms");
    assert_eq!(labels[6], "6ms");
}

#[test]
fn labels_clamp_negative_positions() {
    let app = App::new(1, 3);
    let labels = app.y_axis_labels(-600, 0);
    assert_eq!(labels.len(), 7);
    assert_eq!(labels[0], "0ns");
    assert_eq!(labels[6], "0ns");
}

#[test]
fn quit_keys_quit() {
    let mut app = App::new(1, 3);
    let q = KeyInput { code: KeyCode::Char('q'), ctrl: false };
    assert_eq!(app.handle_event(Event::Input(q)), Action::Quit);
    let esc = KeyInput { code: KeyCode::Esc, ctrl: false };
    assert_eq!(app.handle_event(Event::Input(esc)), Action::Quit);
    let ctrl_c = KeyInput { code: KeyCode::Char('c'), ctrl: true };
    assert_eq!(app.handle_event(Event::Input(ctrl_c)), Action::Quit);
    let plain_c = KeyInput { code: KeyCode::Char('c'), ctrl: false };
    assert_eq!(app.handle_event(Event::Input(plain_c)), Action::Ignore);
    let other = KeyInput { code: KeyCode::Other, ctrl: false };
    assert_eq!(app.handle_event(Event::Input(other)), Action::Ignore);
    assert_eq!(app.series[0].sequence, 0);
}

#[test]
fn sample_events_update_their_source() {
    let mut app = App::new(2, 3);
    assert_eq!(
        app.handle_event(Event::Update(1, Update::Result(2500))),
        Action::Redraw
    );
    assert_eq!(
        app.handle_event(Event::Update(1, Update::Timeout)),
        Action::Redraw
    );
    assert_eq!(app.series[0].sequence, 0);
    assert_eq!(app.series[1].sequence, 2);
    assert_eq!(
        app.series[1].buffer.snapshot(),
        vec![
            Sample { sequence: 1, micros: 2500 },
            Sample { sequence: 2, micros: 0 },
        ]
    );
}

#[test]
fn identity_is_recorded() {
    let mut app = App::new(2, 3);
    app.set_source_identity(0, "localhost".to_string(), "127.0.0.1".to_string());
    assert_eq!(app.series[0].host, "localhost");
    assert_eq!(app.series[0].addr, "127.0.0.1");
    assert_eq!(app.series[1].host, "");
}
