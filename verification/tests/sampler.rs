use agg::frames::{sample, Event, Ratio};

fn ev(time_us: u64, data: &str) -> Event {
    Event { time_us, data: String::from(data) }
}

#[test]
fn sampler_merges_close_events() {
    // Three events at 0 s, 0.02 s and 0.5 s under a 30 fps cap: the first
    // two fall within one frame interval (33.333 ms) and merge; the third
    // stands alone.
    let events = vec![ev(0, "a"), ev(20000, "b"), ev(500000, "c")];
    let out = sample(events, Ratio { num: 1, den: 1 }, Ratio { num: 30, den: 1 });
    assert_eq!(out.len(), 2);
    assert_eq!(out[0].time_us, 20000);
    assert_eq!(out[0].data, "ab");
    assert_eq!(out[1].time_us, 500000);
    assert_eq!(out[1].data, "c");
}

#[test]
fn sampler_empty_input() {
    let out = sample(Vec::new(), Ratio { num: 1, den: 1 }, Ratio { num: 30, den: 1 });
    assert!(out.is_empty());
}

#[test]
fn sampler_sparse_events_pass_through() {
    // Events further apart than the frame interval come out one-to-one.
    let events = vec![ev(0, "x"), ev(100000, "y"), ev(900000, "z")];
    let out = sample(events, Ratio { num: 1, den: 1 }, Ratio { num: 30, den: 1 });
    assert_eq!(out.len(), 3);
    assert_eq!(out[0].time_us, 0);
    assert_eq!(out[0].data, "x");
    assert_eq!(out[1].time_us, 100000);
    assert_eq!(out[1].data, "y");
    assert_eq!(out[2].time_us, 900000);
    assert_eq!(out[2].data, "z");
}

#[test]
fn sampler_scales_times_by_speed() {
    // Speed 2 halves every timestamp before coalescing.
    let events = vec![ev(0, "x"), ev(1000000, "y")];
    let out = sample(events, Ratio { num: 2, den: 1 }, Ratio { num: 30, den: 1 });
    assert_eq!(out.len(), 2);
    assert_eq!(out[0].time_us, 0);
    assert_eq!(out[1].time_us, 500000);
}

#[test]
fn sampler_respects_rate_bound() {
    // A dense burst: every consecutive pair of emitted points is at least
    // one frame interval (33333 us) apart, and no byte is lost.
    let mut events = Vec::new();
    for i in 0..100u64 {
        events.push(ev(i * 5000, "."));
    }
    let out = sample(events, Ratio { num: 1, den: 1 }, Ratio { num: 30, den: 1 });
    let mut total = String::new();
    for k in 0..out.len() {
        if k + 1 < out.len() {
            assert!(out[k + 1].time_us - out[k].time_us >= 33333);
        }
        total.push_str(&out[k].data);
    }
    assert_eq!(total.len(), 100);
    assert!(out.len() <= 100);
}

#[test]
fn sampler_fractional_fps_cap() {
    // A cap of half a frame per second gives a two-second interval.
    let events = vec![ev(0, "a"), ev(1500000, "b"), ev(2500000, "c")];
    let out = sample(events, Ratio { num: 1, den: 1 }, Ratio { num: 1, den: 2 });
    assert_eq!(out.len(), 1);
    assert_eq!(out[0].time_us, 2500000);
    assert_eq!(out[0].data, "abc");
}
