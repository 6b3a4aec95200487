//! The frame sampler: turns a speed-scaled event stream into a thinned,
//! monotonically timestamped sequence of render points, bounded to a
//! maximum display frame rate. Events that fall within one frame interval
//! of the pending render point are merged into it, payloads concatenated
//! in order; a final render point is always emitted so that no trailing
//! output is dropped.

use vstd::prelude::*;
use vstd::arithmetic::div_mod::{lemma_div_is_ordered, lemma_div_pos_is_pos};
use vstd::arithmetic::mul::lemma_mul_inequality;
use vstd::string::StringExecFns;

verus! {

/// An exact positive ratio, used for the playback speed and the frame
/// rate cap.
#[derive(Clone, Copy, Debug, PartialEq, Eq)]
pub struct Ratio {
    pub num: u64,
    pub den: u64,
}

impl Ratio {
    /// Both parts must be positive for the ratio to denote a positive
    /// rational number.
    pub open spec fn wf(&self) -> bool {
        self.num > 0 && self.den > 0
    }
}

/// One recorded event: a timestamp in microseconds and the terminal
/// output emitted at that time.
#[derive(Clone, Debug)]
pub struct Event {
    pub time_us: u64,
    pub data: String,
}

/// One render point: the output to feed the emulator before producing
/// one displayed frame, at the given (already speed-scaled) time.
#[derive(Clone, Debug)]
pub struct RenderPoint {
    pub time_us: u64,
    pub data: String,
}

/// An event time divided by the playback speed, rounded toward zero.
pub open spec fn spec_scaled_time(t: u64, speed: Ratio) -> int {
    (t * speed.den) / (speed.num as int)
}

/// The minimum spacing between emitted render points, in microseconds:
/// the reciprocal of the frame rate cap.
pub open spec fn spec_interval(fps_cap: Ratio) -> int {
    (1000000 * fps_cap.den) / (fps_cap.num as int)
}

/// The event stream after speed scaling, as (time, payload) pairs.
pub open spec fn spec_scaled_events(events: Seq<Event>, speed: Ratio) -> Seq<(int, Seq<char>)> {
    events.map(|i: int, e: Event| (spec_scaled_time(e.time_us, speed), e.data@))
}

/// Coalesces the event suffix starting at `i`, with `(pt, pd)` the pending
/// render point accumulated so far. An event within `delta` of the pending
/// time is merged into it; otherwise the pending point is emitted and the
/// event starts a new one. The pending point is always emitted at the end.
pub open spec fn spec_coalesce_from(
    evs: Seq<(int, Seq<char>)>,
    delta: int,
    pt: int,
    pd: Seq<char>,
    i: int,
) -> Seq<(int, Seq<char>)>
    decreases evs.len() - i,
{
    if i < 0 || i >= evs.len() {
        seq![(pt, pd)]
    } else {
        let t = evs[i].0;
        let d = evs[i].1;
        if t - pt < delta {
            spec_coalesce_from(evs, delta, t, pd + d, i + 1)
        } else {
            seq![(pt, pd)] + spec_coalesce_from(evs, delta, t, d, i + 1)
        }
    }
}

/// Coalesces a whole scaled event stream under the given frame interval.
pub open spec fn spec_coalesce(evs: Seq<(int, Seq<char>)>, delta: int) -> Seq<(int, Seq<char>)> {
    if evs.len() == 0 {
        Seq::empty()
    } else {
        spec_coalesce_from(evs, delta, evs[0].0, evs[0].1, 1)
    }
}

/// What the sampler produces, as a mathematical sequence of
/// (scaled time, payload) pairs.
pub open spec fn spec_sample(events: Seq<Event>, speed: Ratio, fps_cap: Ratio) -> Seq<
    (int, Seq<char>),
> {
    spec_coalesce(spec_scaled_events(events, speed), spec_interval(fps_cap))
}

/// The input event timestamps never decrease.
pub open spec fn spec_sorted(events: Seq<Event>) -> bool {
    forall|a: int, b: int|
        0 <= a <= b < events.len() ==> events[a].time_us <= events[b].time_us
}

/// The payloads of a sequence of render points, concatenated in order.
pub open spec fn spec_concat_points(s: Seq<(int, Seq<char>)>) -> Seq<char>
    decreases s.len(),
{
    if s.len() == 0 {
        Seq::empty()
    } else {
        s[0].1 + spec_concat_points(s.drop_first())
    }
}

/// The payloads of the event suffix starting at `i`, concatenated in order.
pub open spec fn spec_payload_suffix(evs: Seq<(int, Seq<char>)>, i: int) -> Seq<char>
    decreases evs.len() - i,
{
    if i < 0 || i >= evs.len() {
        Seq::empty()
    } else {
        evs[i].1 + spec_payload_suffix(evs, i + 1)
    }
}

/// The payloads of all input events from `i` on, concatenated in order.
pub open spec fn spec_all_payloads(events: Seq<Event>, i: int) -> Seq<char>
    decreases events.len() - i,
{
    if i < 0 || i >= events.len() {
        Seq::empty()
    } else {
        events[i].data@ + spec_all_payloads(events, i + 1)
    }
}

/// Speed scaling keeps payloads: the scaled stream concatenates to the
/// same character sequence as the unscaled input events.
proof fn lemma_scaled_payloads(events: Seq<Event>, speed: Ratio, i: int)
    requires
        0 <= i <= events.len(),
    ensures
        spec_payload_suffix(spec_scaled_events(events, speed), i) == spec_all_payloads(events, i),
    decreases events.len() - i,
{
    if i < events.len() {
        lemma_scaled_payloads(events, speed, i + 1);
    }
}

/// Scaling by a positive ratio preserves the order of timestamps.
proof fn lemma_scale_monotone(t1: u64, t2: u64, speed: Ratio)
    requires
        t1 <= t2,
        speed.wf(),
    ensures
        spec_scaled_time(t1, speed) <= spec_scaled_time(t2, speed),
{
    lemma_mul_inequality(t1 as int, t2 as int, speed.den as int);
    lemma_div_is_ordered(t1 * speed.den, t2 * speed.den, speed.num as int);
}

/// The scaled stream is sorted whenever the input is.
proof fn lemma_scaled_sorted(events: Seq<Event>, speed: Ratio)
    requires
        spec_sorted(events),
        speed.wf(),
    ensures
        forall|a: int, b: int|
            0 <= a <= b < events.len() ==> #[trigger] spec_scaled_events(events, speed)[a].0
                <= #[trigger] spec_scaled_events(events, speed)[b].0,
{
    let scaled = spec_scaled_events(events, speed);
    assert forall|a: int, b: int| 0 <= a <= b < events.len() implies #[trigger] scaled[a].0
        <= #[trigger] scaled[b].0 by {
        lemma_scale_monotone(events[a].time_us, events[b].time_us, speed);
    }
}

/// The heart of the sampler's laws, proved by induction over the
/// coalescing recursion: the result is never empty, emits at most one
/// point per remaining event plus the pending one, starts no earlier than
/// the pending time, spaces consecutive points at least `delta` apart,
/// and concatenates to the pending payload followed by the remaining
/// event payloads.
proof fn lemma_coalesce_from(evs: Seq<(int, Seq<char>)>, delta: int, pt: int, pd: Seq<char>, i: int)
    requires
        0 <= i <= evs.len(),
        delta >= 0,
        forall|a: int, b: int| i <= a <= b < evs.len() ==> #[trigger] evs[a].0 <= #[trigger] evs[b].0,
        i < evs.len() ==> pt <= evs[i].0,
    ensures
        spec_coalesce_from(evs, delta, pt, pd, i).len() >= 1,
        spec_coalesce_from(evs, delta, pt, pd, i).len() <= evs.len() - i + 1,
        spec_coalesce_from(evs, delta, pt, pd, i)[0].0 >= pt,
        forall|k: int|
            0 <= k < spec_coalesce_from(evs, delta, pt, pd, i).len() - 1
                ==> #[trigger] spec_coalesce_from(evs, delta, pt, pd, i)[k + 1].0
                >= spec_coalesce_from(evs, delta, pt, pd, i)[k].0 + delta,
        spec_concat_points(spec_coalesce_from(evs, delta, pt, pd, i)) == pd + spec_payload_suffix(
            evs,
            i,
        ),
    decreases evs.len() - i,
{
    let res = spec_coalesce_from(evs, delta, pt, pd, i);
    if i >= evs.len() {
        assert(res == seq![(pt, pd)]);
        assert(res.drop_first() =~= Seq::<(int, Seq<char>)>::empty());
        assert(spec_concat_points(res) == pd + spec_concat_points(Seq::empty()));
        assert(pd + Seq::<char>::empty() =~= pd);
        assert(pd + spec_payload_suffix(evs, i) =~= pd);
    } else {
        let t = evs[i].0;
        let d = evs[i].1;
        if t - pt < delta {
            lemma_coalesce_from(evs, delta, t, pd + d, i + 1);
            assert((pd + d) + spec_payload_suffix(evs, i + 1) =~= pd + (d + spec_payload_suffix(
                evs,
                i + 1,
            )));
        } else {
            lemma_coalesce_from(evs, delta, t, d, i + 1);
            let rest = spec_coalesce_from(evs, delta, t, d, i + 1);
            assert(res == seq![(pt, pd)] + rest);
            assert(res[0] == (pt, pd));
            assert forall|k: int| 0 <= k < res.len() - 1 implies #[trigger] res[k + 1].0 >= res[k].0
                + delta by {
                if k == 0 {
                    assert(res[1] == rest[0]);
                    assert(rest[0].0 >= t);
                } else {
                    assert(res[k] == rest[k - 1]);
                    assert(res[k + 1] == rest[k]);
                    assert(rest[(k - 1) + 1].0 >= rest[k - 1].0 + delta);
                }
            }
            assert((seq![(pt, pd)] + rest).drop_first() =~= rest);
            assert(spec_concat_points(res) == pd + spec_concat_points(rest));
            assert(pd + (d + spec_payload_suffix(evs, i + 1)) =~= pd + spec_payload_suffix(evs, i));
        }
    }
}

/// Sampler monotonicity: the output has at most one render point per
/// input event, and render point times never decrease.
pub proof fn lemma_sample_monotone(events: Seq<Event>, speed: Ratio, fps_cap: Ratio)
    requires
        spec_sorted(events),
        speed.wf(),
        fps_cap.wf(),
    ensures
        spec_sample(events, speed, fps_cap).len() <= events.len(),
        forall|k: int|
            0 <= k < spec_sample(events, speed, fps_cap).len() - 1
                ==> #[trigger] spec_sample(events, speed, fps_cap)[k].0 <= spec_sample(
                events,
                speed,
                fps_cap,
            )[k + 1].0,
{
    lemma_sample_rate_bound(events, speed, fps_cap);
    lemma_interval_nonneg(fps_cap);
    if events.len() > 0 {
        let scaled = spec_scaled_events(events, speed);
        lemma_scaled_sorted(events, speed);
        lemma_coalesce_from(scaled, spec_interval(fps_cap), scaled[0].0, scaled[0].1, 1);
    }
}

/// The frame interval of a well-formed rate cap is not negative.
proof fn lemma_interval_nonneg(fps_cap: Ratio)
    requires
        fps_cap.wf(),
    ensures
        spec_interval(fps_cap) >= 0,
{
    lemma_div_pos_is_pos(1000000 * fps_cap.den, fps_cap.num as int);
}

/// Sampler rate bound: any two consecutive render points are at least one
/// frame interval apart.
pub proof fn lemma_sample_rate_bound(events: Seq<Event>, speed: Ratio, fps_cap: Ratio)
    requires
        spec_sorted(events),
        speed.wf(),
        fps_cap.wf(),
    ensures
        forall|k: int|
            0 <= k < spec_sample(events, speed, fps_cap).len() - 1
                ==> #[trigger] spec_sample(events, speed, fps_cap)[k + 1].0 >= spec_sample(
                events,
                speed,
                fps_cap,
            )[k].0 + spec_interval(fps_cap),
{
    lemma_interval_nonneg(fps_cap);
    if events.len() > 0 {
        let scaled = spec_scaled_events(events, speed);
        lemma_scaled_sorted(events, speed);
        lemma_coalesce_from(scaled, spec_interval(fps_cap), scaled[0].0, scaled[0].1, 1);
    }
}

/// Sampler completeness: concatenating all render point payloads in order
/// reproduces the concatenation of all input payloads, with no loss and
/// no reordering.
pub proof fn lemma_sample_complete(events: Seq<Event>, speed: Ratio, fps_cap: Ratio)
    requires
        spec_sorted(events),
        speed.wf(),
        fps_cap.wf(),
    ensures
        spec_concat_points(spec_sample(events, speed, fps_cap)) == spec_all_payloads(events, 0),
{
    lemma_interval_nonneg(fps_cap);
    lemma_scaled_payloads(events, speed, 0);
    if events.len() == 0 {
        assert(spec_concat_points(Seq::empty()) =~= spec_all_payloads(events, 0));
    } else {
        let scaled = spec_scaled_events(events, speed);
        lemma_scaled_sorted(events, speed);
        lemma_coalesce_from(scaled, spec_interval(fps_cap), scaled[0].0, scaled[0].1, 1);
        assert(scaled[0].1 + spec_payload_suffix(scaled, 1) =~= spec_payload_suffix(scaled, 0));
    }
}

/// The render points already produced, as (time, payload) pairs.
pub open spec fn spec_points(s: Seq<RenderPoint>) -> Seq<(int, Seq<char>)> {
    s.map(|i: int, p: RenderPoint| (p.time_us as int, p.data@))
}

/// One event time divided by the playback speed.
fn scale_time(t: u64, speed: Ratio) -> (r: u64)
    requires
        speed.num > 0,
        spec_scaled_time(t, speed) <= u64::MAX,
    ensures
        r as int == spec_scaled_time(t, speed),
{
    proof {
        lemma_mul_inequality(t as int, u64::MAX as int, speed.den as int);
        lemma_div_pos_is_pos(t * speed.den, speed.num as int);
        assert((t as int) * (speed.den as int) <= u128::MAX) by (nonlinear_arith)
            requires
                t <= u64::MAX,
                speed.den <= u64::MAX,
        ;
    }
    (((t as u128) * (speed.den as u128)) / (speed.num as u128)) as u64
}

/// The frame interval in microseconds for a rate cap.
fn interval_us(fps_cap: Ratio) -> (r: u64)
    requires
        fps_cap.num > 0,
        spec_interval(fps_cap) <= u64::MAX,
    ensures
        r as int == spec_interval(fps_cap),
{
    proof {
        lemma_div_pos_is_pos(1000000 * fps_cap.den, fps_cap.num as int);
        assert(1000000 * (fps_cap.den as int) <= u128::MAX) by (nonlinear_arith)
            requires
                fps_cap.den <= u64::MAX,
        ;
    }
    ((1000000u128 * (fps_cap.den as u128)) / (fps_cap.num as u128)) as u64
}

/// Converts a speed-scaled event stream into render points: events closer
/// than one frame interval to the pending render point are merged into it
/// (payloads concatenated in order), and the pending point is always
/// emitted at the end so that no trailing output is dropped.
pub fn sample(events: Vec<Event>, speed: Ratio, fps_cap: Ratio) -> (out: Vec<RenderPoint>)
    requires
        speed.wf(),
        fps_cap.wf(),
        spec_sorted(events@),
        forall|k: int|
            0 <= k < events@.len() ==> #[trigger] spec_scaled_time(events@[k].time_us, speed)
                <= u64::MAX,
        spec_interval(fps_cap) <= u64::MAX,
    ensures
        spec_points(out@) == spec_sample(events@, speed, fps_cap),
        out@.len() == spec_sample(events@, speed, fps_cap).len(),
        forall|k: int|
            0 <= k < out@.len() ==> out@[k].time_us as int == #[trigger] spec_sample(
                events@,
                speed,
                fps_cap,
            )[k].0 && out@[k].data@ == spec_sample(events@, speed, fps_cap)[k].1,
{
    let ghost scaled = spec_scaled_events(events@, speed);
    let ghost goal = spec_sample(events@, speed, fps_cap);
    proof {
        lemma_scaled_sorted(events@, speed);
    }
    let n = events.len();
    let mut out: Vec<RenderPoint> = Vec::new();
    if n == 0 {
        assert(spec_points(out@) =~= goal);
        return out;
    }
    let delta = interval_us(fps_cap);
    let mut pending = String::new();
    pending.append(events[0].data.as_str());
    let mut pending_t: u64 = scale_time(events[0].time_us, speed);
    let mut i: usize = 1;
    assert(spec_points(out@) + spec_coalesce_from(
        scaled,
        delta as int,
        pending_t as int,
        pending@,
        1,
    ) =~= goal);
    while i < n
        invariant
            1 <= i <= n,
            n == events@.len(),
            speed.wf(),
            fps_cap.wf(),
            spec_sorted(events@),
            forall|k: int|
                0 <= k < events@.len() ==> #[trigger] spec_scaled_time(events@[k].time_us, speed)
                    <= u64::MAX,
            scaled == spec_scaled_events(events@, speed),
            goal == spec_sample(events@, speed, fps_cap),
            delta as int == spec_interval(fps_cap),
            pending_t as int == spec_scaled_time(events@[i - 1].time_us, speed),
            spec_points(out@) + spec_coalesce_from(
                scaled,
                delta as int,
                pending_t as int,
                pending@,
                i as int,
            ) == goal,
        decreases n - i,
    {
        let t = scale_time(events[i].time_us, speed);
        proof {
            lemma_scale_monotone(events@[i - 1].time_us, events@[i as int].time_us, speed);
            assert(scaled[i as int] == (
                spec_scaled_time(events@[i as int].time_us, speed),
                events@[i as int].data@,
            ));
        }
        if t - pending_t < delta {
            pending.append(events[i].data.as_str());
            pending_t = t;
        } else {
            let ghost old_out = out@;
            let ghost old_pd = pending@;
            let ghost old_pt = pending_t as int;
            out.push(RenderPoint { time_us: pending_t, data: pending });
            pending = String::new();
            pending.append(events[i].data.as_str());
            proof {
                assert(spec_points(out@) =~= spec_points(old_out) + seq![(old_pt, old_pd)]);
                assert((spec_points(old_out) + seq![(old_pt, old_pd)]) + spec_coalesce_from(
                    scaled,
                    delta as int,
                    t as int,
                    pending@,
                    i + 1,
                ) =~= spec_points(old_out) + (seq![(old_pt, old_pd)] + spec_coalesce_from(
                    scaled,
                    delta as int,
                    t as int,
                    pending@,
                    i + 1,
                )));
            }
            pending_t = t;
        }
        i += 1;
    }
    let ghost old_out = out@;
    let ghost old_pd = pending@;
    let ghost old_pt = pending_t as int;
    out.push(RenderPoint { time_us: pending_t, data: pending });
    proof {
        assert(spec_points(out@) =~= spec_points(old_out) + seq![(old_pt, old_pd)]);
    }
    assert forall|k: int| 0 <= k < out@.len() implies out@[k].time_us as int == #[trigger] goal[k].0
        && out@[k].data@ == goal[k].1 by {
        assert(spec_points(out@)[k] == (out@[k].time_us as int, out@[k].data@));
    }
    out
}

} // verus!
