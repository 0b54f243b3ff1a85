use vstd::prelude::*;

verus! {

/// Playback state of one animation. Times are milliseconds on the caller's
/// clock.
#[derive(Clone, Copy, PartialEq, Eq, Structural, Debug)]
pub struct GifState {
    /// When the shown frame was switched to.
    pub last_frame_rendered: u64,
    /// The delay of the shown frame.
    pub last_frame_duration: u64,
    /// When the next frame is due, if known.
    pub next_frame_time: Option<u64>,
    /// The index of the shown frame.
    pub last_frame_index: usize,
}

/// `a + b`, held at `u64::MAX`.
pub open spec fn sat_add(a: u64, b: u64) -> u64 {
    if a + b > u64::MAX {
        u64::MAX
    } else {
        (a + b) as u64
    }
}

/// When the frame after the shown one is due: the recorded deadline, else the
/// switch time plus the shown frame's delay.
pub open spec fn deadline(s: GifState) -> u64 {
    match s.next_frame_time {
        Some(t) => t,
        None => sat_add(s.last_frame_rendered, s.last_frame_duration),
    }
}

/// The state that shows frame `index` from `now` on.
pub open spec fn showing(index: int, now: u64, delays: Seq<u64>) -> GifState {
    GifState {
        last_frame_rendered: now,
        last_frame_duration: delays[index],
        next_frame_time: Some(sat_add(now, delays[index])),
        last_frame_index: index as usize,
    }
}

/// One tick of the scheduler over the delays of the frames that are
/// available. Without a state, frame 0 starts now. Once the deadline has come,
/// the next frame (cyclically) starts now. Before it, nothing changes.
pub open spec fn gif_tick(prev: Option<GifState>, now: u64, delays: Seq<u64>) -> GifState {
    match prev {
        None => showing(0, now, delays),
        Some(s) => if now >= deadline(s) {
            showing((s.last_frame_index + 1) % (delays.len() as int), now, delays)
        } else {
            s
        },
    }
}

fn showing_exec(index: usize, now: u64, delays: &Vec<u64>) -> (r: GifState)
    requires
        index < delays@.len(),
    ensures
        r == showing(index as int, now, delays@),
{
    let d = delays[index];
    GifState {
        last_frame_rendered: now,
        last_frame_duration: d,
        next_frame_time: Some(now.saturating_add(d)),
        last_frame_index: index,
    }
}

impl GifState {
    /// Advances the playback of an animation whose available frames have the
    /// given delays (in milliseconds) to the time `now`. A frame with no delay
    /// lasts until the next tick, so playback moves at most one frame per tick.
    pub fn tick(prev: Option<GifState>, now: u64, delays: &Vec<u64>) -> (r: GifState)
        requires
            delays@.len() >= 1,
        ensures
            r == gif_tick(prev, now, delays@),
            r.last_frame_index < delays@.len() || r == prev.unwrap(),
    {
        match prev {
            None => showing_exec(0, now, delays),
            Some(s) => {
                let due = match s.next_frame_time {
                    Some(t) => t,
                    None => s.last_frame_rendered.saturating_add(s.last_frame_duration),
                };
                if now >= due {
                    let n = delays.len();
                    let i = (s.last_frame_index % n + 1) % n;
                    proof {
                        lemma_succ_mod(s.last_frame_index as int, n as int);
                    }
                    showing_exec(i, now, delays)
                } else {
                    s
                }
            },
        }
    }
}

proof fn lemma_succ_mod(i: int, n: int)
    requires
        0 <= i,
        0 < n,
    ensures
        (i % n + 1) % n == (i + 1) % n,
{
    assert((i % n + 1) % n == (i + 1) % n) by (nonlinear_arith)
        requires 0 <= i, 0 < n;
}

/// A single-frame animation never leaves frame 0, however much time passes.
pub proof fn lemma_single_frame_holds(prev: Option<GifState>, now: u64, delays: Seq<u64>)
    requires
        delays.len() == 1,
        prev matches Some(s) ==> s.last_frame_index == 0,
    ensures
        gif_tick(prev, now, delays).last_frame_index == 0,
{
    if let Some(s) = prev {
        assert((s.last_frame_index + 1) % 1int == 0);
    }
}

/// Before the deadline a tick changes nothing; at or after it, the index moves
/// to the next available frame, wrapping to 0 after the last one, and the new
/// deadline is that frame's delay from now.
pub proof fn lemma_tick_advances(s: GifState, now: u64, delays: Seq<u64>)
    requires
        1 <= delays.len() <= usize::MAX,
        s.last_frame_index < delays.len(),
    ensures
        now < deadline(s) ==> gif_tick(Some(s), now, delays) == s,
        now >= deadline(s) ==> {
            let r = gif_tick(Some(s), now, delays);
            &&& r.last_frame_index == (if s.last_frame_index + 1 == delays.len() {
                0
            } else {
                s.last_frame_index + 1
            })
            &&& r.next_frame_time == Some(sat_add(now, delays[r.last_frame_index as int]))
        },
{
    let n = delays.len() as int;
    let i = s.last_frame_index as int;
    if i + 1 == n {
        assert((i + 1) % n == 0) by (nonlinear_arith)
            requires i + 1 == n, n > 0;
    } else {
        assert((i + 1) % n == i + 1) by (nonlinear_arith)
            requires 0 <= i, i + 1 < n;
    }
}

} // verus!
