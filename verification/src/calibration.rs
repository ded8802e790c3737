//! Collecting the samples of a calibration: two full cycles of the cost bar, frame by frame.
use crate::ui_state::{OverlayMode, Progress, UiSnapshot};
use crate::worker::{shown_anew, SharedAppState};
use vstd::prelude::*;

verus! {

pub const CALIBRATION_CYCLES: usize = 2;

/// The message that stands for the user's wish to stop, among the errors of a calibration.
pub const CALIBRATION_CANCELLED: &'static str = "calibration_cancelled";

/// How far a calibration has come. The work is measured in pixels of the bar: what was left of it
/// when the calibration started, and then two full lengths.
#[derive(Clone, Copy, Debug)]
pub struct CalibrationProgress {
    pub total_bar_width: i32,
    pub initial_width: Option<i32>,
    pub completed: u64,
}

pub open spec fn limited(value: int, low: int, high: int) -> int {
    if value < low {
        low
    } else if value > high {
        high
    } else {
        value
    }
}

/// All the work, for a bar of width `total` that was filled to `initial` at the start.
pub open spec fn work(total: int, initial: int) -> int {
    (total - initial) + 2 * total
}

/// The work done when the bar is filled to `current`, after `cycles` full cycles.
pub open spec fn work_done(
    total: int,
    initial: int,
    current: int,
    cycles: int,
    collecting: bool,
) -> int {
    if !collecting {
        limited(current - initial, 0, total)
    } else if cycles >= 2 {
        (total - initial) + 2 * total
    } else {
        (total - initial) + cycles * total + current
    }
}

impl CalibrationProgress {
    pub open spec fn wf(self) -> bool {
        &&& self.total_bar_width >= 1
        &&& match self.initial_width {
            Some(initial) => 0 <= initial <= self.total_bar_width && self.completed <= work(
                self.total_bar_width as int,
                initial as int,
            ),
            None => self.completed == 0,
        }
    }

    /// The share of the work that is done; none before the first frame.
    pub open spec fn share(self) -> Progress {
        match self.initial_width {
            Some(initial) => Progress {
                completed: self.completed,
                total: work(self.total_bar_width as int, initial as int) as u64,
            },
            None => Progress { completed: 0, total: 1 },
        }
    }

    /// The progress after one more frame on which the bar was filled to `current_width`: the work
    /// done never becomes less.
    pub open spec fn updated(
        self,
        current_width: int,
        completed_cycles: int,
        collecting: bool,
    ) -> CalibrationProgress {
        let total = self.total_bar_width as int;
        let current = limited(current_width, 0, total);
        let initial = match self.initial_width {
            Some(initial) => initial as int,
            None => current,
        };
        let done = work_done(total, initial, current, completed_cycles, collecting);
        CalibrationProgress {
            total_bar_width: self.total_bar_width,
            initial_width: Some(initial as i32),
            completed: if done > self.completed {
                done as u64
            } else {
                self.completed
            },
        }
    }

    pub fn new(total_bar_width: i32) -> (progress: Self)
        ensures
            progress.wf(),
            progress.total_bar_width == (if total_bar_width < 1 {
                1
            } else {
                total_bar_width
            }),
            progress.initial_width is None,
            progress.completed == 0,
    {
        CalibrationProgress {
            total_bar_width: if total_bar_width < 1 {
                1
            } else {
                total_bar_width
            },
            initial_width: None,
            completed: 0,
        }
    }

    /// Takes in the bar's width on one more frame. The share never becomes smaller.
    pub fn update(&mut self, current_width: i32, completed_cycles: usize, collecting: bool) -> (share:
        Progress)
        requires
            old(self).wf(),
        ensures
            final(self).wf(),
            final(self).total_bar_width == old(self).total_bar_width,
            share == final(self).share(),
            share.valid(),
            share.at_least(old(self).share()),
            *final(self) == old(self).updated(
                current_width as int,
                completed_cycles as int,
                collecting,
            ),
    {
        let total: i64 = self.total_bar_width as i64;
        let current: i64 = if current_width < 0 {
            0
        } else if current_width as i64 > total {
            total
        } else {
            current_width as i64
        };
        let initial: i64 = match self.initial_width {
            Some(initial) => initial as i64,
            None => current,
        };
        let done: i64 = if !collecting {
            if current < initial {
                0
            } else {
                current - initial
            }
        } else if completed_cycles >= CALIBRATION_CYCLES {
            (total - initial) + 2 * total
        } else if completed_cycles == 1 {
            (total - initial) + total + current
        } else {
            (total - initial) + current
        };
        let ghost before = *self;
        self.initial_width = Some(initial as i32);
        if done as u64 > self.completed {
            self.completed = done as u64;
        }
        let share = Progress {
            completed: self.completed,
            total: ((total - initial) + 2 * total) as u64,
        };
        proof {
            let t = share.total as int;
            assert(share.completed * before.share().total >= before.share().completed * t)
                by (nonlinear_arith)
                requires
                    before.share().total == t || before.share().completed == 0,
                    share.completed >= before.share().completed,
                    t >= 0,
                    before.share().total >= 0,
                    share.completed >= 0,
            ;
        }
        share
    }
}

/// The bar was nearly full and is nearly empty now: more than nine tenths, then less than one.
pub open spec fn wraps(total: int, previous: int, current: int) -> bool {
    10 * previous > 9 * total && 10 * current < total
}

/// A frame as far as a calibration looks at it: its size, and to which width the bar is filled on
/// it, where it is found.
#[derive(Clone, Copy, Debug, PartialEq, Eq)]
pub struct SampledFrame {
    pub width: u32,
    pub height: u32,
    pub filled: Option<i32>,
}

/// The bar has wrapped around between two frames on which it was filled this far.
pub open spec fn wraps_on(total: int, previous: Option<i32>, current: Option<i32>) -> bool {
    previous matches Some(previous) && current matches Some(current) && wraps(
        total,
        previous as int,
        current as int,
    )
}

/// What has been collected: the full cycles, the samples of the one that runs, the width on the
/// frame before, whether a first cycle has begun, and the size of the first frame.
#[verifier::ext_equal]
pub struct Collected {
    pub screen: Option<(u32, u32)>,
    pub cycles: Seq<Seq<i32>>,
    pub current: Seq<i32>,
    pub previous: Option<i32>,
    pub collecting: bool,
}

impl Collected {
    /// Nothing, before the first frame.
    pub open spec fn nothing() -> Collected {
        Collected {
            screen: None,
            cycles: Seq::empty(),
            current: Seq::empty(),
            previous: None,
            collecting: false,
        }
    }

    /// The size of the first frame, after one more frame.
    pub open spec fn screen_after(self, frame: SampledFrame) -> Option<(u32, u32)> {
        match self.screen {
            Some(size) => Some(size),
            None => Some((frame.width, frame.height)),
        }
    }

    /// After one more frame.
    pub open spec fn after(self, total: int, frame: SampledFrame) -> Collected {
        let screen = self.screen_after(frame);
        match frame.filled {
            None => Collected { screen, previous: None, ..self },
            Some(width) => {
                let wrapped = wraps_on(total, self.previous, frame.filled);
                let closed = wrapped && self.current.len() > 0;
                let cycles = if closed {
                    self.cycles.push(self.current)
                } else {
                    self.cycles
                };
                let rest = if closed {
                    Seq::empty()
                } else {
                    self.current
                };
                let collecting = self.collecting || wrapped;
                Collected {
                    screen,
                    cycles,
                    current: if collecting && cycles.len() < 2 {
                        rest.push(width)
                    } else {
                        rest
                    },
                    previous: Some(width),
                    collecting,
                }
            },
        }
    }

    /// Each cycle, full or not, starts on a frame with a nearly empty bar.
    pub open spec fn starts_empty(self, total: int) -> bool {
        &&& forall|i: int|
            0 <= i < self.cycles.len() ==> (#[trigger] self.cycles[i]).len() > 0 && 10
                * self.cycles[i][0] < total
        &&& self.current.len() > 0 ==> 10 * self.current[0] < total
        &&& !self.collecting ==> self.cycles.len() == 0 && self.current.len() == 0
        &&& self.collecting && self.cycles.len() < 2 ==> self.current.len() > 0
        &&& self.cycles.len() <= 2
    }
}

#[derive(Debug)]
pub struct CalibrationCollector {
    pub total_bar_width: i32,
    pub screen: Option<(u32, u32)>,
    pub cycle_samples: Vec<Vec<i32>>,
    pub current_cycle: Vec<i32>,
    pub previous_width: Option<i32>,
    pub is_collecting: bool,
    pub progress: CalibrationProgress,
}

/// What a calibration is made from: the widths on the frames of both cycles, the size of the first
/// frame, and the width of the full bar.
#[derive(Debug, PartialEq, Eq)]
pub struct CalibrationSamples {
    pub cycles: Vec<Vec<i32>>,
    pub screen_width: u32,
    pub screen_height: u32,
    pub total_bar_width: i32,
}

/// What follows from a frame.
#[derive(Clone, Copy, Debug, PartialEq, Eq, Structural)]
pub enum CalibrationStep {
    /// Another frame is needed.
    Continue,
    /// Both cycles have been collected.
    Finished,
    /// The user has asked to stop.
    Cancelled,
}

pub open spec fn cycle_views(cycles: Seq<Vec<i32>>) -> Seq<Seq<i32>> {
    cycles.map_values(|cycle: Vec<i32>| cycle@)
}

impl View for CalibrationCollector {
    type V = Collected;

    open spec fn view(&self) -> Collected {
        Collected {
            screen: self.screen,
            cycles: cycle_views(self.cycle_samples@),
            current: self.current_cycle@,
            previous: self.previous_width,
            collecting: self.is_collecting,
        }
    }
}

/// The overlay shows the calibration and its progress, and nothing else has changed.
pub open spec fn shows_progress(before: UiSnapshot, after: UiSnapshot, progress: Progress) -> bool {
    &&& after == UiSnapshot {
        mode: OverlayMode::Calibrating,
        progress: progress,
        cursor_blocked: false,
        message: after.message,
        ..before
    }
}

impl CalibrationCollector {
    pub open spec fn wf(self) -> bool {
        &&& self.total_bar_width >= 1
        &&& self.progress.wf()
        &&& self.progress.total_bar_width == self.total_bar_width
        &&& self@.starts_empty(self.total_bar_width as int)
        &&& self@.cycles.len() < 2
    }

    /// Starts collecting on a bar between the columns `left` and `right`.
    pub fn start(left: i32, right: i32) -> (collector: Result<Self, String>)
        requires
            i32::MIN <= right - left <= i32::MAX,
        ensures
            is_begun(left, right, collector),
    {
        let total_bar_width: i32 = right - left;
        if total_bar_width <= 0 {
            return Err("capture ROI has invalid width".to_owned());
        }
        let collector = CalibrationCollector {
            total_bar_width,
            screen: None,
            cycle_samples: Vec::new(),
            current_cycle: Vec::new(),
            previous_width: None,
            is_collecting: false,
            progress: CalibrationProgress::new(total_bar_width),
        };
        assert(collector@ =~= Collected::nothing());
        Ok(collector)
    }

    /// Takes in one frame. A request to stop comes first: then the frame is left aside.
    pub fn observe(&mut self, state: &mut SharedAppState, frame: SampledFrame) -> (step:
        CalibrationStep)
        requires
            old(self).wf(),
        ensures
            observed((*old(self), *old(state)), frame, (*final(self), *final(state)), step),
    {
        if state.take_cancel_calibration() {
            return CalibrationStep::Cancelled;
        }
        let ghost before = self@;
        let ghost total = self.total_bar_width as int;
        assert(*state == *old(state));
        if self.screen.is_none() {
            self.screen = Some((frame.width, frame.height));
        }
        match frame.filled {
            None => {
                self.previous_width = None;
                assert(self@ =~= before.after(total, frame));
            },
            Some(current) => {
                if let Some(previous) = self.previous_width {
                    if previous as i64 * 10 > self.total_bar_width as i64 * 9 && current as i64 * 10
                        < self.total_bar_width as i64 {
                        self.is_collecting = true;
                        if self.current_cycle.len() > 0 {
                            let mut cycle: Vec<i32> = Vec::new();
                            std::mem::swap(&mut cycle, &mut self.current_cycle);
                            self.cycle_samples.push(cycle);
                            assert(self@.cycles =~= before.cycles.push(before.current));
                        }
                    }
                }
                if self.is_collecting && self.cycle_samples.len() < CALIBRATION_CYCLES {
                    self.current_cycle.push(current);
                }
                let share = self.progress.update(
                    current,
                    self.cycle_samples.len(),
                    self.is_collecting,
                );
                state.inner.ui.mode = OverlayMode::Calibrating;
                state.inner.ui.progress = share;
                state.inner.ui.cursor_blocked = false;
                state.inner.ui.message = String::new();
                state.notify_overlay();
                self.previous_width = Some(current);
                assert(self@ =~= before.after(total, frame));
            },
        }
        proof {
            assert(self@.starts_empty(total)) by {
                assert forall|i: int| 0 <= i < self@.cycles.len() implies (
                #[trigger] self@.cycles[i]).len() > 0 && 10 * self@.cycles[i][0] < total by {
                    if i < before.cycles.len() {
                        assert(self@.cycles[i] == before.cycles[i]);
                    }
                }
            }
        }
        if self.cycle_samples.len() < CALIBRATION_CYCLES {
            CalibrationStep::Continue
        } else {
            CalibrationStep::Finished
        }
    }

    /// What was collected, once both cycles are there.
    pub fn finish(self) -> (samples: CalibrationSamples)
        requires
            self@.cycles.len() == 2,
            self@.screen is Some,
        ensures
            is_finished(self, samples),
    {
        let (screen_width, screen_height) = match self.screen {
            Some(size) => size,
            None => (0, 0),
        };
        CalibrationSamples {
            cycles: self.cycle_samples,
            screen_width,
            screen_height,
            total_bar_width: self.total_bar_width,
        }
    }
}

/// Collecting has begun on a bar between two columns, or why it has not.
pub open spec fn is_begun(
    left: i32,
    right: i32,
    collector: Result<CalibrationCollector, String>,
) -> bool {
    match collector {
        Ok(collector) => right > left && collector.wf() && collector.total_bar_width == right - left
            && collector@ == Collected::nothing() && collector.progress == (CalibrationProgress {
            total_bar_width: collector.total_bar_width,
            initial_width: None,
            completed: 0,
        }),
        Err(message) => right <= left && message@ == "capture ROI has invalid width"@,
    }
}

/// One more frame was taken in: the collector and the shared state as they were and as they are, and
/// what follows.
pub open spec fn observed(
    before: (CalibrationCollector, SharedAppState),
    frame: SampledFrame,
    after: (CalibrationCollector, SharedAppState),
    step: CalibrationStep,
) -> bool {
    &&& step == CalibrationStep::Cancelled <==> before.1.cancel_calibration
    &&& !after.1.cancel_calibration
    &&& after.0.total_bar_width == before.0.total_bar_width
    &&& before.1.cancel_calibration ==> after.0 == before.0 && after.1 == (SharedAppState {
        cancel_calibration: false,
        ..before.1
    })
    &&& !before.1.cancel_calibration ==> {
        &&& after.0@ == before.0@.after(before.0.total_bar_width as int, frame)
        &&& after.0@.starts_empty(after.0.total_bar_width as int)
        &&& step == CalibrationStep::Finished <==> after.0@.cycles.len() == 2
        &&& step == CalibrationStep::Continue <==> after.0.wf()
        &&& match frame.filled {
            None => after.0.progress == before.0.progress && after.1 == before.1,
            Some(width) => {
                &&& after.0.progress == before.0.progress.updated(
                    width as int,
                    after.0@.cycles.len() as int,
                    after.0@.collecting,
                )
                &&& after.0.progress.wf()
                &&& shown_anew(before.1, after.1)
                &&& after.1.inner.api == before.1.inner.api
                &&& shows_progress(
                    before.1.inner.ui,
                    after.1.inner.ui,
                    after.0.progress.share(),
                )
                &&& after.1.inner.ui.message@ == Seq::<char>::empty()
                &&& after.0.progress.share().valid()
                &&& after.0.progress.share().at_least(before.0.progress.share())
            },
        }
    }
}

/// What the collector gives in the end.
pub open spec fn is_finished(collector: CalibrationCollector, samples: CalibrationSamples) -> bool {
    &&& cycle_views(samples.cycles@) == collector@.cycles
    &&& collector@.screen == Some((samples.screen_width, samples.screen_height))
    &&& samples.total_bar_width == collector.total_bar_width
}

/// It is shown that all samples have been collected.
pub open spec fn shows_collected(before: SharedAppState, after: SharedAppState) -> bool {
    &&& shown_anew(before, after)
    &&& after.inner.api == before.inner.api
    &&& after.inner.ui == (UiSnapshot {
        mode: OverlayMode::Calibrating,
        progress: Progress { completed: 1, total: 1 },
        cursor_blocked: false,
        ..before.inner.ui
    })
}

/// Shows that all samples have been collected.
pub fn show_collected(state: &mut SharedAppState)
    ensures
        shows_collected(*old(state), *final(state)),
{
    state.inner.ui.mode = OverlayMode::Calibrating;
    state.inner.ui.progress = Progress { completed: 1, total: 1 };
    state.inner.ui.cursor_blocked = false;
    state.notify_overlay();
}

/// Collecting over a sequence of frames.
pub open spec fn collected(total: int, frames: Seq<SampledFrame>) -> Collected
    decreases frames.len(),
{
    if frames.len() == 0 {
        Collected::nothing()
    } else {
        let before = collected(total, frames.drop_last());
        if before.cycles.len() == 2 {
            before
        } else {
            before.after(total, frames.last())
        }
    }
}

/// Whatever the frames show, no more than two cycles are collected, and each starts where the bar
/// has just wrapped around.
pub proof fn law_collected_cycles_start_after_a_wrap(total: int, frames: Seq<SampledFrame>)
    ensures
        collected(total, frames).starts_empty(total),
    decreases frames.len(),
{
    if frames.len() > 0 {
        law_collected_cycles_start_after_a_wrap(total, frames.drop_last());
        let before = collected(total, frames.drop_last());
        let after = collected(total, frames);
        assert forall|i: int| 0 <= i < after.cycles.len() implies (#[trigger] after.cycles[i]).len()
            > 0 && 10 * after.cycles[i][0] < total by {
            if i < before.cycles.len() {
                assert(after.cycles[i] == before.cycles[i]);
            }
        }
    }
}

/// Cycles that have been collected are kept as they are, whatever frames follow.
pub proof fn law_collected_cycles_are_kept(
    total: int,
    frames: Seq<SampledFrame>,
    more: Seq<SampledFrame>,
)
    ensures
        collected(total, frames).cycles.is_prefix_of(collected(total, frames + more).cycles),
    decreases more.len(),
{
    let kept = collected(total, frames).cycles;
    if more.len() == 0 {
        assert(frames + more =~= frames);
        assert(kept.subrange(0, kept.len() as int) =~= kept);
    } else {
        law_collected_cycles_are_kept(total, frames, more.drop_last());
        assert((frames + more).drop_last() =~= frames + more.drop_last());
        let before = collected(total, frames + more.drop_last()).cycles;
        let after = collected(total, frames + more).cycles;
        assert(before == after || after == before.push(after.last()));
        assert(after.subrange(0, kept.len() as int) =~= before.subrange(0, kept.len() as int));
    }
}

/// The bar has wrapped around between the frame before `i` and that frame, and was found on both.
pub open spec fn wrapped_at(total: int, frames: Seq<SampledFrame>, i: int) -> bool {
    1 <= i && wraps_on(total, frames[i - 1].filled, frames[i].filled)
}

/// The frames on which the bar has just wrapped around, in their order.
pub open spec fn wrap_frames(total: int, frames: Seq<SampledFrame>) -> Seq<int>
    decreases frames.len(),
{
    if frames.len() == 0 {
        Seq::empty()
    } else {
        let before = wrap_frames(total, frames.drop_last());
        if wrapped_at(total, frames, frames.len() - 1) {
            before.push(frames.len() - 1)
        } else {
            before
        }
    }
}

/// The widths on the frames where the bar was found.
pub open spec fn readable(frames: Seq<SampledFrame>) -> Seq<i32>
    decreases frames.len(),
{
    if frames.len() == 0 {
        Seq::empty()
    } else {
        match frames.last().filled {
            Some(width) => readable(frames.drop_last()).push(width),
            None => readable(frames.drop_last()),
        }
    }
}

/// The widths on the frames from the `i`-th wrap up to the next one.
pub open spec fn cycle_at(total: int, frames: Seq<SampledFrame>, i: int) -> Seq<i32> {
    let wraps = wrap_frames(total, frames);
    readable(frames.subrange(wraps[i], wraps[i + 1]))
}

proof fn lemma_wrap_frames(total: int, frames: Seq<SampledFrame>)
    ensures
        forall|i: int|
            0 <= i < wrap_frames(total, frames).len() ==> 0 < #[trigger] wrap_frames(
                total,
                frames,
            )[i] < frames.len(),
        forall|i: int, j: int|
            0 <= i < j < wrap_frames(total, frames).len() ==> #[trigger] wrap_frames(
                total,
                frames,
            )[i] < #[trigger] wrap_frames(total, frames)[j],
    decreases frames.len(),
{
    if frames.len() > 0 {
        lemma_wrap_frames(total, frames.drop_last());
        let before = wrap_frames(total, frames.drop_last());
        let after = wrap_frames(total, frames);
        assert forall|i: int| 0 <= i < after.len() implies 0 < #[trigger] after[i] < frames.len() by {
            if i < before.len() {
                assert(after[i] == before[i]);
            }
        }
        assert forall|i: int, j: int| 0 <= i < j < after.len() implies #[trigger] after[i]
            < #[trigger] after[j] by {
            assert(after[i] == before[i]);
            if j < before.len() {
                assert(after[j] == before[j]);
            }
        }
    }
}

proof fn lemma_earlier_cycles(total: int, frames: Seq<SampledFrame>, i: int)
    requires
        frames.len() > 0,
        0 <= i,
        i + 1 < wrap_frames(total, frames.drop_last()).len(),
    ensures
        cycle_at(total, frames, i) == cycle_at(total, frames.drop_last(), i),
{
    let head = frames.drop_last();
    lemma_wrap_frames(total, head);
    let wraps = wrap_frames(total, head);
    assert(wrap_frames(total, frames)[i] == wraps[i]);
    assert(wrap_frames(total, frames)[i + 1] == wraps[i + 1]);
    assert(wraps[i] < wraps[i + 1]);
    assert(frames.subrange(wraps[i], wraps[i + 1]) =~= head.subrange(wraps[i], wraps[i + 1]));
}

/// What a collection gives: the size of its first frame, and the widths from the first wrap up to
/// the second and from there up to the third, on the frames where the bar was found.
pub proof fn law_both_cycles_lie_between_wraps(total: int, frames: Seq<SampledFrame>)
    requires
        total > 0,
    ensures
        ({
            let result = collected(total, frames);
            let wraps = wrap_frames(total, frames);
            &&& frames.len() > 0 ==> result.screen == Some((frames[0].width, frames[0].height))
            &&& result.cycles.len() == if wraps.len() >= 3 {
                2
            } else if wraps.len() == 2 {
                1int
            } else {
                0
            }
            &&& forall|i: int|
                0 <= i < result.cycles.len() ==> #[trigger] result.cycles[i] == cycle_at(
                    total,
                    frames,
                    i,
                )
            &&& result.cycles.len() < 2 ==> result.collecting == (wraps.len() > 0)
                && result.current == (if wraps.len() > 0 {
                readable(frames.subrange(wraps.last(), frames.len() as int))
            } else {
                Seq::empty()
            }) && result.previous == (if frames.len() > 0 {
                frames.last().filled
            } else {
                None
            })
        }),
    decreases frames.len(),
{
    if frames.len() > 0 {
        let head = frames.drop_last();
        law_both_cycles_lie_between_wraps(total, head);
        law_collected_cycles_start_after_a_wrap(total, head);
        lemma_wrap_frames(total, head);
        lemma_wrap_frames(total, frames);
        let before = collected(total, head);
        let after = collected(total, frames);
        let earlier = wrap_frames(total, head);
        let wraps = wrap_frames(total, frames);
        let end = frames.len() - 1;
        assert forall|i: int| 0 <= i < before.cycles.len() implies before.cycles[i] == cycle_at(
            total,
            frames,
            i,
        ) by {
            lemma_earlier_cycles(total, frames, i);
        }
        if before.cycles.len() < 2 {
            let wrapped = wrapped_at(total, frames, end);
            if end > 0 {
                assert(head.last() == frames[end - 1]);
            }
            assert(wrapped == wraps_on(total, before.previous, frames.last().filled));
            if wrapped {
                if earlier.len() > 0 {
                    let last = earlier.last();
                    assert(wraps[wraps.len() - 2] == last);
                    assert(wraps[wraps.len() - 1] == end);
                    assert(frames.subrange(last, end) =~= head.subrange(last, end));
                    assert(after.cycles.last() == cycle_at(total, frames, wraps.len() - 2));
                }
                let rest = frames.subrange(end, frames.len() as int);
                assert(rest.drop_last() =~= Seq::empty());
                assert(rest.last() == frames.last());
                assert(readable(rest.drop_last()) =~= Seq::empty());
                assert(readable(rest) =~= seq![frames.last().filled->0]);
                if after.cycles.len() < 2 {
                    assert(after.current =~= readable(rest));
                }
            } else if earlier.len() > 0 {
                let rest = frames.subrange(earlier.last(), frames.len() as int);
                assert(rest.drop_last() =~= head.subrange(earlier.last(), end));
                assert(rest.last() == frames.last());
                assert(after.current =~= readable(rest));
            }
        }
    }
}

/// A cycle is closed by a frame exactly where the bar is found below a tenth of its width on it and
/// was found above nine tenths on the frame before, while samples of the cycle are there. What is
/// closed then are just those samples. On such a frame, with or without samples, the next cycle
/// begins with its width.
pub proof fn law_cycles_end_only_on_a_wrap(collected: Collected, total: int, frame: SampledFrame)
    ensures
        ({
            let after = collected.after(total, frame);
            let wrapped = collected.previous is Some && frame.filled is Some && 10
                * collected.previous->0 > 9 * total && 10 * frame.filled->0 < total;
            &&& (after.cycles != collected.cycles) == (wrapped && collected.current.len() > 0)
            &&& after.cycles != collected.cycles ==> after.cycles == collected.cycles.push(
                collected.current,
            )
            &&& after.collecting == (collected.collecting || wrapped)
            &&& wrapped && after.cycles.len() < 2 ==> after.current == seq![frame.filled->0]
            &&& frame.filled is Some && !wrapped && collected.collecting && collected.cycles.len()
                < 2 ==> after.current == collected.current.push(frame.filled->0)
            &&& !wrapped && !collected.collecting ==> after.current == collected.current
        }),
{
    let after = collected.after(total, frame);
    if after.cycles == collected.cycles.push(collected.current) {
        assert(after.cycles.len() == collected.cycles.len() + 1);
    }
    if collected.current.len() == 0 && frame.filled is Some {
        assert(collected.current.push(frame.filled->0) =~= seq![frame.filled->0]);
    }
    if frame.filled is Some {
        assert(Seq::<i32>::empty().push(frame.filled->0) =~= seq![frame.filled->0]);
    }
}

/// The width that counts as the one before is that of the last frame, and none where the bar was not
/// found on it: a cycle never ends across a frame on which the bar could not be read.
pub proof fn law_only_the_frame_before_counts(
    collected: Collected,
    total: int,
    frame: SampledFrame,
    next: SampledFrame,
)
    ensures
        collected.after(total, frame).previous == frame.filled,
        frame.filled is None ==> {
            let lost = collected.after(total, frame);
            &&& lost.cycles == collected.cycles
            &&& lost.current == collected.current
            &&& lost.collecting == collected.collecting
            &&& lost.after(total, next).cycles == collected.cycles
            &&& lost.after(total, next).collecting == collected.collecting
        },
        collected.screen is Some ==> collected.after(total, frame).screen == collected.screen,
        collected.screen is None ==> collected.after(total, frame).screen == Some(
            (frame.width, frame.height),
        ),
{
}

/// The bar does not fall from the frame before `i` to that frame, where it is found on both.
pub open spec fn does_not_fall_at(frames: Seq<SampledFrame>, i: int) -> bool {
    frames[i - 1].filled is Some && frames[i].filled is Some ==> frames[i - 1].filled->0
        <= frames[i].filled->0
}

/// As long as the bar does not fall from one frame to the next, no cycle is closed and none begins:
/// the samples of the cycle that runs are all that grows.
pub proof fn law_rising_bar_closes_no_cycle(
    total: int,
    frames: Seq<SampledFrame>,
    more: Seq<SampledFrame>,
)
    requires
        total > 0,
        forall|i: int|
            frames.len() <= i < frames.len() + more.len() && 0 < i ==> #[trigger] does_not_fall_at(
                frames + more,
                i,
            ),
    ensures
        collected(total, frames + more).cycles == collected(total, frames).cycles,
        collected(total, frames + more).collecting == collected(total, frames).collecting,
        collected(total, frames).current.is_prefix_of(collected(total, frames + more).current),
    decreases more.len(),
{
    let first = collected(total, frames);
    if more.len() == 0 {
        assert(frames + more =~= frames);
        assert(first.current.subrange(0, first.current.len() as int) =~= first.current);
    } else {
        let all = frames + more;
        let fewer = more.drop_last();
        let head = frames + fewer;
        assert(all.drop_last() =~= head);
        assert forall|i: int| frames.len() <= i < frames.len() + fewer.len() && 0 < i implies
            #[trigger] does_not_fall_at(head, i) by {
            assert(does_not_fall_at(all, i));
            assert(all[i] == head[i] && all[i - 1] == head[i - 1]);
        }
        law_rising_bar_closes_no_cycle(total, frames, fewer);
        law_both_cycles_lie_between_wraps(total, head);
        let before = collected(total, head);
        let after = collected(total, all);
        if before.cycles.len() < 2 {
            let end = all.len() - 1;
            if end > 0 {
                assert(head.last() == all[end - 1]);
                assert(does_not_fall_at(all, end));
            }
            law_cycles_end_only_on_a_wrap(before, total, all.last());
            assert(after.current.subrange(0, first.current.len() as int) =~= first.current);
        }
    }
}

/// A frame that comes in is one step of the work: the share shown starts from the width of the first
/// frame, never becomes less, lies below the whole before both cycles are there and is the whole
/// once they are.
pub proof fn law_share_is_whole_when_both_cycles_are_there(
    progress: CalibrationProgress,
    width: int,
    cycles: int,
    collecting: bool,
)
    requires
        progress.wf(),
        0 <= cycles <= 2,
        cycles > 0 ==> collecting,
    ensures
        ({
            let after = progress.updated(width, cycles, collecting);
            let share = after.share();
            let total = progress.total_bar_width as int;
            &&& share.completed <= share.total
            &&& after.completed >= progress.completed
            &&& progress.initial_width is Some ==> after.initial_width == progress.initial_width
            &&& progress.initial_width is None && 0 <= width <= total ==> after.initial_width
                == Some(width as i32)
            &&& share.total == 3 * total - after.initial_width->0
            &&& cycles == 2 ==> share.completed == share.total
            &&& cycles == 1 && width < total && progress.completed < share.total
                ==> share.completed < share.total
            &&& cycles == 0 && width < total && progress.completed < share.total
                ==> share.completed < share.total
        }),
{
}

/// The work done moves with the bar, pixel by pixel, from nothing on the first frame, and does not
/// jump where the bar wraps around: a full bar is as far as an empty one of the next cycle.
pub proof fn law_work_moves_with_the_bar(
    progress: CalibrationProgress,
    width: int,
    cycles: int,
)
    requires
        progress.wf(),
        progress.initial_width is Some,
        progress.completed == 0,
        0 <= width < progress.total_bar_width,
        0 <= cycles < 2,
    ensures
        ({
            let total = progress.total_bar_width as int;
            let initial = progress.initial_width->0 as int;
            &&& progress.updated(initial, 0, false).completed == 0
            &&& width >= initial ==> progress.updated(width + 1, 0, false).completed
                == progress.updated(width, 0, false).completed + 1
            &&& width < initial ==> progress.updated(width, 0, false).completed == 0
            &&& progress.updated(total, 0, false).completed == progress.updated(0, 0, true).completed
            &&& progress.updated(width + 1, cycles, true).completed == progress.updated(
                width,
                cycles,
                true,
            ).completed + 1
            &&& progress.updated(total, cycles, true).completed == progress.updated(
                0,
                cycles + 1,
                true,
            ).completed
        }),
{
    let total = progress.total_bar_width as int;
    assert(cycles * total == if cycles == 0 {
        0
    } else {
        total
    }) by (nonlinear_arith)
        requires
            cycles == 0 || cycles == 1,
    ;
    assert(0 * total == 0 && 1 * total == total && (cycles + 1) * total == cycles * total + total)
        by (nonlinear_arith);
}

/// A request to stop ends the calibration at once, with what was collected as it was; otherwise a
/// calibration goes on until two cycles are there, and then it ends.
pub proof fn law_calibration_ends_with_two_cycles(
    before: (CalibrationCollector, SharedAppState),
    frame: SampledFrame,
    after: (CalibrationCollector, SharedAppState),
    step: CalibrationStep,
)
    requires
        before.0.wf(),
        observed(before, frame, after, step),
    ensures
        before.1.cancel_calibration ==> step == CalibrationStep::Cancelled && after.0 == before.0,
        !before.1.cancel_calibration ==> {
            &&& step == CalibrationStep::Finished <==> after.0@.cycles.len() >= 2
            &&& step == CalibrationStep::Continue <==> after.0@.cycles.len() < 2
        },
        !after.1.cancel_calibration,
        after.0.total_bar_width == before.0.total_bar_width,
        after.1.api_history == before.1.api_history,
        frame.filled is Some && !before.1.cancel_calibration ==> after.1.inner.ui.mode
            == OverlayMode::Calibrating && after.1.inner.ui.progress == after.0.progress.share(),
{
}

/// A calibration is made from the cycles that were collected, for the size of the first frame and
/// the bar it was started on; a bar without width is refused.
pub proof fn law_samples_are_those_that_were_collected(
    left: i32,
    right: i32,
    begun: Result<CalibrationCollector, String>,
    first: SampledFrame,
    next: CalibrationCollector,
    state: SharedAppState,
    later: SharedAppState,
    step: CalibrationStep,
    collector: CalibrationCollector,
    samples: CalibrationSamples,
)
    requires
        is_begun(left, right, begun),
        begun matches Ok(start) ==> observed((start, state), first, (next, later), step),
        !state.cancel_calibration,
        is_finished(collector, samples),
    ensures
        begun is Ok <==> right > left,
        begun matches Ok(start) ==> start.total_bar_width == right - left && next@.screen == Some(
            (first.width, first.height),
        ) && next@.cycles.len() == 0,
        collector@.screen matches Some(size) && size.0 == samples.screen_width && size.1
            == samples.screen_height,
        samples.total_bar_width == collector.total_bar_width,
        samples.cycles@.len() == collector@.cycles.len(),
        forall|i: int|
            0 <= i < samples.cycles@.len() ==> (#[trigger] samples.cycles@[i])@
                == collector@.cycles[i],
{
    assert(cycle_views(samples.cycles@).len() == samples.cycles@.len());
    assert forall|i: int| 0 <= i < samples.cycles@.len() implies (#[trigger] samples.cycles@[i])@
        == collector@.cycles[i] by {
        assert(cycle_views(samples.cycles@)[i] == samples.cycles@[i]@);
    }
}

/// Once all is collected the whole share is shown, and nothing else changes.
pub proof fn law_collected_shows_the_whole(before: SharedAppState, after: SharedAppState)
    requires
        shows_collected(before, after),
    ensures
        after.inner.ui.progress.completed == after.inner.ui.progress.total,
        after.inner.ui.progress.total > 0,
        after.inner.ui.mode == OverlayMode::Calibrating,
        after.inner.api == before.inner.api,
        after.api_history == before.api_history,
        after.inner.ui.message == before.inner.ui.message,
{
}

} // verus!
