use vstd::prelude::*;

use crate::lerp::{Keyframe, Progress};

verus! {

/// Why a curve could not be built.
#[derive(Clone, Copy, Debug, PartialEq, Eq, Structural)]
pub enum CurveError {
    /// There are not as many timestamps as keyframes.
    LengthMismatch,
    /// A curve needs at least one keyframe.
    Empty,
    /// A timestamp is smaller than the one before it.
    Unordered,
}

/// Whether the timestamps never decrease.
pub open spec fn sorted(ts: Seq<i64>) -> bool {
    forall|i: int, j: int| 0 <= i <= j < ts.len() ==> ts[i] <= ts[j]
}

/// What keeps a curve from being built out of `ts` and `n` keyframes, if
/// anything does.
pub open spec fn curve_error(ts: Seq<i64>, n: nat) -> Option<CurveError> {
    if ts.len() != n {
        Some(CurveError::LengthMismatch)
    } else if n == 0 {
        Some(CurveError::Empty)
    } else if !sorted(ts) {
        Some(CurveError::Unordered)
    } else {
        None
    }
}

/// Where a curve stands at a given time.
#[derive(Clone, Copy, Debug, PartialEq, Eq, Structural)]
pub enum CurveState {
    /// The curve has a single keyframe, applied whatever the time.
    Static,
    /// The time comes before the first timestamp.
    NotStarted,
    /// The time is at or after the last timestamp.
    Finished,
    /// The time lies in `[timestamps[step], timestamps[step + 1])`, at
    /// `progress` of the way through that interval.
    Active { step: usize, progress: Progress },
}

impl CurveState {
    /// Whether a curve in this state writes the animated value.
    pub open spec fn writes(self) -> bool {
        self is Static || self is Active
    }
}

/// Whether `[ts[i], ts[i + 1])` is an interval that holds `e`.
pub open spec fn interval_holds(ts: Seq<i64>, i: int, e: int) -> bool {
    0 <= i < ts.len() - 1 && ts[i] <= e < ts[i + 1]
}

/// Describes how an attribute of an entity is animated: keyframes, each
/// with the time (in microseconds) at which it is reached, and the fields of
/// the animated value that the curve may write (all of them when `options`
/// is `None`).
pub struct KeyframeVariableCurve<T> {
    /// Timestamp for each of the keyframes.
    pub keyframe_timestamps: Vec<i64>,
    /// List of the keyframes.
    pub keyframes: Vec<Keyframe<T>>,
    pub options: Option<Vec<String>>,
}

impl<T> KeyframeVariableCurve<T> {
    /// As many timestamps as keyframes, at least one, in order.
    pub open spec fn wf(&self) -> bool {
        curve_error(self.keyframe_timestamps@, self.keyframes@.len()) is None
    }

    /// The last timestamp, or zero for a curve without one.
    pub open spec fn last_timestamp(&self) -> int {
        let ts = self.keyframe_timestamps@;
        if ts.len() == 0 {
            0
        } else {
            ts.last() as int
        }
    }

    /// Where the curve stands at time `e`.
    pub open spec fn state_at(&self, e: int) -> CurveState {
        let ts = self.keyframe_timestamps@;
        if ts.len() == 1 {
            CurveState::Static
        } else if e < ts[0] {
            CurveState::NotStarted
        } else if e >= ts.last() {
            CurveState::Finished
        } else {
            let i = choose|i: int| interval_holds(ts, i, e);
            CurveState::Active {
                step: i as usize,
                progress: Progress { num: (e - ts[i]) as u64, den: (ts[i + 1] - ts[i]) as u64 },
            }
        }
    }

    /// Builds a curve, or says why these timestamps and keyframes make none.
    pub fn new(
        keyframe_timestamps: Vec<i64>,
        keyframes: Vec<Keyframe<T>>,
        options: Option<Vec<String>>,
    ) -> (r: Result<Self, CurveError>)
        ensures
            match r {
                Ok(c) => curve_error(keyframe_timestamps@, keyframes@.len()) is None
                    && c.keyframe_timestamps@ == keyframe_timestamps@
                    && c.keyframes@ == keyframes@ && c.options == options,
                Err(e) => curve_error(keyframe_timestamps@, keyframes@.len()) == Some(e),
            },
    {
        if keyframe_timestamps.len() != keyframes.len() {
            return Err(CurveError::LengthMismatch);
        }
        if keyframes.len() == 0 {
            return Err(CurveError::Empty);
        }
        let mut i: usize = 1;
        while i < keyframe_timestamps.len()
            invariant
                1 <= i <= keyframe_timestamps.len(),
                keyframe_timestamps@.len() == keyframes@.len(),
                forall|a: int, b: int|
                    0 <= a <= b < i ==> keyframe_timestamps@[a] <= keyframe_timestamps@[b],
            decreases keyframe_timestamps.len() - i,
        {
            if keyframe_timestamps[i - 1] > keyframe_timestamps[i] {
                assert(!sorted(keyframe_timestamps@)) by {
                    let a = i - 1;
                    assert(keyframe_timestamps@[a] > keyframe_timestamps@[a + 1]);
                }
                return Err(CurveError::Unordered);
            }
            i += 1;
        }
        Ok(KeyframeVariableCurve { keyframe_timestamps, keyframes, options })
    }

    /// Builds a curve from timestamps and the raw values reached at them,
    /// each value wrapped in a keyframe.
    pub fn from_values(
        keyframe_timestamps: Vec<i64>,
        values: Vec<T>,
        options: Option<Vec<String>>,
    ) -> (r: Result<Self, CurveError>)
        ensures
            match r {
                Ok(c) => {
                    &&& curve_error(keyframe_timestamps@, values@.len()) is None
                    &&& c.keyframe_timestamps@ == keyframe_timestamps@
                    &&& c.keyframes@.len() == values@.len()
                    &&& forall|i: int| 0 <= i < values@.len() ==> (#[trigger] c.keyframes@[i]).0 == values@[i]
                    &&& c.options == options
                },
                Err(e) => curve_error(keyframe_timestamps@, values@.len()) == Some(e),
            },
    {
        let ghost orig = values@;
        let n = values.len();
        let mut values = values;
        let mut reversed: Vec<T> = Vec::new();
        while values.len() > 0
            invariant
                n == orig.len(),
                values@ == orig.subrange(0, values@.len() as int),
                reversed@.len() + values@.len() == n,
                forall|j: int| 0 <= j < reversed@.len() ==> #[trigger] reversed@[j] == orig[n - 1 - j],
            decreases values@.len(),
        {
            let v = values.pop().unwrap();
            reversed.push(v);
        }
        let mut keyframes: Vec<Keyframe<T>> = Vec::new();
        while reversed.len() > 0
            invariant
                n == orig.len(),
                keyframes@.len() + reversed@.len() == n,
                forall|j: int| 0 <= j < reversed@.len() ==> #[trigger] reversed@[j] == orig[n - 1 - j],
                forall|j: int| 0 <= j < keyframes@.len() ==> (#[trigger] keyframes@[j]).0 == orig[j],
            decreases reversed@.len(),
        {
            let v = reversed.pop().unwrap();
            keyframes.push(Keyframe(v));
        }
        Self::new(keyframe_timestamps, keyframes, options)
    }

    /// Where the curve stands at time `elapsed`: found by a binary search
    /// over the timestamps.
    pub fn sample(&self, elapsed: i64) -> (r: CurveState)
        requires
            self.wf(),
        ensures
            r == self.state_at(elapsed as int),
            match r {
                CurveState::Active { step, progress } => {
                    &&& interval_holds(self.keyframe_timestamps@, step as int, elapsed as int)
                    &&& progress.num < progress.den
                },
                _ => true,
            },
    {
        let ts = &self.keyframe_timestamps;
        let n = ts.len();
        if n == 1 {
            return CurveState::Static;
        }
        if elapsed < ts[0] {
            return CurveState::NotStarted;
        }
        if elapsed >= ts[n - 1] {
            return CurveState::Finished;
        }
        let mut lo: usize = 0;
        let mut hi: usize = n - 1;
        while hi - lo > 1
            invariant
                n == ts@.len(),
                sorted(ts@),
                lo < hi <= n - 1,
                ts@[lo as int] <= elapsed < ts@[hi as int],
            decreases hi - lo,
        {
            let mid = lo + (hi - lo) / 2;
            if ts[mid] <= elapsed {
                lo = mid;
            } else {
                hi = mid;
            }
        }
        let ghost e = elapsed as int;
        assert(interval_holds(ts@, lo as int, e));
        assert forall|i: int| interval_holds(ts@, i, e) implies i == lo by {
            if i < lo {
                assert(ts@[i + 1] <= ts@[lo as int]);
            } else if i > lo {
                assert(ts@[lo + 1] <= ts@[i]);
            }
        }
        let num = (elapsed as i128 - ts[lo] as i128) as u64;
        let den = (ts[lo + 1] as i128 - ts[lo] as i128) as u64;
        CurveState::Active { step: lo, progress: Progress { num, den } }
    }
}

/// A curve with a single keyframe stands in the same place at every time:
/// it is applied, the same way, whatever the elapsed time.
pub proof fn lemma_static_curve_ignores_time<T>(c: KeyframeVariableCurve<T>, e1: int, e2: int)
    requires
        c.wf(),
        c.keyframes@.len() == 1,
    ensures
        c.state_at(e1) == CurveState::Static,
        c.state_at(e1) == c.state_at(e2),
{
}

} // verus!
