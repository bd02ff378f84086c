use vstd::prelude::*;

use crate::clip::KeyframeAnimationClip;

verus! {

/// Playback speed is counted in thousandths of real time: this is speed one.
pub const SPEED_UNIT: i64 = 1000;

/// The playback state of a player, apart from its clip.
pub struct PlaybackView {
    pub paused: bool,
    pub repeat: bool,
    /// Thousandths of real time.
    pub speed: int,
    /// Microseconds.
    pub elapsed: int,
    /// Whether a control call touched the player since the last tick.
    pub changed: bool,
}

/// The state that `play` starts from.
pub open spec fn fresh_playback() -> PlaybackView {
    PlaybackView { paused: false, repeat: false, speed: SPEED_UNIT as int, elapsed: 0, changed: true }
}

/// `x`, held to the range of `i64`.
pub open spec fn clamp_i64(x: int) -> int {
    if x < i64::MIN {
        i64::MIN as int
    } else if x > i64::MAX {
        i64::MAX as int
    } else {
        x
    }
}

/// Elapsed time after `delta` microseconds at `speed` thousandths: the
/// scaled step is rounded toward zero, and the sum held to the range of
/// `i64`.
pub open spec fn advanced(elapsed: int, delta: int, speed: int) -> int {
    let p = delta * speed;
    let step = if p >= 0 {
        p / SPEED_UNIT as int
    } else {
        -((-p) / SPEED_UNIT as int)
    };
    clamp_i64(elapsed + step)
}

/// The time at which a clip is evaluated: with `repeat`, the elapsed time
/// wrapped into `[0, duration)`; a time still below zero is moved up by one
/// duration.
pub open spec fn effective_time(elapsed: int, duration: int, repeat: bool) -> int {
    let e = if repeat && duration > 0 {
        elapsed % duration
    } else {
        elapsed
    };
    if e < 0 {
        e + duration
    } else {
        e
    }
}

/// Whether a tick evaluates the clip: always while playing, and while paused
/// only after a control call.
pub open spec fn evaluates(v: PlaybackView) -> bool {
    !v.paused || v.changed
}

/// The playback state after a tick of `delta` microseconds.
pub open spec fn after_tick(v: PlaybackView, delta: int) -> PlaybackView {
    if !evaluates(v) {
        v
    } else if v.paused {
        PlaybackView { changed: false, ..v }
    } else {
        PlaybackView { elapsed: advanced(v.elapsed, delta, v.speed), changed: false, ..v }
    }
}

/// The playback state after a seek to `t`.
pub open spec fn seek(v: PlaybackView, t: int) -> PlaybackView {
    PlaybackView { elapsed: t, changed: true, ..v }
}

/// With repeat on, a clip of duration `d` is evaluated at the same time
/// after `d` more microseconds: elapsed times one duration apart evaluate
/// identically.
pub proof fn lemma_repeat_wraps(elapsed: int, d: int)
    requires
        d > 0,
    ensures
        effective_time(elapsed + d, d, true) == effective_time(elapsed, d, true),
        0 <= effective_time(elapsed, d, true) < d,
{
    vstd::arithmetic::div_mod::lemma_mod_add_multiples_vanish(elapsed, d);
    vstd::arithmetic::div_mod::lemma_mod_bound(elapsed, d);
}

/// While paused, once a tick has run, further ticks change nothing until a
/// control call: the elapsed time stays put and the clip is not evaluated.
pub proof fn lemma_pause_freezes(v: PlaybackView, d1: int, d2: int)
    requires
        v.paused,
    ensures
        after_tick(v, d1).elapsed == v.elapsed,
        !evaluates(after_tick(v, d1)),
        after_tick(after_tick(v, d1), d2) == after_tick(v, d1),
{
}

/// A seek while paused is honoured: the next tick evaluates the clip, at the
/// time sought, and the player stays paused.
pub proof fn lemma_seek_while_paused(v: PlaybackView, t: int, d: int)
    requires
        v.paused,
    ensures
        evaluates(seek(v, t)),
        after_tick(seek(v, t), d).elapsed == t,
        after_tick(seek(v, t), d).paused,
{
}

/// Plays a clip: elapsed time, speed, and the pause and repeat flags.
pub struct KeyframeAnimationPlayer<T> {
    paused: bool,
    repeat: bool,
    speed: i64,
    elapsed: i64,
    changed: bool,
    animation_clip: KeyframeAnimationClip<T>,
}

impl<T> View for KeyframeAnimationPlayer<T> {
    type V = PlaybackView;

    closed spec fn view(&self) -> PlaybackView {
        PlaybackView {
            paused: self.paused,
            repeat: self.repeat,
            speed: self.speed as int,
            elapsed: self.elapsed as int,
            changed: self.changed,
        }
    }
}

impl<T> KeyframeAnimationPlayer<T> {
    /// The clip being played.
    pub closed spec fn clip(&self) -> KeyframeAnimationClip<T> {
        self.animation_clip
    }

    /// The clip is well formed, and the speed and elapsed time fit in `i64`.
    pub open spec fn wf(&self) -> bool {
        &&& self.clip().wf()
        &&& i64::MIN <= self@.speed <= i64::MAX
        &&& i64::MIN <= self@.elapsed <= i64::MAX
    }

    /// A player at the start of `animation_clip`, playing at speed one.
    pub fn new(animation_clip: KeyframeAnimationClip<T>) -> (r: Self)
        requires
            animation_clip.wf(),
        ensures
            r.wf(),
            r@ == fresh_playback(),
            r.clip() == animation_clip,
    {
        KeyframeAnimationPlayer {
            paused: false,
            repeat: false,
            speed: SPEED_UNIT,
            elapsed: 0,
            changed: true,
            animation_clip,
        }
    }

    /// Start playing an animation, resetting the state of the player.
    pub fn play(&mut self, handle: KeyframeAnimationClip<T>) -> (r: &mut Self)
        requires
            handle.wf(),
        ensures
            r.wf(),
            r@ == fresh_playback(),
            r.clip() == handle,
            *final(self) == *final(r),
    {
        *self = KeyframeAnimationPlayer {
            paused: false,
            repeat: false,
            speed: SPEED_UNIT,
            elapsed: 0,
            changed: true,
            animation_clip: handle,
        };
        self
    }

    /// The clip being played.
    pub fn animation_clip(&self) -> (r: &KeyframeAnimationClip<T>)
        ensures
            *r == self.clip(),
    {
        &self.animation_clip
    }

    /// Set the animation to repeat.
    pub fn repeat(&mut self) -> (r: &mut Self)
        requires
            old(self).wf(),
        ensures
            r.wf(),
            r@ == (PlaybackView { repeat: true, changed: true, ..old(self)@ }),
            r.clip() == old(self).clip(),
            *final(self) == *final(r),
    {
        self.repeat = true;
        self.changed = true;
        self
    }

    /// Stop the animation from repeating.
    pub fn stop_repeating(&mut self) -> (r: &mut Self)
        requires
            old(self).wf(),
        ensures
            r.wf(),
            r@ == (PlaybackView { repeat: false, changed: true, ..old(self)@ }),
            r.clip() == old(self).clip(),
            *final(self) == *final(r),
    {
        self.repeat = false;
        self.changed = true;
        self
    }

    /// Pause the animation.
    pub fn pause(&mut self)
        requires
            old(self).wf(),
        ensures
            final(self).wf(),
            final(self)@ == (PlaybackView { paused: true, changed: true, ..old(self)@ }),
            final(self).clip() == old(self).clip(),
    {
        self.paused = true;
        self.changed = true;
    }

    /// Unpause the animation.
    pub fn resume(&mut self)
        requires
            old(self).wf(),
        ensures
            final(self).wf(),
            final(self)@ == (PlaybackView { paused: false, changed: true, ..old(self)@ }),
            final(self).clip() == old(self).clip(),
    {
        self.paused = false;
        self.changed = true;
    }

    /// Is the animation paused.
    pub fn is_paused(&self) -> (r: bool)
        ensures
            r == self@.paused,
    {
        self.paused
    }

    /// Speed of the animation playback, in thousandths of real time.
    pub fn speed(&self) -> (r: i64)
        ensures
            r == self@.speed,
    {
        self.speed
    }

    /// Set the speed of the animation playback, in thousandths of real time.
    /// A negative speed plays the clip backwards.
    pub fn set_speed(&mut self, speed: i64) -> (r: &mut Self)
        requires
            old(self).wf(),
        ensures
            r.wf(),
            r@ == (PlaybackView { speed: speed as int, changed: true, ..old(self)@ }),
            r.clip() == old(self).clip(),
            *final(self) == *final(r),
    {
        self.speed = speed;
        self.changed = true;
        self
    }

    /// Time elapsed playing the animation, in microseconds.
    pub fn elapsed(&self) -> (r: i64)
        ensures
            r == self@.elapsed,
    {
        self.elapsed
    }

    /// Seek to a specific time in the animation, in microseconds. The next
    /// tick evaluates the clip at that time, even while paused.
    pub fn set_elapsed(&mut self, elapsed: i64) -> (r: &mut Self)
        requires
            old(self).wf(),
        ensures
            r.wf(),
            r@ == seek(old(self)@, elapsed as int),
            r.clip() == old(self).clip(),
            *final(self) == *final(r),
    {
        self.elapsed = elapsed;
        self.changed = true;
        self
    }

    /// The time at which the clip is evaluated now.
    pub fn effective_elapsed(&self) -> (r: i64)
        requires
            self.wf(),
        ensures
            r == effective_time(self@.elapsed, self.clip().duration_spec(), self@.repeat),
    {
        let duration = self.animation_clip.duration();
        proof {
            self.animation_clip.lemma_duration_is_latest_end();
        }
        let mut e = self.elapsed;
        if self.repeat && duration > 0 {
            e = self.elapsed.checked_rem_euclid(duration).unwrap();
        }
        if e < 0 {
            e = e + duration;
        }
        e
    }

    /// Moves time on by `delta` microseconds, if the player is playing;
    /// returns whether this tick evaluates the clip.
    pub fn advance(&mut self, delta: u64) -> (r: bool)
        requires
            old(self).wf(),
        ensures
            final(self).wf(),
            r == evaluates(old(self)@),
            final(self)@ == after_tick(old(self)@, delta as int),
            final(self).clip() == old(self).clip(),
    {
        if self.paused && !self.changed {
            return false;
        }
        if !self.paused {
            self.elapsed = advance_elapsed(self.elapsed, delta, self.speed);
        }
        self.changed = false;
        true
    }
}

/// `elapsed` moved on by `delta` microseconds at `speed` thousandths.
fn advance_elapsed(elapsed: i64, delta: u64, speed: i64) -> (r: i64)
    ensures
        r == advanced(elapsed as int, delta as int, speed as int),
{
    let d = delta as i128;
    let v = speed as i128;
    assert(-0x7fff_ffff_ffff_ffff_ffff_ffff_ffff_ffff <= d * v
        <= 0x7fff_ffff_ffff_ffff_ffff_ffff_ffff_ffff) by (nonlinear_arith)
        requires
            0 <= d < 0x1_0000_0000_0000_0000,
            -0x8000_0000_0000_0000 <= v < 0x8000_0000_0000_0000,
    ;
    let p = d * v;
    let step: i128 = if p >= 0 {
        p / (SPEED_UNIT as i128)
    } else {
        -((-p) / (SPEED_UNIT as i128))
    };
    let sum = elapsed as i128 + step;
    if sum < i64::MIN as i128 {
        i64::MIN
    } else if sum > i64::MAX as i128 {
        i64::MAX
    } else {
        sum as i64
    }
}

} // verus!
