use vstd::prelude::*;

use crate::clip::KeyframeEntityPath;
use crate::curve::{interval_holds, CurveState, KeyframeVariableCurve};
use crate::hierarchy::Hierarchy;
use crate::lerp::{Keyframe, Lerp, Progress};
use crate::player::{after_tick, effective_time, evaluates, lemma_repeat_wraps, KeyframeAnimationPlayer};

verus! {

/// One write of the animated value: curve `curve` of entry `entry` of the
/// clip, in `state` (`Static` or `Active`).
#[derive(Clone, Copy, Debug, PartialEq, Eq, Structural)]
pub struct CurveUpdate {
    pub entry: usize,
    pub curve: usize,
    pub state: CurveState,
}

/// The writes that the curves `cs` of entry `entry` make at time `e`, in
/// order.
pub open spec fn curve_updates<T>(cs: Seq<KeyframeVariableCurve<T>>, entry: int, e: int) -> Seq<
    CurveUpdate,
>
    decreases cs.len(),
{
    if cs.len() == 0 {
        Seq::empty()
    } else {
        let before = curve_updates(cs.drop_last(), entry, e);
        let st = cs.last().state_at(e);
        if st.writes() {
            before.push(CurveUpdate { entry: entry as usize, curve: (cs.len() - 1) as usize, state: st })
        } else {
            before
        }
    }
}

/// The writes that a clip with `entries` makes at time `e`, in order: those
/// of each entry whose path leads somewhere from `root`.
pub open spec fn clip_updates<T>(
    entries: Seq<(KeyframeEntityPath, Vec<KeyframeVariableCurve<T>>)>,
    h: Hierarchy,
    root: int,
    e: int,
) -> Seq<CurveUpdate>
    decreases entries.len(),
{
    if entries.len() == 0 {
        Seq::empty()
    } else {
        let before = clip_updates(entries.drop_last(), h, root, e);
        let last = entries.last();
        if h.target(root, last.0@) is Some {
            before + curve_updates(last.1@, entries.len() - 1, e)
        } else {
            before
        }
    }
}

proof fn lemma_curve_updates_entry<T>(cs: Seq<KeyframeVariableCurve<T>>, entry: int, e: int)
    requires
        0 <= entry <= usize::MAX,
    ensures
        forall|i: int|
            0 <= i < curve_updates(cs, entry, e).len() ==> (#[trigger] curve_updates(cs, entry, e)[i]).entry
                == entry,
    decreases cs.len(),
{
    if cs.len() > 0 {
        lemma_curve_updates_entry(cs.drop_last(), entry, e);
    }
}

/// A curve under a path that leads nowhere from the root is never
/// evaluated: every write comes from an entry whose path was found in the
/// hierarchy given for this tick.
pub proof fn lemma_unresolved_paths_are_skipped<T>(
    entries: Seq<(KeyframeEntityPath, Vec<KeyframeVariableCurve<T>>)>,
    h: Hierarchy,
    root: int,
    e: int,
)
    requires
        entries.len() <= usize::MAX,
    ensures
        forall|i: int|
            0 <= i < clip_updates(entries, h, root, e).len() ==> {
                let u = #[trigger] clip_updates(entries, h, root, e)[i];
                &&& u.entry < entries.len()
                &&& h.target(root, entries[u.entry as int].0@) is Some
            },
    decreases entries.len(),
{
    if entries.len() > 0 {
        let rest = entries.drop_last();
        let n = entries.len() - 1;
        lemma_unresolved_paths_are_skipped(rest, h, root, e);
        lemma_curve_updates_entry(entries[n].1@, n, e);
        let before = clip_updates(rest, h, root, e);
        let all = clip_updates(entries, h, root, e);
        assert forall|i: int| 0 <= i < all.len() implies {
            let u = #[trigger] all[i];
            &&& u.entry < entries.len()
            &&& h.target(root, entries[u.entry as int].0@) is Some
        } by {
            if i < before.len() {
                assert(all[i] == before[i]);
                assert(rest[before[i].entry as int] == entries[before[i].entry as int]);
            } else {
                assert(all[i] == curve_updates(entries[n].1@, n, e)[i - before.len()]);
            }
        }
    }
}

/// Curves that each hold a single keyframe write the same way at every
/// time: whatever the elapsed time and the repeat flag that led to `e1` and
/// `e2`, they make the same writes.
pub proof fn lemma_static_curves_write_alike<T>(
    cs: Seq<KeyframeVariableCurve<T>>,
    entry: int,
    e1: int,
    e2: int,
)
    requires
        forall|j: int| 0 <= j < cs.len() ==> (#[trigger] cs[j]).wf() && cs[j].keyframes@.len() == 1,
    ensures
        curve_updates(cs, entry, e1) == curve_updates(cs, entry, e2),
        forall|i: int|
            0 <= i < curve_updates(cs, entry, e1).len() ==> (#[trigger] curve_updates(
                cs,
                entry,
                e1,
            )[i]).state == CurveState::Static,
    decreases cs.len(),
{
    if cs.len() > 0 {
        let rest = cs.drop_last();
        assert forall|j: int| 0 <= j < rest.len() implies (#[trigger] rest[j]).wf()
            && rest[j].keyframes@.len() == 1 by {
            assert(rest[j] == cs[j]);
        }
        lemma_static_curves_write_alike(rest, entry, e1, e2);
        assert(cs.last() == cs[cs.len() - 1]);
    }
}

/// A clip whose curves each hold a single keyframe leaves the same live
/// value at every time: whatever the elapsed time and repeat flag that led
/// to `e1` and `e2`, a tick makes the same writes and so the same value.
pub proof fn lemma_static_clip_is_time_invariant<T: Lerp<T>>(
    entries: Seq<(KeyframeEntityPath, Vec<KeyframeVariableCurve<T>>)>,
    h: Hierarchy,
    root: int,
    e1: int,
    e2: int,
    live: T,
)
    requires
        forall|i: int, j: int|
            0 <= i < entries.len() && 0 <= j < entries[i].1@.len() ==> (#[trigger] entries[i].1@[j]).wf()
                && entries[i].1@[j].keyframes@.len() == 1,
    ensures
        clip_updates(entries, h, root, e1) == clip_updates(entries, h, root, e2),
        apply_writes(entries, clip_updates(entries, h, root, e1), live) == apply_writes(
            entries,
            clip_updates(entries, h, root, e2),
            live,
        ),
    decreases entries.len(),
{
    if entries.len() > 0 {
        let rest = entries.drop_last();
        let n = entries.len() - 1;
        assert forall|i: int, j: int|
            0 <= i < rest.len() && 0 <= j < rest[i].1@.len() implies (#[trigger] rest[i].1@[j]).wf()
                && rest[i].1@[j].keyframes@.len() == 1 by {
            assert(rest[i] == entries[i]);
        }
        lemma_static_clip_is_time_invariant(rest, h, root, e1, e2, live);
        let cs = entries[n].1@;
        assert forall|j: int| 0 <= j < cs.len() implies (#[trigger] cs[j]).wf() && cs[j].keyframes@.len()
            == 1 by {
            assert(entries[n].1@[j] == cs[j]);
        }
        lemma_static_curves_write_alike(cs, n, e1, e2);
    }
}

/// With repeat on, elapsed times one clip duration apart make the same
/// writes and leave the same live value.
pub proof fn lemma_repeat_gives_same_values<T: Lerp<T>>(
    entries: Seq<(KeyframeEntityPath, Vec<KeyframeVariableCurve<T>>)>,
    h: Hierarchy,
    root: int,
    elapsed: int,
    d: int,
    live: T,
)
    requires
        d > 0,
    ensures
        clip_updates(entries, h, root, effective_time(elapsed + d, d, true)) == clip_updates(
            entries,
            h,
            root,
            effective_time(elapsed, d, true),
        ),
        apply_writes(entries, clip_updates(entries, h, root, effective_time(elapsed + d, d, true)), live)
            == apply_writes(entries, clip_updates(entries, h, root, effective_time(elapsed, d, true)), live),
{
    lemma_repeat_wraps(elapsed, d);
}

/// The live value after the write `u`, made on `live` by a clip with
/// `entries`: an active curve interpolates between the keyframes at either
/// end of its interval; a curve with a single keyframe blends from the base
/// value toward it at progress zero.
pub open spec fn write_value<T: Lerp<T>>(
    entries: Seq<(KeyframeEntityPath, Vec<KeyframeVariableCurve<T>>)>,
    u: CurveUpdate,
    live: T,
) -> T {
    let c = entries[u.entry as int].1@[u.curve as int];
    match u.state {
        CurveState::Static => Keyframe(T::base_spec()).lerp_spec(
            c.keyframes@[0],
            Progress { num: 0, den: 1 },
            live,
            c.options,
        ).0,
        CurveState::Active { step, progress } => c.keyframes@[step as int].lerp_spec(
            c.keyframes@[step + 1],
            progress,
            live,
            c.options,
        ).0,
        _ => live,
    }
}

/// The live value after the writes `ws`, made in order, starting from `live`.
pub open spec fn apply_writes<T: Lerp<T>>(
    entries: Seq<(KeyframeEntityPath, Vec<KeyframeVariableCurve<T>>)>,
    ws: Seq<CurveUpdate>,
    live: T,
) -> T
    decreases ws.len(),
{
    if ws.len() == 0 {
        live
    } else {
        write_value(entries, ws.last(), apply_writes(entries, ws.drop_last(), live))
    }
}

/// One tick for one animated value: moves the player's time on by `delta`
/// microseconds, then, unless the player is paused and untouched since the
/// last tick, evaluates every curve whose path leads somewhere from `root`
/// and writes the result into `object`. Returns the writes, in the order
/// they were made.
pub fn keyframe_animation_player<T: Lerp<T>>(
    delta: u64,
    player: &mut KeyframeAnimationPlayer<T>,
    object: &mut T,
    hierarchy: &Hierarchy,
    root: usize,
) -> (r: Vec<CurveUpdate>)
    requires
        old(player).wf(),
    ensures
        final(player).wf(),
        final(player)@ == after_tick(old(player)@, delta as int),
        final(player).clip() == old(player).clip(),
        r@ == if evaluates(old(player)@) {
            clip_updates(
                old(player).clip().entries(),
                *hierarchy,
                root as int,
                effective_time(
                    final(player)@.elapsed,
                    old(player).clip().duration_spec(),
                    old(player)@.repeat,
                ),
            )
        } else {
            Seq::empty()
        },
        *final(object) == apply_writes(old(player).clip().entries(), r@, *old(object)),
        r@.len() == 0 ==> *final(object) == *old(object),
{
    let mut out: Vec<CurveUpdate> = Vec::new();
    if !player.advance(delta) {
        return out;
    }
    let e = player.effective_elapsed();
    let clip = player.animation_clip();
    let entries = clip.curves();
    let ghost es = entries@;
    let mut k: usize = 0;
    while k < entries.len()
        invariant
            0 <= k <= entries.len(),
            es == entries@,
            es == clip.entries(),
            clip.wf(),
            out@ == clip_updates(es.subrange(0, k as int), *hierarchy, root as int, e as int),
            *object == apply_writes(es, out@, *old(object)),
        decreases entries.len() - k,
    {
        let (path, curves) = &entries[k];
        let ghost head = es.subrange(0, k as int);
        assert(es.subrange(0, k + 1).drop_last() == head);
        assert(es.subrange(0, k + 1).last() == es[k as int]);
        if hierarchy.resolve(root, path).is_some() {
            let ghost cs = curves@;
            let mut j: usize = 0;
            assert(cs.subrange(0, 0) == Seq::<KeyframeVariableCurve<T>>::empty());
            assert(clip_updates(head, *hierarchy, root as int, e as int) + Seq::<CurveUpdate>::empty()
                == clip_updates(head, *hierarchy, root as int, e as int));
            while j < curves.len()
                invariant
                    0 <= j <= curves.len(),
                    0 <= k < es.len(),
                    cs == curves@,
                    cs == es[k as int].1@,
                    es == clip.entries(),
                    clip.wf(),
                    out@ == clip_updates(head, *hierarchy, root as int, e as int) + curve_updates(
                        cs.subrange(0, j as int),
                        k as int,
                        e as int,
                    ),
                    *object == apply_writes(es, out@, *old(object)),
                decreases curves.len() - j,
            {
                let curve = &curves[j];
                assert(curve.wf());
                assert(cs.subrange(0, j + 1).drop_last() == cs.subrange(0, j as int));
                assert(cs.subrange(0, j + 1).last() == cs[j as int]);
                let st = curve.sample(e);
                let ghost before = out@;
                match st {
                    CurveState::Static => {
                        let base = Keyframe(T::base());
                        *object = base.lerp(&curve.keyframes[0], Progress::zero(), &*object, &curve.options).0;
                        out.push(CurveUpdate { entry: k, curve: j, state: st });
                        assert(out@.drop_last() == before);
                    },
                    CurveState::Active { step, progress } => {
                        assert(interval_holds(curve.keyframe_timestamps@, step as int, e as int));
                        assert(curve.keyframe_timestamps@.len() == curve.keyframes@.len());
                        assert(step + 1 < curve.keyframes.len());
                        *object = curve.keyframes[step].lerp(
                            &curve.keyframes[step + 1],
                            progress,
                            &*object,
                            &curve.options,
                        ).0;
                        out.push(CurveUpdate { entry: k, curve: j, state: st });
                        assert(out@.drop_last() == before);
                    },
                    _ => {},
                }
                j += 1;
            }
            assert(cs.subrange(0, j as int) == cs);
        }
        k += 1;
    }
    assert(es.subrange(0, k as int) == es);
    out
}

} // verus!
