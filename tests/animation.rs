use keyframe_animate::{
    field_selected, keyframe_animation_player, select_field, CurveError, CurveState, Hierarchy,
    HierarchyNode, Keyframe, KeyframeAnimationClip, KeyframeAnimationPlayer, KeyframeEntityPath,
    KeyframeVariableCurve, Lerp, Progress,
};

const SECOND: i64 = 1_000_000;

#[derive(Clone, Copy, Debug, Default, PartialEq)]
struct Pos {
    x: i64,
    y: i64,
}

fn blend(a: i64, b: i64, p: Progress) -> i64 {
    a + (b - a) * p.num as i64 / p.den as i64
}

impl Lerp<Pos> for Pos {
    fn lerp_spec(self, other: Self, p: Progress, target: Pos, options: Option<Vec<String>>) -> Self {
        self.lerp(&other, p, &target, &options)
    }

    fn base_spec() -> Self {
        Pos::default()
    }

    fn base() -> Self {
        Pos::default()
    }

    fn lerp(&self, other: &Self, p: Progress, target: &Pos, options: &Option<Vec<String>>) -> Self {
        Pos {
            x: select_field(options, "x", blend(self.x, other.x, p), target.x),
            y: select_field(options, "y", blend(self.y, other.y, p), target.y),
        }
    }
}

/// A sprite-sheet frame index: a discrete value, replaced outright by the
/// second keyframe.
#[derive(Clone, Copy, Debug, Default, PartialEq)]
struct Frame(u32);

impl Lerp<Frame> for Frame {
    fn lerp_spec(self, other: Self, p: Progress, target: Frame, options: Option<Vec<String>>) -> Self {
        self.lerp(&other, p, &target, &options)
    }

    fn base_spec() -> Self {
        Frame::default()
    }

    fn base() -> Self {
        Frame::default()
    }

    fn lerp(&self, other: &Self, _: Progress, target: &Frame, options: &Option<Vec<String>>) -> Self {
        Frame(select_field(options, "index", other.0, target.0))
    }
}

fn kf(x: i64, y: i64) -> Keyframe<Pos> {
    Keyframe(Pos { x, y })
}

fn path(parts: &[&str]) -> KeyframeEntityPath {
    KeyframeEntityPath { parts: parts.iter().map(|s| s.to_string()).collect() }
}

fn root_only() -> Hierarchy {
    Hierarchy { nodes: vec![HierarchyNode { name: Some("root".to_string()), children: vec![] }] }
}

fn two_key_curve(options: Option<Vec<String>>) -> KeyframeVariableCurve<Pos> {
    KeyframeVariableCurve::new(vec![0, SECOND], vec![kf(0, 0), kf(100, 200)], options).unwrap()
}

fn player_with(curve: KeyframeVariableCurve<Pos>) -> KeyframeAnimationPlayer<Pos> {
    let mut clip = KeyframeAnimationClip::new();
    clip.add_curve_to_path(path(&["root"]), curve);
    KeyframeAnimationPlayer::new(clip)
}

fn eval_at(player: &mut KeyframeAnimationPlayer<Pos>, t: i64, live: Pos) -> (Pos, usize) {
    player.set_elapsed(t);
    let mut obj = live;
    let writes = keyframe_animation_player(0, player, &mut obj, &root_only(), 0);
    (obj, writes.len())
}

#[test]
fn curve_new_rejects_bad_input() {
    let r = KeyframeVariableCurve::new(vec![0, 1], vec![kf(0, 0)], None);
    assert_eq!(r.err(), Some(CurveError::LengthMismatch));
    let r: Result<KeyframeVariableCurve<Pos>, _> = KeyframeVariableCurve::new(vec![], vec![], None);
    assert_eq!(r.err(), Some(CurveError::Empty));
    let r = KeyframeVariableCurve::new(vec![0, 5, 3], vec![kf(0, 0), kf(1, 1), kf(2, 2)], None);
    assert_eq!(r.err(), Some(CurveError::Unordered));
    let r = KeyframeVariableCurve::new(vec![0, 5, 5], vec![kf(0, 0), kf(1, 1), kf(2, 2)], None);
    assert!(r.is_ok());
}

#[test]
fn duration_grows_to_latest_curve_end() {
    let mut clip: KeyframeAnimationClip<Pos> = KeyframeAnimationClip::new();
    assert_eq!(clip.duration(), 0);
    let c1 = KeyframeVariableCurve::new(vec![0, 2 * SECOND], vec![kf(0, 0), kf(1, 1)], None).unwrap();
    clip.add_curve_to_path(path(&["root"]), c1);
    assert_eq!(clip.duration(), 2 * SECOND);
    let c2 = KeyframeVariableCurve::new(vec![0, SECOND], vec![kf(0, 0), kf(1, 1)], None).unwrap();
    clip.add_curve_to_path(path(&["root"]), c2);
    assert_eq!(clip.duration(), 2 * SECOND);
    let c3 = KeyframeVariableCurve::new(vec![SECOND, 3 * SECOND], vec![kf(0, 0), kf(1, 1)], None).unwrap();
    clip.add_curve_to_path(path(&["root", "arm"]), c3);
    assert_eq!(clip.duration(), 3 * SECOND);
    assert_eq!(clip.curves().len(), 2);
    assert_eq!(clip.curves()[0].1.len(), 2);
    assert_eq!(clip.curves()[1].1.len(), 1);
}

#[test]
fn sample_at_interval_boundaries() {
    let c = two_key_curve(None);
    assert_eq!(c.sample(0), CurveState::Active { step: 0, progress: Progress { num: 0, den: SECOND as u64 } });
    assert_eq!(c.sample(SECOND), CurveState::Finished);
    assert_eq!(
        c.sample(SECOND / 2),
        CurveState::Active { step: 0, progress: Progress { num: 500_000, den: 1_000_000 } }
    );
    assert_eq!(c.sample(-1), CurveState::NotStarted);
}

#[test]
fn sample_skips_repeated_timestamps() {
    let c = KeyframeVariableCurve::new(
        vec![0, SECOND, SECOND, 2 * SECOND],
        vec![kf(0, 0), kf(1, 1), kf(5, 5), kf(9, 9)],
        None,
    )
    .unwrap();
    assert_eq!(
        c.sample(SECOND),
        CurveState::Active { step: 2, progress: Progress { num: 0, den: 1_000_000 } }
    );
    assert_eq!(
        c.sample(SECOND - 1),
        CurveState::Active { step: 0, progress: Progress { num: 999_999, den: 1_000_000 } }
    );
}

#[test]
fn boundary_progress_through_a_tick() {
    let mut p = player_with(two_key_curve(None));
    let live = Pos { x: 7, y: 7 };
    assert_eq!(eval_at(&mut p, 0, live), (Pos { x: 0, y: 0 }, 1));
    assert_eq!(eval_at(&mut p, SECOND, live), (live, 0));
    assert_eq!(eval_at(&mut p, SECOND / 2, live), (Pos { x: 50, y: 100 }, 1));
}

#[test]
fn static_curve_ignores_time_and_repeat() {
    let c = KeyframeVariableCurve::new(vec![SECOND], vec![Keyframe(Frame(4))], None).unwrap();
    for t in [-5 * SECOND, 0, SECOND, 10 * SECOND] {
        assert_eq!(c.sample(t), CurveState::Static);
    }
    let mut clip = KeyframeAnimationClip::new();
    clip.add_curve_to_path(path(&["root"]), c);
    let mut p = KeyframeAnimationPlayer::new(clip);
    let mut seen = vec![];
    for (t, repeat) in [(0, false), (7 * SECOND, false), (123_456, true), (-SECOND, true)] {
        if repeat {
            p.repeat();
        } else {
            p.stop_repeating();
        }
        p.set_elapsed(t);
        let mut obj = Frame(9);
        let writes = keyframe_animation_player(0, &mut p, &mut obj, &root_only(), 0);
        assert_eq!(writes.len(), 1);
        assert_eq!(writes[0].state, CurveState::Static);
        seen.push(obj);
    }
    assert_eq!(seen, vec![Frame(4); 4]);
}

#[test]
fn static_curve_blends_from_default_at_progress_zero() {
    let c = KeyframeVariableCurve::new(vec![0], vec![kf(3, 4)], None).unwrap();
    let mut p = player_with(c);
    let (v, n) = eval_at(&mut p, 5 * SECOND, Pos { x: 9, y: 9 });
    assert_eq!(n, 1);
    assert_eq!(v, Pos::default());
    let only_x = KeyframeVariableCurve::new(vec![0], vec![kf(3, 4)], Some(vec!["x".to_string()])).unwrap();
    let mut p = player_with(only_x);
    let (v, _) = eval_at(&mut p, 0, Pos { x: 9, y: 9 });
    assert_eq!(v, Pos { x: 0, y: 9 });
}

#[test]
fn repeat_wraps_elapsed_time() {
    let c = KeyframeVariableCurve::new(vec![0, 2 * SECOND], vec![kf(0, 0), kf(200, 400)], None).unwrap();
    let mut p = player_with(c);
    p.repeat();
    p.set_elapsed(2 * SECOND + SECOND / 2);
    assert_eq!(p.effective_elapsed(), SECOND / 2);
    let live = Pos::default();
    let (late, _) = eval_at(&mut p, 2 * SECOND + SECOND / 2, live);
    let (early, _) = eval_at(&mut p, SECOND / 2, live);
    assert_eq!(late, early);
    assert_eq!(late, Pos { x: 50, y: 100 });
    p.set_elapsed(-SECOND / 2);
    assert_eq!(p.effective_elapsed(), 3 * SECOND / 2);
}

#[test]
fn negative_time_without_repeat_moves_up_one_duration() {
    let mut p = player_with(two_key_curve(None));
    p.set_elapsed(-SECOND / 4);
    assert_eq!(p.effective_elapsed(), 3 * SECOND / 4);
    p.set_elapsed(-3 * SECOND);
    assert_eq!(p.effective_elapsed(), -2 * SECOND);
}

#[test]
fn options_restrict_the_written_fields() {
    let mut p = player_with(two_key_curve(Some(vec!["x".to_string(), "unknown".to_string()])));
    let live = Pos { x: -1, y: -2 };
    let (v, n) = eval_at(&mut p, SECOND / 2, live);
    assert_eq!(n, 1);
    assert_eq!(v, Pos { x: 50, y: -2 });
}

#[test]
fn field_selection_by_options() {
    assert!(field_selected(&None, "translation"));
    let only = Some(vec!["translation".to_string()]);
    assert!(field_selected(&only, "translation"));
    assert!(!field_selected(&only, "rotation"));
    assert!(!field_selected(&only, "scale"));
    assert_eq!(select_field(&only, "rotation", 1, 2), 2);
    assert_eq!(select_field(&only, "translation", 1, 2), 1);
    assert!(!field_selected(&Some(vec![]), "translation"));
}

#[test]
fn unresolved_path_is_skipped_and_retried() {
    let mut clip = KeyframeAnimationClip::new();
    clip.add_curve_to_path(path(&["root", "arm", "hand"]), two_key_curve(None));
    let mut p = KeyframeAnimationPlayer::new(clip);
    p.set_elapsed(SECOND / 2);
    let mut h = Hierarchy {
        nodes: vec![
            HierarchyNode { name: Some("root".to_string()), children: vec![1, 7] },
            HierarchyNode { name: Some("arm".to_string()), children: vec![] },
            HierarchyNode { name: Some("hand".to_string()), children: vec![] },
        ],
    };
    let live = Pos { x: 1, y: 1 };
    let mut obj = live;
    let writes = keyframe_animation_player(0, &mut p, &mut obj, &h, 0);
    assert!(writes.is_empty());
    assert_eq!(obj, live);
    h.nodes[1].children.push(2);
    let writes = keyframe_animation_player(0, &mut p, &mut obj, &h, 0);
    assert_eq!(writes.len(), 1);
    assert_eq!(writes[0].entry, 0);
    assert_eq!(writes[0].curve, 0);
    assert_eq!(obj, Pos { x: 50, y: 100 });
}

#[test]
fn resolve_walks_first_matching_child() {
    let h = Hierarchy {
        nodes: vec![
            HierarchyNode { name: Some("root".to_string()), children: vec![9, 3, 1, 2] },
            HierarchyNode { name: Some("a".to_string()), children: vec![] },
            HierarchyNode { name: Some("a".to_string()), children: vec![4] },
            HierarchyNode { name: None, children: vec![] },
            HierarchyNode { name: Some("b".to_string()), children: vec![] },
        ],
    };
    assert_eq!(h.resolve(0, &path(&["root", "a"])), Some(1));
    assert_eq!(h.resolve(0, &path(&["root", "a", "b"])), None);
    assert_eq!(h.resolve(2, &path(&["x", "b"])), Some(4));
    assert_eq!(h.resolve(0, &path(&["anything"])), Some(0));
    assert_eq!(h.resolve(0, &path(&[])), Some(0));
    assert_eq!(h.resolve(0, &path(&["root", "c"])), None);
}

#[test]
fn pause_freezes_time_and_value() {
    let mut p = player_with(two_key_curve(None));
    let mut obj = Pos::default();
    keyframe_animation_player((SECOND / 4) as u64, &mut p, &mut obj, &root_only(), 0);
    assert_eq!(p.elapsed(), SECOND / 4);
    p.pause();
    assert!(p.is_paused());
    // the tick right after the pause call still evaluates, without moving time
    let writes = keyframe_animation_player((SECOND / 4) as u64, &mut p, &mut obj, &root_only(), 0);
    assert_eq!(writes.len(), 1);
    assert_eq!(p.elapsed(), SECOND / 4);
    assert_eq!(obj, Pos { x: 25, y: 50 });
    let mut moved = Pos { x: 1000, y: 1000 };
    for _ in 0..3 {
        let writes = keyframe_animation_player((SECOND / 4) as u64, &mut p, &mut moved, &root_only(), 0);
        assert!(writes.is_empty());
        assert_eq!(p.elapsed(), SECOND / 4);
        assert_eq!(moved, Pos { x: 1000, y: 1000 });
    }
    p.resume();
    keyframe_animation_player((SECOND / 4) as u64, &mut p, &mut obj, &root_only(), 0);
    assert_eq!(p.elapsed(), SECOND / 2);
    assert_eq!(obj, Pos { x: 50, y: 100 });
}

#[test]
fn seek_while_paused_is_evaluated_next_tick() {
    let mut p = player_with(two_key_curve(None));
    let mut obj = Pos::default();
    p.pause();
    keyframe_animation_player(0, &mut p, &mut obj, &root_only(), 0);
    p.set_elapsed(3 * SECOND / 4);
    let writes = keyframe_animation_player(SECOND as u64, &mut p, &mut obj, &root_only(), 0);
    assert_eq!(writes.len(), 1);
    assert!(p.is_paused());
    assert_eq!(p.elapsed(), 3 * SECOND / 4);
    assert_eq!(obj, Pos { x: 75, y: 150 });
}

#[test]
fn speed_scales_and_reverses_time() {
    let mut p = player_with(two_key_curve(None));
    assert_eq!(p.speed(), 1000);
    let mut obj = Pos::default();
    p.set_speed(500);
    keyframe_animation_player(16_667, &mut p, &mut obj, &root_only(), 0);
    assert_eq!(p.elapsed(), 8_333);
    p.set_speed(-2000);
    keyframe_animation_player(10_000, &mut p, &mut obj, &root_only(), 0);
    assert_eq!(p.elapsed(), 8_333 - 20_000);
    p.set_speed(-1);
    p.set_elapsed(0);
    keyframe_animation_player(999, &mut p, &mut obj, &root_only(), 0);
    assert_eq!(p.elapsed(), 0);
    p.set_speed(i64::MAX);
    p.set_elapsed(i64::MAX - 5);
    keyframe_animation_player(u64::MAX, &mut p, &mut obj, &root_only(), 0);
    assert_eq!(p.elapsed(), i64::MAX);
}

#[test]
fn play_resets_the_player() {
    let mut p = player_with(two_key_curve(None));
    p.repeat().set_speed(3000).set_elapsed(77);
    p.pause();
    let mut clip = KeyframeAnimationClip::new();
    clip.add_curve_to_path(path(&["root"]), two_key_curve(None));
    p.play(clip);
    assert!(!p.is_paused());
    assert_eq!(p.speed(), 1000);
    assert_eq!(p.elapsed(), 0);
    assert_eq!(p.animation_clip().duration(), SECOND);
    p.repeat().stop_repeating();
    p.set_elapsed(SECOND + 1);
    assert_eq!(p.effective_elapsed(), SECOND + 1);
}

#[test]
fn later_curves_under_one_path_win() {
    let mut clip = KeyframeAnimationClip::new();
    clip.add_curve_to_path(path(&["root"]), two_key_curve(None));
    let c2 = KeyframeVariableCurve::new(vec![0, SECOND], vec![kf(0, 0), kf(0, 1000)], Some(vec!["y".to_string()])).unwrap();
    clip.add_curve_to_path(path(&["root"]), c2);
    let mut p = KeyframeAnimationPlayer::new(clip);
    let (v, n) = eval_at(&mut p, SECOND / 2, Pos::default());
    assert_eq!(n, 2);
    assert_eq!(v, Pos { x: 50, y: 500 });
}

#[test]
fn path_equality_is_by_parts() {
    assert!(path(&["a", "b"]) == path(&["a", "b"]));
    assert!(path(&["a", "b"]) != path(&["a"]));
    assert!(path(&["a", "b"]).same_as(&path(&["a", "b"])));
    assert!(!path(&["a", "c"]).same_as(&path(&["a", "b"])));
}

#[test]
fn from_values_wraps_each_value_in_order() {
    let c = KeyframeVariableCurve::from_values(
        vec![0, SECOND, 2 * SECOND],
        vec![Pos { x: 1, y: 2 }, Pos { x: 3, y: 4 }, Pos { x: 5, y: 6 }],
        None,
    )
    .unwrap();
    let got: Vec<Pos> = c.keyframes.iter().map(|k| k.0).collect();
    assert_eq!(got, vec![Pos { x: 1, y: 2 }, Pos { x: 3, y: 4 }, Pos { x: 5, y: 6 }]);
    assert_eq!(c.keyframe_timestamps, vec![0, SECOND, 2 * SECOND]);
    let bad = KeyframeVariableCurve::from_values(vec![0], vec![Pos::default(), Pos::default()], None);
    assert_eq!(bad.err(), Some(CurveError::LengthMismatch));
}

#[test]
fn keyframe_lerp_forwards_to_the_inner_value() {
    let a = Keyframe(Pos { x: 0, y: 10 });
    let b = Keyframe(Pos { x: 100, y: 30 });
    let live = Pos { x: 5, y: 5 };
    let half = Progress { num: 1, den: 2 };
    let only_y = Some(vec!["y".to_string()]);
    assert_eq!(a.lerp(&b, half, &live, &None).0, a.0.lerp(&b.0, half, &live, &None));
    assert_eq!(a.lerp(&b, half, &live, &None).0, Pos { x: 50, y: 20 });
    assert_eq!(a.lerp(&b, half, &live, &only_y).0, Pos { x: 5, y: 20 });
    assert_eq!(<Keyframe<Pos> as Lerp<Pos>>::base().0, Pos::default());
}
