use vstd::prelude::*;

use crate::curve::KeyframeVariableCurve;

verus! {

/// Path to an entity, as the names met on the way down from the animation
/// root. The first name is the root's own.
#[derive(Clone, Debug, Hash, Default)]
pub struct KeyframeEntityPath {
    /// Parts of the path
    pub parts: Vec<String>,
}

impl View for KeyframeEntityPath {
    type V = Seq<Seq<char>>;

    open spec fn view(&self) -> Seq<Seq<char>> {
        self.parts@.map_values(|s: String| s@)
    }
}

impl KeyframeEntityPath {
    /// Whether two paths name the same entities, part by part.
    pub fn same_as(&self, other: &KeyframeEntityPath) -> (r: bool)
        ensures
            r == (self@ == other@),
    {
        if self.parts.len() != other.parts.len() {
            assert(self@.len() != other@.len());
            return false;
        }
        let mut i: usize = 0;
        while i < self.parts.len()
            invariant
                0 <= i <= self.parts.len(),
                self.parts.len() == other.parts.len(),
                forall|j: int| 0 <= j < i ==> self.parts@[j]@ == other.parts@[j]@,
            decreases self.parts.len() - i,
        {
            if self.parts[i] != other.parts[i] {
                assert(self@[i as int] != other@[i as int]);
                return false;
            }
            i += 1;
        }
        assert(self@ =~= other@);
        true
    }
}

impl PartialEq for KeyframeEntityPath {
    fn eq(&self, other: &KeyframeEntityPath) -> (r: bool) {
        self.same_as(other)
    }
}

impl vstd::std_specs::cmp::PartialEqSpecImpl for KeyframeEntityPath {
    open spec fn obeys_eq_spec() -> bool {
        true
    }

    open spec fn eq_spec(&self, other: &KeyframeEntityPath) -> bool {
        self@ == other@
    }
}

impl Eq for KeyframeEntityPath {
}

/// The largest last timestamp among `cs`, and zero.
pub open spec fn curves_max<T>(cs: Seq<KeyframeVariableCurve<T>>) -> int
    decreases cs.len(),
{
    if cs.len() == 0 {
        0
    } else {
        let rest = curves_max(cs.drop_last());
        let l = cs.last().last_timestamp();
        if rest >= l {
            rest
        } else {
            l
        }
    }
}

/// The largest last timestamp among the curves of all `entries`, and zero.
pub open spec fn entries_max<T>(
    entries: Seq<(KeyframeEntityPath, Vec<KeyframeVariableCurve<T>>)>,
) -> int
    decreases entries.len(),
{
    if entries.len() == 0 {
        0
    } else {
        let rest = entries_max(entries.drop_last());
        let l = curves_max(entries.last().1@);
        if rest >= l {
            rest
        } else {
            l
        }
    }
}

/// The larger of two integers.
pub open spec fn max_of(a: int, b: int) -> int {
    if a >= b {
        a
    } else {
        b
    }
}

/// Whether some entry of `entries` is for `path`.
pub open spec fn has_path<T>(
    entries: Seq<(KeyframeEntityPath, Vec<KeyframeVariableCurve<T>>)>,
    path: Seq<Seq<char>>,
) -> bool {
    exists|k: int| 0 <= k < entries.len() && #[trigger] entries[k].0@ == path
}

/// Whether `after` is `before` with `curve` added under `path`: at the end
/// of that path's list when the path has an entry, else in a new entry at
/// the end.
pub open spec fn curve_added<T>(
    before: Seq<(KeyframeEntityPath, Vec<KeyframeVariableCurve<T>>)>,
    after: Seq<(KeyframeEntityPath, Vec<KeyframeVariableCurve<T>>)>,
    path: KeyframeEntityPath,
    curve: KeyframeVariableCurve<T>,
) -> bool {
    if has_path(before, path@) {
        let k = choose|k: int| 0 <= k < before.len() && #[trigger] before[k].0@ == path@;
        &&& after.len() == before.len()
        &&& forall|i: int| 0 <= i < before.len() && i != k ==> after[i] == before[i]
        &&& after[k].0 == before[k].0
        &&& after[k].1@ == before[k].1@.push(curve)
    } else {
        &&& after.len() == before.len() + 1
        &&& after.drop_last() == before
        &&& after.last().0 == path
        &&& after.last().1@ == seq![curve]
    }
}

/// Replacing the curves of one entry by a list whose largest last timestamp
/// is the old one's or `l` moves the overall maximum the same way.
proof fn lemma_entries_max_update<T>(
    es: Seq<(KeyframeEntityPath, Vec<KeyframeVariableCurve<T>>)>,
    k: int,
    e: (KeyframeEntityPath, Vec<KeyframeVariableCurve<T>>),
    l: int,
)
    requires
        0 <= k < es.len(),
        curves_max(e.1@) == max_of(curves_max(es[k].1@), l),
    ensures
        entries_max(es.update(k, e)) == max_of(entries_max(es), l),
    decreases es.len(),
{
    let es2 = es.update(k, e);
    if k < es.len() - 1 {
        assert(es2.drop_last() == es.drop_last().update(k, e));
        lemma_entries_max_update(es.drop_last(), k, e, l);
    } else {
        assert(es2.drop_last() == es.drop_last());
    }
}

proof fn lemma_entries_max_nonneg<T>(es: Seq<(KeyframeEntityPath, Vec<KeyframeVariableCurve<T>>)>)
    ensures
        entries_max(es) >= 0,
    decreases es.len(),
{
    if es.len() > 0 {
        lemma_entries_max_nonneg(es.drop_last());
    }
}

proof fn lemma_curves_max_bounds<T>(cs: Seq<KeyframeVariableCurve<T>>)
    ensures
        curves_max(cs) >= 0,
        forall|j: int| 0 <= j < cs.len() ==> (#[trigger] cs[j]).last_timestamp() <= curves_max(cs),
        curves_max(cs) == 0 || exists|j: int|
            0 <= j < cs.len() && (#[trigger] cs[j]).last_timestamp() == curves_max(cs),
    decreases cs.len(),
{
    if cs.len() > 0 {
        let rest = cs.drop_last();
        lemma_curves_max_bounds(rest);
        assert forall|j: int| 0 <= j < cs.len() implies (#[trigger] cs[j]).last_timestamp()
            <= curves_max(cs) by {
            if j < cs.len() - 1 {
                assert(rest[j] == cs[j]);
            }
        }
        if curves_max(cs) != 0 && curves_max(cs) != curves_max(rest) {
            assert(cs[cs.len() - 1].last_timestamp() == curves_max(cs));
        }
    }
}

proof fn lemma_entries_max_bounds<T>(es: Seq<(KeyframeEntityPath, Vec<KeyframeVariableCurve<T>>)>)
    ensures
        entries_max(es) >= 0,
        forall|i: int, j: int|
            0 <= i < es.len() && 0 <= j < es[i].1@.len() ==> (#[trigger] es[i].1@[j]).last_timestamp()
                <= entries_max(es),
        entries_max(es) == 0 || exists|i: int, j: int|
            0 <= i < es.len() && 0 <= j < es[i].1@.len() && (#[trigger] es[i].1@[j]).last_timestamp()
                == entries_max(es),
    decreases es.len(),
{
    if es.len() > 0 {
        let rest = es.drop_last();
        let n = es.len() - 1;
        lemma_entries_max_bounds(rest);
        lemma_curves_max_bounds(es[n].1@);
        assert forall|i: int| 0 <= i < rest.len() implies #[trigger] rest[i] == es[i] by {}
        assert forall|i: int, j: int|
            0 <= i < es.len() && 0 <= j < es[i].1@.len() implies (#[trigger] es[i].1@[j]).last_timestamp()
                <= entries_max(es) by {
            if i < n {
                assert(rest[i] == es[i]);
            }
        }
        if entries_max(es) != 0 {
            if entries_max(es) == entries_max(rest) {
                let (i, j) = choose|i: int, j: int|
                    0 <= i < rest.len() && 0 <= j < rest[i].1@.len() && (#[trigger] rest[i].1@[j]).last_timestamp()
                        == entries_max(rest);
                assert(rest[i] == es[i]);
                assert(es[i].1@[j].last_timestamp() == entries_max(es));
            } else {
                let j = choose|j: int|
                    0 <= j < es[n].1@.len() && (#[trigger] es[n].1@[j]).last_timestamp() == curves_max(es[n].1@);
                assert(es[n].1@[j].last_timestamp() == entries_max(es));
            }
        }
    }
}

/// Where the entry of each path stands in a clip, found by hashing the path.
#[verifier::external_body]
pub struct PathIndex {
    map: bevy::utils::HashMap<KeyframeEntityPath, usize>,
}

/// The position recorded for each path.
pub uninterp spec fn path_positions(index: PathIndex) -> Map<Seq<Seq<char>>, usize>;

impl PathIndex {
    /// Relies on `hashbrown::HashMap::default`: a new map holds no key.
    #[verifier::external_body]
    fn new() -> (r: PathIndex)
        ensures
            forall|p: Seq<Seq<char>>| !path_positions(r).contains_key(p),
    {
        PathIndex { map: bevy::utils::HashMap::default() }
    }

    /// Relies on `hashbrown::HashMap::get`: the value stored under the key
    /// equal to `path`, if there is one. Paths are equal when their parts
    /// are, and hash alike then.
    #[verifier::external_body]
    fn get(&self, path: &KeyframeEntityPath) -> (r: Option<usize>)
        ensures
            match r {
                Some(i) => path_positions(*self).contains_key(path@) && path_positions(*self)[path@]
                    == i,
                None => !path_positions(*self).contains_key(path@),
            },
    {
        self.map.get(path).copied()
    }

    /// Relies on `hashbrown::HashMap::insert`: afterwards `path` maps to
    /// `position`, and every other key to what it mapped to before.
    #[verifier::external_body]
    fn insert(&mut self, path: &KeyframeEntityPath, position: usize)
        ensures
            path_positions(*final(self)) == path_positions(*old(self)).insert(path@, position),
    {
        self.map.insert(path.clone(), position);
    }
}

/// An animation: the curves of each entity path, in the order they were
/// added, and the clip's duration in microseconds.
pub struct KeyframeAnimationClip<T> {
    curves: Vec<(KeyframeEntityPath, Vec<KeyframeVariableCurve<T>>)>,
    index: PathIndex,
    duration: i64,
}

impl<T> KeyframeAnimationClip<T> {
    /// Each path with its curves, one entry per path.
    pub closed spec fn entries(&self) -> Seq<(KeyframeEntityPath, Vec<KeyframeVariableCurve<T>>)> {
        self.curves@
    }

    /// The position of each path's entry.
    pub closed spec fn positions(&self) -> Map<Seq<Seq<char>>, usize> {
        path_positions(self.index)
    }

    /// The duration, in microseconds.
    pub closed spec fn duration_spec(&self) -> int {
        self.duration as int
    }

    /// Paths are distinct, every curve is well formed, and the duration is
    /// the largest last timestamp of all curves (zero for an empty clip).
    pub open spec fn wf(&self) -> bool {
        &&& forall|i: int, j: int|
            0 <= i < j < self.entries().len() ==> self.entries()[i].0@ != self.entries()[j].0@
        &&& forall|i: int, j: int|
            0 <= i < self.entries().len() && 0 <= j < self.entries()[i].1@.len()
                ==> (#[trigger] self.entries()[i].1@[j]).wf()
        &&& self.duration_spec() == entries_max(self.entries())
        &&& forall|k: int|
            0 <= k < self.entries().len() ==> self.positions().contains_key(
                (#[trigger] self.entries()[k]).0@,
            ) && self.positions()[self.entries()[k].0@] == k
        &&& forall|p: Seq<Seq<char>>| #[trigger]
            self.positions().contains_key(p) ==> self.positions()[p] < self.entries().len()
                && self.entries()[self.positions()[p] as int].0@ == p
    }

    /// The duration of a clip is the largest last timestamp among its
    /// curves, or zero when there is no curve with a later one: no curve ends
    /// after it, and unless it is zero some curve ends exactly at it.
    pub proof fn lemma_duration_is_latest_end(&self)
        requires
            self.wf(),
        ensures
            self.duration_spec() >= 0,
            forall|i: int, j: int|
                0 <= i < self.entries().len() && 0 <= j < self.entries()[i].1@.len()
                    ==> (#[trigger] self.entries()[i].1@[j]).last_timestamp() <= self.duration_spec(),
            self.duration_spec() == 0 || exists|i: int, j: int|
                0 <= i < self.entries().len() && 0 <= j < self.entries()[i].1@.len()
                    && (#[trigger] self.entries()[i].1@[j]).last_timestamp() == self.duration_spec(),
    {
        lemma_entries_max_bounds(self.entries());
    }

    /// A clip without curves.
    pub fn new() -> (r: Self)
        ensures
            r.wf(),
            r.entries().len() == 0,
            r.duration_spec() == 0,
    {
        KeyframeAnimationClip { curves: Vec::new(), index: PathIndex::new(), duration: 0 }
    }

    /// Where the entry for `path` stands, if there is one.
    fn find_path(&self, path: &KeyframeEntityPath) -> (r: Option<usize>)
        requires
            self.wf(),
        ensures
            match r {
                Some(k) => k < self.entries().len() && self.entries()[k as int].0@ == path@,
                None => !has_path(self.entries(), path@),
            },
    {
        let r = self.index.get(path);
        proof {
            if r is None {
                assert forall|k: int| 0 <= k < self.entries().len() implies #[trigger] self.entries()[k].0@
                    != path@ by {
                    assert(self.positions().contains_key(self.entries()[k].0@));
                }
            }
        }
        r
    }

    /// Adds a curve under a path, after the curves already there, and
    /// stretches the duration to the curve's last timestamp if that is later.
    pub fn add_curve_to_path(&mut self, path: KeyframeEntityPath, curve: KeyframeVariableCurve<T>)
        requires
            old(self).wf(),
            curve.wf(),
        ensures
            final(self).wf(),
            final(self).duration_spec() >= old(self).duration_spec(),
            final(self).duration_spec() == max_of(
                old(self).duration_spec(),
                curve.last_timestamp(),
            ),
            curve_added(old(self).entries(), final(self).entries(), path, curve),
    {
        let found = self.find_path(&path);
        let n = curve.keyframe_timestamps.len();
        let last: i64 = if n == 0 {
            0
        } else {
            curve.keyframe_timestamps[n - 1]
        };
        if last > self.duration {
            self.duration = last;
        }
        let ghost before = self.curves@;
        let ghost l = curve.last_timestamp();
        match found {
            Some(k) => {
                let mut entry = self.curves.remove(k);
                let ghost old_entry = entry;
                entry.1.push(curve);
                self.curves.insert(k, entry);
                proof {
                    assert(entry.1@.drop_last() == old_entry.1@);
                    assert(self.curves@ == before.update(k as int, entry));
                    lemma_entries_max_update(before, k as int, entry, l);
                    assert(has_path(before, path@));
                    let c = choose|c: int| 0 <= c < before.len() && #[trigger] before[c].0@ == path@;
                    assert(c == k);
                    assert forall|i: int, j: int|
                        0 <= i < self.entries().len() && 0 <= j < self.entries()[i].1@.len()
                            implies (#[trigger] self.entries()[i].1@[j]).wf() by {
                        if i == k && j == old_entry.1@.len() {
                        } else if i == k {
                            assert(self.entries()[i].1@[j] == before[i].1@[j]);
                        } else {
                            assert(self.entries()[i] == before[i]);
                        }
                    }
                    assert(self.duration_spec() == entries_max(self.entries()));
                    assert(self.wf());
                }
            },
            None => {
                let mut list = Vec::new();
                list.push(curve);
                let position = self.curves.len();
                self.index.insert(&path, position);
                self.curves.push((path, list));
                proof {
                    assert(self.curves@.drop_last() == before);
                    assert(list@ == seq![curve]);
                    lemma_entries_max_nonneg(before);
                    assert(curves_max(Seq::<KeyframeVariableCurve<T>>::empty()) == 0);
                    assert(list@.drop_last() =~= Seq::<KeyframeVariableCurve<T>>::empty());
                    assert(list@.last() == curve);
                    assert(curves_max(list@) == max_of(0, l));
                    assert(entries_max(self.entries()) == max_of(
                        entries_max(before),
                        curves_max(list@),
                    ));
                    assert(self.entries().last() == (path, list));
                    assert forall|i: int, j: int|
                        0 <= i < j < self.entries().len() implies self.entries()[i].0@
                            != self.entries()[j].0@ by {
                        if j == before.len() {
                            assert(self.entries()[i] == before[i]);
                        } else {
                            assert(self.entries()[i] == before[i]);
                            assert(self.entries()[j] == before[j]);
                        }
                    }
                    assert forall|i: int, j: int|
                        0 <= i < self.entries().len() && 0 <= j < self.entries()[i].1@.len()
                            implies (#[trigger] self.entries()[i].1@[j]).wf() by {
                        if i < before.len() {
                            assert(self.entries()[i] == before[i]);
                        }
                    }
                    assert(self.duration_spec() == entries_max(self.entries()));
                    assert(self.wf());
                }
            },
        }
    }

    /// Each path with its curves.
    pub fn curves(&self) -> (r: &Vec<(KeyframeEntityPath, Vec<KeyframeVariableCurve<T>>)>)
        ensures
            r@ == self.entries(),
    {
        &self.curves
    }

    /// Duration of the clip, in microseconds.
    pub fn duration(&self) -> (r: i64)
        ensures
            r == self.duration_spec(),
    {
        self.duration
    }
}

impl<T> Default for KeyframeAnimationClip<T> {
    fn default() -> (r: Self)
        ensures
            r.wf(),
            r.entries().len() == 0,
            r.duration_spec() == 0,
    {
        KeyframeAnimationClip::new()
    }
}

} // verus!
