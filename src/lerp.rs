use vstd::prelude::*;

verus! {

/// A position between two keyframes, as the exact fraction `num / den`.
///
/// Progress zero stands for the first keyframe of a pair; progress one
/// (`num == den`) for the second.
#[derive(Clone, Copy, Debug, PartialEq, Eq, Structural)]
pub struct Progress {
    pub num: u64,
    pub den: u64,
}

impl Progress {
    /// Progress zero, `0 / 1`.
    pub fn zero() -> (r: Progress)
        ensures
            r.num == 0 && r.den == 1,
    {
        Progress { num: 0, den: 1 }
    }
}

/// What an animatable value type provides.
///
/// `lerp`: given `self` and another point `other`, produce the point that
/// lies `progress` of the way from one to the other. `target` is the live
/// value that is being animated, and `options`, when present, names the only
/// fields of it that the result may take from the interpolation; every other
/// field stays as it is in `target`. The result depends on the arguments
/// alone: it is `lerp_spec` of them.
///
/// `base`: the value that a curve with a single keyframe blends from,
/// normally the type's default value.
pub trait Lerp<T>: Sized {
    /// The point that `lerp` returns.
    spec fn lerp_spec(self, other: Self, progress: Progress, target: T, options: Option<Vec<String>>) -> Self;

    /// The value that `base` returns.
    spec fn base_spec() -> Self;

    fn lerp(&self, other: &Self, progress: Progress, target: &T, options: &Option<Vec<String>>) -> (r: Self)
        ensures
            r == self.lerp_spec(*other, progress, *target, *options),
    ;

    fn base() -> (r: Self)
        ensures
            r == Self::base_spec(),
    ;
}

/// Whether `options` lets an interpolation write the field called `name`:
/// every field when there is no list, else only the fields that it names.
pub open spec fn selects(options: Option<Vec<String>>, name: Seq<char>) -> bool {
    match options {
        None => true,
        Some(names) => lists_name(names@, name),
    }
}

/// Whether `names` holds `name`.
pub open spec fn lists_name(names: Seq<String>, name: Seq<char>) -> bool {
    exists|i: int| 0 <= i < names.len() && #[trigger] names[i]@ == name
}

/// Whether `options` lets an interpolation write the field called `name`.
/// Names that a value type does not know are simply never asked for.
pub fn field_selected(options: &Option<Vec<String>>, name: &str) -> (r: bool)
    ensures
        r == selects(*options, name@),
{
    if options.is_none() {
        return true;
    }
    let names = options.as_ref().unwrap();
    let wanted = name.to_owned();
    let mut i: usize = 0;
    while i < names.len()
        invariant
            0 <= i <= names.len(),
            *options == Some(*names),
            wanted@ == name@,
            forall|j: int| 0 <= j < i ==> #[trigger] names@[j]@ != name@,
        decreases names.len() - i,
    {
        if names[i] == wanted {
            assert(names@[i as int]@ == name@);
            return true;
        }
        i += 1;
    }
    false
}

/// The new value of the field called `name`: `blended` where `options` lets
/// the interpolation write that field, else the `live` value kept as it is.
pub fn select_field<F>(options: &Option<Vec<String>>, name: &str, blended: F, live: F) -> (r: F)
    ensures
        r == if selects(*options, name@) {
            blended
        } else {
            live
        },
{
    if field_selected(options, name) {
        blended
    } else {
        live
    }
}

/// With a list of options, a field that the list does not name keeps its
/// live value, whatever was blended for it; without a list every field
/// takes the blended value.
pub proof fn lemma_unlisted_fields_keep_live_value<F>(
    options: Option<Vec<String>>,
    name: Seq<char>,
    blended: F,
    live: F,
)
    ensures
        options is Some && !lists_name(options->0@, name) ==> (if selects(options, name) {
            blended
        } else {
            live
        }) == live,
        options is None ==> (if selects(options, name) {
            blended
        } else {
            live
        }) == blended,
{
}

/// Wrapper around a value that can be interpolated.
pub struct Keyframe<T>(pub T);

impl<T: Lerp<T>> Lerp<T> for Keyframe<T> {
    /// The inner values' interpolation, wrapped again.
    open spec fn lerp_spec(self, other: Self, progress: Progress, target: T, options: Option<Vec<String>>) -> Self {
        Keyframe(self.0.lerp_spec(other.0, progress, target, options))
    }

    /// The inner type's base value, wrapped.
    open spec fn base_spec() -> Self {
        Keyframe(T::base_spec())
    }

    fn lerp(&self, other: &Self, progress: Progress, target: &T, options: &Option<Vec<String>>) -> (r: Self) {
        Keyframe(self.0.lerp(&other.0, progress, target, options))
    }

    fn base() -> (r: Self) {
        Keyframe(T::base())
    }
}

} // verus!
