//! A string sampled at evenly spaced points, stepped through time.
//!
//! The stepper owns the two most recent time slices of the string and decides,
//! for every point of the grid, what the next sample is computed from: its
//! neighbours, its own history, and whether the point is held by a fret or
//! by one of the two ends.  The arithmetic itself is the caller's: the sample
//! type is a parameter, and one function, the physics, answers every
//! question that needs a number.

use vstd::prelude::*;
use crate::note::Note;

verus! {

/// Grid points of a string that sounds the base frequency.  A note's fret
/// lies at this many points times the fraction of the string it leaves free.
pub const REFERENCE_SAMPLES: usize = 150;

/// A note stopped on the string, and the grid point where its fret lies.
#[derive(Clone, Copy, Debug, PartialEq, Eq, Structural)]
pub struct Stop {
    pub note: Note,
    pub fret: usize,
}

/// What the simulation is run with.  The stepper reads the number of samples
/// and the chord; the other fields are for the physics.
#[derive(Clone, Debug)]
pub struct StringParams<T> {
    pub length: T,
    pub n_samples: usize,
    pub dt: T,
    pub c: T,
    pub chord: Vec<Stop>,
    pub spring_coeff: T,
    pub solid_friction_coeff: T,
    pub liquid_friction_coeff: T,
    pub steps_per_render: usize,
    pub excitation_coeff: T,
}

/// Whether one of the stops of `chord` has its fret at grid point `i`.
pub open spec fn is_fret(chord: Seq<Stop>, i: int) -> bool {
    exists|k: int| 0 <= k < chord.len() && #[trigger] chord[k].fret == i
}

/// Whether grid point `i` of a string of `n` samples is held in place: the
/// two ends are, and so is every fret.
pub open spec fn is_held(chord: Seq<Stop>, n: int, i: int) -> bool {
    i == 0 || i == n - 1 || is_fret(chord, i)
}

/// The number of samples a string needs to hold every fret of `chord`: the
/// greatest fret, and none for a chord without stops.
pub open spec fn sample_count(chord: Seq<Stop>) -> nat
    decreases chord.len(),
{
    if chord.len() == 0 {
        0
    } else {
        let rest = sample_count(chord.drop_last());
        if chord.last().fret > rest {
            chord.last().fret as nat
        } else {
            rest
        }
    }
}

/// The sample count of a chord is at least every fret of it, and is one of
/// its frets unless the chord is empty.
pub proof fn lemma_sample_count_is_greatest(chord: Seq<Stop>)
    ensures
        forall|k: int| 0 <= k < chord.len() ==> (#[trigger] chord[k]).fret <= sample_count(chord),
        chord.len() == 0 ==> sample_count(chord) == 0,
        chord.len() > 0 ==> is_fret(chord, sample_count(chord) as int),
    decreases chord.len(),
{
    if chord.len() > 0 {
        let front = chord.drop_last();
        lemma_sample_count_is_greatest(front);
        assert forall|k: int| 0 <= k < chord.len() implies (#[trigger] chord[k]).fret
            <= sample_count(chord) by {
            if k < front.len() {
                assert(front[k] == chord[k]);
            }
        }
        if chord.last().fret > sample_count(front) {
            assert(chord[chord.len() - 1].fret == sample_count(chord));
        } else if front.len() > 0 {
            let k = choose|k: int| 0 <= k < front.len() && #[trigger] front[k].fret == sample_count(front);
            assert(chord[k].fret == sample_count(chord));
        } else {
            assert(chord[chord.len() - 1].fret == sample_count(chord));
        }
    }
}

/// The parameters after a change of chord: the chord and the length are the
/// new ones, the sample count is the one the new chord needs, and nothing
/// else changes.
pub open spec fn retuned<T>(p: StringParams<T>, chord: Vec<Stop>, length: T) -> StringParams<T> {
    StringParams { length, n_samples: sample_count(chord@) as usize, chord, ..p }
}

impl<T> StringParams<T> {
    /// Takes up a new chord: the sample count becomes the greatest fret of
    /// the chord, and the string gets the given length.
    pub fn retune(&mut self, chord: Vec<Stop>, length: T)
        ensures
            *final(self) == retuned(*old(self), chord, length),
            final(self).n_samples == sample_count(chord@),
            forall|k: int| 0 <= k < chord@.len() ==> (#[trigger] chord@[k]).fret <= final(self).n_samples,
            chord@.len() == 0 ==> final(self).n_samples == 0,
            chord@.len() > 0 ==> is_fret(chord@, final(self).n_samples as int),
    {
        let mut n: usize = 0;
        let mut k: usize = 0;
        while k < chord.len()
            invariant
                k <= chord.len(),
                n == sample_count(chord@.take(k as int)),
            decreases chord.len() - k,
        {
            proof {
                assert(chord@.take(k + 1).drop_last() == chord@.take(k as int));
            }
            if chord[k].fret > n {
                n = chord[k].fret;
            }
            k += 1;
        }
        proof {
            assert(chord@.take(chord.len() as int) == chord@);
            lemma_sample_count_is_greatest(chord@);
        }
        self.n_samples = n;
        self.length = length;
        self.chord = chord;
    }

    /// Whether a stop of the chord has its fret at grid point `i`.
    pub fn is_junction(&self, i: usize) -> (found: bool)
        ensures
            found == is_fret(self.chord@, i as int),
    {
        let mut k: usize = 0;
        while k < self.chord.len()
            invariant
                k <= self.chord.len(),
                forall|j: int| 0 <= j < k ==> (#[trigger] self.chord@[j]).fret != i,
            decreases self.chord.len() - k,
        {
            if self.chord[k].fret == i {
                return true;
            }
            k += 1;
        }
        false
    }

    /// Whether grid point `i` is held in place, by an end of the string or
    /// by a fret.
    pub fn is_pinned(&self, i: usize) -> (held: bool)
        ensures
            held == is_held(self.chord@, self.n_samples as int, i as int),
    {
        i == 0 || (self.n_samples > 0 && i == self.n_samples - 1) || self.is_junction(i)
    }
}

/// What one grid point's next sample is computed from.
pub struct Stencil<T> {
    /// The sample to the left, if the point is not the first.
    pub left: Option<T>,
    /// The sample at the point.
    pub here: T,
    /// The sample to the right, if the point is not the last.
    pub right: Option<T>,
    /// The sample at the point one timestep earlier.
    pub before: T,
    /// Whether the point is held in place by an end of the string or a fret.
    pub pinned: bool,
}

/// A question the stepper puts to the physics.  Each is answered by one
/// number.
pub enum Query<T> {
    /// The clock after one more timestep, given the clock before it.
    Clock { time: T },
    /// What one stop of the chord forces on the driven end, sample 0, at the
    /// given clock.
    Drive { time: T, stop: Stop },
    /// The forcing gathered so far together with that of one more stop.
    Sum { sum: T, term: T },
    /// The next displacement of a grid point, given what surrounds it.
    Point(Stencil<T>),
}

/// The string as the contracts see it: the displacement of a sample at
/// rest, the clock, and the two most recent time slices.
pub ghost struct StringView<T> {
    pub rest: T,
    pub time: T,
    pub previous: Seq<T>,
    pub current: Seq<T>,
}

/// The string at rest: `n` samples of `zero` in both slices, and the clock at
/// `zero`.
pub open spec fn flat<T>(n: nat, zero: T) -> StringView<T> {
    StringView {
        rest: zero,
        time: zero,
        previous: Seq::new(n, |i: int| zero),
        current: Seq::new(n, |i: int| zero),
    }
}

/// What surrounds grid point `i` of the string `s` under the chord `chord`.
pub open spec fn stencil_at<T>(s: StringView<T>, chord: Seq<Stop>, i: int) -> Stencil<T> {
    Stencil {
        left: if i >= 1 { Some(s.current[i - 1]) } else { None },
        here: s.current[i],
        right: if i + 1 < s.current.len() { Some(s.current[i + 1]) } else { None },
        before: s.previous[i],
        pinned: is_held(chord, s.current.len() as int, i),
    }
}

/// Whether `sum` is what the first `k` stops of the chord force on the
/// driven end at the clock `time`: the forcing of each stop, gathered in the
/// order of the chord, starting from a sample at rest.
pub open spec fn driven<T, F: Fn(&StringParams<T>, Query<T>) -> T>(
    p: &StringParams<T>,
    rest: T,
    time: T,
    physics: &F,
    k: nat,
    sum: T,
) -> bool
    decreases k,
{
    if k == 0 {
        sum == rest
    } else {
        exists|before: T, term: T|
            {
                &&& driven(p, rest, time, physics, (k - 1) as nat, before)
                &&& physics.ensures((p, Query::Drive { time, stop: p.chord@[k - 1] }), term)
                &&& #[trigger] physics.ensures((p, Query::Sum { sum: before, term }), sum)
            }
    }
}

/// Whether `post` is the string one timestep after `pre`.
///
/// A string without samples stays as it is, and so does a degenerate one,
/// whose length is not positive.  Otherwise the slice that was current
/// becomes the previous one, sample 0 of the new slice is what the chord
/// forces on the driven end at the old clock, every other sample is what the
/// physics computes from that point's stencil in `pre`, and the clock is
/// advanced by the physics.
pub open spec fn ticked<T, F: Fn(&StringParams<T>, Query<T>) -> T>(
    pre: StringView<T>,
    p: &StringParams<T>,
    degenerate: bool,
    physics: &F,
    post: StringView<T>,
) -> bool {
    if pre.current.len() == 0 || degenerate {
        post == pre
    } else {
        &&& post.rest == pre.rest
        &&& post.previous == pre.current
        &&& post.current.len() == pre.current.len()
        &&& driven(p, pre.rest, pre.time, physics, p.chord@.len(), post.current[0])
        &&& forall|i: int|
            1 <= i < pre.current.len() ==> physics.ensures(
                (p, Query::Point(stencil_at(pre, p.chord@, i))),
                #[trigger] post.current[i],
            )
        &&& physics.ensures((p, Query::Clock { time: pre.time }), post.time)
    }
}

/// Whether `post` is the string `k` timesteps after `pre`.
pub open spec fn ran<T, F: Fn(&StringParams<T>, Query<T>) -> T>(
    pre: StringView<T>,
    p: &StringParams<T>,
    degenerate: bool,
    physics: &F,
    k: nat,
    post: StringView<T>,
) -> bool
    decreases k,
{
    if k == 0 {
        post == pre
    } else {
        exists|mid: StringView<T>|
            ran(pre, p, degenerate, physics, (k - 1) as nat, mid) && #[trigger] ticked(
                mid,
                p,
                degenerate,
                physics,
                post,
            )
    }
}

/// Whether the physics gives one answer to each question under the
/// parameters `p`.
pub open spec fn is_function<T, F: Fn(&StringParams<T>, Query<T>) -> T>(
    p: &StringParams<T>,
    physics: &F,
) -> bool {
    forall|q: Query<T>, a: T, b: T|
        #[trigger] physics.ensures((p, q), a) && #[trigger] physics.ensures((p, q), b) ==> a == b
}

/// One more timestep after `k` timesteps makes `k + 1` timesteps.
pub proof fn lemma_ran_one_more<T, F: Fn(&StringParams<T>, Query<T>) -> T>(
    pre: StringView<T>,
    p: &StringParams<T>,
    degenerate: bool,
    physics: &F,
    k: nat,
    mid: StringView<T>,
    post: StringView<T>,
)
    requires
        ran(pre, p, degenerate, physics, k, mid),
        ticked(mid, p, degenerate, physics, post),
    ensures
        ran(pre, p, degenerate, physics, k + 1, post),
{
    assert(ran(pre, p, degenerate, physics, ((k + 1) - 1) as nat, mid));
}

/// A degenerate string never moves, however many timesteps it is run for,
/// and neither does a string without samples.
pub proof fn lemma_degenerate_run_is_still<T, F: Fn(&StringParams<T>, Query<T>) -> T>(
    pre: StringView<T>,
    p: &StringParams<T>,
    degenerate: bool,
    physics: &F,
    k: nat,
    post: StringView<T>,
)
    requires
        degenerate || pre.current.len() == 0,
        ran(pre, p, degenerate, physics, k, post),
    ensures
        post == pre,
    decreases k,
{
    if k > 0 {
        let mid = choose|mid: StringView<T>|
            ran(pre, p, degenerate, physics, (k - 1) as nat, mid) && #[trigger] ticked(
                mid,
                p,
                degenerate,
                physics,
                post,
            );
        lemma_degenerate_run_is_still(pre, p, degenerate, physics, (k - 1) as nat, mid);
    }
}

/// Under a physics that gives one answer to each question, the chord forces
/// one value on the driven end.
pub proof fn lemma_drive_is_determined<T, F: Fn(&StringParams<T>, Query<T>) -> T>(
    p: &StringParams<T>,
    rest: T,
    time: T,
    physics: &F,
    k: nat,
    a: T,
    b: T,
)
    requires
        is_function(p, physics),
        driven(p, rest, time, physics, k, a),
        driven(p, rest, time, physics, k, b),
    ensures
        a == b,
    decreases k,
{
    if k > 0 {
        let (before_a, term_a) = choose|before: T, term: T|
            {
                &&& driven(p, rest, time, physics, (k - 1) as nat, before)
                &&& physics.ensures((p, Query::Drive { time, stop: p.chord@[k - 1] }), term)
                &&& #[trigger] physics.ensures((p, Query::Sum { sum: before, term }), a)
            };
        let (before_b, term_b) = choose|before: T, term: T|
            {
                &&& driven(p, rest, time, physics, (k - 1) as nat, before)
                &&& physics.ensures((p, Query::Drive { time, stop: p.chord@[k - 1] }), term)
                &&& #[trigger] physics.ensures((p, Query::Sum { sum: before, term }), b)
            };
        lemma_drive_is_determined(p, rest, time, physics, (k - 1) as nat, before_a, before_b);
        assert(term_a == term_b);
    }
}

/// Under a physics that gives one answer to each question, a string has one
/// successor.
pub proof fn lemma_tick_is_determined<T, F: Fn(&StringParams<T>, Query<T>) -> T>(
    pre: StringView<T>,
    p: &StringParams<T>,
    degenerate: bool,
    physics: &F,
    a: StringView<T>,
    b: StringView<T>,
)
    requires
        is_function(p, physics),
        ticked(pre, p, degenerate, physics, a),
        ticked(pre, p, degenerate, physics, b),
    ensures
        a == b,
{
    if !(pre.current.len() == 0 || degenerate) {
        lemma_drive_is_determined(
            p,
            pre.rest,
            pre.time,
            physics,
            p.chord@.len(),
            a.current[0],
            b.current[0],
        );
        assert forall|i: int| 0 <= i < a.current.len() implies a.current[i] == b.current[i] by {
            if i >= 1 {
                let q = Query::Point(stencil_at(pre, p.chord@, i));
                assert(physics.ensures((p, q), a.current[i]));
                assert(physics.ensures((p, q), b.current[i]));
            }
        }
        assert(a.current =~= b.current);
        assert(a.time == b.time);
    }
}

/// Under a physics that gives one answer to each question, running a string
/// for `k` timesteps has one outcome.
pub proof fn lemma_run_is_determined<T, F: Fn(&StringParams<T>, Query<T>) -> T>(
    pre: StringView<T>,
    p: &StringParams<T>,
    degenerate: bool,
    physics: &F,
    k: nat,
    a: StringView<T>,
    b: StringView<T>,
)
    requires
        is_function(p, physics),
        ran(pre, p, degenerate, physics, k, a),
        ran(pre, p, degenerate, physics, k, b),
    ensures
        a == b,
    decreases k,
{
    if k > 0 {
        let mid_a = choose|mid: StringView<T>|
            ran(pre, p, degenerate, physics, (k - 1) as nat, mid) && #[trigger] ticked(
                mid,
                p,
                degenerate,
                physics,
                a,
            );
        let mid_b = choose|mid: StringView<T>|
            ran(pre, p, degenerate, physics, (k - 1) as nat, mid) && #[trigger] ticked(
                mid,
                p,
                degenerate,
                physics,
                b,
            );
        lemma_run_is_determined(pre, p, degenerate, physics, (k - 1) as nat, mid_a, mid_b);
        lemma_tick_is_determined(mid_a, p, degenerate, physics, a, b);
    }
}

/// Two consecutive time slices of a sampled string, the time elapsed, and
/// the displacement of a sample at rest.
#[derive(Clone, Debug)]
pub struct StringState<T> {
    rest: T,
    time: T,
    last: Vec<T>,
    current: Vec<T>,
}

impl<T> View for StringState<T> {
    type V = StringView<T>;

    closed spec fn view(&self) -> StringView<T> {
        StringView {
            rest: self.rest,
            time: self.time,
            previous: self.last@,
            current: self.current@,
        }
    }
}

impl<T: Copy> StringState<T> {
    /// Both slices hold one sample for each grid point.
    pub open spec fn wf(&self) -> bool {
        self@.previous.len() == self@.current.len()
    }

    /// A string of `n` samples at rest.
    pub fn new_flat(n: usize, zero: T) -> (state: Self)
        ensures
            state.wf(),
            state@ == flat(n as nat, zero),
    {
        let mut last: Vec<T> = Vec::new();
        let mut current: Vec<T> = Vec::new();
        let mut i: usize = 0;
        while i < n
            invariant
                i <= n,
                last@ == Seq::new(i as nat, |j: int| zero),
                current@ == Seq::new(i as nat, |j: int| zero),
            decreases n - i,
        {
            last.push(zero);
            current.push(zero);
            i += 1;
        }
        StringState { rest: zero, time: zero, last, current }
    }

    /// A string that starts from the given slices and clock, with `zero` as
    /// the displacement of a sample at rest, if the two slices hold the same
    /// number of samples; none if they do not.
    pub fn from_slices(zero: T, time: T, previous: Vec<T>, current: Vec<T>) -> (state: Option<
        Self,
    >)
        ensures
            state is Some <==> previous@.len() == current@.len(),
            state matches Some(s) ==> s.wf() && s@ == (StringView {
                rest: zero,
                time,
                previous: previous@,
                current: current@,
            }),
    {
        if previous.len() == current.len() {
            Some(StringState { rest: zero, time, last: previous, current })
        } else {
            None
        }
    }

    /// The number of samples.
    pub fn len(&self) -> (n: usize)
        ensures
            n == self@.current.len(),
    {
        self.current.len()
    }

    /// The displacement of a sample at rest.
    pub fn rest(&self) -> (zero: T)
        ensures
            zero == self@.rest,
    {
        self.rest
    }

    /// The time elapsed.
    pub fn time(&self) -> (t: T)
        ensures
            t == self@.time,
    {
        self.time
    }

    /// The displacement of every sample now.
    pub fn current(&self) -> (samples: &Vec<T>)
        ensures
            samples@ == self@.current,
    {
        &self.current
    }

    /// The displacement of every sample one timestep ago.
    pub fn previous(&self) -> (samples: &Vec<T>)
        ensures
            samples@ == self@.previous,
    {
        &self.last
    }

    /// Advances the string by one timestep.
    ///
    /// `degenerate` says that the length of the string is zero or negative:
    /// such a string has nothing to integrate, and the step leaves it as it
    /// is, as it leaves a string without samples.  Without a chord nothing
    /// drives the string, and sample 0 is at rest after the step.
    pub fn step<F: Fn(&StringParams<T>, Query<T>) -> T>(
        &mut self,
        p: &StringParams<T>,
        degenerate: bool,
        physics: &F,
    )
        requires
            old(self).wf(),
            p.n_samples == old(self)@.current.len(),
            forall|q: Query<T>| physics.requires((p, q)),
        ensures
            final(self).wf(),
            final(self)@.current.len() == old(self)@.current.len(),
            degenerate ==> final(self)@ == old(self)@,
            ticked(old(self)@, p, degenerate, physics, final(self)@),
            !degenerate && p.n_samples > 0 && p.chord@.len() == 0 ==> final(self)@.current[0]
                == old(self)@.rest,
    {
        let n = self.current.len();
        if n == 0 || degenerate {
            return ;
        }
        let time = self.time;
        let mut forced = self.rest;
        let mut k: usize = 0;
        while k < p.chord.len()
            invariant
                k <= p.chord.len(),
                *self == *old(self),
                time == self.time,
                forall|q: Query<T>| physics.requires((p, q)),
                driven(p, self.rest, time, physics, k as nat, forced),
            decreases p.chord.len() - k,
        {
            let term = physics(p, Query::Drive { time, stop: p.chord[k] });
            let ghost before = forced;
            forced = physics(p, Query::Sum { sum: forced, term });
            proof {
                assert(driven(p, self.rest, time, physics, ((k + 1) - 1) as nat, before));
                assert(physics.ensures((p, Query::Sum { sum: before, term }), forced));
            }
            k += 1;
        }
        self.last.set(0, forced);
        let mut i: usize = 1;
        while i < n
            invariant
                1 <= i <= n,
                n == p.n_samples,
                self.current@ == old(self).current@,
                self.time == old(self).time,
                self.rest == old(self).rest,
                self.last@.len() == n,
                self.current@.len() == n,
                old(self).last@.len() == n,
                forall|q: Query<T>| physics.requires((p, q)),
                self.last@[0] == forced,
                forall|j: int|
                    1 <= j < i ==> physics.ensures(
                        (p, Query::Point(stencil_at(old(self)@, p.chord@, j))),
                        #[trigger] self.last@[j],
                    ),
                forall|j: int| i <= j < n ==> self.last@[j] == old(self).last@[j],
            decreases n - i,
        {
            let stencil = Stencil {
                left: Some(self.current[i - 1]),
                here: self.current[i],
                right: if i + 1 < n { Some(self.current[i + 1]) } else { None },
                before: self.last[i],
                pinned: p.is_pinned(i),
            };
            assert(stencil == stencil_at(old(self)@, p.chord@, i as int));
            let next = physics(p, Query::Point(stencil));
            self.last.set(i, next);
            i += 1;
        }
        self.time = physics(p, Query::Clock { time });
        std::mem::swap(&mut self.last, &mut self.current);
    }

    /// Advances the string by `ticks` timesteps.  A degenerate string, and
    /// one without samples, stays as it is.
    pub fn run<F: Fn(&StringParams<T>, Query<T>) -> T>(
        &mut self,
        p: &StringParams<T>,
        degenerate: bool,
        ticks: usize,
        physics: &F,
    )
        requires
            old(self).wf(),
            p.n_samples == old(self)@.current.len(),
            forall|q: Query<T>| physics.requires((p, q)),
        ensures
            final(self).wf(),
            final(self)@.current.len() == old(self)@.current.len(),
            ran(old(self)@, p, degenerate, physics, ticks as nat, final(self)@),
            degenerate || p.n_samples == 0 ==> final(self)@ == old(self)@,
    {
        let mut done: usize = 0;
        while done < ticks
            invariant
                done <= ticks,
                self.wf(),
                p.n_samples == self@.current.len(),
                self@.current.len() == old(self)@.current.len(),
                forall|q: Query<T>| physics.requires((p, q)),
                ran(old(self)@, p, degenerate, physics, done as nat, self@),
            decreases ticks - done,
        {
            let ghost before = self@;
            self.step(p, degenerate, physics);
            proof {
                lemma_ran_one_more(old(self)@, p, degenerate, physics, done as nat, before, self@);
            }
            done += 1;
        }
        proof {
            if degenerate || p.n_samples == 0 {
                lemma_degenerate_run_is_still(
                    old(self)@,
                    p,
                    degenerate,
                    physics,
                    ticks as nat,
                    self@,
                );
            }
        }
    }
}

/// Rebuilds the string for a new chord and lets it ring in.
///
/// The parameters take up the chord and the length, the string is laid flat
/// with as many samples as the chord needs, and the flat string is then run
/// for `warmup` timesteps, so that it is already sounding when it is first
/// shown.  What the string held before plays no part in the outcome.  Where
/// the new length is zero or negative, which `degenerate` says, or the
/// chord is empty, the string stays flat.
pub fn change_string<T: Copy, F: Fn(&StringParams<T>, Query<T>) -> T>(
    state: &mut StringState<T>,
    params: &mut StringParams<T>,
    chord: Vec<Stop>,
    length: T,
    degenerate: bool,
    zero: T,
    warmup: usize,
    physics: &F,
)
    requires
        forall|p: &StringParams<T>, q: Query<T>| physics.requires((p, q)),
    ensures
        *final(params) == retuned(*old(params), chord, length),
        final(params).n_samples == sample_count(chord@),
        final(state).wf(),
        final(state)@.current.len() == sample_count(chord@),
        ran(
            flat(sample_count(chord@), zero),
            final(params),
            degenerate,
            physics,
            warmup as nat,
            final(state)@,
        ),
        degenerate || chord@.len() == 0 ==> final(state)@ == flat(sample_count(chord@), zero),
{
    params.retune(chord, length);
    *state = StringState::new_flat(params.n_samples, zero);
    state.run(params, degenerate, warmup, physics);
}

/// Changing to the same chord twice in a row is the same as changing to it
/// once.
///
/// The parameters come out equal, with the same sample count, and the string
/// is laid out flat over that many samples both times, every sample of both
/// slices at rest.  Under a physics that gives one answer to each question,
/// the string after the warm-up is the same both times as well.
pub proof fn lemma_change_of_chord_is_idempotent<T, F: Fn(&StringParams<T>, Query<T>) -> T>(
    p: StringParams<T>,
    chord: Vec<Stop>,
    length: T,
    degenerate: bool,
    zero: T,
    warmup: nat,
    physics: &F,
    first: StringView<T>,
    second: StringView<T>,
)
    requires
        is_function(&retuned(p, chord, length), physics),
        ran(
            flat(retuned(p, chord, length).n_samples as nat, zero),
            &retuned(p, chord, length),
            degenerate,
            physics,
            warmup,
            first,
        ),
        ran(
            flat(retuned(retuned(p, chord, length), chord, length).n_samples as nat, zero),
            &retuned(retuned(p, chord, length), chord, length),
            degenerate,
            physics,
            warmup,
            second,
        ),
    ensures
        retuned(retuned(p, chord, length), chord, length) == retuned(p, chord, length),
        retuned(retuned(p, chord, length), chord, length).n_samples == retuned(
            p,
            chord,
            length,
        ).n_samples,
        flat(retuned(retuned(p, chord, length), chord, length).n_samples as nat, zero) == flat(
            retuned(p, chord, length).n_samples as nat,
            zero,
        ),
        flat(retuned(p, chord, length).n_samples as nat, zero).current.len() == retuned(
            p,
            chord,
            length,
        ).n_samples,
        flat(retuned(p, chord, length).n_samples as nat, zero).previous.len() == retuned(
            p,
            chord,
            length,
        ).n_samples,
        forall|i: int|
            0 <= i < retuned(p, chord, length).n_samples ==> {
                &&& #[trigger] flat(retuned(p, chord, length).n_samples as nat, zero).current[i]
                    == zero
                &&& flat(retuned(p, chord, length).n_samples as nat, zero).previous[i] == zero
            },
        second == first,
{
    let once = retuned(p, chord, length);
    assert(retuned(once, chord, length) == once);
    lemma_run_is_determined(
        flat(once.n_samples as nat, zero),
        &once,
        degenerate,
        physics,
        warmup,
        first,
        second,
    );
}

} // verus!
