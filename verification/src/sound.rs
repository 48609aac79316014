//! A tone built from partials: a bank of oscillators that share one phase.
//!
//! The bank keeps the phase and the spectrum and decides the order of things:
//! every sample is the mix of all partials at the phase reached, taken in the
//! order of the spectrum, and only then does the phase move on.  The numbers
//! are the caller's: the sample type is a parameter, and one function, the
//! arithmetic, answers every question that needs a number.

use vstd::prelude::*;

verus! {

/// Samples per second of every tone.
pub const SAMPLE_RATE: u32 = 44_100;

/// Channels of every tone.
pub const CHANNELS: u16 = 1;

/// One partial of a tone: how loud it is, where in its period it starts, and
/// how many times the frequency of the tone it sounds at.
#[derive(Clone, Copy, Debug)]
pub struct Sinusoid<T> {
    pub amplitude: T,
    pub phase: T,
    pub frequency_multiple: T,
}

/// A question the bank puts to the arithmetic.  Each is answered by one
/// number.
pub enum Op<T> {
    /// The phase that a tone of this frequency gains with every sample.
    Step { frequency: T, sample_rate: u32 },
    /// The sample of a tone without partials.
    Silence,
    /// The sample of one partial at a phase of the tone.
    Partial { partial: Sinusoid<T>, phase: T },
    /// The sample of what has been mixed so far together with the sample of
    /// one more partial.
    Mix { sum: T, term: T },
    /// The phase one step further on, wrapped into one period.
    Advance { phase: T, step: T },
}

/// Whether `sum` is the mix of the first `k` partials of `spectrum` at
/// `phase`, taken in order and starting from silence.
pub open spec fn mixed<T, F: Fn(Op<T>) -> T>(
    spectrum: Seq<Sinusoid<T>>,
    phase: T,
    arithmetic: &F,
    k: nat,
    sum: T,
) -> bool
    decreases k,
{
    if k == 0 {
        arithmetic.ensures((Op::Silence,), sum)
    } else {
        exists|before: T, term: T|
            {
                &&& mixed(spectrum, phase, arithmetic, (k - 1) as nat, before)
                &&& arithmetic.ensures((Op::Partial { partial: spectrum[k - 1], phase },), term)
                &&& #[trigger] arithmetic.ensures((Op::Mix { sum: before, term },), sum)
            }
    }
}

/// Whether the arithmetic gives one answer to each question.
pub open spec fn is_function<T, F: Fn(Op<T>) -> T>(arithmetic: &F) -> bool {
    forall|op: Op<T>, a: T, b: T|
        #[trigger] arithmetic.ensures((op,), a) && #[trigger] arithmetic.ensures((op,), b) ==> a
            == b
}

/// Under an arithmetic that gives one answer to each question, the partials
/// of a spectrum mix to one sample at a given phase.
pub proof fn lemma_mix_is_determined<T, F: Fn(Op<T>) -> T>(
    spectrum: Seq<Sinusoid<T>>,
    phase: T,
    arithmetic: &F,
    k: nat,
    a: T,
    b: T,
)
    requires
        is_function(arithmetic),
        mixed(spectrum, phase, arithmetic, k, a),
        mixed(spectrum, phase, arithmetic, k, b),
    ensures
        a == b,
    decreases k,
{
    if k > 0 {
        let (before_a, term_a) = choose|before: T, term: T|
            {
                &&& mixed(spectrum, phase, arithmetic, (k - 1) as nat, before)
                &&& arithmetic.ensures((Op::Partial { partial: spectrum[k - 1], phase },), term)
                &&& #[trigger] arithmetic.ensures((Op::Mix { sum: before, term },), a)
            };
        let (before_b, term_b) = choose|before: T, term: T|
            {
                &&& mixed(spectrum, phase, arithmetic, (k - 1) as nat, before)
                &&& arithmetic.ensures((Op::Partial { partial: spectrum[k - 1], phase },), term)
                &&& #[trigger] arithmetic.ensures((Op::Mix { sum: before, term },), b)
            };
        lemma_mix_is_determined(spectrum, phase, arithmetic, (k - 1) as nat, before_a, before_b);
        assert(term_a == term_b);
    }
}

/// Whether a tone running as `pre` can give the sample `sample` and go on
/// as `post`: the sample mixes every partial at the phase of `pre`, the
/// phase of `post` is one step further on, and step and spectrum stay.
pub open spec fn sounded<T, F: Fn(Op<T>) -> T>(
    pre: DecoderView<T>,
    arithmetic: &F,
    sample: T,
    post: DecoderView<T>,
) -> bool {
    &&& mixed(pre.spectrum, pre.phase, arithmetic, pre.spectrum.len(), sample)
    &&& arithmetic.ensures((Op::Advance { phase: pre.phase, step: pre.step },), post.phase)
    &&& post.step == pre.step
    &&& post.spectrum == pre.spectrum
}

/// A tone is deterministic: under an arithmetic that gives one answer to
/// each question, a running tone has one next sample and goes on in one
/// way.
pub proof fn lemma_tone_is_determined<T, F: Fn(Op<T>) -> T>(
    pre: DecoderView<T>,
    arithmetic: &F,
    sample_a: T,
    post_a: DecoderView<T>,
    sample_b: T,
    post_b: DecoderView<T>,
)
    requires
        is_function(arithmetic),
        sounded(pre, arithmetic, sample_a, post_a),
        sounded(pre, arithmetic, sample_b, post_b),
    ensures
        sample_a == sample_b,
        post_a == post_b,
{
    lemma_mix_is_determined(
        pre.spectrum,
        pre.phase,
        arithmetic,
        pre.spectrum.len(),
        sample_a,
        sample_b,
    );
}

/// Whether a frequency and a spectrum make a tone: the spectrum has at least
/// one partial, and `finite` accepts the frequency and the amplitude of
/// every partial.
pub open spec fn makes_a_tone<T, G: Fn(T) -> bool>(
    frequency: T,
    spectrum: Seq<Sinusoid<T>>,
    finite: &G,
) -> bool {
    &&& spectrum.len() >= 1
    &&& finite.ensures((frequency,), true)
    &&& forall|k: int|
        0 <= k < spectrum.len() ==> finite.ensures((#[trigger] spectrum[k].amplitude,), true)
}

/// A tone: a frequency and the spectrum that gives it its colour.
#[derive(Clone, Debug)]
pub struct Synth<T> {
    frequency: T,
    spectrum: Vec<Sinusoid<T>>,
}

/// The running state of a tone: the phase reached, the phase gained with
/// every sample, and the spectrum.
#[derive(Clone, Debug)]
pub struct SynthDecoder<T> {
    current_phase: T,
    step: T,
    spectrum: Vec<Sinusoid<T>>,
}

/// A running tone as the contracts see it.
pub ghost struct DecoderView<T> {
    pub phase: T,
    pub step: T,
    pub spectrum: Seq<Sinusoid<T>>,
}

impl<T> View for SynthDecoder<T> {
    type V = DecoderView<T>;

    closed spec fn view(&self) -> DecoderView<T> {
        DecoderView { phase: self.current_phase, step: self.step, spectrum: self.spectrum@ }
    }
}

impl<T: Copy> Synth<T> {
    /// The frequency of the tone.
    pub closed spec fn spec_frequency(&self) -> T {
        self.frequency
    }

    /// The partials of the tone.
    pub closed spec fn spec_spectrum(&self) -> Seq<Sinusoid<T>> {
        self.spectrum@
    }

    /// A tone of the given frequency and spectrum, which `finite` has
    /// accepted: the frequency and the amplitude of every partial are
    /// numbers, and there is at least one partial.
    pub fn new<G: Fn(T) -> bool>(frequency: T, spectrum: Vec<Sinusoid<T>>, finite: &G) -> (synth:
        Self)
        requires
            makes_a_tone(frequency, spectrum@, finite),
        ensures
            synth.spec_frequency() == frequency,
            synth.spec_spectrum() == spectrum@,
            synth.spec_spectrum().len() >= 1,
    {
        let _ = finite;
        Self { frequency, spectrum }
    }

    /// A tone of the given frequency and spectrum, if they make one: the
    /// spectrum has at least one partial, and `finite` accepts the frequency
    /// and the amplitude of every partial.  Anything else is turned away, so
    /// that no tone ever sounds a number that is not one.
    pub fn checked<G: Fn(T) -> bool>(frequency: T, spectrum: Vec<Sinusoid<T>>, finite: &G) -> (synth:
        Option<Self>)
        requires
            forall|x: T| finite.requires((x,)),
        ensures
            synth is Some ==> makes_a_tone(frequency, spectrum@, finite),
            synth is None ==> {
                ||| spectrum@.len() == 0
                ||| finite.ensures((frequency,), false)
                ||| exists|k: int|
                    0 <= k < spectrum@.len() && finite.ensures(
                        (#[trigger] spectrum@[k].amplitude,),
                        false,
                    )
            },
            synth matches Some(s) ==> s.spec_frequency() == frequency && s.spec_spectrum()
                == spectrum@,
    {
        if spectrum.len() == 0 {
            return None;
        }
        if !finite(frequency) {
            return None;
        }
        let mut k: usize = 0;
        while k < spectrum.len()
            invariant
                k <= spectrum.len(),
                forall|x: T| finite.requires((x,)),
                forall|j: int|
                    0 <= j < k ==> finite.ensures((#[trigger] spectrum@[j].amplitude,), true),
            decreases spectrum.len() - k,
        {
            if !finite(spectrum[k].amplitude) {
                return None;
            }
            k += 1;
        }
        Some(Self::new(frequency, spectrum, finite))
    }

    /// The frequency of the tone.
    #[verifier::when_used_as_spec(spec_frequency)]
    pub fn frequency(&self) -> (frequency: T)
        ensures
            frequency == self.spec_frequency(),
    {
        self.frequency
    }

    /// The partials of the tone.
    pub fn spectrum(&self) -> (spectrum: &Vec<Sinusoid<T>>)
        ensures
            spectrum@ == self.spec_spectrum(),
    {
        &self.spectrum
    }

    /// Starts the tone: a stream at phase `zero` with the spectrum of the
    /// tone, which gains with every sample the phase that the arithmetic
    /// gives for the frequency at the sample rate.
    pub fn decoder<F: Fn(Op<T>) -> T>(&self, zero: T, arithmetic: &F) -> (decoder: SynthDecoder<T>)
        requires
            forall|op: Op<T>| arithmetic.requires((op,)),
        ensures
            decoder@.phase == zero,
            decoder@.spectrum == self.spec_spectrum(),
            arithmetic.ensures(
                (Op::Step { frequency: self.spec_frequency(), sample_rate: SAMPLE_RATE },),
                decoder@.step,
            ),
    {
        let step = arithmetic(Op::Step { frequency: self.frequency, sample_rate: SAMPLE_RATE });
        let mut spectrum: Vec<Sinusoid<T>> = Vec::new();
        let mut k: usize = 0;
        while k < self.spectrum.len()
            invariant
                k <= self.spectrum.len(),
                spectrum@ == self.spectrum@.take(k as int),
            decreases self.spectrum.len() - k,
        {
            spectrum.push(self.spectrum[k]);
            k += 1;
        }
        SynthDecoder { current_phase: zero, step, spectrum }
    }
}

impl<T: Copy> SynthDecoder<T> {
    /// The phase reached.
    pub fn phase(&self) -> (phase: T)
        ensures
            phase == self@.phase,
    {
        self.current_phase
    }

    /// The phase gained with every sample.
    pub fn step(&self) -> (step: T)
        ensures
            step == self@.step,
    {
        self.step
    }

    /// The next sample of the tone.
    ///
    /// The sample is the mix of every partial at the phase reached, and
    /// there always is one: the tone never ends.  The phase then moves on by
    /// one step; the step and the spectrum stay as they are.
    pub fn next<F: Fn(Op<T>) -> T>(&mut self, arithmetic: &F) -> (sample: Option<T>)
        requires
            forall|op: Op<T>| arithmetic.requires((op,)),
        ensures
            sample matches Some(s) && mixed(
                old(self)@.spectrum,
                old(self)@.phase,
                arithmetic,
                old(self)@.spectrum.len(),
                s,
            ),
            arithmetic.ensures(
                (Op::Advance { phase: old(self)@.phase, step: old(self)@.step },),
                final(self)@.phase,
            ),
            final(self)@.step == old(self)@.step,
            final(self)@.spectrum == old(self)@.spectrum,
            sample matches Some(s) && sounded(old(self)@, arithmetic, s, final(self)@),
    {
        let phase = self.current_phase;
        let mut sum = arithmetic(Op::Silence);
        let mut k: usize = 0;
        while k < self.spectrum.len()
            invariant
                k <= self.spectrum.len(),
                *self == *old(self),
                phase == self@.phase,
                forall|op: Op<T>| arithmetic.requires((op,)),
                mixed(self@.spectrum, phase, arithmetic, k as nat, sum),
            decreases self.spectrum.len() - k,
        {
            let term = arithmetic(Op::Partial { partial: self.spectrum[k], phase });
            let ghost before = sum;
            sum = arithmetic(Op::Mix { sum, term });
            proof {
                assert(mixed(self@.spectrum, phase, arithmetic, ((k + 1) - 1) as nat, before));
                assert(arithmetic.ensures((Op::Mix { sum: before, term },), sum));
            }
            k += 1;
        }
        self.current_phase = arithmetic(Op::Advance { phase, step: self.step });
        Some(sum)
    }

    /// The number of samples before the format of the stream may change:
    /// none, it never does.
    pub fn current_frame_len(&self) -> (len: Option<usize>)
        ensures
            len is None,
    {
        None
    }

    /// How long the stream lasts, if it ends: it does not.
    pub fn total_duration(&self) -> (duration: Option<std::time::Duration>)
        ensures
            duration is None,
    {
        None
    }

    /// The number of channels of the stream.
    pub fn channels(&self) -> (channels: u16)
        ensures
            channels == CHANNELS,
    {
        CHANNELS
    }

    /// The number of samples per second of the stream.
    pub fn sample_rate(&self) -> (rate: u32)
        ensures
            rate == SAMPLE_RATE,
    {
        SAMPLE_RATE
    }
}

} // verus!
