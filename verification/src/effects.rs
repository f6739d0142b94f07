//! Audio effects: pure per-sample transformations composed into an ordered
//! pipeline, applied left to right.
//!
//! Effects work on fixed-point amplitudes with the same `2^31` denominator
//! as stored samples, held in 64 bits for headroom beyond full scale.

use vstd::prelude::*;
use crate::math::clamped;
use vstd::arithmetic::mul::lemma_mul_upper_bound;

verus! {

/// Scale a fixed-point amplitude by the ratio `num / den`, truncating the
/// quotient toward zero and saturating into the 64-bit sample range.
pub open spec fn gain_model(num: int, den: int, v: int) -> int {
    let q = if v >= 0 {
        (v * num) / den
    } else {
        -(((-v) * num) / den)
    };
    if q > i64::MAX {
        i64::MAX as int
    } else if q < i64::MIN {
        i64::MIN as int
    } else {
        q
    }
}

/// One audio effect: a pure transformation of a single sample.
pub trait Effect: Sized {
    /// The mathematical model of the effect on a fixed-point amplitude.
    spec fn apply_model(&self, input: int) -> int;

    /// Apply the effect to one sample.
    fn process(&mut self, input: i64) -> (r: i64)
        ensures
            *final(self) == *old(self),
            r == old(self).apply_model(input as int),
    ;
}

/// Scale each sample by a rational gain.
#[derive(Clone, Copy, Debug)]
pub struct Gain {
    num: u32,
    den: u32,
}

impl Gain {
    /// The gain ratio always has a positive denominator.
    #[verifier::type_invariant]
    closed spec fn wf(self) -> bool {
        self.den >= 1
    }

    /// Numerator of the gain ratio.
    pub closed spec fn spec_num(&self) -> int {
        self.num as int
    }

    /// Denominator of the gain ratio.
    pub closed spec fn spec_den(&self) -> int {
        self.den as int
    }

    /// A gain of `num / den`.
    pub fn new(num: u32, den: u32) -> (r: Gain)
        requires
            den >= 1,
        ensures
            r.spec_num() == num,
            r.spec_den() == den,
    {
        Gain { num, den }
    }

    /// The gain ratio.
    pub fn gain(&self) -> (r: (u32, u32))
        ensures
            r.0 == self.spec_num(),
            r.1 == self.spec_den(),
    {
        (self.num, self.den)
    }

    /// Replace the gain ratio.
    pub fn set_gain(&mut self, num: u32, den: u32)
        requires
            den >= 1,
        ensures
            final(self).spec_num() == num,
            final(self).spec_den() == den,
    {
        *self = Gain { num, den };
    }

    /// Apply the gain to one sample.
    pub fn apply(&self, input: i64) -> (r: i64)
        ensures
            r == gain_model(self.spec_num(), self.spec_den(), input as int),
    {
        proof {
            use_type_invariant(&*self);
        }
        if input >= 0 {
            proof {
                lemma_mul_upper_bound(
                    input as int,
                    0x7fff_ffff_ffff_ffffint,
                    self.num as int,
                    0xffff_ffffint,
                );
            }
            let q = ((input as u128) * (self.num as u128)) / (self.den as u128);
            if q > (i64::MAX as u128) {
                i64::MAX
            } else {
                q as i64
            }
        } else {
            let mag = (-(input as i128)) as u128;
            proof {
                lemma_mul_upper_bound(
                    mag as int,
                    0x8000_0000_0000_0000int,
                    self.num as int,
                    0xffff_ffffint,
                );
            }
            let q = (mag * (self.num as u128)) / (self.den as u128);
            if q >= 0x8000_0000_0000_0000u128 {
                i64::MIN
            } else {
                -(q as i64)
            }
        }
    }
}

impl Effect for Gain {
    open spec fn apply_model(&self, input: int) -> int {
        gain_model(self.spec_num(), self.spec_den(), input)
    }

    fn process(&mut self, input: i64) -> (r: i64) {
        self.apply(input)
    }
}

/// Clamp each sample into a fixed amplitude range.
#[derive(Clone, Copy, Debug)]
pub struct Clip {
    min: i64,
    max: i64,
}

impl Clip {
    /// The clamp range is ordered.
    #[verifier::type_invariant]
    closed spec fn wf(self) -> bool {
        self.min <= self.max
    }

    /// Lower clamp bound.
    pub closed spec fn spec_min(&self) -> int {
        self.min as int
    }

    /// Upper clamp bound.
    pub closed spec fn spec_max(&self) -> int {
        self.max as int
    }

    /// A clip to the range `[min, max]`.
    pub fn new(min: i64, max: i64) -> (r: Clip)
        requires
            min <= max,
        ensures
            r.spec_min() == min,
            r.spec_max() == max,
    {
        Clip { min, max }
    }

    /// Replace the clamp range.
    pub fn set_limits(&mut self, min: i64, max: i64)
        requires
            min <= max,
        ensures
            final(self).spec_min() == min,
            final(self).spec_max() == max,
    {
        *self = Clip { min, max };
    }

    /// Apply the clamp to one sample.
    pub fn apply(&self, input: i64) -> (r: i64)
        ensures
            r == clamped(input as int, self.spec_min(), self.spec_max()),
    {
        proof {
            use_type_invariant(&*self);
        }
        crate::math::clip(input, self.min, self.max)
    }
}

impl Effect for Clip {
    open spec fn apply_model(&self, input: int) -> int {
        clamped(input, self.spec_min(), self.spec_max())
    }

    fn process(&mut self, input: i64) -> (r: i64) {
        self.apply(input)
    }
}

/// One step of an effect pipeline.
#[derive(Clone, Copy, Debug)]
pub enum EffectStep {
    /// Scale by a rational gain.
    Gain(Gain),
    /// Clamp into a range.
    Clip(Clip),
}

impl EffectStep {
    /// Apply the step to one sample.
    pub fn apply(&self, input: i64) -> (r: i64)
        ensures
            r == self.apply_model(input as int),
    {
        match self {
            EffectStep::Gain(g) => g.apply(input),
            EffectStep::Clip(c) => c.apply(input),
        }
    }
}

impl Effect for EffectStep {
    open spec fn apply_model(&self, input: int) -> int {
        match self {
            EffectStep::Gain(g) => g.apply_model(input),
            EffectStep::Clip(c) => c.apply_model(input),
        }
    }

    fn process(&mut self, input: i64) -> (r: i64) {
        self.apply(input)
    }
}

/// The model of a whole pipeline: the steps apply left to right.
pub open spec fn chain_model(effects: Seq<EffectStep>, v: int) -> int
    decreases effects.len(),
{
    if effects.len() == 0 {
        v
    } else {
        chain_model(effects.drop_first(), effects.first().apply_model(v))
    }
}

/// An ordered pipeline of effects.
pub struct Chain {
    effects: Vec<EffectStep>,
}

impl Chain {
    /// The steps of the pipeline, in application order.
    pub closed spec fn spec_effects(&self) -> Seq<EffectStep> {
        self.effects@
    }

    /// An empty pipeline.
    pub fn new() -> (c: Chain)
        ensures
            c.spec_effects() == Seq::<EffectStep>::empty(),
    {
        Chain { effects: Vec::new() }
    }

    /// Append a step to the end of the pipeline.
    pub fn push(&mut self, effect: EffectStep)
        ensures
            final(self).spec_effects() == old(self).spec_effects().push(effect),
    {
        self.effects.push(effect);
    }

    /// Remove every step.
    pub fn clear(&mut self)
        ensures
            final(self).spec_effects() == Seq::<EffectStep>::empty(),
    {
        self.effects.clear();
    }

    /// Whether the pipeline has no steps.
    pub fn is_empty(&self) -> (r: bool)
        ensures
            r == (self.spec_effects().len() == 0),
    {
        self.effects.len() == 0
    }

    /// Number of steps.
    pub fn len(&self) -> (n: usize)
        ensures
            n == self.spec_effects().len(),
    {
        self.effects.len()
    }

    /// Run one sample through the whole pipeline.
    #[verifier::loop_isolation(false)]
    pub fn process(&mut self, input: i64) -> (r: i64)
        ensures
            *final(self) == *old(self),
            r == chain_model(old(self).spec_effects(), input as int),
    {
        let mut acc = input;
        let mut i: usize = 0;
        assert(self.effects@.skip(0) =~= self.effects@);
        while i < self.effects.len()
            invariant
                i <= self.effects@.len(),
                chain_model(self.effects@.skip(i as int), acc as int) == chain_model(
                    self.effects@,
                    input as int,
                ),
            decreases self.effects@.len() - i,
        {
            proof {
                assert(self.effects@.skip(i as int).drop_first() =~= self.effects@.skip(i + 1));
                assert(self.effects@.skip(i as int).first() == self.effects@[i as int]);
            }
            acc = self.effects[i].apply(acc);
            i = i + 1;
        }
        proof {
            assert(self.effects@.skip(self.effects@.len() as int) =~= Seq::<
                EffectStep,
            >::empty());
        }
        acc
    }

    /// Run every sample of a buffer through the whole pipeline, in place.
    #[verifier::loop_isolation(false)]
    pub fn process_buffer(&mut self, buffer: &mut Vec<i64>)
        ensures
            *final(self) == *old(self),
            final(buffer)@.len() == old(buffer)@.len(),
            forall|k: int|
                0 <= k < old(buffer)@.len() ==> final(buffer)@[k] == chain_model(
                    old(self).spec_effects(),
                    old(buffer)@[k] as int,
                ),
    {
        let mut i: usize = 0;
        while i < buffer.len()
            invariant
                i <= buffer@.len(),
                *self == *old(self),
                buffer@.len() == old(buffer)@.len(),
                forall|k: int|
                    0 <= k < i ==> buffer@[k] == chain_model(
                        old(self).spec_effects(),
                        old(buffer)@[k] as int,
                    ),
                forall|k: int| i <= k < buffer@.len() ==> buffer@[k] == old(buffer)@[k],
            decreases buffer@.len() - i,
        {
            let v = buffer[i];
            let w = self.process(v);
            buffer.set(i, w);
            i = i + 1;
        }
    }
}

impl Default for Chain {
    /// The default pipeline is empty.
    fn default() -> (c: Chain)
        ensures
            c.spec_effects() == Seq::<EffectStep>::empty(),
    {
        Chain::new()
    }
}

} // verus!
