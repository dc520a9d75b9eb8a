use vstd::prelude::*;

verus! {

/// Whether a frame shows the stimulus or the background.
#[derive(Clone, Copy, Debug, PartialEq, Eq, Structural)]
pub enum StimulusState {
    Stimulus,
    Background,
}

/// The state that a counter value selects: the stimulus exactly at zero.
pub open spec fn state_of(value: nat) -> StimulusState {
    if value == 0 {
        StimulusState::Stimulus
    } else {
        StimulusState::Background
    }
}

/// The counter value that follows `value` in a cycle of length `period`.
pub open spec fn next_value(value: nat, period: nat) -> nat {
    if value + 1 >= period {
        0
    } else {
        (value + 1) as nat
    }
}

/// The counter value after `steps` advances from `value`.
pub open spec fn advance_by(value: nat, steps: nat, period: nat) -> nat
    decreases steps,
{
    if steps == 0 {
        value
    } else {
        advance_by(next_value(value, period), (steps - 1) as nat, period)
    }
}

/// How many of `steps` consecutive opportunities, the first at counter `value`,
/// select the stimulus.
pub open spec fn stimulus_count(value: nat, steps: nat, period: nat) -> nat
    decreases steps,
{
    if steps == 0 {
        0
    } else {
        (if state_of(value) == StimulusState::Stimulus { 1nat } else { 0nat })
            + stimulus_count(next_value(value, period), (steps - 1) as nat, period)
    }
}

proof fn lemma_advance_by_closed_form(value: nat, steps: nat, period: nat)
    requires
        value < period,
        steps <= period,
    ensures
        advance_by(value, steps, period) == if value + steps < period {
            value + steps
        } else {
            (value + steps - period) as nat
        },
    decreases steps,
{
    if steps > 0 {
        lemma_advance_by_closed_form(next_value(value, period), (steps - 1) as nat, period);
    }
}

/// The counter has period exactly `period`: it is back at its start after
/// `period` advances, and at no earlier positive count of advances.
pub proof fn lemma_cycle_period(value: nat, period: nat)
    requires
        value < period,
    ensures
        advance_by(value, period, period) == value,
        forall|k: nat| 0 < k < period ==> advance_by(value, k, period) != value,
{
    lemma_advance_by_closed_form(value, period, period);
    assert forall|k: nat| 0 < k < period implies advance_by(value, k, period) != value by {
        lemma_advance_by_closed_form(value, k, period);
    }
}

proof fn lemma_no_stimulus_before_wrap(value: nat, steps: nat, period: nat)
    requires
        0 < value,
        value + steps <= period,
    ensures
        stimulus_count(value, steps, period) == 0,
    decreases steps,
{
    if steps > 0 {
        if value + 1 < period {
            lemma_no_stimulus_before_wrap((value + 1) as nat, (steps - 1) as nat, period);
        } else {
            assert(stimulus_count(0, 0, period) == 0);
        }
    }
}

proof fn lemma_stimulus_count_wraps(value: nat, steps: nat, period: nat)
    requires
        0 < value < period,
        steps >= period - value,
    ensures
        stimulus_count(value, steps, period) == stimulus_count(
            0,
            (steps - (period - value)) as nat,
            period,
        ),
    decreases period - value,
{
    if value + 1 < period {
        lemma_stimulus_count_wraps((value + 1) as nat, (steps - 1) as nat, period);
    }
}

/// Any `period` consecutive opportunities hold exactly one stimulus frame.
pub proof fn lemma_one_stimulus_per_period(value: nat, period: nat)
    requires
        value < period,
    ensures
        stimulus_count(value, period, period) == 1,
{
    if value == 0 {
        if period > 1 {
            lemma_no_stimulus_before_wrap(1, (period - 1) as nat, period);
        }
    } else {
        lemma_stimulus_count_wraps(value, period, period);
        assert(stimulus_count(0, value, period) == 1) by {
            lemma_no_stimulus_before_wrap(1, (value - 1) as nat, period);
        }
    }
}

/// A counter modulo a fixed period: one full cycle per `period` presented frames.
#[derive(Clone, Copy, Debug)]
pub struct FrameCycle {
    value: u16,
    period: u16,
}

impl FrameCycle {
    pub closed spec fn value_spec(&self) -> nat {
        self.value as nat
    }

    pub closed spec fn period_spec(&self) -> nat {
        self.period as nat
    }

    /// The counter stays inside `[0, period)`.
    pub open spec fn wf(&self) -> bool {
        0 < self.period_spec() && self.value_spec() < self.period_spec()
    }

    /// A cycle of the given period, starting at zero.
    pub fn new(period: u16) -> (r: FrameCycle)
        requires
            period > 0,
        ensures
            r.wf(),
            r.value_spec() == 0,
            r.period_spec() == period,
    {
        FrameCycle { value: 0, period }
    }

    pub fn value(&self) -> (r: u16)
        ensures
            r == self.value_spec(),
    {
        self.value
    }

    pub fn period(&self) -> (r: u16)
        ensures
            r == self.period_spec(),
    {
        self.period
    }

    /// The state that the current value selects.
    pub fn stimulus_state(&self) -> (r: StimulusState)
        ensures
            r == state_of(self.value_spec()),
            (r == StimulusState::Stimulus) == (self.value_spec() == 0),
    {
        if self.value == 0 {
            StimulusState::Stimulus
        } else {
            StimulusState::Background
        }
    }

    /// Moves the counter on by one, wrapping at the period.
    pub fn advance(&mut self)
        requires
            old(self).wf(),
        ensures
            final(self).wf(),
            final(self).period_spec() == old(self).period_spec(),
            final(self).value_spec() == next_value(old(self).value_spec(), old(self).period_spec()),
            final(self).value_spec() as int == (old(self).value_spec() as int + 1) % (old(self).period_spec() as int),
    {
        if self.value + 1 == self.period {
            self.value = 0;
        } else {
            self.value = self.value + 1;
        }
        proof {
            let p = self.period as int;
            let v = old(self).value as int;
            if v + 1 == p {
                vstd::arithmetic::div_mod::lemma_mod_self_0(p);
            } else {
                vstd::arithmetic::div_mod::lemma_small_mod((v + 1) as nat, p as nat);
            }
        }
    }
}

} // verus!
