use vstd::prelude::*;

use crate::cycle::{
    advance_by, lemma_one_stimulus_per_period, next_value, state_of, stimulus_count, FrameCycle,
    StimulusState,
};
use crate::link::{command_for, command_of, TriggerCommand};

verus! {

/// How the presentation backend answered one attempt to draw and present.
#[derive(Clone, Copy, Debug, PartialEq, Eq, Structural)]
pub enum Presentation {
    Presented,
    Lost,
    Outdated,
    Timeout,
    OutOfMemory,
}

/// Whether a presentation answer leaves the loop running.
pub open spec fn is_recoverable(outcome: Presentation) -> bool {
    outcome != Presentation::Presented && outcome != Presentation::OutOfMemory
}

/// What the loop does once presentation has answered.
#[derive(Clone, Copy, Debug, PartialEq, Eq, Structural)]
pub enum LoopAction {
    /// Write this command over the trigger link.
    Signal(TriggerCommand),
    /// Write nothing for this opportunity and wait for the next one.
    Skip,
    /// Stop the loop.
    Terminate,
}

/// The action that follows a presentation answer, given the command that the
/// opportunity chose (if one was chosen).
pub open spec fn finish_action(pending: Option<TriggerCommand>, outcome: Presentation) -> LoopAction {
    match outcome {
        Presentation::Presented => match pending {
            Some(cmd) => LoopAction::Signal(cmd),
            None => LoopAction::Skip,
        },
        Presentation::OutOfMemory => LoopAction::Terminate,
        _ => LoopAction::Skip,
    }
}

/// The action of a whole opportunity that began at counter `value`.
pub open spec fn opportunity_action(value: nat, outcome: Presentation) -> LoopAction {
    finish_action(Some(command_of(state_of(value))), outcome)
}

/// The pair of colors that the loop alternates between.
#[derive(Debug)]
pub struct ColorSpec<C> {
    pub background: C,
    pub stimulus: C,
}

impl<C> ColorSpec<C> {
    pub fn new(background: C, stimulus: C) -> (r: ColorSpec<C>)
        ensures
            r.background == background,
            r.stimulus == stimulus,
    {
        ColorSpec { background, stimulus }
    }

    /// The color to draw in a given state.
    pub fn color_for(&self, state: StimulusState) -> (r: &C)
        ensures
            *r == match state {
                StimulusState::Stimulus => self.stimulus,
                StimulusState::Background => self.background,
            },
    {
        match state {
            StimulusState::Stimulus => &self.stimulus,
            StimulusState::Background => &self.background,
        }
    }
}

/// The decisions of the host's render/trigger loop: which state each
/// presentation opportunity shows, and whether a trigger is written for it.
///
/// Each opportunity is `begin_opportunity` (before drawing), then
/// `finish_opportunity` with what presentation answered.
pub struct TriggerLoop {
    cycle: FrameCycle,
    pending: Option<TriggerCommand>,
}

impl TriggerLoop {
    /// The counter value of the next opportunity.
    pub closed spec fn value_spec(&self) -> nat {
        self.cycle.value_spec()
    }

    pub closed spec fn period_spec(&self) -> nat {
        self.cycle.period_spec()
    }

    /// The command chosen by the opportunity in progress, if any.
    pub closed spec fn pending_spec(&self) -> Option<TriggerCommand> {
        self.pending
    }

    pub open spec fn wf(&self) -> bool {
        0 < self.period_spec() && self.value_spec() < self.period_spec()
    }

    /// A loop whose stimulus comes once every `period` opportunities, the
    /// first one at once.
    pub fn new(period: u16) -> (r: TriggerLoop)
        requires
            period > 0,
        ensures
            r.wf(),
            r.value_spec() == 0,
            r.period_spec() == period,
            r.pending_spec() is None,
    {
        TriggerLoop { cycle: FrameCycle::new(period), pending: None }
    }

    /// The counter value that the next opportunity will read.
    pub fn frame_cycle(&self) -> (r: u16)
        ensures
            r == self.value_spec(),
    {
        self.cycle.value()
    }

    pub fn period(&self) -> (r: u16)
        ensures
            r == self.period_spec(),
    {
        self.cycle.period()
    }

    pub fn pending(&self) -> (r: Option<TriggerCommand>)
        ensures
            r == self.pending_spec(),
    {
        self.pending
    }

    /// Starts an opportunity: reads the counter, derives the state to draw
    /// and its command, and advances the counter at once, so that whatever
    /// presentation answers, the next opportunity reads the next value.
    pub fn begin_opportunity(&mut self) -> (r: StimulusState)
        requires
            old(self).wf(),
        ensures
            final(self).wf(),
            r == state_of(old(self).value_spec()),
            final(self).value_spec() == next_value(old(self).value_spec(), old(self).period_spec()),
            final(self).period_spec() == old(self).period_spec(),
            final(self).pending_spec() == Some(command_of(r)),
    {
        let state = self.cycle.stimulus_state();
        self.cycle.advance();
        self.pending = Some(command_for(state));
        state
    }

    /// Ends an opportunity with what presentation answered. A trigger is
    /// written only after a successful presentation; a recoverable failure
    /// skips it, and running out of memory ends the loop.
    pub fn finish_opportunity(&mut self, outcome: Presentation) -> (r: LoopAction)
        requires
            old(self).wf(),
        ensures
            final(self).wf(),
            r == finish_action(old(self).pending_spec(), outcome),
            final(self).value_spec() == old(self).value_spec(),
            final(self).period_spec() == old(self).period_spec(),
            final(self).pending_spec() is None,
    {
        let pending = self.pending;
        self.pending = None;
        match outcome {
            Presentation::Presented => match pending {
                Some(cmd) => LoopAction::Signal(cmd),
                None => LoopAction::Skip,
            },
            Presentation::OutOfMemory => LoopAction::Terminate,
            _ => LoopAction::Skip,
        }
    }
}

/// A trigger is written only for an opportunity whose drawing was presented,
/// and only with the command that the opportunity chose before drawing.
pub proof fn lemma_signal_follows_presentation(
    pending: Option<TriggerCommand>,
    outcome: Presentation,
    cmd: TriggerCommand,
)
    requires
        finish_action(pending, outcome) == LoopAction::Signal(cmd),
    ensures
        outcome == Presentation::Presented,
        pending == Some(cmd),
{
}

/// The actions of consecutive opportunities, the first at counter `value`,
/// that presentation answers with `outcomes` in turn.
pub open spec fn run_actions(value: nat, outcomes: Seq<Presentation>, period: nat) -> Seq<LoopAction>
    decreases outcomes.len(),
{
    if outcomes.len() == 0 {
        Seq::empty()
    } else {
        seq![opportunity_action(value, outcomes[0])] + run_actions(
            next_value(value, period),
            outcomes.drop_first(),
            period,
        )
    }
}

/// Opportunity `i` of a run acts on the counter value reached after `i`
/// advances, whatever presentation answered before it.
pub proof fn lemma_run_actions_index(value: nat, outcomes: Seq<Presentation>, period: nat)
    ensures
        run_actions(value, outcomes, period).len() == outcomes.len(),
        forall|i: int|
            0 <= i < outcomes.len() ==> #[trigger] run_actions(value, outcomes, period)[i]
                == opportunity_action(advance_by(value, i as nat, period), outcomes[i]),
    decreases outcomes.len(),
{
    if outcomes.len() > 0 {
        let rest = outcomes.drop_first();
        lemma_run_actions_index(next_value(value, period), rest, period);
        assert forall|i: int| 0 <= i < outcomes.len() implies #[trigger] run_actions(
            value,
            outcomes,
            period,
        )[i] == opportunity_action(advance_by(value, i as nat, period), outcomes[i]) by {
            if i > 0 {
                assert(rest[i - 1] == outcomes[i]);
                assert(advance_by(value, i as nat, period) == advance_by(
                    next_value(value, period),
                    (i - 1) as nat,
                    period,
                ));
            }
        }
    }
}

/// A recoverable presentation failure at opportunity `k` writes no trigger
/// there and changes the action of no other opportunity: the counter still
/// advances, and the next opportunity proceeds on its own state.
pub proof fn lemma_recoverable_failure_skips(
    value: nat,
    outcomes: Seq<Presentation>,
    period: nat,
    k: int,
    failure: Presentation,
)
    requires
        0 <= k < outcomes.len(),
        is_recoverable(failure),
    ensures
        run_actions(value, outcomes.update(k, failure), period)[k] == LoopAction::Skip,
        run_actions(value, outcomes.update(k, failure), period) =~= run_actions(
            value,
            outcomes,
            period,
        ).update(k, LoopAction::Skip),
{
    let failed = outcomes.update(k, failure);
    lemma_run_actions_index(value, outcomes, period);
    lemma_run_actions_index(value, failed, period);
    assert(run_actions(value, failed, period)[k] == LoopAction::Skip);
}

/// How many of `actions` write an `Assert`.
pub open spec fn assert_count(actions: Seq<LoopAction>) -> nat
    decreases actions.len(),
{
    if actions.len() == 0 {
        0
    } else {
        (if actions[0] == LoopAction::Signal(TriggerCommand::Assert) { 1nat } else { 0nat })
            + assert_count(actions.drop_first())
    }
}

/// `n` opportunities in a row whose presentation succeeds.
pub open spec fn all_presented(n: nat) -> Seq<Presentation> {
    Seq::new(n, |i: int| Presentation::Presented)
}

proof fn lemma_asserts_match_stimuli(value: nat, n: nat, period: nat)
    ensures
        assert_count(run_actions(value, all_presented(n), period)) == stimulus_count(value, n, period),
    decreases n,
{
    if n > 0 {
        let outs = all_presented(n);
        assert(outs.drop_first() =~= all_presented((n - 1) as nat));
        lemma_asserts_match_stimuli(next_value(value, period), (n - 1) as nat, period);
        let actions = run_actions(value, outs, period);
        let rest = run_actions(next_value(value, period), outs.drop_first(), period);
        assert(actions.drop_first() =~= rest);
    }
}

/// Over any `period` consecutive opportunities whose presentation succeeds,
/// exactly one writes `Assert`: the one that shows the stimulus.
pub proof fn lemma_one_assert_per_period(value: nat, period: nat)
    requires
        value < period,
    ensures
        assert_count(run_actions(value, all_presented(period), period)) == 1,
{
    lemma_asserts_match_stimuli(value, period, period);
    lemma_one_stimulus_per_period(value, period);
}

/// The longest gap between two presented frames, in milliseconds, that does
/// not count as a skipped frame.
pub const SKIPPED_FRAME_MS: u128 = 20;

/// Whether the time since the previous frame shows a skipped frame.
pub fn is_frame_skipped(elapsed_ms: u128) -> (r: bool)
    ensures
        r == (elapsed_ms > SKIPPED_FRAME_MS),
{
    elapsed_ms > SKIPPED_FRAME_MS
}

} // verus!
