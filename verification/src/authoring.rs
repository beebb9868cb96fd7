//! Concise results for ordinary actors.

use vstd::prelude::*;

verus! {

/// Whether an actor goes on after a turn.
#[derive(Debug, Clone, Copy, PartialEq, Eq, Structural)]
pub enum Step {
    /// It keeps its behavior and waits for the next event.
    Continue,
    /// It ends after this turn.
    Stop,
}

/// Effects emitted by a common actor turn that creates no child.
#[derive(Debug)]
pub struct Effect<S> {
    sends: Vec<S>,
    become_: Step,
}

/// The effects of one turn, in order, and what follows.
#[verifier::ext_equal]
pub struct EffectModel<S> {
    pub sends: Seq<S>,
    pub become_: Step,
}

impl<S> View for Effect<S> {
    type V = EffectModel<S>;

    closed spec fn view(&self) -> EffectModel<S> {
        EffectModel { sends: self.sends@, become_: self.become_ }
    }
}

impl<S> Effect<S> {
    /// Continue after emitting no effects.
    pub fn none() -> (effect: Self)
        ensures
            effect@ == (EffectModel::<S> { sends: Seq::empty(), become_: Step::Continue }),
    {
        Effect { sends: Vec::new(), become_: Step::Continue }
    }

    /// Continue after emitting one effect.
    pub fn send(effect: S) -> (effects: Self)
        ensures
            effects@ == (EffectModel { sends: seq![effect], become_: Step::Continue }),
    {
        let mut sends: Vec<S> = Vec::new();
        sends.push(effect);
        Effect { sends, become_: Step::Continue }
    }

    /// Continue after emitting the supplied effects in order.
    pub fn send_all(sends: Vec<S>) -> (effects: Self)
        ensures
            effects@ == (EffectModel { sends: sends@, become_: Step::Continue }),
    {
        Effect { sends, become_: Step::Continue }
    }

    /// Stop after this turn while preserving its effects.
    pub fn stop(self) -> (effects: Self)
        ensures
            effects@ == stopped(self@),
    {
        Effect { sends: self.sends, become_: Step::Stop }
    }

    /// The effects in order, and what follows.
    pub fn into_actions(self) -> (actions: (Vec<S>, Step))
        ensures
            actions.0@ == self@.sends,
            actions.1 == self@.become_,
    {
        (self.sends, self.become_)
    }
}

/// The same effects, after which the actor stops.
pub open spec fn stopped<S>(effects: EffectModel<S>) -> EffectModel<S> {
    EffectModel { sends: effects.sends, become_: Step::Stop }
}

/// Stopping keeps every effect of the turn, and stopping twice is stopping once.
pub proof fn law_stopping_preserves_effects<S>(effects: EffectModel<S>)
    ensures
        stopped(effects).sends == effects.sends,
        stopped(effects).become_ == Step::Stop,
        stopped(stopped(effects)) == stopped(effects),
{
}

} // verus!
