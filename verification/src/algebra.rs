//! The effect algebra: composition of effects with each other, and
//! application of effects to snapshot entries. These are pure functions with
//! no access to the evaluator's state.

use vstd::prelude::*;

use crate::ast::{
    AddEffect, Effect, IntLiteral, SnapshotValueItemValue, SpecEffect, SpecEntry,
    SpecTransitionEffect, TransitionEffect,
};
use crate::error::{CrgError, SpecCrgError};

verus! {

/// What composing two effects yields. `Id` is the two-sided identity, two
/// additions add their payloads, the right transition supersedes the left
/// one, and every other pairing is absorbed into `Empty`.
pub open spec fn spec_compose(lhs: SpecEffect, rhs: SpecEffect) -> SpecEffect {
    match (lhs, rhs) {
        (SpecEffect::Id, r) => r,
        (l, SpecEffect::Id) => l,
        (SpecEffect::Add(a), SpecEffect::Add(b)) => SpecEffect::Add(a + b),
        (SpecEffect::Transition(_), SpecEffect::Transition(t)) => SpecEffect::Transition(t),
        _ => SpecEffect::Empty,
    }
}

/// Whether the machine integers can carry the composition of the two
/// effects: only the sum of two additions can leave their range.
pub open spec fn compose_fits(lhs: SpecEffect, rhs: SpecEffect) -> bool {
    (lhs matches SpecEffect::Add(a) && rhs matches SpecEffect::Add(b)) ==> i64::MIN
        <= lhs->Add_0 + rhs->Add_0 <= i64::MAX
}

/// What applying an effect to a prior snapshot entry yields. An integer
/// entry takes additions; the identity effect leaves any entry unchanged;
/// applying a transition to a state entry is intentionally left open; every
/// other pairing degrades the entry to `Empty`. A sum that leaves the range
/// of the machine integer is reported as an overflow.
pub open spec fn spec_apply(effect: SpecEffect, prior: SpecEntry) -> Result<
    SpecEntry,
    SpecCrgError,
> {
    match effect {
        SpecEffect::Id => Ok(prior),
        SpecEffect::Add(d) => match prior {
            SpecEntry::Int(n) => if i64::MIN <= n + d <= i64::MAX {
                Ok(SpecEntry::Int(n + d))
            } else {
                Err(SpecCrgError::IntegerOverflow)
            },
            _ => Ok(SpecEntry::Empty),
        },
        SpecEffect::Transition(_) => match prior {
            SpecEntry::State(_) => Err(SpecCrgError::Unimplemented),
            _ => Ok(SpecEntry::Empty),
        },
        SpecEffect::Empty => Ok(SpecEntry::Empty),
    }
}

impl AddEffect {
    /// Composes an addition with another effect.
    pub fn compose(&self, rhs: &Effect) -> (r: Effect)
        requires
            compose_fits(SpecEffect::Add(self@), rhs@),
        ensures
            r@ == spec_compose(SpecEffect::Add(self@), rhs@),
    {
        match rhs {
            Effect::AddEffect(b) => Effect::AddEffect(AddEffect(self.0 + b.0)),
            Effect::Id => Effect::AddEffect(AddEffect(self.0)),
            _ => Effect::Empty,
        }
    }
}

impl TransitionEffect {
    /// Composes a transition with another effect; the right transition's
    /// target always wins, modelling that the latest transition supersedes.
    pub fn compose(&self, rhs: &Effect) -> (r: Effect)
        ensures
            r@ == spec_compose(SpecEffect::Transition(self@), rhs@),
    {
        match rhs {
            Effect::TransitionEffect(t) => Effect::TransitionEffect(t.clone()),
            Effect::Id => Effect::TransitionEffect(self.clone()),
            _ => Effect::Empty,
        }
    }
}

impl Effect {
    /// Composes two effects.
    pub fn compose(&self, rhs: &Effect) -> (r: Effect)
        requires
            compose_fits(self@, rhs@),
        ensures
            r@ == spec_compose(self@, rhs@),
    {
        match self {
            Effect::AddEffect(a) => a.compose(rhs),
            Effect::TransitionEffect(t) => t.compose(rhs),
            Effect::Id => rhs.clone(),
            Effect::Empty => match rhs {
                Effect::Id => Effect::Empty,
                _ => Effect::Empty,
            },
        }
    }

    /// Applies this effect to a prior snapshot entry.
    pub fn apply(&self, value: &SnapshotValueItemValue) -> (r: Result<
        SnapshotValueItemValue,
        CrgError,
    >)
        ensures
            match r {
                Ok(entry) => spec_apply(self@, value@) == Ok::<SpecEntry, SpecCrgError>(entry@),
                Err(e) => spec_apply(self@, value@) == Err::<SpecEntry, SpecCrgError>(e@),
            },
    {
        value.apply(self)
    }
}

impl SnapshotValueItemValue {
    /// Applies an effect to this prior entry; the mirror image of
    /// `Effect::apply`.
    pub fn apply(&self, effect: &Effect) -> (r: Result<SnapshotValueItemValue, CrgError>)
        ensures
            match r {
                Ok(entry) => spec_apply(effect@, self@) == Ok::<SpecEntry, SpecCrgError>(entry@),
                Err(e) => spec_apply(effect@, self@) == Err::<SpecEntry, SpecCrgError>(e@),
            },
    {
        match effect {
            Effect::Id => Ok(self.clone()),
            Effect::AddEffect(d) => match self {
                SnapshotValueItemValue::Int(n) => match n.0.checked_add(d.0) {
                    Some(sum) => Ok(SnapshotValueItemValue::Int(IntLiteral(sum))),
                    None => Err(CrgError::IntegerOverflow),
                },
                _ => Ok(SnapshotValueItemValue::Empty),
            },
            Effect::TransitionEffect(_) => match self {
                SnapshotValueItemValue::StateLabel(_) => Err(CrgError::Unimplemented),
                _ => Ok(SnapshotValueItemValue::Empty),
            },
            Effect::Empty => Ok(SnapshotValueItemValue::Empty),
        }
    }
}

// ---------------------------------------------------------------------------
// Laws of the algebra
// ---------------------------------------------------------------------------

/// The identity effect is neutral on both sides of composition, for every
/// effect.
pub proof fn lemma_effect_compose_identity(e: SpecEffect)
    ensures
        spec_compose(SpecEffect::Id, e) == e,
        spec_compose(e, SpecEffect::Id) == e,
{
}

/// Composing two additions adds their payloads, for all integers.
pub proof fn lemma_compose_add(a: int, b: int)
    ensures
        spec_compose(SpecEffect::Add(a), SpecEffect::Add(b)) == SpecEffect::Add(a + b),
{
}

/// Composing two transitions keeps the right one's target, whatever the two
/// targets are.
pub proof fn lemma_compose_transition(x: SpecTransitionEffect, y: SpecTransitionEffect)
    ensures
        spec_compose(SpecEffect::Transition(x), SpecEffect::Transition(y)) == SpecEffect::Transition(
            y,
        ),
{
}

/// The identity effect leaves every snapshot entry unchanged under
/// application.
pub proof fn lemma_apply_identity(prior: SpecEntry)
    ensures
        spec_apply(SpecEffect::Id, prior) == Ok::<SpecEntry, SpecCrgError>(prior),
{
}

} // verus!
