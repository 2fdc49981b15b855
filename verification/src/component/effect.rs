//! Effects that last for a number of turns.

use vstd::prelude::*;

verus! {

/// The kinds of lasting effects.
#[derive(Debug, Clone, Copy, PartialEq, Eq, Structural)]
pub enum EffectType {
    Burning,
}

/// A number of turns.
#[derive(Debug, Clone, Copy, PartialEq, Eq, Structural)]
pub struct Duration(pub u32);

impl Duration {
    /// The sum of two durations.
    pub fn plus(self, rhs: Duration) -> (d: Duration)
        requires
            self.0 + rhs.0 <= u32::MAX,
        ensures
            d.0 == self.0 + rhs.0,
    {
        Duration(self.0 + rhs.0)
    }

    /// What is left of the duration after `rhs`.
    pub fn minus(self, rhs: Duration) -> (d: Duration)
        requires
            rhs.0 <= self.0,
        ensures
            d.0 == self.0 - rhs.0,
    {
        Duration(self.0 - rhs.0)
    }
}

/// A lasting effect and the turns it still has to run.
#[derive(Debug, Clone, Copy, PartialEq, Eq, Structural)]
pub struct Effect {
    pub effect_type: EffectType,
    pub duration: Duration,
}

impl Effect {
    /// Whether both effects are of one kind.
    pub fn same_type(&self, other: &Effect) -> (b: bool)
        ensures
            b == (self.effect_type == other.effect_type),
    {
        self.effect_type == other.effect_type
    }

    /// Prolongs the effect by the duration of `other`.
    pub fn merge_with(&mut self, other: &Effect)
        requires
            old(self).duration.0 + other.duration.0 <= u32::MAX,
        ensures
            final(self).effect_type == old(self).effect_type,
            final(self).duration.0 == old(self).duration.0 + other.duration.0,
    {
        self.duration = self.duration.plus(other.duration);
    }

    /// Lets `amount` turns pass.
    pub fn tick(&mut self, amount: u32)
        requires
            amount <= old(self).duration.0,
        ensures
            final(self).effect_type == old(self).effect_type,
            final(self).duration.0 == old(self).duration.0 - amount,
    {
        self.duration = self.duration.minus(Duration(amount));
    }
}

/// The index of the first effect of kind `effect_type`, if there is one.
pub open spec fn first_of_type(effects: Seq<Effect>, effect_type: EffectType) -> Option<int>
    decreases effects.len(),
{
    if effects.len() == 0 {
        None
    } else if effects[0].effect_type == effect_type {
        Some(0)
    } else {
        match first_of_type(effects.drop_first(), effect_type) {
            Some(i) => Some(i + 1),
            None => None,
        }
    }
}

/// The effects with `effect` added: merged into the first effect of its
/// kind, or appended where there is none.
pub open spec fn with_effect(effects: Seq<Effect>, effect: Effect) -> Seq<Effect> {
    match first_of_type(effects, effect.effect_type) {
        Some(i) => effects.update(
            i,
            Effect {
                effect_type: effects[i].effect_type,
                duration: Duration((effects[i].duration.0 + effect.duration.0) as u32),
            },
        ),
        None => effects.push(effect),
    }
}

/// The effects after one turn has passed for each.
pub open spec fn ticked(effects: Seq<Effect>) -> Seq<Effect> {
    Seq::new(
        effects.len(),
        |i: int|
            Effect {
                effect_type: effects[i].effect_type,
                duration: Duration((effects[i].duration.0 - 1) as u32),
            },
    )
}

/// The effects that are active on an entity, at most one of each kind.
#[derive(Debug)]
pub struct EffectHandler {
    pub active_effects: Vec<Effect>,
}

/// What `first_of_type` finds is the index of an effect of that kind, and no
/// effect before it is of that kind.
pub proof fn lemma_first_of_type(effects: Seq<Effect>, effect_type: EffectType)
    ensures
        match first_of_type(effects, effect_type) {
            Some(i) => 0 <= i < effects.len() && effects[i].effect_type == effect_type && forall|
                j: int,
            | 0 <= j < i ==> effects[j].effect_type != effect_type,
            None => forall|j: int| 0 <= j < effects.len() ==> effects[j].effect_type != effect_type,
        },
    decreases effects.len(),
{
    if effects.len() > 0 && effects[0].effect_type != effect_type {
        lemma_first_of_type(effects.drop_first(), effect_type);
        match first_of_type(effects.drop_first(), effect_type) {
            Some(i) => {
                assert forall|j: int| 0 <= j < i + 1 implies effects[j].effect_type
                    != effect_type by {
                    if j > 0 {
                        assert(effects[j] == effects.drop_first()[j - 1]);
                    }
                }
            },
            None => {
                assert forall|j: int| 0 <= j < effects.len() implies effects[j].effect_type
                    != effect_type by {
                    if j > 0 {
                        assert(effects[j] == effects.drop_first()[j - 1]);
                    }
                }
            },
        }
    }
}

impl EffectHandler {
    /// A handler without effects.
    pub fn new() -> (h: EffectHandler)
        ensures
            h.active_effects@ == Seq::<Effect>::empty(),
    {
        EffectHandler { active_effects: Vec::new() }
    }

    /// Adds `effect`: an active effect of the same kind is prolonged by its
    /// duration, else the effect becomes active.
    pub fn add_effect(&mut self, effect: Effect)
        requires
            forall|i: int|
                0 <= i < old(self).active_effects@.len()
                    ==> #[trigger] old(self).active_effects@[i].duration.0 + effect.duration.0 <= u32::MAX,
        ensures
            final(self).active_effects@ == with_effect(old(self).active_effects@, effect),
    {
        proof {
            lemma_first_of_type(self.active_effects@, effect.effect_type);
        }
        let mut i: usize = 0;
        while i < self.active_effects.len()
            invariant
                i <= self.active_effects@.len(),
                self.active_effects@ == old(self).active_effects@,
                forall|j: int| 0 <= j < i
                    ==> self.active_effects@[j].effect_type != effect.effect_type,
                forall|k: int|
                    0 <= k < self.active_effects@.len()
                        ==> #[trigger] self.active_effects@[k].duration.0
                        + effect.duration.0 <= u32::MAX,
            decreases self.active_effects@.len() - i,
        {
            if self.active_effects[i].same_type(&effect) {
                let mut existing = self.active_effects[i];
                existing.merge_with(&effect);
                self.active_effects[i] = existing;
                return ;
            }
            i = i + 1;
        }
        self.active_effects.push(effect);
    }

    /// Lets one turn pass for every active effect.
    pub fn tick_all(&mut self)
        requires
            forall|i: int|
                0 <= i < old(self).active_effects@.len()
                    ==> #[trigger] old(self).active_effects@[i].duration.0 >= 1,
        ensures
            final(self).active_effects@ == ticked(old(self).active_effects@),
    {
        let mut i: usize = 0;
        while i < self.active_effects.len()
            invariant
                i <= self.active_effects@.len(),
                self.active_effects@.len() == old(self).active_effects@.len(),
                forall|j: int|
                    0 <= j < i ==> self.active_effects@[j] == ticked(old(self).active_effects@)[j],
                forall|j: int|
                    i <= j < self.active_effects@.len()
                        ==> self.active_effects@[j] == old(self).active_effects@[j],
                forall|k: int|
                    0 <= k < old(self).active_effects@.len()
                        ==> #[trigger] old(self).active_effects@[k].duration.0 >= 1,
            decreases self.active_effects@.len() - i,
        {
            let mut effect = self.active_effects[i];
            effect.tick(1);
            self.active_effects[i] = effect;
            i = i + 1;
        }
        assert(self.active_effects@ =~= ticked(old(self).active_effects@));
    }
}

} // verus!
