//! The response components: one for each kind of event. A response names the
//! reaction of its entity to events of that kind and holds the arguments that
//! the reaction hands on.

use vstd::prelude::*;
use crate::event::{Arguments, MessageArguments, ResponseFuctionName};

verus! {

/// What every response holds: the arguments and the name of the reaction.
pub struct ResponseParts {
    pub args: Arguments,
    pub msg_args: MessageArguments,
    pub response: ResponseFuctionName,
}

/// Half of the damage, in thousandths.
pub const HALF_DAMAGE: u32 = 500;

/// How an entity reacts to a spell.
#[derive(Debug)]
pub struct SpellResponse {
    pub args: Arguments,
    pub msg_args: MessageArguments,
    pub response: ResponseFuctionName,
}

impl SpellResponse {
    /// The arguments and the name of the reaction.
    pub open spec fn parts(self) -> ResponseParts {
        ResponseParts { args: self.args, msg_args: self.msg_args, response: self.response }
    }
}

impl Clone for SpellResponse {
    fn clone(&self) -> (r: SpellResponse)
        ensures
            r == *self,
    {
        SpellResponse { args: self.args, msg_args: self.msg_args.clone(), response: self.response }
    }
}

impl Default for SpellResponse {
    fn default() -> (r: SpellResponse)
        ensures
            r.args == Arguments::new(),
            r.msg_args == MessageArguments::new(),
            r.response == ResponseFuctionName::Default,
    {
        SpellResponse {
            args: Arguments::new(),
            msg_args: MessageArguments::new(),
            response: ResponseFuctionName::Default,
        }
    }
}

/// How an entity reacts to a noise.
#[derive(Debug)]
pub struct NoiseResponse {
    pub threshold: u32,
    pub args: Arguments,
    pub msg_args: MessageArguments,
    pub response: ResponseFuctionName,
}

impl NoiseResponse {
    /// The arguments and the name of the reaction.
    pub open spec fn parts(self) -> ResponseParts {
        ResponseParts { args: self.args, msg_args: self.msg_args, response: self.response }
    }
}

impl Clone for NoiseResponse {
    fn clone(&self) -> (r: NoiseResponse)
        ensures
            r == *self,
    {
        NoiseResponse { threshold: self.threshold, args: self.args, msg_args: self.msg_args.clone(), response: self.response }
    }
}

impl Default for NoiseResponse {
    fn default() -> (r: NoiseResponse)
        ensures
            r.threshold == 0,
            r.args == Arguments::new(),
            r.msg_args == MessageArguments::new(),
            r.response == ResponseFuctionName::Default,
    {
        NoiseResponse {
            threshold: 0, args: Arguments::new(),
            msg_args: MessageArguments::new(),
            response: ResponseFuctionName::Default,
        }
    }
}

impl NoiseResponse {
    /// The default response of an entity that wakes up at noise of at least
    /// `threshold`.
    pub fn new(threshold: u32) -> (r: NoiseResponse)
        ensures
            r.threshold == threshold,
            r.args == Arguments::new(),
            r.msg_args == MessageArguments::new(),
            r.response == ResponseFuctionName::Default,
    {
        NoiseResponse {
            threshold,
            args: Arguments::new(),
            msg_args: MessageArguments::new(),
            response: ResponseFuctionName::Default,
        }
    }
}

/// How an entity reacts to a melee attack.
#[derive(Debug)]
pub struct AttackResponse {
    pub args: Arguments,
    pub msg_args: MessageArguments,
    pub response: ResponseFuctionName,
}

impl AttackResponse {
    /// The arguments and the name of the reaction.
    pub open spec fn parts(self) -> ResponseParts {
        ResponseParts { args: self.args, msg_args: self.msg_args, response: self.response }
    }
}

impl Clone for AttackResponse {
    fn clone(&self) -> (r: AttackResponse)
        ensures
            r == *self,
    {
        AttackResponse { args: self.args, msg_args: self.msg_args.clone(), response: self.response }
    }
}

impl Default for AttackResponse {
    fn default() -> (r: AttackResponse)
        ensures
            r.args == Arguments::new(),
            r.msg_args == MessageArguments::new(),
            r.response == ResponseFuctionName::Default,
    {
        AttackResponse {
            args: Arguments::new(),
            msg_args: MessageArguments::new(),
            response: ResponseFuctionName::Default,
        }
    }
}

impl AttackResponse {
    /// The entity takes half of the damage.
    pub fn new_half_damage() -> (r: AttackResponse)
        ensures
            r.args == (Arguments { damage_multiplier: Some(HALF_DAMAGE), damage_multiplier_override: None }),
            r.msg_args == MessageArguments::new(),
            r.response == ResponseFuctionName::Default,
    {
        AttackResponse {
            args: Arguments { damage_multiplier: Some(HALF_DAMAGE), damage_multiplier_override: None },
            msg_args: MessageArguments::new(),
            response: ResponseFuctionName::Default,
        }
    }

    /// The default reaction with the given arguments.
    pub fn new_with_args(args: Arguments, msg_args: MessageArguments) -> (r: AttackResponse)
        ensures
            r.args == args,
            r.msg_args == msg_args,
            r.response == ResponseFuctionName::Default,
    {
        AttackResponse { args, msg_args, response: ResponseFuctionName::Default }
    }

    /// The entity throws every attack back at the attacker.
    pub fn new_reflect() -> (r: AttackResponse)
        ensures
            r.args == Arguments::new(),
            r.msg_args == MessageArguments::new(),
            r.response == ResponseFuctionName::ReflectAll,
    {
        AttackResponse {
            args: Arguments::new(),
            msg_args: MessageArguments::new(),
            response: ResponseFuctionName::ReflectAll,
        }
    }
}

/// How an entity reacts to a ranged attack.
#[derive(Debug)]
pub struct ShootResponse {
    pub args: Arguments,
    pub msg_args: MessageArguments,
    pub response: ResponseFuctionName,
}

impl ShootResponse {
    /// The arguments and the name of the reaction.
    pub open spec fn parts(self) -> ResponseParts {
        ResponseParts { args: self.args, msg_args: self.msg_args, response: self.response }
    }
}

impl Clone for ShootResponse {
    fn clone(&self) -> (r: ShootResponse)
        ensures
            r == *self,
    {
        ShootResponse { args: self.args, msg_args: self.msg_args.clone(), response: self.response }
    }
}

impl Default for ShootResponse {
    fn default() -> (r: ShootResponse)
        ensures
            r.args == Arguments::new(),
            r.msg_args == MessageArguments::new(),
            r.response == ResponseFuctionName::Default,
    {
        ShootResponse {
            args: Arguments::new(),
            msg_args: MessageArguments::new(),
            response: ResponseFuctionName::Default,
        }
    }
}

impl ShootResponse {
    /// The entity takes half of the damage.
    pub fn new_half_damage() -> (r: ShootResponse)
        ensures
            r.args == (Arguments { damage_multiplier: Some(HALF_DAMAGE), damage_multiplier_override: None }),
            r.msg_args == MessageArguments::new(),
            r.response == ResponseFuctionName::Default,
    {
        ShootResponse {
            args: Arguments { damage_multiplier: Some(HALF_DAMAGE), damage_multiplier_override: None },
            msg_args: MessageArguments::new(),
            response: ResponseFuctionName::Default,
        }
    }

    /// The default reaction with the given arguments.
    pub fn new_with_args(args: Arguments, msg_args: MessageArguments) -> (r: ShootResponse)
        ensures
            r.args == args,
            r.msg_args == msg_args,
            r.response == ResponseFuctionName::Default,
    {
        ShootResponse { args, msg_args, response: ResponseFuctionName::Default }
    }

    /// The entity throws every attack back at the attacker.
    pub fn new_reflect() -> (r: ShootResponse)
        ensures
            r.args == Arguments::new(),
            r.msg_args == MessageArguments::new(),
            r.response == ResponseFuctionName::ReflectAll,
    {
        ShootResponse {
            args: Arguments::new(),
            msg_args: MessageArguments::new(),
            response: ResponseFuctionName::ReflectAll,
        }
    }
}

/// How an entity reacts to an interaction.
#[derive(Debug)]
pub struct InteractResponse {
    pub args: Arguments,
    pub msg_args: MessageArguments,
    pub response: ResponseFuctionName,
}

impl InteractResponse {
    /// The arguments and the name of the reaction.
    pub open spec fn parts(self) -> ResponseParts {
        ResponseParts { args: self.args, msg_args: self.msg_args, response: self.response }
    }
}

impl Clone for InteractResponse {
    fn clone(&self) -> (r: InteractResponse)
        ensures
            r == *self,
    {
        InteractResponse { args: self.args, msg_args: self.msg_args.clone(), response: self.response }
    }
}

impl Default for InteractResponse {
    fn default() -> (r: InteractResponse)
        ensures
            r.args == Arguments::new(),
            r.msg_args == MessageArguments::new(),
            r.response == ResponseFuctionName::Default,
    {
        InteractResponse {
            args: Arguments::new(),
            msg_args: MessageArguments::new(),
            response: ResponseFuctionName::Default,
        }
    }
}

/// How an entity reacts to being walked over.
#[derive(Debug)]
pub struct PickupResponse {
    pub args: Arguments,
    pub msg_args: MessageArguments,
    pub response: ResponseFuctionName,
}

impl PickupResponse {
    /// The arguments and the name of the reaction.
    pub open spec fn parts(self) -> ResponseParts {
        ResponseParts { args: self.args, msg_args: self.msg_args, response: self.response }
    }
}

impl Clone for PickupResponse {
    fn clone(&self) -> (r: PickupResponse)
        ensures
            r == *self,
    {
        PickupResponse { args: self.args, msg_args: self.msg_args.clone(), response: self.response }
    }
}

impl Default for PickupResponse {
    fn default() -> (r: PickupResponse)
        ensures
            r.args == Arguments::new(),
            r.msg_args == MessageArguments::new(),
            r.response == ResponseFuctionName::Pickup,
    {
        PickupResponse {
            args: Arguments::new(),
            msg_args: MessageArguments::new(),
            response: ResponseFuctionName::Pickup,
        }
    }
}

/// How an entity reacts to its own death.
#[derive(Debug)]
pub struct DeathResponse {
    pub args: Arguments,
    pub msg_args: MessageArguments,
    pub response: ResponseFuctionName,
}

impl DeathResponse {
    /// The arguments and the name of the reaction.
    pub open spec fn parts(self) -> ResponseParts {
        ResponseParts { args: self.args, msg_args: self.msg_args, response: self.response }
    }
}

impl Clone for DeathResponse {
    fn clone(&self) -> (r: DeathResponse)
        ensures
            r == *self,
    {
        DeathResponse { args: self.args, msg_args: self.msg_args.clone(), response: self.response }
    }
}

impl Default for DeathResponse {
    fn default() -> (r: DeathResponse)
        ensures
            r.args == Arguments::new(),
            r.msg_args == MessageArguments::new(),
            r.response == ResponseFuctionName::Default,
    {
        DeathResponse {
            args: Arguments::new(),
            msg_args: MessageArguments::new(),
            response: ResponseFuctionName::Default,
        }
    }
}

} // verus!
