//! The messages that tell the player what happened.
//!
//! An attack is told as the attacker's name, the verb of the hit, the
//! defender's name, the damage and an addendum: `Bat bit Hero for 3 damage.
//! You are now poisoned.` Damage that is taken without an attacker is told as
//! the defender's name, the damage and an addendum: `Bat took 15 damage. It's
//! very effective.` Someone without a name is called `Someone`.

use std::collections::VecDeque;
use vstd::prelude::*;
use vstd::string::*;
use crate::component::Name;

verus! {

/// The letter of a digit.
pub open spec fn digit(d: nat) -> char {
    if d == 0 {
        '0'
    } else if d == 1 {
        '1'
    } else if d == 2 {
        '2'
    } else if d == 3 {
        '3'
    } else if d == 4 {
        '4'
    } else if d == 5 {
        '5'
    } else if d == 6 {
        '6'
    } else if d == 7 {
        '7'
    } else if d == 8 {
        '8'
    } else {
        '9'
    }
}

/// The number `n` in decimal digits.
pub open spec fn decimal(n: nat) -> Seq<char>
    decreases n,
{
    if n < 10 {
        seq![digit(n)]
    } else {
        decimal(n / 10).push(digit(n % 10))
    }
}

/// The name, or `Someone` where there is none.
pub open spec fn name_or_someone(name: Option<&Name>) -> Seq<char> {
    match name {
        Some(n) => n.0@,
        None => "Someone"@,
    }
}

/// The message that tells an attack.
pub open spec fn attack_message(
    attacker: Seq<char>,
    defender: Seq<char>,
    hit_message: Seq<char>,
    addendum: Seq<char>,
    damage_taken: u32,
) -> Seq<char> {
    attacker + " "@ + hit_message + " "@ + defender + " for "@ + decimal(damage_taken as nat)
        + " damage. "@ + addendum
}

/// The message that tells damage taken.
pub open spec fn take_damage_message(defender: Seq<char>, damage_taken: u32, addendum: Seq<char>)
    -> Seq<char> {
    defender + " took "@ + decimal(damage_taken as nat) + " damage. "@ + addendum
}

fn digit_text(d: u32) -> (s: &'static str)
    requires
        d < 10,
    ensures
        s@ == seq![digit(d as nat)],
{
    proof {
        reveal_strlit("0");
        reveal_strlit("1");
        reveal_strlit("2");
        reveal_strlit("3");
        reveal_strlit("4");
        reveal_strlit("5");
        reveal_strlit("6");
        reveal_strlit("7");
        reveal_strlit("8");
        reveal_strlit("9");
    }
    let s = if d == 0 {
        "0"
    } else if d == 1 {
        "1"
    } else if d == 2 {
        "2"
    } else if d == 3 {
        "3"
    } else if d == 4 {
        "4"
    } else if d == 5 {
        "5"
    } else if d == 6 {
        "6"
    } else if d == 7 {
        "7"
    } else if d == 8 {
        "8"
    } else {
        "9"
    };
    assert(s@ =~= seq![digit(d as nat)]);
    s
}

/// The number `n` in decimal digits.
pub fn number_text(n: u32) -> (s: String)
    ensures
        s@ == decimal(n as nat),
    decreases n,
{
    if n < 10 {
        String::from_str(digit_text(n))
    } else {
        let mut s = number_text(n / 10);
        s.append(digit_text(n % 10));
        assert(s@ =~= decimal((n / 10) as nat).push(digit((n % 10) as nat)));
        s
    }
}

fn name_text(name: Option<&Name>) -> (s: String)
    ensures
        s@ == name_or_someone(name),
{
    match name {
        Some(n) => n.0.clone(),
        None => String::from_str("Someone"),
    }
}

/// The messages that wait to be shown, oldest first.
pub struct MessageLog {
    message_queue: VecDeque<String>,
}

impl View for MessageLog {
    type V = Seq<Seq<char>>;

    closed spec fn view(&self) -> Seq<Seq<char>> {
        Seq::new(self.message_queue@.len(), |i: int| self.message_queue@[i]@)
    }
}

impl MessageLog {
    /// A log without messages.
    pub fn new() -> (log: MessageLog)
        ensures
            log@ == Seq::<Seq<char>>::empty(),
    {
        let log = MessageLog { message_queue: VecDeque::new() };
        assert(log@ =~= Seq::<Seq<char>>::empty());
        log
    }

    /// Puts `msg` behind the messages that wait.
    pub fn queue_message(&mut self, msg: &str)
        ensures
            final(self)@ == old(self)@.push(msg@),
    {
        self.message_queue.push_back(String::from_str(msg));
        assert(self@ =~= old(self)@.push(msg@));
    }

    /// Takes the oldest message out of the log, if one waits.
    pub fn next_message(&mut self) -> (msg: Option<String>)
        ensures
            old(self)@.len() == 0 ==> msg is None && final(self)@ == old(self)@,
            old(self)@.len() > 0 ==> msg is Some && msg->0@ == old(self)@[0]
                && final(self)@ == old(self)@.drop_first(),
    {
        let msg = self.message_queue.pop_front();
        proof {
            if old(self)@.len() > 0 {
                assert(self@ =~= old(self)@.drop_first());
            } else {
                assert(self@ =~= old(self)@);
            }
        }
        msg
    }
}

/// Puts `msg` into `log`.
pub fn log_message(log: &mut MessageLog, msg: &str)
    ensures
        final(log)@ == old(log)@.push(msg@),
{
    log.queue_message(msg);
}

/// The message that tells an attack.
pub fn generate_attack_message(
    attacker: Option<&Name>,
    defender: Option<&Name>,
    hit_message: &str,
    addendum: &str,
    damage_taken: u32,
) -> (msg: String)
    ensures
        msg@ == attack_message(
            name_or_someone(attacker),
            name_or_someone(defender),
            hit_message@,
            addendum@,
            damage_taken,
        ),
{
    let mut msg = name_text(attacker);
    msg.append(" ");
    msg.append(hit_message);
    msg.append(" ");
    msg.append(name_text(defender).as_str());
    msg.append(" for ");
    msg.append(number_text(damage_taken).as_str());
    msg.append(" damage. ");
    msg.append(addendum);
    msg
}

/// The message that tells damage taken.
pub fn generate_take_damage_message(defender: Option<&Name>, damage_taken: u32, addendum: &str) -> (msg:
    String)
    ensures
        msg@ == take_damage_message(name_or_someone(defender), damage_taken, addendum@),
{
    let mut msg = name_text(defender);
    msg.append(" took ");
    msg.append(number_text(damage_taken).as_str());
    msg.append(" damage. ");
    msg.append(addendum);
    msg
}

/// The message that tells gold found.
pub fn generate_receive_gold_message(amount: u32) -> (msg: String)
    ensures
        msg@ == "You found "@ + decimal(amount as nat) + " gold!"@,
{
    let mut msg = String::from_str("You found ");
    msg.append(number_text(amount).as_str());
    msg.append(" gold!");
    msg
}

/// The message that tells damage by fire.
pub fn generate_is_burning_message(defender: Option<&Name>, damage_taken: u32) -> (msg: String)
    ensures
        msg@ == name_or_someone(defender) + " is burning! Took "@ + decimal(damage_taken as nat)
            + " damage."@,
{
    let mut msg = name_text(defender);
    msg.append(" is burning! Took ");
    msg.append(number_text(damage_taken).as_str());
    msg.append(" damage.");
    msg
}

/// The message that tells that someone caught fire.
pub fn generate_on_fire_message(defender: Option<&Name>) -> (msg: String)
    ensures
        msg@ == name_or_someone(defender) + " catches on fire!"@,
{
    let mut msg = name_text(defender);
    msg.append(" catches on fire!");
    msg
}

/// The message that tells that someone woke up.
pub fn generate_wake_up_message(name: Option<&Name>) -> (msg: String)
    ensures
        msg@ == name_or_someone(name) + " woke up!"@,
{
    let mut msg = name_text(name);
    msg.append(" woke up!");
    msg
}

/// The message that tells that someone sleeps on.
pub fn generate_sleep_message(name: Option<&Name>) -> (msg: String)
    ensures
        msg@ == name_or_someone(name) + " doesn't notice you."@,
{
    let mut msg = name_text(name);
    msg.append(" doesn't notice you.");
    msg
}

} // verus!
