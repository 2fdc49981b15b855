//! Arguments by name: how the arguments of a response are filled from the
//! names and values of the game data.

use vstd::prelude::*;
use super::argument_names::{
    ARG_DAMAGE_MULTIPLIER, ARG_DAMAGE_MULTIPLIER_OVERRIDE, MSG_ARG_ADDENDUM,
    MSG_ARG_ADDENDUM_OVERRIDE, MSG_ARG_ATTACKER, MSG_ARG_ATTACK_MESSAGE,
};
use super::{Arguments, MessageArguments, MessageArgumentsView};

verus! {

/// The number of a decimal digit.
pub open spec fn digit_value(c: char) -> Option<nat> {
    if c == '0' {
        Some(0)
    } else if c == '1' {
        Some(1)
    } else if c == '2' {
        Some(2)
    } else if c == '3' {
        Some(3)
    } else if c == '4' {
        Some(4)
    } else if c == '5' {
        Some(5)
    } else if c == '6' {
        Some(6)
    } else if c == '7' {
        Some(7)
    } else if c == '8' {
        Some(8)
    } else if c == '9' {
        Some(9)
    } else {
        None
    }
}

/// Whether every character of `text` is a decimal digit.
pub open spec fn all_digits(text: Seq<char>) -> bool {
    forall|i: int| 0 <= i < text.len() ==> digit_value(#[trigger] text[i]) is Some
}

/// The number that the decimal digits `text` spell; a character that is no
/// digit counts as zero.
pub open spec fn digits_value(text: Seq<char>) -> nat
    decreases text.len(),
{
    if text.len() == 0 {
        0
    } else {
        10 * digits_value(text.drop_last()) + match digit_value(text.last()) {
            Some(d) => d,
            None => 0,
        }
    }
}

/// The number that `text` spells: one decimal digit or more, after a plus
/// sign or without one, where the number is a `usize`.
pub open spec fn number_spelled(text: Seq<char>) -> Option<usize> {
    let digits = if text.len() > 0 && text[0] == '+' {
        text.drop_first()
    } else {
        text
    };
    if digits.len() > 0 && all_digits(digits) && digits_value(digits) <= usize::MAX {
        Some(digits_value(digits) as usize)
    } else {
        None
    }
}

/// The number that longer digits spell is no less.
proof fn lemma_digits_grow(text: Seq<char>, k: int)
    requires
        0 <= k <= text.len(),
    ensures
        digits_value(text.take(k)) <= digits_value(text),
    decreases text.len() - k,
{
    if k < text.len() {
        assert(text.take(k + 1).drop_last() =~= text.take(k));
        lemma_digits_grow(text, k + 1);
    } else {
        assert(text.take(k) =~= text);
    }
}

/// The number of the decimal digit `c`, if it is one.
fn digit_of(c: char) -> (d: Option<usize>)
    ensures
        d is Some <==> digit_value(c) is Some,
        d is Some ==> d->0 == digit_value(c)->0,
{
    if c == '0' {
        Some(0)
    } else if c == '1' {
        Some(1)
    } else if c == '2' {
        Some(2)
    } else if c == '3' {
        Some(3)
    } else if c == '4' {
        Some(4)
    } else if c == '5' {
        Some(5)
    } else if c == '6' {
        Some(6)
    } else if c == '7' {
        Some(7)
    } else if c == '8' {
        Some(8)
    } else if c == '9' {
        Some(9)
    } else {
        None
    }
}

/// The number that `text` spells: one decimal digit or more, after a plus
/// sign or without one. Nothing, where `text` is anything else, and where
/// the number is no `usize`.
pub fn parse_number(text: &str) -> (number: Option<usize>)
    ensures
        number == number_spelled(text@),
{
    let length = text.unicode_len();
    let mut i: usize = 0;
    if length > 0 && text.get_char(0) == '+' {
        i = 1;
    }
    let ghost start = i as int;
    let ghost digits = text@.subrange(start, length as int);
    assert(digits =~= if text@.len() > 0 && text@[0] == '+' {
        text@.drop_first()
    } else {
        text@
    });
    if i >= length {
        return None;
    }
    let mut value: usize = 0;
    while i < length
        invariant
            0 <= start <= i <= length,
            length == text@.len(),
            digits.len() == length - start,
            digits == if text@.len() > 0 && text@[0] == '+' {
                text@.drop_first()
            } else {
                text@
            },
            digits == text@.subrange(start, length as int),
            all_digits(digits.take(i - start)),
            value == digits_value(digits.take(i - start)),
        decreases length - i,
    {
        let ghost k = i - start;
        assert(digits.take(k + 1).drop_last() =~= digits.take(k));
        assert(digits.take(k + 1).last() == text@[i as int]);
        proof {
            lemma_digits_grow(digits, k + 1);
        }
        let d = match digit_of(text.get_char(i)) {
            Some(d) => d,
            None => {
                assert(digit_value(digits[k]) is None);
                return None;
            },
        };
        if value > (usize::MAX - d) / 10 {
            assert(digits_value(digits.take(k + 1)) > usize::MAX);
            return None;
        }
        value = 10 * value + d;
        assert forall|j: int| 0 <= j < k + 1 implies digit_value(
            #[trigger] digits.take(k + 1)[j],
        ) is Some by {
            if j < k {
                assert(digits.take(k + 1)[j] == digits.take(k)[j]);
            }
        }
        i = i + 1;
    }
    assert(digits.take(i - start) =~= digits);
    Some(value)
}

impl Arguments {
    /// The arguments with `value` under `name`; the arguments as they are,
    /// where no argument has that name.
    pub open spec fn named(self, name: Seq<char>, value: u32) -> Arguments {
        if name == ARG_DAMAGE_MULTIPLIER@ {
            Arguments { damage_multiplier: Some(value), ..self }
        } else if name == ARG_DAMAGE_MULTIPLIER_OVERRIDE@ {
            Arguments { damage_multiplier_override: Some(value), ..self }
        } else {
            self
        }
    }

    /// Files `value`, in thousandths, under `name`. A name that no
    /// argument has changes nothing.
    pub fn with_named(self, name: &str, value: u32) -> (a: Arguments)
        ensures
            a == self.named(name@, value),
    {
        let name = String::from_str(name);
        if name == String::from_str(ARG_DAMAGE_MULTIPLIER) {
            Arguments { damage_multiplier: Some(value), ..self }
        } else if name == String::from_str(ARG_DAMAGE_MULTIPLIER_OVERRIDE) {
            Arguments { damage_multiplier_override: Some(value), ..self }
        } else {
            self
        }
    }
}

impl MessageArgumentsView {
    /// The arguments with `text` under `name`; the arguments as they are,
    /// where no argument has that name. The attacker is the entity whose
    /// number `text` spells, and is left as it is where `text` spells none.
    pub open spec fn named(self, name: Seq<char>, text: Seq<char>) -> MessageArgumentsView {
        if name == MSG_ARG_ATTACKER@ {
            match number_spelled(text) {
                Some(entity) => MessageArgumentsView { attacker: Some(entity), ..self },
                None => self,
            }
        } else if name == MSG_ARG_ATTACK_MESSAGE@ {
            MessageArgumentsView { attack_message: Some(text), ..self }
        } else if name == MSG_ARG_ADDENDUM@ {
            MessageArgumentsView { addendum: Some(text), ..self }
        } else if name == MSG_ARG_ADDENDUM_OVERRIDE@ {
            MessageArgumentsView { addendum_override: Some(text), ..self }
        } else {
            self
        }
    }
}

impl MessageArguments {
    /// Files `text` under `name`. A name that no argument has changes
    /// nothing, and neither does an attacker that is no number.
    pub fn with_named(self, name: &str, text: &str) -> (a: MessageArguments)
        ensures
            a@ == self@.named(name@, text@),
    {
        let name = String::from_str(name);
        let mut a = self;
        if name == String::from_str(MSG_ARG_ATTACKER) {
            if let Some(entity) = parse_number(text) {
                a.attacker = Some(entity);
            }
        } else if name == String::from_str(MSG_ARG_ATTACK_MESSAGE) {
            a.attack_message = Some(String::from_str(text));
        } else if name == String::from_str(MSG_ARG_ADDENDUM) {
            a.addendum = Some(String::from_str(text));
        } else if name == String::from_str(MSG_ARG_ADDENDUM_OVERRIDE) {
            a.addendum_override = Some(String::from_str(text));
        }
        a
    }
}

} // verus!
