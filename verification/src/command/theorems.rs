//! What holds of every text command.

use vstd::prelude::*;
use crate::command::{
    command_of, decimal_of, digits_end, infinity_of, is_digit, is_sign, layout_of, lower, lowered,
    number_units,
};
use crate::servo::{ServoConfig, ServoPosition, FULL_DEFLECTION};

verus! {

/// A run of digits ends inside the text, holds digits only, and is not
/// followed by a digit.
pub proof fn lemma_digits_end(text: Seq<char>, from: int)
    requires
        0 <= from <= text.len(),
    ensures
        from <= digits_end(text, from) <= text.len(),
        forall|i: int| from <= i < digits_end(text, from) ==> is_digit(#[trigger] text[i]),
        digits_end(text, from) < text.len() ==> !is_digit(text[digits_end(text, from)]),
    decreases text.len() - from,
{
    if from < text.len() && is_digit(text[from]) {
        lemma_digits_end(text, from + 1);
    }
}

/// The three-letter and the eight-letter word for infinity hold ASCII
/// only.
pub proof fn lemma_infinity_words()
    ensures
        "inf"@.len() == 3,
        "infinity"@.len() == 8,
        forall|k: int| 0 <= k < 3 ==> '\0' <= #[trigger] "inf"@[k] <= '\u{7f}',
        forall|k: int| 0 <= k < 8 ==> '\0' <= #[trigger] "infinity"@[k] <= '\u{7f}',
{
    reveal_strlit("inf");
    reveal_strlit("infinity");
    assert forall|k: int| 0 <= k < 3 implies '\0' <= #[trigger] "inf"@[k] <= '\u{7f}' by {
        if k == 0 {
        } else if k == 1 {
        } else {
            assert(k == 2);
        }
    }
    assert forall|k: int| 0 <= k < 8 implies '\0' <= #[trigger] "infinity"@[k] <= '\u{7f}' by {
        if k == 0 {
        } else if k == 1 {
        } else if k == 2 {
        } else if k == 3 {
        } else if k == 4 {
        } else if k == 5 {
        } else if k == 6 {
        } else {
            assert(k == 7);
        }
    }
}

/// A command holds no character beyond ASCII.
pub proof fn lemma_commands_are_ascii(text: Seq<char>)
    requires
        command_of(text) is Some,
    ensures
        forall|i: int| 0 <= i < text.len() ==> '\0' <= #[trigger] text[i] <= '\u{7f}',
{
    reveal_strlit("left");
    reveal_strlit("center");
    reveal_strlit("right");
    lemma_infinity_words();
    if text == "left"@ || text == "center"@ || text == "right"@ {
    } else if infinity_of(text) is Some {
        let from: int = if text.len() > 0 && is_sign(text[0]) {
            1
        } else {
            0
        };
        let rest = text.subrange(from, text.len() as int);
        let word = lowered(rest);
        assert forall|i: int| 0 <= i < text.len() implies '\0' <= #[trigger] text[i]
            <= '\u{7f}' by {
            if i >= from {
                assert(word[i - from] == lower(rest[i - from]));
                assert(rest[i - from] == text[i]);
            }
        }
    } else {
        let at = layout_of(text);
        assert(at.complete(text));
        lemma_digits_end(text, at.whole_from);
        lemma_digits_end(text, at.fraction_from);
        if at.has_exponent {
            lemma_digits_end(text, at.exponent_from);
        }
    }
}

/// A numeric command never asks for more than the full deflection: the
/// custom position that it spells lies between `-1_000_000` and
/// `1_000_000`, however large the number.
pub proof fn lemma_numbers_are_clamped(text: Seq<char>)
    ensures
        number_units(text) matches Some(units) ==> -FULL_DEFLECTION <= units <= FULL_DEFLECTION,
        command_of(text) matches Some(ServoPosition::Custom(units)) ==> -FULL_DEFLECTION <= units
            <= FULL_DEFLECTION && number_units(text) == Some(units as int),
{
    reveal_strlit("left");
    reveal_strlit("center");
    reveal_strlit("right");
}

/// The three names are no numbers: a text is a named position or a
/// numeric command or neither, never both.
pub proof fn lemma_names_are_no_numbers()
    ensures
        number_units("left"@) is None,
        number_units("center"@) is None,
        number_units("right"@) is None,
{
    reveal_strlit("left");
    reveal_strlit("center");
    reveal_strlit("right");
    reveal_strlit("inf");
    reveal_strlit("infinity");
    let names = seq!["left"@, "center"@, "right"@];
    assert forall|n: int| 0 <= n < 3 implies number_units(#[trigger] names[n]) is None by {
        let text = names[n];
        assert(!is_sign(text[0]) && !is_digit(text[0]) && text[0] != '.');
        let word = lowered(text.subrange(0, text.len() as int));
        assert(word.len() == text.len());
        assert(word[0] == lower(text[0]));
        assert(word[0] != 'i');
        assert(infinity_of(text) is None);
        assert(digits_end(text, 0) == 0);
        assert(!layout_of(text).complete(text));
        assert(decimal_of(text) is None);
    }
    assert(names[0] == "left"@);
    assert(names[1] == "center"@);
    assert(names[2] == "right"@);
}

/// Whatever range is configured, the command `left` asks for its smallest
/// pulse width, `right` for its largest, and `center` for the middle of
/// the two, rounded down.
pub proof fn lemma_named_commands_hit_the_endpoints(config: ServoConfig)
    requires
        config.valid(),
    ensures
        command_of("left"@) == Some(ServoPosition::Left),
        command_of("center"@) == Some(ServoPosition::Center),
        command_of("right"@) == Some(ServoPosition::Right),
        config.pulse_width(command_of("left"@)->0) == config.min_pulse_width_us,
        config.pulse_width(command_of("center"@)->0) == (config.min_pulse_width_us
            + config.max_pulse_width_us) / 2,
        config.pulse_width(command_of("right"@)->0) == config.max_pulse_width_us,
{
    reveal_strlit("left");
    reveal_strlit("center");
    reveal_strlit("right");
    assert("left"@.len() == 4 && "center"@.len() == 6 && "right"@.len() == 5);
}

} // verus!
