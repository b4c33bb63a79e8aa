//! Reading a command from the bytes of a text message.

use vstd::prelude::*;
use vstd::string::is_ascii_spec_bytes;
use crate::command::theorems::{lemma_commands_are_ascii, lemma_digits_end, lemma_infinity_words};
use crate::command::{
    command_of, decimal_of, digits_end, digits_value, infinity_of, is_digit, is_sign, layout_of,
    lower, lowered, number_units, pow10,
};
use crate::servo::{ServoPosition, FULL_DEFLECTION};

verus! {

/// `bytes` are the characters of `text`, one byte each.
spec fn spells(bytes: Seq<u8>, text: Seq<char>) -> bool {
    &&& bytes.len() == text.len()
    &&& forall|i: int|
        0 <= i < text.len() ==> #[trigger] bytes[i] == text[i] as u8 && '\0' <= text[i]
            <= '\u{7f}'
}

/// `v`, but no more than `cap`.
spec fn capped(v: nat, cap: nat) -> nat {
    if v > cap {
        cap
    } else {
        v
    }
}

/// Every power of ten is at least one.
proof fn lemma_pow10_positive(n: nat)
    ensures
        pow10(n) >= 1,
    decreases n,
{
    if n > 0 {
        lemma_pow10_positive((n - 1) as nat);
    }
}

/// A higher power of ten is no smaller.
proof fn lemma_pow10_monotone(a: nat, b: nat)
    requires
        a <= b,
    ensures
        pow10(a) <= pow10(b),
    decreases b,
{
    if a < b {
        lemma_pow10_monotone(a, (b - 1) as nat);
    }
}

/// The powers of ten up to ten million.
proof fn lemma_pow10_seven()
    ensures
        pow10(0) == 1,
        pow10(1) == 10,
        pow10(2) == 100,
        pow10(3) == 1_000,
        pow10(4) == 10_000,
        pow10(5) == 100_000,
        pow10(6) == 1_000_000,
        pow10(7) == 10_000_000,
{
    reveal_with_fuel(pow10, 8);
}

/// A run of `n` digits writes a number below ten to the `n`.
proof fn lemma_digits_value_bound(digits: Seq<char>)
    requires
        forall|i: int| 0 <= i < digits.len() ==> is_digit(#[trigger] digits[i]),
    ensures
        digits_value(digits) < pow10(digits.len()),
    decreases digits.len(),
{
    if digits.len() > 0 {
        let front = digits.drop_last();
        assert forall|i: int| 0 <= i < front.len() implies is_digit(#[trigger] front[i]) by {
            assert(front[i] == digits[i]);
        }
        lemma_digits_value_bound(front);
        assert(is_digit(digits.last()));
    }
}

/// Leaving out the last `digits.len() - keep` digits divides the number by
/// ten to that power.
proof fn lemma_digits_value_take(digits: Seq<char>, keep: int)
    requires
        0 <= keep <= digits.len(),
        forall|i: int| 0 <= i < digits.len() ==> is_digit(#[trigger] digits[i]),
    ensures
        digits_value(digits.subrange(0, keep)) == digits_value(digits) / pow10(
            (digits.len() - keep) as nat,
        ),
    decreases digits.len() - keep,
{
    if keep == digits.len() {
        assert(digits.subrange(0, keep) =~= digits);
        let v = digits_value(digits);
        let p = pow10((digits.len() - keep) as nat);
        assert(v / p == v) by (nonlinear_arith)
            requires
                p == 1,
        ;
    } else {
        let front = digits.drop_last();
        assert forall|i: int| 0 <= i < front.len() implies is_digit(#[trigger] front[i]) by {
            assert(front[i] == digits[i]);
        }
        lemma_digits_value_take(front, keep);
        assert(front.subrange(0, keep) =~= digits.subrange(0, keep));
        assert(is_digit(digits.last()));
        let d = ((digits.last() as u32) - ('0' as u32)) as nat;
        let v = digits_value(front);
        let p = pow10((front.len() - keep) as nat);
        lemma_pow10_positive((front.len() - keep) as nat);
        assert(digits_value(digits) == v * 10 + d);
        assert(pow10((digits.len() - keep) as nat) == 10 * p);
        assert((v * 10 + d) / (10 * p) == v / p) by (nonlinear_arith)
            requires
                0 <= d < 10,
                p >= 1,
                v >= 0,
        ;
    }
}

/// Capping before a digit is appended comes to the same as capping after.
proof fn lemma_capped_append(v: nat, d: nat, cap: nat)
    requires
        d < 10,
    ensures
        capped(capped(v, cap) * 10 + d, cap) == capped(v * 10 + d, cap),
{
}

/// Shifted up by seven places or more, any number but zero is beyond ten
/// million.
proof fn lemma_scaled_far_up(v: nat, shift: nat)
    requires
        shift >= 7,
        v >= 1,
    ensures
        v * pow10(shift) >= 10_000_000,
{
    lemma_pow10_monotone(7, shift);
    lemma_pow10_seven();
    let p = pow10(shift);
    assert(v * p >= p) by (nonlinear_arith)
        requires
            v >= 1,
            p >= 0,
    ;
}

/// Shifted down by as many places as it has digits, or more, a number is
/// zero.
proof fn lemma_scaled_far_down(v: nat, len: nat, shift: nat)
    requires
        v < pow10(len),
        shift >= len,
    ensures
        v / pow10(shift) == 0,
{
    lemma_pow10_monotone(len, shift);
    let p = pow10(shift);
    assert(v / p == 0) by (nonlinear_arith)
        requires
            0 <= v < p,
    ;
}

fn scan_digits(bytes: &[u8], from: usize, Ghost(text): Ghost<Seq<char>>) -> (end: usize)
    requires
        spells(bytes@, text),
        from <= bytes@.len(),
    ensures
        end == digits_end(text, from as int),
        from <= end <= bytes@.len(),
{
    let total = bytes.len();
    let mut i = from;
    loop
        invariant_except_break
            digits_end(text, i as int) == digits_end(text, from as int),
        invariant
            spells(bytes@, text),
            total == bytes@.len(),
            from <= i <= total,
        ensures
            i == digits_end(text, from as int),
        decreases total - i,
    {
        if i >= total {
            break ;
        }
        let byte = bytes[i];
        if byte < 48 || byte > 57 {
            break ;
        }
        i += 1;
    }
    i
}

/// The number that the digits `before`, followed by those of `text` from
/// `from` to `to`, write, capped at `cap`.
fn digits_capped(
    bytes: &[u8],
    from: usize,
    to: usize,
    start: u128,
    cap: u128,
    Ghost(text): Ghost<Seq<char>>,
    Ghost(before): Ghost<Seq<char>>,
) -> (acc: u128)
    requires
        spells(bytes@, text),
        from <= to <= bytes@.len(),
        forall|i: int| from <= i < to ==> is_digit(#[trigger] text[i]),
        cap <= 1_000_000_000_000_000_000_000_000_000_000,
        start == capped(digits_value(before), cap as nat),
    ensures
        acc == capped(digits_value(before + text.subrange(from as int, to as int)), cap as nat),
{
    let mut acc = start;
    let mut i = from;
    assert(before + text.subrange(from as int, from as int) =~= before);
    while i < to
        invariant
            spells(bytes@, text),
            from <= i <= to <= bytes@.len(),
            forall|k: int| from <= k < to ==> is_digit(#[trigger] text[k]),
            cap <= 1_000_000_000_000_000_000_000_000_000_000,
            acc == capped(
                digits_value(before + text.subrange(from as int, i as int)),
                cap as nat,
            ),
        decreases to - i,
    {
        let ghost sofar = before + text.subrange(from as int, i as int);
        let ghost next = before + text.subrange(from as int, i as int + 1);
        proof {
            assert(is_digit(text[i as int]));
            assert(next.drop_last() =~= sofar);
            assert(next.last() == text[i as int]);
            lemma_capped_append(
                digits_value(sofar),
                (bytes[i as int] - 48) as nat,
                cap as nat,
            );
        }
        let digit: u128 = (bytes[i] - 48) as u128;
        let grown: u128 = acc * 10 + digit;
        acc = if grown > cap {
            cap
        } else {
            grown
        };
        i += 1;
    }
    acc
}

fn lower_byte(byte: u8) -> (folded: u8)
    ensures
        folded == if 65 <= byte <= 90 {
            (byte + 32) as u8
        } else {
            byte
        },
{
    if byte >= 65 && byte <= 90 {
        byte + 32
    } else {
        byte
    }
}

/// Whether the rest of `text` from `from` is `word`, letter for letter or,
/// with `fold`, regardless of capitals.
fn rest_is(
    bytes: &[u8],
    from: usize,
    word: &str,
    fold: bool,
    Ghost(text): Ghost<Seq<char>>,
) -> (yes: bool)
    requires
        spells(bytes@, text),
        from <= bytes@.len(),
        word.is_ascii(),
    ensures
        yes == (if fold {
            lowered(text.subrange(from as int, text.len() as int))
        } else {
            text.subrange(from as int, text.len() as int)
        } == word@),
{
    let letters = word.as_bytes();
    proof {
        is_ascii_spec_bytes(word);
    }
    let ghost rest = if fold {
        lowered(text.subrange(from as int, text.len() as int))
    } else {
        text.subrange(from as int, text.len() as int)
    };
    let total = bytes.len();
    if total - from != letters.len() {
        return false;
    }
    let mut i: usize = 0;
    while i < letters.len()
        invariant
            spells(bytes@, text),
            total == bytes@.len(),
            from + letters@.len() == total,
            letters@.len() == word@.len(),
            rest.len() == word@.len(),
            forall|k: int| 0 <= k < word@.len() ==> #[trigger] letters@[k] == word@[k] as u8,
            forall|k: int| 0 <= k < word@.len() ==> '\0' <= (#[trigger] word@[k]) <= '\u{7f}',
            forall|k: int| 0 <= k < rest.len() ==> #[trigger] rest[k] == if fold {
                lower(text[from + k])
            } else {
                text[from + k]
            },
            i <= letters@.len(),
            forall|k: int| 0 <= k < i ==> #[trigger] rest[k] == word@[k],
        decreases letters@.len() - i,
    {
        let byte = if fold {
            lower_byte(bytes[from + i])
        } else {
            bytes[from + i]
        };
        assert(bytes@[from + i] == text[from + i] as u8);
        assert(letters@[i as int] == word@[i as int] as u8);
        assert(rest[i as int] == if fold {
            lower(text[from + i])
        } else {
            text[from + i]
        });
        if byte != letters[i] {
            return false;
        }
        i += 1;
    }
    assert(rest =~= word@);
    true
}

/// Largest power of ten that is read exactly from an exponent; beyond it
/// only the fact that it is large matters.
const EXPONENT_CAP: u128 = 1_000_000_000_000_000_000_000_000_000_000;

/// The first `keep` digits of the mantissa, whose digits before the point
/// stand from `whole_from` to `whole_to` and those after it from
/// `fraction_from`, as a number capped at the full deflection.
fn leading_digits(
    bytes: &[u8],
    whole_from: usize,
    whole_to: usize,
    fraction_from: usize,
    fraction_to: usize,
    keep: usize,
    Ghost(text): Ghost<Seq<char>>,
) -> (value: u128)
    requires
        spells(bytes@, text),
        whole_from <= whole_to <= fraction_from <= fraction_to <= bytes@.len(),
        forall|i: int| whole_from <= i < whole_to ==> is_digit(#[trigger] text[i]),
        forall|i: int| fraction_from <= i < fraction_to ==> is_digit(#[trigger] text[i]),
        keep <= (whole_to - whole_from) + (fraction_to - fraction_from),
    ensures
        value == capped(
            digits_value(
                (text.subrange(whole_from as int, whole_to as int) + text.subrange(
                    fraction_from as int,
                    fraction_to as int,
                )).subrange(0, keep as int),
            ),
            FULL_DEFLECTION as nat,
        ),
{
    let ghost whole = text.subrange(whole_from as int, whole_to as int);
    let ghost fraction = text.subrange(fraction_from as int, fraction_to as int);
    let cap: u128 = 1_000_000;
    let whole_len = whole_to - whole_from;
    if keep <= whole_len {
        assert((whole + fraction).subrange(0, keep as int) =~= Seq::<char>::empty()
            + text.subrange(whole_from as int, whole_from + keep));
        digits_capped(
            bytes,
            whole_from,
            whole_from + keep,
            0,
            cap,
            Ghost(text),
            Ghost(Seq::empty()),
        )
    } else {
        assert(Seq::<char>::empty() + whole =~= whole);
        let front = digits_capped(
            bytes,
            whole_from,
            whole_to,
            0,
            cap,
            Ghost(text),
            Ghost(Seq::empty()),
        );
        assert((whole + fraction).subrange(0, keep as int) =~= whole + text.subrange(
            fraction_from as int,
            fraction_from + (keep - whole_len),
        ));
        digits_capped(
            bytes,
            fraction_from,
            fraction_from + (keep - whole_len),
            front,
            cap,
            Ghost(text),
            Ghost(whole),
        )
    }
}

/// `value` times ten to the power `shift`, capped at the full deflection.
fn shifted_up(value: u128, shift: u128, Ghost(exact): Ghost<nat>) -> (size: u128)
    requires
        value == capped(exact, FULL_DEFLECTION as nat),
        shift <= 7,
    ensures
        size == capped(exact * pow10(shift as nat), FULL_DEFLECTION as nat),
{
    let cap: u128 = 1_000_000;
    let mut size = value;
    let mut done: u128 = 0;
    assert(exact * pow10(0) == exact) by (nonlinear_arith)
        requires
            pow10(0) == 1,
    ;
    while done < shift
        invariant
            done <= shift <= 7,
            cap == FULL_DEFLECTION,
            size == capped(exact * pow10(done as nat), FULL_DEFLECTION as nat),
        decreases shift - done,
    {
        proof {
            let before = exact * pow10(done as nat);
            assert(pow10((done + 1) as nat) == 10 * pow10(done as nat));
            assert(exact * pow10((done + 1) as nat) == before * 10) by (nonlinear_arith)
                requires
                    pow10((done + 1) as nat) == 10 * pow10(done as nat),
                    before == exact * pow10(done as nat),
            ;
            lemma_capped_append(before, 0, FULL_DEFLECTION as nat);
        }
        let grown = size * 10;
        size = if grown > cap {
            cap
        } else {
            grown
        };
        done += 1;
    }
    size
}

/// What a scan of a number found.
struct Scan {
    negative: bool,
    whole_from: usize,
    whole_to: usize,
    fraction_from: usize,
    fraction_to: usize,
    exponent_negative: bool,
    /// The size of the exponent, capped at [`EXPONENT_CAP`].
    exponent_size: u128,
}

impl Scan {
    /// The scan is that of `text`, which is a number.
    spec fn matches(self, text: Seq<char>) -> bool {
        let at = layout_of(text);
        let decimal = decimal_of(text)->0;
        &&& at.complete(text)
        &&& self.negative == decimal.negative
        &&& self.whole_from == at.whole_from
        &&& self.whole_to == at.whole_to
        &&& self.fraction_from == at.fraction_from
        &&& self.fraction_to == at.fraction_to
        &&& self.whole_from <= self.whole_to <= self.fraction_from <= self.fraction_to
            <= text.len()
        &&& forall|i: int| self.whole_from <= i < self.whole_to ==> is_digit(#[trigger] text[i])
        &&& forall|i: int|
            self.fraction_from <= i < self.fraction_to ==> is_digit(#[trigger] text[i])
        &&& self.exponent_negative ==> decimal.exponent <= 0
        &&& !self.exponent_negative ==> decimal.exponent >= 0
        &&& self.exponent_size == capped(
            if decimal.exponent < 0 {
                -decimal.exponent
            } else {
                decimal.exponent
            } as nat,
            EXPONENT_CAP as nat,
        )
    }
}

/// Reads the sign at `at`, if there is one: whether there is a sign, and
/// whether it is a minus.
fn scan_sign(bytes: &[u8], at: usize, Ghost(text): Ghost<Seq<char>>) -> (found: (bool, bool))
    requires
        spells(bytes@, text),
    ensures
        found.0 == (at < text.len() && is_sign(text[at as int])),
        found.1 == (at < text.len() && text[at as int] == '-'),
{
    if at < bytes.len() {
        let byte = bytes[at];
        assert(byte == text[at as int] as u8 && '\0' <= text[at as int] <= '\u{7f}');
        (byte == 43 || byte == 45, byte == 45)
    } else {
        (false, false)
    }
}

/// Whether the character at `at` is `wanted` or `other`.
fn scan_mark(
    bytes: &[u8],
    at: usize,
    wanted: u8,
    other: u8,
    Ghost(text): Ghost<Seq<char>>,
) -> (found: bool)
    requires
        spells(bytes@, text),
        wanted <= 127,
        other <= 127,
    ensures
        found == (at < text.len() && (text[at as int] as u8 == wanted || text[at as int] as u8
            == other)),
        at < text.len() ==> '\0' <= text[at as int] <= '\u{7f}',
{
    if at < bytes.len() {
        let byte = bytes[at];
        assert(byte == text[at as int] as u8 && '\0' <= text[at as int] <= '\u{7f}');
        byte == wanted || byte == other
    } else {
        false
    }
}

/// Finds the parts of a number in `text`, if it is one.
fn scan_number(bytes: &[u8], Ghost(text): Ghost<Seq<char>>) -> (found: Option<Scan>)
    requires
        spells(bytes@, text),
    ensures
        match found {
            Some(scan) => scan.matches(text),
            None => decimal_of(text) is None,
        },
{
    let total = bytes.len();
    let ghost at = layout_of(text);
    let (signed, negative) = scan_sign(bytes, 0, Ghost(text));
    let whole_from: usize = if signed {
        1
    } else {
        0
    };
    let whole_to = scan_digits(bytes, whole_from, Ghost(text));
    let has_point = scan_mark(bytes, whole_to, 46, 46, Ghost(text));
    let fraction_from = if has_point {
        whole_to + 1
    } else {
        whole_to
    };
    let fraction_to = scan_digits(bytes, fraction_from, Ghost(text));
    assert(at.whole_from == whole_from && at.whole_to == whole_to && at.fraction_from
        == fraction_from && at.fraction_to == fraction_to);
    proof {
        lemma_digits_end(text, whole_from as int);
        lemma_digits_end(text, fraction_from as int);
    }
    if whole_to - whole_from == 0 && fraction_to - fraction_from == 0 {
        return None;
    }
    let has_exponent = scan_mark(bytes, fraction_to, 101, 69, Ghost(text));
    assert(at.has_exponent == has_exponent);
    if !has_exponent {
        if fraction_to != total {
            return None;
        }
        return Some(
            Scan {
                negative,
                whole_from,
                whole_to,
                fraction_from,
                fraction_to,
                exponent_negative: false,
                exponent_size: 0,
            },
        );
    }
    let sign_at = fraction_to + 1;
    let (exponent_signed, exponent_negative) = scan_sign(bytes, sign_at, Ghost(text));
    let exponent_from = if exponent_signed {
        sign_at + 1
    } else {
        sign_at
    };
    let exponent_to = scan_digits(bytes, exponent_from, Ghost(text));
    assert(at.exponent_from == exponent_from && at.exponent_to == exponent_to);
    if exponent_to == exponent_from || exponent_to != total {
        return None;
    }
    proof {
        lemma_digits_end(text, exponent_from as int);
        assert(Seq::<char>::empty() + text.subrange(exponent_from as int, exponent_to as int)
            =~= text.subrange(exponent_from as int, exponent_to as int));
    }
    let exponent_size = digits_capped(
        bytes,
        exponent_from,
        exponent_to,
        0,
        EXPONENT_CAP,
        Ghost(text),
        Ghost(Seq::empty()),
    );
    Some(
        Scan {
            negative,
            whole_from,
            whole_to,
            fraction_from,
            fraction_to,
            exponent_negative,
            exponent_size,
        },
    )
}

/// Which way the digits of the mantissa shift to give millionths, and by
/// how many places: exactly where it matters, and beyond all bounds where
/// the exponent is huge.
fn shift_of(scan: &Scan, Ghost(text): Ghost<Seq<char>>) -> (way: (bool, u128))
    requires
        scan.matches(text),
        text.len() <= usize::MAX,
    ensures
        ({
            let decimal = decimal_of(text)->0;
            let shift = decimal.exponent - decimal.fraction_len + 6;
            let (up, amount) = way;
            &&& up ==> shift >= 0 && (amount <= 7 ==> shift == amount) && (amount > 7 ==> shift
                > 7)
            &&& !up ==> shift < 0 && (amount < decimal.mantissa.len() ==> -shift == amount) && (
            amount >= decimal.mantissa.len() ==> -shift >= decimal.mantissa.len())
        }),
{
    let fraction_len = (scan.fraction_to - scan.fraction_from) as u128;
    if scan.exponent_negative {
        let down_total: u128 = scan.exponent_size + fraction_len;
        if down_total <= 6 {
            (true, 6 - down_total)
        } else {
            (false, down_total - 6)
        }
    } else {
        let up_total: u128 = scan.exponent_size + 6;
        if up_total >= fraction_len {
            (true, up_total - fraction_len)
        } else {
            (false, fraction_len - up_total)
        }
    }
}

/// The size of a scanned number in millionths, capped at the full
/// deflection.
fn size_of(bytes: &[u8], scan: &Scan, Ghost(text): Ghost<Seq<char>>) -> (size: u128)
    requires
        spells(bytes@, text),
        scan.matches(text),
    ensures
        size == capped((decimal_of(text)->0).magnitude(), FULL_DEFLECTION as nat),
        size <= FULL_DEFLECTION,
{
    let ghost decimal = decimal_of(text)->0;
    let ghost exact = digits_value(decimal.mantissa);
    let ghost shift = decimal.exponent - decimal.fraction_len + 6;
    let total = bytes.len();
    let whole_len = scan.whole_to - scan.whole_from;
    let mantissa_len = whole_len + (scan.fraction_to - scan.fraction_from);
    proof {
        assert forall|i: int| 0 <= i < decimal.mantissa.len() implies is_digit(
            #[trigger] decimal.mantissa[i],
        ) by {
            if i < whole_len {
                assert(decimal.mantissa[i] == text[scan.whole_from + i]);
            } else {
                assert(decimal.mantissa[i] == text[scan.fraction_from + (i - whole_len)]);
            }
        }
        lemma_digits_value_bound(decimal.mantissa);
        lemma_pow10_seven();
    }
    let (up, amount) = shift_of(scan, Ghost(text));
    if up {
        assert(decimal.mantissa.subrange(0, mantissa_len as int) =~= decimal.mantissa);
        let whole = leading_digits(
            bytes,
            scan.whole_from,
            scan.whole_to,
            scan.fraction_from,
            scan.fraction_to,
            mantissa_len,
            Ghost(text),
        );
        if amount > 7 {
            proof {
                if exact >= 1 {
                    lemma_scaled_far_up(exact, shift as nat);
                } else {
                    assert(exact * pow10(shift as nat) == 0) by (nonlinear_arith)
                        requires
                            exact == 0,
                    ;
                }
            }
            if whole == 0 {
                0
            } else {
                1_000_000
            }
        } else {
            shifted_up(whole, amount, Ghost(exact))
        }
    } else if amount >= mantissa_len as u128 {
        proof {
            lemma_scaled_far_down(exact, mantissa_len as nat, (-shift) as nat);
        }
        0
    } else {
        let keep = mantissa_len - amount as usize;
        proof {
            lemma_digits_value_take(decimal.mantissa, keep as int);
        }
        leading_digits(
            bytes,
            scan.whole_from,
            scan.whole_to,
            scan.fraction_from,
            scan.fraction_to,
            keep,
            Ghost(text),
        )
    }
}

/// Whether `text` names infinity.
fn scan_infinity(bytes: &[u8], Ghost(text): Ghost<Seq<char>>) -> (found: Option<bool>)
    requires
        spells(bytes@, text),
    ensures
        found == infinity_of(text),
{
    let (signed, negative) = scan_sign(bytes, 0, Ghost(text));
    let from: usize = if signed {
        1
    } else {
        0
    };
    proof {
        lemma_infinity_words();
    }
    if rest_is(bytes, from, "inf", true, Ghost(text)) || rest_is(
        bytes,
        from,
        "infinity",
        true,
        Ghost(text),
    ) {
        assert(lowered(text.subrange(from as int, text.len() as int)).len() >= 3);
        Some(negative)
    } else {
        None
    }
}

/// Reads a numeric command.
fn parse_number(bytes: &[u8], Ghost(text): Ghost<Seq<char>>) -> (units: Option<i32>)
    requires
        spells(bytes@, text),
    ensures
        match units {
            Some(u) => number_units(text) == Some(u as int),
            None => number_units(text) is None,
        },
{
    match scan_infinity(bytes, Ghost(text)) {
        Some(negative) => Some(
            if negative {
                -FULL_DEFLECTION
            } else {
                FULL_DEFLECTION
            },
        ),
        None => match scan_number(bytes, Ghost(text)) {
            Some(scan) => {
                let size = size_of(bytes, &scan, Ghost(text)) as i32;
                Some(
                    if scan.negative {
                        -size
                    } else {
                        size
                    },
                )
            },
            None => None,
        },
    }
}

/// Reads the command that a text message spells, if it spells one.
pub fn parse_command(text: &str) -> (command: Option<ServoPosition>)
    ensures
        command == command_of(text@),
{
    if !text.is_ascii() {
        proof {
            if command_of(text@) is Some {
                lemma_commands_are_ascii(text@);
            }
        }
        return None;
    }
    let bytes = text.as_bytes();
    proof {
        is_ascii_spec_bytes(text);
        reveal_strlit("left");
        reveal_strlit("center");
        reveal_strlit("right");
    }
    assert(spells(bytes@, text@));
    assert(text@.subrange(0, text@.len() as int) =~= text@);
    if rest_is(bytes, 0, "left", false, Ghost(text@)) {
        Some(ServoPosition::Left)
    } else if rest_is(bytes, 0, "center", false, Ghost(text@)) {
        Some(ServoPosition::Center)
    } else if rest_is(bytes, 0, "right", false, Ghost(text@)) {
        Some(ServoPosition::Right)
    } else {
        match parse_number(bytes, Ghost(text@)) {
            Some(units) => Some(ServoPosition::Custom(units)),
            None => None,
        }
    }
}

} // verus!
