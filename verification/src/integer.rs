//! Whole numbers in text.
use vstd::prelude::*;

verus! {

/// Whether a character is one of the ten decimal digits.
pub open spec fn is_digit(c: char) -> bool {
    '0' as int <= c as int <= '9' as int
}

/// The text behind an optional plus sign.
pub open spec fn digits_of(text: Seq<char>) -> Seq<char> {
    if text.len() > 0 && text[0] == '+' {
        text.drop_first()
    } else {
        text
    }
}

/// Whether a text is a whole number: an optional plus sign and then digits only,
/// at least one.
pub open spec fn is_whole(text: Seq<char>) -> bool {
    &&& digits_of(text).len() > 0
    &&& forall|i: int| 0 <= i < digits_of(text).len() ==> is_digit(#[trigger] digits_of(text)[i])
}

/// The value of some decimal digits.
pub open spec fn digits_value(digits: Seq<char>) -> int
    decreases digits.len(),
{
    if digits.len() == 0 {
        0
    } else {
        10 * digits_value(digits.drop_last()) + (digits.last() as int - '0' as int)
    }
}

/// The value of a whole number.
pub open spec fn whole_value(text: Seq<char>) -> int {
    digits_value(digits_of(text))
}

/// How the standard library's debug format writes the error of reading `text`
/// as a `u32`.
pub uninterp spec fn u32_error(text: Seq<char>) -> Seq<char>;

/// How the standard library's debug format writes the error of reading `text`
/// as a `u8`.
pub uninterp spec fn u8_error(text: Seq<char>) -> Seq<char>;

/// What reading a text as a `u32` gives: its value, or a description of the error.
pub open spec fn u32_reading(text: Seq<char>) -> Result<u32, Seq<char>> {
    if is_whole(text) && whole_value(text) <= u32::MAX {
        Ok(whole_value(text) as u32)
    } else {
        Err(u32_error(text))
    }
}

/// What reading a text as a `u8` gives: its value, or a description of the error.
pub open spec fn u8_reading(text: Seq<char>) -> Result<u8, Seq<char>> {
    if is_whole(text) && whole_value(text) <= u8::MAX {
        Ok(whole_value(text) as u8)
    } else {
        Err(u8_error(text))
    }
}

/// Calls `str::parse` for `u32`. Trusted: a text that is an optional plus sign
/// and digits, with a value that a `u32` can hold, gives that value; any other
/// text gives an error, whose debug form depends on the text alone.
#[verifier::external_body]
pub(crate) fn parse_u32(text: &str) -> (reading: Result<u32, String>)
    ensures
        match reading {
            Ok(value) => u32_reading(text@) == Ok::<u32, Seq<char>>(value),
            Err(error) => u32_reading(text@) is Err && error@ == u32_error(text@),
        },
{
    text.parse::<u32>().map_err(|error| format!("{:?}", error))
}

/// Calls `str::parse` for `u8`. Trusted: a text that is an optional plus sign
/// and digits, with a value that a `u8` can hold, gives that value; any other
/// text gives an error, whose debug form depends on the text alone.
#[verifier::external_body]
pub(crate) fn parse_u8(text: &str) -> (reading: Result<u8, String>)
    ensures
        match reading {
            Ok(value) => u8_reading(text@) == Ok::<u8, Seq<char>>(value),
            Err(error) => u8_reading(text@) is Err && error@ == u8_error(text@),
        },
{
    text.parse::<u8>().map_err(|error| format!("{:?}", error))
}

/// The decimal digit with some value.
pub open spec fn digit(value: int) -> char {
    ('0' as int + value) as char
}

/// A number in decimal digits.
pub open spec fn decimal(value: nat) -> Seq<char>
    decreases value,
{
    if value < 10 {
        seq![digit(value as int)]
    } else {
        decimal(value / 10).push(digit((value % 10) as int))
    }
}

/// A number written in decimal digits is read back as itself.
pub proof fn law_decimal_reads_back(value: nat)
    ensures
        is_whole(decimal(value)),
        whole_value(decimal(value)) == value,
    decreases value,
{
    let text = decimal(value);
    if value < 10 {
        assert(text.drop_last() =~= Seq::empty());
        assert(is_digit(text[0]));
        assert(digits_of(text) == text);
        reveal_with_fuel(digits_value, 2);
    } else {
        let shorter = decimal(value / 10);
        law_decimal_reads_back(value / 10);
        assert(text.drop_last() =~= shorter);
        assert(text[0] == shorter[0]);
        lemma_decimal_starts_with_digit(value / 10);
        assert(digits_of(shorter) == shorter);
        assert(digits_of(text) == text);
        assert forall|i: int| 0 <= i < text.len() implies is_digit(#[trigger] text[i]) by {
            if i < shorter.len() {
                assert(text[i] == digits_of(shorter)[i]);
            }
        }
    }
}

/// A number in decimal digits starts with a digit.
proof fn lemma_decimal_starts_with_digit(value: nat)
    ensures
        decimal(value).len() > 0,
        is_digit(decimal(value)[0]),
    decreases value,
{
    if value >= 10 {
        lemma_decimal_starts_with_digit(value / 10);
    }
}

/// The text of one decimal digit.
fn digit_text(value: u8) -> (text: &'static str)
    requires
        value < 10,
    ensures
        text@ == seq![digit(value as int)],
{
    proof {
        reveal_strlit("0");
        reveal_strlit("1");
        reveal_strlit("2");
        reveal_strlit("3");
        reveal_strlit("4");
        reveal_strlit("5");
        reveal_strlit("6");
        reveal_strlit("7");
        reveal_strlit("8");
        reveal_strlit("9");
    }
    match value {
        0 => "0",
        1 => "1",
        2 => "2",
        3 => "3",
        4 => "4",
        5 => "5",
        6 => "6",
        7 => "7",
        8 => "8",
        _ => "9",
    }
}

/// A small number in decimal digits.
pub fn decimal_text(value: u8) -> (text: String)
    ensures
        text@ == decimal(value as nat),
    decreases value,
{
    if value < 10 {
        digit_text(value).to_owned()
    } else {
        let mut text = decimal_text(value / 10);
        let ghost shorter = text@;
        text.append(digit_text(value % 10));
        assert(text@ =~= shorter.push(digit((value % 10) as int)));
        text
    }
}

/// Which texts are whole numbers: some digits, at least one, and in front of them a
/// plus sign or nothing. Only such texts can be read, and they can be read unless
/// they are too large.
pub proof fn law_what_can_be_read(text: Seq<char>)
    ensures
        u32_reading(text) is Ok ==> text.len() > 0 && '0' <= text.last() <= '9',
        u8_reading(text) is Ok ==> text.len() > 0 && '0' <= text.last() <= '9',
        u32_reading(text) is Ok ==> '0' <= text[0] <= '9' || text[0] == '+',
        u8_reading(text) is Ok ==> '0' <= text[0] <= '9' || text[0] == '+',
        u32_reading(text) is Ok ==> forall|i: int|
            0 < i < text.len() ==> '0' <= #[trigger] text[i] <= '9',
        u8_reading(text) is Ok ==> forall|i: int|
            0 < i < text.len() ==> '0' <= #[trigger] text[i] <= '9',
        u8_reading(text) matches Ok(value) ==> u32_reading(text) == Ok::<u32, Seq<char>>(
            value as u32,
        ),
        u32_reading(text) matches Ok(value) && value <= 255 ==> u8_reading(text) is Ok,
{
    let digits = digits_of(text);
    if is_whole(text) {
        assert(is_digit(digits[digits.len() - 1]));
        assert(is_digit(digits[0]));
        assert(text.last() == digits.last());
        assert forall|i: int| 0 < i < text.len() implies '0' <= #[trigger] text[i] <= '9' by {
            if text[0] == '+' {
                assert(digits[i - 1] == text[i]);
            } else {
                assert(digits[i] == text[i]);
            }
        }
    }
    lemma_value_not_negative(digits);
}

/// The value of some digits is not below zero.
proof fn lemma_value_not_negative(digits: Seq<char>)
    ensures
        (forall|i: int| 0 <= i < digits.len() ==> is_digit(#[trigger] digits[i])) ==> digits_value(
            digits,
        ) >= 0,
    decreases digits.len(),
{
    if digits.len() > 0 && (forall|i: int|
        0 <= i < digits.len() ==> is_digit(#[trigger] digits[i])) {
        assert(is_digit(digits[digits.len() - 1]));
        assert forall|i: int| 0 <= i < digits.drop_last().len() implies is_digit(
            #[trigger] digits.drop_last()[i],
        ) by {
            assert(is_digit(digits[i]));
        }
        lemma_value_not_negative(digits.drop_last());
    }
}

/// One digit is read as its value, with a plus sign or without. One more digit makes
/// the value ten times as large and adds its own, as long as it fits.
pub proof fn law_value_of_digits(text: Seq<char>, c: char)
    requires
        '0' <= c <= '9',
    ensures
        ({
            let value = c as int - '0' as int;
            &&& u32_reading(seq![c]) matches Ok(one) && one == value
            &&& u32_reading(seq!['+', c]) matches Ok(one) && one == value
            &&& u8_reading(seq![c]) matches Ok(one) && one == value
            &&& u8_reading(seq!['+', c]) matches Ok(one) && one == value
            &&& u32_reading(text) matches Ok(shorter) ==> match u32_reading(text.push(c)) {
                Ok(longer) => longer == 10 * shorter + value,
                Err(_) => 10 * shorter + value > u32::MAX,
            }
            &&& u8_reading(text) matches Ok(shorter) ==> match u8_reading(text.push(c)) {
                Ok(longer) => longer == 10 * shorter + value,
                Err(_) => 10 * shorter + value > u8::MAX,
            }
        }),
{
    let value = c as int - '0' as int;
    let plain = seq![c];
    let signed = seq!['+', c];
    assert(digits_of(plain) == plain);
    assert(digits_of(signed) =~= plain);
    assert(plain.drop_last() =~= Seq::<char>::empty());
    reveal_with_fuel(digits_value, 2);
    assert(digits_value(plain) == value);
    assert(is_whole(plain));
    assert(is_whole(signed));
    if is_whole(text) {
        lemma_value_not_negative(digits_of(text));
        let longer = text.push(c);
        assert(longer[0] == text[0]);
        assert(digits_of(longer) =~= digits_of(text).push(c));
        assert(digits_of(text).push(c).drop_last() =~= digits_of(text));
        assert forall|i: int| 0 <= i < digits_of(longer).len() implies is_digit(
            #[trigger] digits_of(longer)[i],
        ) by {
            if i < digits_of(text).len() {
                assert(digits_of(longer)[i] == digits_of(text)[i]);
            }
        }
    }
}

/// A number is written without needless zeros in front, and a small one as one digit.
pub proof fn law_decimal_is_short(value: nat)
    ensures
        value < 10 ==> decimal(value).len() == 1 && decimal(value)[0] as int == '0' as int + value,
        value >= 10 ==> decimal(value)[0] != '0',
        forall|i: int|
            0 <= i < decimal(value).len() ==> '0' <= #[trigger] decimal(value)[i] <= '9',
    decreases value,
{
    if value >= 10 {
        law_decimal_is_short(value / 10);
        lemma_decimal_starts_with_digit(value / 10);
        assert forall|i: int| 0 <= i < decimal(value).len() implies '0' <= #[trigger] decimal(
            value,
        )[i] <= '9' by {
            if i < decimal(value / 10).len() {
                assert(decimal(value)[i] == decimal(value / 10)[i]);
            }
        }
    }
}

} // verus!
