//! Plain text: decimal and hexadecimal numbers, and the small string tests the exporter needs.

use vstd::prelude::*;

verus! {

/// The character for a single digit, `0` to `9` and then `a` to `f`.
pub open spec fn digit_char(digit: int) -> char {
    if digit < 10 {
        ('0' as int + digit) as char
    } else {
        ('a' as int + digit - 10) as char
    }
}

/// `n` in decimal, without leading zeros.
pub open spec fn decimal_text(n: nat) -> Seq<char>
    decreases n,
{
    if n < 10 {
        seq![digit_char(n as int)]
    } else {
        decimal_text(n / 10).push(digit_char((n % 10) as int))
    }
}

/// `n` in decimal, behind a minus sign if it is negative.
pub open spec fn signed_decimal_text(n: int) -> Seq<char> {
    if n < 0 {
        seq!['-'] + decimal_text((-n) as nat)
    } else {
        decimal_text(n as nat)
    }
}

/// The `width` lowest hexadecimal digits of `n`, zero-padded on the left.
pub open spec fn hex_text(n: nat, width: nat) -> Seq<char>
    decreases width,
{
    if width == 0 {
        Seq::empty()
    } else {
        hex_text(n / 16, (width - 1) as nat).push(digit_char((n % 16) as int))
    }
}

/// The number that a run of decimal digits stands for; `None` if another character is in it.
pub open spec fn digits_value(digits: Seq<char>) -> Option<nat>
    decreases digits.len(),
{
    if digits.len() == 0 {
        Some(0)
    } else {
        match digits_value(digits.drop_last()) {
            Some(n) if '0' <= digits.last() && digits.last() <= '9' => Some(
                10 * n + (digits.last() as int - '0' as int) as nat,
            ),
            _ => None,
        }
    }
}

/// What `text` reads as a `u64`: an optional plus sign, then at least one decimal digit, and
/// nothing that does not fit.
pub open spec fn parsed_u64(text: Seq<char>) -> Option<u64> {
    let digits = if text.len() > 0 && text[0] == '+' {
        text.skip(1)
    } else {
        text
    };
    match digits_value(digits) {
        Some(n) if digits.len() > 0 && n <= u64::MAX => Some(n as u64),
        _ => None,
    }
}

/// `text` without the slashes at its end.
pub open spec fn without_trailing_slashes(text: Seq<char>) -> Seq<char>
    decreases text.len(),
{
    if text.len() > 0 && text.last() == '/' {
        without_trailing_slashes(text.drop_last())
    } else {
        text
    }
}

/// The view of an optional text.
pub open spec fn optional_text(text: Option<&str>) -> Option<Seq<char>> {
    match text {
        Some(text) => Some(text@),
        None => None,
    }
}

/// The view of an optional owned text.
pub open spec fn optional_string(text: Option<String>) -> Option<Seq<char>> {
    match text {
        Some(text) => Some(text@),
        None => None,
    }
}

/// A single digit, as text.
fn digit(value: u8) -> (text: &'static str)
    requires
        value < 16,
    ensures
        text@ == seq![digit_char(value as int)],
{
    let text = match value {
        0 => "0",
        1 => "1",
        2 => "2",
        3 => "3",
        4 => "4",
        5 => "5",
        6 => "6",
        7 => "7",
        8 => "8",
        9 => "9",
        10 => "a",
        11 => "b",
        12 => "c",
        13 => "d",
        14 => "e",
        _ => "f",
    };
    proof {
        reveal_strlit("0");
        reveal_strlit("1");
        reveal_strlit("2");
        reveal_strlit("3");
        reveal_strlit("4");
        reveal_strlit("5");
        reveal_strlit("6");
        reveal_strlit("7");
        reveal_strlit("8");
        reveal_strlit("9");
        reveal_strlit("a");
        reveal_strlit("b");
        reveal_strlit("c");
        reveal_strlit("d");
        reveal_strlit("e");
        reveal_strlit("f");
    }
    assert(text@ =~= seq![digit_char(value as int)]);
    text
}

/// Writes `n` in decimal.
pub fn decimal(n: u128) -> (text: String)
    ensures
        text@ == decimal_text(n as nat),
    decreases n,
{
    if n < 10 {
        digit(n as u8).to_owned()
    } else {
        let mut text = decimal(n / 10);
        text.append(digit((n % 10) as u8));
        assert(text@ =~= decimal_text(n as nat));
        text
    }
}

/// Writes `n` in decimal, with a minus sign if it is negative.
pub fn signed_decimal(n: i64) -> (text: String)
    ensures
        text@ == signed_decimal_text(n as int),
{
    if n < 0 {
        let mut text = "-".to_owned();
        text.append(decimal((-(n as i128)) as u128).as_str());
        proof {
            reveal_strlit("-");
        }
        assert(text@ =~= signed_decimal_text(n as int));
        text
    } else {
        decimal(n as u128)
    }
}

/// Writes the `width` lowest hexadecimal digits of `n`.
pub fn hex(n: u64, width: usize) -> (text: String)
    ensures
        text@ == hex_text(n as nat, width as nat),
    decreases width,
{
    if width == 0 {
        String::new()
    } else {
        let mut text = hex(n / 16, width - 1);
        text.append(digit((n % 16) as u8));
        assert(text@ =~= hex_text(n as nat, width as nat));
        text
    }
}

/// Leading digits bound the value from below: it only grows as digits follow.
proof fn lemma_digits_value_prefix(digits: Seq<char>, len: int)
    requires
        0 <= len <= digits.len(),
    ensures
        digits_value(digits.take(len)) is None ==> digits_value(digits) is None,
        digits_value(digits) matches Some(n) ==> digits_value(digits.take(len))->0 <= n,
    decreases digits.len() - len,
{
    if len == digits.len() {
        assert(digits.take(len) =~= digits);
    } else {
        lemma_digits_value_prefix(digits, len + 1);
        assert(digits.take(len + 1).drop_last() =~= digits.take(len));
    }
}

/// Reads `text` as a `u64`.
pub fn parse_u64(text: &str) -> (number: Option<u64>)
    ensures
        number == parsed_u64(text@),
{
    let ghost signed = text@.len() > 0 && text@[0] == '+';
    let ghost start = if signed {
        1int
    } else {
        0int
    };
    let ghost digits = text@.skip(start);
    assert(start == 0 ==> digits =~= text@);
    let mut number: u64 = 0;
    let mut first: bool = true;
    let mut empty: bool = true;
    for c in it: text.chars()
        invariant
            it.seq() == text@,
            signed == (text@.len() > 0 && text@[0] == '+'),
            start == if signed { 1int } else { 0int },
            digits == text@.skip(start),
            first == (it.index() == 0),
            empty == (it.index() <= start),
            digits_value(digits.take(if empty { 0 } else { it.index() - start })) == Some(
                number as nat,
            ),
            parsed_u64(text@) == (match digits_value(digits) {
                Some(n) if digits.len() > 0 && n <= u64::MAX => Some(n as u64),
                _ => None,
            }),
    {
        assert(c == text@[it.index()]);
        if first && c == '+' {
            first = false;
        } else {
            let ghost len = it.index() - start;
            proof {
                assert(digits[len] == c);
                lemma_digits_value_prefix(digits, len + 1);
                assert(digits.take(len + 1).drop_last() =~= digits.take(len));
            }
            if !('0' <= c && c <= '9') {
                return None;
            }
            let value: u64 = (c as u32 - '0' as u32) as u64;
            if number > (u64::MAX - value) / 10 {
                return None;
            }
            number = 10 * number + value;
            first = false;
            empty = false;
        }
    }
    assert(digits.take(digits.len() as int) =~= digits);
    if empty {
        None
    } else {
        Some(number)
    }
}

/// Cuts the slashes off the end of `text`.
pub fn trim_trailing_slashes(text: &str) -> (trimmed: &str)
    ensures
        trimmed@ == without_trailing_slashes(text@),
{
    let mut end: usize = text.unicode_len();
    assert(text@.take(end as int) =~= text@);
    while end > 0 && text.get_char(end - 1) == '/'
        invariant
            end <= text@.len(),
            without_trailing_slashes(text@.take(end as int)) == without_trailing_slashes(text@),
        decreases end,
    {
        assert(text@.take(end as int).drop_last() =~= text@.take(end - 1));
        end = end - 1;
    }
    assert(end > 0 ==> text@.take(end as int).last() == text@[end - 1]);
    text.substring_char(0, end)
}

/// Whether `text` begins with `prefix`.
pub fn starts_with(text: &str, prefix: &str) -> (found: bool)
    ensures
        found == prefix@.is_prefix_of(text@),
{
    let len: usize = prefix.unicode_len();
    if text.unicode_len() < len {
        return false;
    }
    let mut at: usize = 0;
    while at < len
        invariant
            at <= len,
            len == prefix@.len(),
            len <= text@.len(),
            prefix@.take(at as int) == text@.take(at as int),
        decreases len - at,
    {
        if text.get_char(at) != prefix.get_char(at) {
            assert(prefix@[at as int] != text@.take(len as int)[at as int]);
            return false;
        }
        assert(prefix@.take(at + 1) =~= prefix@.take(at as int).push(prefix@[at as int]));
        assert(text@.take(at + 1) =~= text@.take(at as int).push(text@[at as int]));
        at = at + 1;
    }
    assert(prefix@.take(len as int) =~= prefix@);
    true
}

/// Whether two texts are the same.
pub fn same_text(one: &str, other: &str) -> (same: bool)
    ensures
        same == (one@ == other@),
{
    one.to_owned() == other.to_owned()
}

/// Decimal digits read back as the number they were written from.
pub proof fn decimal_reads_back(n: nat)
    ensures
        digits_value(decimal_text(n)) == Some(n),
        decimal_text(n).len() > 0,
        decimal_text(n)[0] != '+',
    decreases n,
{
    if n < 10 {
        assert(decimal_text(n).drop_last() =~= Seq::<char>::empty());
        assert(digits_value(Seq::<char>::empty()) == Some(0nat));
    } else {
        decimal_reads_back(n / 10);
        assert(decimal_text(n).drop_last() =~= decimal_text(n / 10));
    }
}

/// A number written in decimal parses back to itself.
pub proof fn decimal_parses_back(n: u64)
    ensures
        parsed_u64(decimal_text(n as nat)) == Some(n),
{
    decimal_reads_back(n as nat);
}

/// Every hexadecimal text has its width, and lowercase hexadecimal digits in it.
pub proof fn hex_is_fixed_width(n: nat, width: nat)
    ensures
        hex_text(n, width).len() == width,
        forall|i: int|
            0 <= i < width ==> {
                let c = #[trigger] hex_text(n, width)[i];
                ('0' <= c && c <= '9') || ('a' <= c && c <= 'f')
            },
    decreases width,
{
    if width > 0 {
        hex_is_fixed_width(n / 16, (width - 1) as nat);
        let before = hex_text(n / 16, (width - 1) as nat);
        assert forall|i: int| 0 <= i < width implies {
            let c = #[trigger] hex_text(n, width)[i];
            ('0' <= c && c <= '9') || ('a' <= c && c <= 'f')
        } by {
            if i < width - 1 {
                assert(hex_text(n, width)[i] == before[i]);
            } else {
                assert(hex_text(n, width)[i] == digit_char((n % 16) as int));
            }
        }
    }
}

/// Numbers with the same hexadecimal digits are the same, as far as the digits go.
pub proof fn hex_tells_numbers_apart(n: nat, other: nat, width: nat)
    requires
        n < vstd::arithmetic::power::pow(16, width),
        other < vstd::arithmetic::power::pow(16, width),
        hex_text(n, width) == hex_text(other, width),
    ensures
        n == other,
    decreases width,
{
    reveal(vstd::arithmetic::power::pow);
    if width > 0 {
        let rest = (width - 1) as nat;
        let text = hex_text(n, width);
        let other_text = hex_text(other, width);
        assert(text.drop_last() =~= hex_text(n / 16, rest));
        assert(other_text.drop_last() =~= hex_text(other / 16, rest));
        assert(text.last() == digit_char((n % 16) as int));
        assert(other_text.last() == digit_char((other % 16) as int));
        let bound = vstd::arithmetic::power::pow(16, rest);
        assert(n / 16 < bound && other / 16 < bound);
        hex_tells_numbers_apart(n / 16, other / 16, rest);
    }
}

/// What the small views and digits are: an optional text is there or not, and the sixteen digits
/// are the usual ones.
pub proof fn views_show_what_is_there(text: &str, string: String, digit: int)
    ensures
        optional_text(Some(text)) == Some(text@),
        optional_text(None) is None,
        optional_string(Some(string)) == Some(string@),
        optional_string(None) is None,
        0 <= digit < 16 ==> digit_char(digit) == "0123456789abcdef"@[digit],
{
    reveal_strlit("0123456789abcdef");
}

/// A number is written with its last decimal digit behind what the number without that digit is
/// written as; a number that has no other digit is written as that digit.
pub proof fn decimals_are_written_digit_by_digit(
    number: u128,
    text: String,
    shorter: u128,
    shorter_text: String,
)
    requires
        shorter == number / 10,
        call_ensures(decimal, (number,), text),
        call_ensures(decimal, (shorter,), shorter_text),
    ensures
        shorter == 0 ==> text@ == seq!["0123456789"@[number as int % 10]],
        shorter > 0 ==> text@ == shorter_text@.push("0123456789"@[number as int % 10]),
{
    reveal_strlit("0123456789");
}

/// A negative number is written as a minus sign and its opposite, any other as it is.
pub proof fn signs_stand_before_the_digits(
    number: i64,
    text: String,
    amount: u128,
    amount_text: String,
)
    requires
        number >= 0 ==> amount == number,
        number < 0 ==> amount == -number,
        call_ensures(signed_decimal, (number,), text),
        call_ensures(decimal, (amount,), amount_text),
    ensures
        number < 0 ==> text@ == seq!['-'] + amount_text@,
        number >= 0 ==> text@ == amount_text@,
{
}

/// A hexadecimal text of some width has the last digit of the number behind the hexadecimal text of
/// the others, which is one digit shorter.
pub proof fn hexadecimals_are_written_digit_by_digit(
    number: u64,
    width: usize,
    text: String,
    shorter: u64,
    shorter_text: String,
)
    requires
        width > 0,
        shorter == number / 16,
        call_ensures(hex, (number, width), text),
        call_ensures(hex, (shorter, (width - 1) as usize), shorter_text),
    ensures
        text@.len() == width,
        text@ == shorter_text@.push("0123456789abcdef"@[number as int % 16]),
{
    hex_is_fixed_width(number as nat, width as nat);
    reveal_strlit("0123456789abcdef");
}

/// Digits that stand for a number are what the number is written as, behind as many zeros as this
/// gives.
proof fn lemma_digits_are_decimal(digits: Seq<char>, number: nat) -> (zeros: nat)
    requires
        digits.len() > 0,
        digits_value(digits) == Some(number),
    ensures
        digits == Seq::new(zeros, |i: int| '0') + decimal_text(number),
    decreases digits.len(),
{
    let earlier = digits.drop_last();
    if earlier.len() == 0 {
        assert(earlier =~= Seq::empty());
        assert(digits =~= Seq::new(0, |i: int| '0') + decimal_text(number));
        0
    } else {
        let before = digits_value(earlier)->0;
        let zeros = lemma_digits_are_decimal(earlier, before);
        assert(digits =~= earlier.push(digits.last()));
        if before == 0 {
            assert(decimal_text(0) =~= seq!['0']);
            assert(digits =~= Seq::new(zeros + 1, |i: int| '0') + decimal_text(number));
            zeros + 1
        } else {
            assert(decimal_text(number) =~= decimal_text(before).push(digits.last()));
            assert(digits =~= Seq::new(zeros, |i: int| '0') + decimal_text(number));
            zeros
        }
    }
}

/// Zeros before a number do not change it.
proof fn lemma_zeros_do_not_count(zeros: nat, number: nat)
    ensures
        digits_value(Seq::new(zeros, |i: int| '0') + decimal_text(number)) == Some(number),
        (Seq::new(zeros, |i: int| '0') + decimal_text(number)).len() > 0,
        (Seq::new(zeros, |i: int| '0') + decimal_text(number))[0] != '+',
    decreases zeros + number,
{
    let padding = Seq::new(zeros, |i: int| '0');
    let text = padding + decimal_text(number);
    decimal_reads_back(number);
    if number >= 10 {
        lemma_zeros_do_not_count(zeros, number / 10);
        assert(text.drop_last() =~= padding + decimal_text(number / 10));
    } else if zeros > 0 {
        lemma_zeros_do_not_count((zeros - 1) as nat, 0);
        assert(text.drop_last() =~= Seq::new((zeros - 1) as nat, |i: int| '0') + decimal_text(0));
    } else {
        assert(text =~= decimal_text(number));
    }
    if zeros > 0 {
        assert(text[0] == '0');
    } else {
        assert(text =~= decimal_text(number));
    }
}

/// What a number is written as reads back as the number, also behind zeros and behind a plus sign.
pub proof fn written_numbers_are_read(
    number: u64,
    written: String,
    zeros: nat,
    plus: bool,
    text: &str,
    read: Option<u64>,
)
    requires
        call_ensures(decimal, (number as u128,), written),
        text@ == (if plus {
            seq!['+']
        } else {
            Seq::<char>::empty()
        }) + Seq::new(zeros, |i: int| '0') + written@,
        call_ensures(parse_u64, (text,), read),
    ensures
        read == Some(number),
{
    lemma_zeros_do_not_count(zeros, number as nat);
    let digits = Seq::new(zeros, |i: int| '0') + written@;
    if plus {
        assert(text@.skip(1) =~= digits);
    } else {
        assert(text@ =~= digits);
    }
}

/// Nothing reads as a number but what the number is written as, behind zeros at most and a plus
/// sign.
pub proof fn only_written_numbers_are_read(
    text: &str,
    read: Option<u64>,
    written: String,
) -> (zeros: nat)
    requires
        call_ensures(parse_u64, (text,), read),
        read is Some,
        call_ensures(decimal, (read->0 as u128,), written),
    ensures
        ({
            let digits = Seq::new(zeros, |i: int| '0') + written@;
            text@ == digits || text@ == seq!['+'] + digits
        }),
{
    let number = read->0 as nat;
    let digits = if text@.len() > 0 && text@[0] == '+' {
        text@.skip(1)
    } else {
        text@
    };
    let zeros = lemma_digits_are_decimal(digits, number);
    assert(text@ == digits || text@ =~= seq!['+'] + digits);
    zeros
}

/// A trimmed text is the text up to the slashes at its end: what was cut off is slashes, and what
/// is left does not end in one.
pub proof fn trimming_cuts_slashes_only(text: &str, trimmed: &str)
    requires
        call_ensures(trim_trailing_slashes, (text,), trimmed),
    ensures
        trimmed@.is_prefix_of(text@),
        forall|i: int| trimmed@.len() <= i < text@.len() ==> #[trigger] text@[i] == '/',
        trimmed@.len() > 0 ==> trimmed@.last() != '/',
{
    lemma_trimmed(text@);
}

/// What is cut off a text is slashes, and what is left does not end in one.
pub proof fn lemma_trimmed(text: Seq<char>)
    ensures
        without_trailing_slashes(text).is_prefix_of(text),
        forall|i: int|
            without_trailing_slashes(text).len() <= i < text.len() ==> #[trigger] text[i] == '/',
        without_trailing_slashes(text).len() > 0 ==> without_trailing_slashes(text).last() != '/',
    decreases text.len(),
{
    if text.len() > 0 && text.last() == '/' {
        let shorter = text.drop_last();
        lemma_trimmed(shorter);
        let len = without_trailing_slashes(text).len() as int;
        assert(text.subrange(0, len) =~= shorter.subrange(0, len));
        assert forall|i: int| len <= i < text.len() implies #[trigger] text[i] == '/' by {
            if i < shorter.len() {
                assert(shorter[i] == text[i]);
            }
        }
    } else {
        assert(text.subrange(0, text.len() as int) =~= text);
    }
}

/// A text starts with a prefix exactly if it is the prefix with something behind it.
pub proof fn prefixes_stand_first(text: &str, prefix: &str, found: bool)
    requires
        call_ensures(starts_with, (text, prefix), found),
    ensures
        found <==> text@.len() >= prefix@.len() && text@ == prefix@ + text@.skip(
            prefix@.len() as int,
        ),
{
    let len = prefix@.len() as int;
    if found {
        assert(text@ =~= prefix@ + text@.skip(len));
    } else if text@.len() >= prefix@.len() && text@ == prefix@ + text@.skip(len) {
        assert(text@.subrange(0, len) =~= prefix@);
    }
}

/// Two texts are the same exactly if they have the same characters in the same order.
pub proof fn same_texts_have_the_same_characters(one: &str, other: &str, same: bool)
    requires
        call_ensures(same_text, (one, other), same),
    ensures
        same <==> one@.len() == other@.len() && forall|i: int|
            0 <= i < one@.len() ==> #[trigger] one@[i] == other@[i],
{
    if one@.len() == other@.len() && forall|i: int|
        0 <= i < one@.len() ==> #[trigger] one@[i] == other@[i] {
        assert(one@ =~= other@);
    }
}

}
