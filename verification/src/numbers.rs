//! Decimal numerals, written and read.
use crate::text::chars_of;
use vstd::prelude::*;
use vstd::string::*;

verus! {

/// The character of a decimal digit.
pub open spec fn digit_char(d: int) -> char {
    ('0' as u32 + d) as char
}

/// The decimal numeral of a number, without leading zeros.
pub open spec fn decimal(n: nat) -> Seq<char>
    decreases n,
{
    if n < 10 {
        seq![digit_char(n as int)]
    } else {
        decimal(n / 10).push(digit_char((n % 10) as int))
    }
}

/// Whether every character is a decimal digit.
pub open spec fn all_digits(s: Seq<char>) -> bool {
    forall|i: int| 0 <= i < s.len() ==> '0' <= #[trigger] s[i] <= '9'
}

/// The number that a sequence of decimal digits stands for.
pub open spec fn digits_value(s: Seq<char>) -> nat
    decreases s.len(),
{
    if s.len() == 0 {
        0
    } else {
        digits_value(s.drop_last()) * 10 + (s.last() as u32 - '0' as u32) as nat
    }
}

/// The digits of a numeral: what follows the plus sign that it may start with.
pub open spec fn unsigned_part(s: Seq<char>) -> Seq<char> {
    if s.len() > 0 && s[0] == '+' {
        s.drop_first()
    } else {
        s
    }
}

/// The 32-bit number that a text spells: an optional plus sign, then one or
/// more digits whose value fits. Any other text spells none.
pub open spec fn spelled_u32(s: Seq<char>) -> Option<u32> {
    let digits = unsigned_part(s);
    if digits.len() > 0 && all_digits(digits) && digits_value(digits) <= u32::MAX {
        Some(digits_value(digits) as u32)
    } else {
        None
    }
}

/// Writes a number as its decimal numeral.
pub fn decimal_text(n: u32) -> (text: String)
    ensures
        text@ == decimal(n as nat),
    decreases n,
{
    let digit: u8 = 48 + (n % 10) as u8;
    let mut text = if n < 10 {
        String::new()
    } else {
        decimal_text(n / 10)
    };
    text.push(digit as char);
    text
}

/// More digits never stand for a smaller number.
proof fn lemma_value_grows(s: Seq<char>, n: int)
    requires
        0 <= n <= s.len(),
        all_digits(s),
    ensures
        digits_value(s.take(n)) <= digits_value(s),
    decreases s.len() - n,
{
    if n < s.len() {
        assert(s.take(n + 1).drop_last() == s.take(n));
        lemma_value_grows(s, n + 1);
    } else {
        assert(s.take(n) == s);
    }
}

/// Reads a text that spells a 32-bit number.
pub fn parse_u32(text: &str) -> (number: Option<u32>)
    ensures
        number == spelled_u32(text@),
{
    let chars = chars_of(text);
    let start: usize = if chars.len() > 0 && chars[0] == '+' {
        1
    } else {
        0
    };
    let ghost digits = unsigned_part(text@);
    assert(digits == chars@.skip(start as int));
    if start == chars.len() {
        return None;
    }
    let mut value: u32 = 0;
    let mut i: usize = start;
    while i < chars.len()
        invariant
            start <= i <= chars@.len(),
            digits == chars@.skip(start as int),
            digits == unsigned_part(text@),
            all_digits(digits.take(i - start)),
            value == digits_value(digits.take(i - start)),
        decreases chars@.len() - i,
    {
        let c = chars[i];
        let ghost k = i - start;
        assert(digits[k] == c);
        if !('0' <= c && c <= '9') {
            return None;
        }
        assert(digits.take(k + 1).drop_last() == digits.take(k));
        let d: u32 = c as u32 - 48;
        if value > (u32::MAX - d) / 10 {
            proof {
                if all_digits(digits) {
                    lemma_value_grows(digits, k + 1);
                }
            }
            return None;
        }
        value = value * 10 + d;
        i = i + 1;
    }
    assert(digits.take(i - start) == digits);
    Some(value)
}

/// A number's numeral is a text of digits that stands for the number.
pub proof fn lemma_decimal_value(n: nat)
    ensures
        decimal(n).len() > 0,
        all_digits(decimal(n)),
        digits_value(decimal(n)) == n,
    decreases n,
{
    let s = decimal(n);
    if n < 10 {
        assert(s.drop_last() == Seq::<char>::empty());
        assert(digits_value(s.drop_last()) == 0);
    } else {
        lemma_decimal_value(n / 10);
        assert(s.drop_last() == decimal(n / 10));
    }
}

/// What is written as a numeral is read back as the same number.
pub proof fn law_numeral_reads_back(n: u32)
    ensures
        spelled_u32(decimal(n as nat)) == Some(n),
{
    lemma_decimal_value(n as nat);
    assert(decimal(n as nat)[0] != '+');
}

/// A numeral is written digit by digit: a number below ten is its digit, and
/// appending a digit multiplies by ten and adds it.
pub proof fn law_numeral_grows_by_digits(n: nat, c: char)
    requires
        '0' <= c <= '9',
    ensures
        decimal((c as u32 - 48) as nat) == seq![c],
        n > 0 ==> decimal((10 * n + (c as u32 - 48)) as nat) == decimal(n).push(c),
{
    let d = (c as u32 - 48) as nat;
    assert(digit_char(d as int) == c);
    if n > 0 {
        let m = (10 * n + d) as nat;
        assert(m / 10 == n && m % 10 == d) by (nonlinear_arith)
            requires
                m == 10 * n + d,
                d < 10,
        ;
    }
}

/// A digit alone spells its value; a digit that is appended to what spells a
/// number multiplies by ten and adds it, as long as the sum fits in 32 bits, and
/// spells nothing where it does not fit.
pub proof fn law_reading_goes_digit_by_digit(s: Seq<char>, c: char)
    requires
        '0' <= c <= '9',
    ensures
        spelled_u32(seq![c]) == Some((c as u32 - 48) as u32),
        spelled_u32(s) matches Some(n) ==> spelled_u32(s.push(c)) == (if 10 * n + (c as u32 - 48)
            <= 4294967295 {
            Some((10 * n + (c as u32 - 48)) as u32)
        } else {
            None
        }),
{
    let one = seq![c];
    assert(one.drop_last() =~= Seq::<char>::empty());
    assert(digits_value(Seq::<char>::empty()) == 0);
    assert(digits_value(one) == (c as u32 - 48) as nat);
    if spelled_u32(s) is Some {
        let digits = unsigned_part(s);
        let more = unsigned_part(s.push(c));
        assert(s.push(c)[0] == s[0]);
        assert(more =~= digits.push(c));
        assert(more.drop_last() =~= digits);
        assert forall|i: int| 0 <= i < more.len() implies '0' <= #[trigger] more[i] <= '9' by {
            if i < digits.len() {
                assert(more[i] == digits[i]);
            }
        }
    }
}

/// A plus sign in front of a number changes nothing, and there can be but one.
/// Otherwise nothing but digits spells a number: neither does an empty text, nor
/// a plus sign alone, nor one with any other character in it. A text that spells
/// none for being too large spells none with more digits either.
pub proof fn law_only_digits_spell_a_number(s: Seq<char>, c: char)
    ensures
        s.len() == 0 ==> spelled_u32(s) == None::<u32>,
        spelled_u32(seq!['+']) == None::<u32>,
        s.len() > 0 && s[0] != '+' ==> spelled_u32(seq!['+'] + s) == spelled_u32(s),
        s.len() > 0 && s[0] == '+' ==> spelled_u32(seq!['+'] + s) == None::<u32>,
        spelled_u32(s) is Some ==> forall|i: int|
            0 < i < s.len() ==> '0' <= #[trigger] s[i] <= '9',
        spelled_u32(s) is Some ==> '0' <= s[0] <= '9' || s[0] == '+',
        s.len() > 0 && s != seq!['+'] && spelled_u32(s) == None::<u32> ==> spelled_u32(s.push(c))
            == None::<u32>,
{
    let signed = seq!['+'] + s;
    assert(signed.drop_first() =~= s);
    assert(seq!['+'].drop_first() =~= Seq::<char>::empty());
    if s.len() > 0 && s[0] == '+' {
        assert(!('0' <= s[0] <= '9'));
    }
    let digits = unsigned_part(s);
    if spelled_u32(s) is Some {
        assert forall|i: int| 0 < i < s.len() implies '0' <= #[trigger] s[i] <= '9' by {
            if s[0] == '+' {
                assert(digits[i - 1] == s[i]);
            } else {
                assert(digits[i] == s[i]);
            }
        }
        if s[0] != '+' {
            assert(digits[0] == s[0]);
        }
    }
    if s.len() > 0 && s != seq!['+'] && spelled_u32(s) is None {
        let more = unsigned_part(s.push(c));
        assert(s.push(c)[0] == s[0]);
        assert(more =~= digits.push(c));
        if s[0] == '+' && s.len() == 1 {
            assert(s =~= seq!['+']);
        }
        if all_digits(more) {
            assert forall|i: int| 0 <= i < digits.len() implies '0' <= #[trigger] digits[i]
                <= '9' by {
                assert(more[i] == digits[i]);
            }
            lemma_value_grows(more, digits.len() as int);
            assert(more.take(digits.len() as int) =~= digits);
        }
    }
}

/// The numeral of the gateway's port.
pub proof fn lemma_port_numeral()
    ensures
        decimal(18789) == "18789"@,
{
    reveal_strlit("18789");
    law_numeral_grows_by_digits(1, '8');
    law_numeral_grows_by_digits(0, '1');
    law_numeral_grows_by_digits(18, '7');
    law_numeral_grows_by_digits(187, '8');
    law_numeral_grows_by_digits(1878, '9');
    assert(decimal(18789) =~= "18789"@);
}

} // verus!
