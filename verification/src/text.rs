use vstd::prelude::*;

verus! {

/// The sixteen digits used for hexadecimal output, upper case, in order.
pub open spec fn digit_chars() -> Seq<char> {
    seq!['0', '1', '2', '3', '4', '5', '6', '7', '8', '9', 'A', 'B', 'C', 'D', 'E', 'F']
}

/// The character of digit `d` (decimal for `d < 10`, upper-case hex above).
pub open spec fn digit_char(d: int) -> char {
    digit_chars()[d]
}

/// Decimal representation of `n`, without sign or leading zeros.
pub open spec fn decimal(n: nat) -> Seq<char>
    decreases n,
{
    if n < 10 {
        seq![digit_char(n as int)]
    } else {
        decimal(n / 10).push(digit_char((n % 10) as int))
    }
}

/// Two upper-case hex digits of a byte, most significant first.
pub open spec fn hex_byte(b: u8) -> Seq<char> {
    seq![digit_char((b / 16) as int), digit_char((b % 16) as int)]
}

/// Whether `ch` is one of the decimal digits `0`–`9`.
pub open spec fn is_decimal_digit(ch: char) -> bool {
    48 <= ch as int <= 57
}

/// Whether `ch` is one of the hex digits `0`–`9`, `A`–`F`.
pub open spec fn is_upper_hex_digit(ch: char) -> bool {
    48 <= ch as int <= 57 || 65 <= ch as int <= 70
}

/// The number a hex digit character stands for.
pub open spec fn hex_digit_value(ch: char) -> int {
    if ch as int <= 57 {
        ch as int - 48
    } else {
        ch as int - 55
    }
}

/// The number a string of decimal digits stands for, read most
/// significant digit first.
pub open spec fn digits_value(s: Seq<char>) -> int
    decreases s.len(),
{
    if s.len() == 0 {
        0
    } else {
        digits_value(s.drop_last()) * 10 + (s.last() as int - 48)
    }
}

/// `s` is the usual decimal numeral of `n`: one or more digits, no
/// leading zero except in `0` itself, worth `n`.
pub open spec fn is_numeral_of(s: Seq<char>, n: nat) -> bool {
    &&& s.len() > 0
    &&& forall|i: int| 0 <= i < s.len() ==> is_decimal_digit(#[trigger] s[i])
    &&& s[0] == '0' ==> s.len() == 1
    &&& digits_value(s) == n
}

/// The digit characters stand for their index.
pub proof fn lemma_digit_char_value(d: int)
    requires
        0 <= d < 16,
    ensures
        is_upper_hex_digit(digit_char(d)),
        hex_digit_value(digit_char(d)) == d,
        d < 10 ==> is_decimal_digit(digit_char(d)) && digit_char(d) as int - 48 == d,
        d == 0 <==> digit_char(d) == '0',
{
}

/// `decimal(n)` is the decimal numeral of `n`.
pub proof fn lemma_decimal_is_numeral(n: nat)
    ensures
        is_numeral_of(decimal(n), n),
    decreases n,
{
    let s: Seq<char> = decimal(n);
    if n < 10 {
        lemma_digit_char_value(n as int);
        assert(s.drop_last() =~= Seq::<char>::empty());
        assert(digits_value(s.drop_last()) == 0);
        assert(digits_value(s) == n);
    } else {
        lemma_decimal_is_numeral(n / 10);
        lemma_digit_char_value((n % 10) as int);
        let p: Seq<char> = decimal(n / 10);
        assert(s.drop_last() =~= p);
        assert(s[0] == p[0]);
        if p[0] == '0' {
            assert(p.len() == 1);
            assert(p.drop_last() =~= Seq::<char>::empty());
            assert(digits_value(p.drop_last()) == 0);
            assert(digits_value(p) == 0);
            assert(false);
        }
        assert(s.last() == digit_char((n % 10) as int));
        assert(digits_value(s) == digits_value(p) * 10 + (n % 10));
        assert(digits_value(s) == n);
        assert forall|i: int| 0 <= i < s.len() implies is_decimal_digit(#[trigger] s[i]) by {
            if i < p.len() {
                assert(s[i] == p[i]);
            }
        }
    }
}

/// A digit string with a non-zero leading digit is worth at least one.
proof fn lemma_digits_value_positive(s: Seq<char>)
    requires
        s.len() > 0,
        forall|i: int| 0 <= i < s.len() ==> is_decimal_digit(#[trigger] s[i]),
        s[0] != '0',
    ensures
        digits_value(s) >= 1,
    decreases s.len(),
{
    if s.len() == 1 {
        assert(s.drop_last() =~= Seq::<char>::empty());
        assert(digits_value(s.drop_last()) == 0);
        assert(s[0] as int != 48);
    } else {
        let p: Seq<char> = s.drop_last();
        assert(p[0] == s[0]);
        assert forall|i: int| 0 <= i < p.len() implies is_decimal_digit(#[trigger] p[i]) by {
            assert(p[i] == s[i]);
        }
        lemma_digits_value_positive(p);
        assert(is_decimal_digit(s[s.len() - 1]));
    }
}

/// Every numeral of `n` is `decimal(n)`: a number has exactly one decimal
/// numeral.
pub proof fn lemma_numeral_unique(s: Seq<char>, n: nat)
    requires
        is_numeral_of(s, n),
    ensures
        s == decimal(n),
    decreases s.len(),
{
    let d: int = s.last() as int - 48;
    assert(is_decimal_digit(s[s.len() - 1]));
    assert(0 <= d <= 9);
    let p: Seq<char> = s.drop_last();
    if s.len() == 1 {
        assert(p =~= Seq::<char>::empty());
        assert(digits_value(p) == 0);
        assert(n == d);
        lemma_digit_char_value(d);
        assert(s =~= decimal(n));
    } else {
        assert(p[0] == s[0]);
        assert(s[0] != '0');
        assert forall|i: int| 0 <= i < p.len() implies is_decimal_digit(#[trigger] p[i]) by {
            assert(p[i] == s[i]);
        }
        lemma_digits_value_positive(p);
        let m: int = digits_value(p);
        assert(n == m * 10 + d);
        assert(n >= 10);
        assert(m == n / 10 && d == n % 10);
        assert(is_numeral_of(p, (n / 10) as nat));
        lemma_numeral_unique(p, (n / 10) as nat);
        lemma_digit_char_value(d);
        assert(s.last() == digit_char(d));
        assert(s =~= p.push(s.last()));
    }
}

/// A string slice holding the single character of digit `d`.
fn digit_str(d: u8) -> (s: &'static str)
    requires
        d < 16,
    ensures
        s@ == seq![digit_char(d as int)],
{
    match d {
        0 => { proof { reveal_strlit("0"); } "0" },
        1 => { proof { reveal_strlit("1"); } "1" },
        2 => { proof { reveal_strlit("2"); } "2" },
        3 => { proof { reveal_strlit("3"); } "3" },
        4 => { proof { reveal_strlit("4"); } "4" },
        5 => { proof { reveal_strlit("5"); } "5" },
        6 => { proof { reveal_strlit("6"); } "6" },
        7 => { proof { reveal_strlit("7"); } "7" },
        8 => { proof { reveal_strlit("8"); } "8" },
        9 => { proof { reveal_strlit("9"); } "9" },
        10 => { proof { reveal_strlit("A"); } "A" },
        11 => { proof { reveal_strlit("B"); } "B" },
        12 => { proof { reveal_strlit("C"); } "C" },
        13 => { proof { reveal_strlit("D"); } "D" },
        14 => { proof { reveal_strlit("E"); } "E" },
        _ => { proof { reveal_strlit("F"); } "F" },
    }
}

/// Appends the decimal representation of `n` to `s`.
pub fn push_decimal(s: &mut String, n: u32)
    ensures
        final(s)@ == old(s)@ + decimal(n as nat),
    decreases n,
{
    if n >= 10 {
        push_decimal(s, n / 10);
    }
    let d: u8 = (n % 10) as u8;
    s.append(digit_str(d));
    assert(final(s)@ =~= old(s)@ + decimal(n as nat)) by {
        if n < 10 {
            assert(decimal(n as nat) =~= seq![digit_char(n as int)]);
        }
    }
}

/// Appends the two hex digits of `b` to `s`.
pub fn push_hex_byte(s: &mut String, b: u8)
    ensures
        final(s)@ == old(s)@ + hex_byte(b),
{
    s.append(digit_str(b / 16));
    s.append(digit_str(b % 16));
    assert(final(s)@ =~= old(s)@ + hex_byte(b));
}

} // verus!
