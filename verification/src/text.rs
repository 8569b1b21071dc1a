//! Small helpers on text: the characters of a string, comparing strings, and
//! decimal numerals.

use vstd::prelude::*;
use vstd::string::StringExecFns;

verus! {

/// The characters of a string, in order.
pub fn chars_of(text: &str) -> (chars: Vec<char>)
    ensures
        chars@ == text@,
{
    let mut chars: Vec<char> = Vec::new();
    for c in it: text.chars()
        invariant
            chars@ == it.seq().take(it.index()),
    {
        chars.push(c);
    }
    chars
}

/// Whether two strings hold the same characters.
pub fn same_text(left: &str, right: &str) -> (same: bool)
    ensures
        same == (left@ == right@),
{
    let a = chars_of(left);
    let b = chars_of(right);
    if a.len() != b.len() {
        return false;
    }
    let mut i: usize = 0;
    while i < a.len()
        invariant
            i <= a.len(),
            a.len() == b.len(),
            a@ == left@,
            b@ == right@,
            forall|j: int| 0 <= j < i ==> a@[j] == b@[j],
        decreases a.len() - i,
    {
        if a[i] != b[i] {
            return false;
        }
        i += 1;
    }
    assert(a@ =~= b@);
    true
}

/// The character that stands for a decimal digit.
pub open spec fn digit(d: nat) -> char
    recommends
        d < 10,
{
    (d + 48) as u8 as char
}

/// Whether a character is a decimal digit.
pub open spec fn is_digit(c: char) -> bool {
    exists|d: nat| d < 10 && c == #[trigger] digit(d)
}

/// A number in decimal, without padding.
pub open spec fn decimal(n: nat) -> Seq<char>
    decreases n,
{
    if n < 10 {
        seq![digit(n)]
    } else {
        decimal(n / 10).push(digit(n % 10))
    }
}

/// The number that a run of decimal digits stands for.
pub open spec fn numeral_value(digits: Seq<char>) -> nat
    decreases digits.len(),
{
    if digits.len() == 0 {
        0
    } else {
        (numeral_value(digits.drop_last()) * 10 + (digits.last() as u8 - 48)) as nat
    }
}

/// A number in decimal, padded with a zero to two digits.
pub open spec fn two_digits(n: nat) -> Seq<char> {
    if n < 10 {
        seq!['0'] + decimal(n)
    } else {
        decimal(n)
    }
}

/// A count of seconds as hours, minutes and seconds, `HH:MM:SS`: each part
/// padded with a zero to two digits, the hours as long as they need to be.
pub open spec fn clock_text(seconds: nat) -> Seq<char> {
    two_digits(seconds / 3600) + seq![':'] + two_digits(seconds % 3600 / 60) + seq![':']
        + two_digits(seconds % 60)
}

/// A decimal numeral is made of digits, at least one, and of two or more from
/// ten on.
pub proof fn lemma_decimal_digits(n: nat)
    ensures
        decimal(n).len() >= 1,
        n >= 10 ==> decimal(n).len() >= 2,
        forall|i: int| 0 <= i < decimal(n).len() ==> is_digit(#[trigger] decimal(n)[i]),
    decreases n,
{
    if n < 10 {
        assert(decimal(n)[0] == digit(n));
    } else {
        lemma_decimal_digits(n / 10);
        let rest = decimal(n / 10);
        assert forall|i: int| 0 <= i < decimal(n).len() implies is_digit(
            #[trigger] decimal(n)[i],
        ) by {
            if i < rest.len() {
                assert(decimal(n)[i] == rest[i]);
            } else {
                assert(decimal(n)[i] == digit(n % 10));
            }
        }
    }
}

/// A decimal numeral stands for its number, and begins with a zero only as
/// the numeral of zero.
pub proof fn lemma_decimal_value(n: nat)
    ensures
        numeral_value(decimal(n)) == n,
        n > 0 ==> decimal(n)[0] != '0',
    decreases n,
{
    let numeral = decimal(n);
    if n < 10 {
        assert(numeral.drop_last() =~= Seq::<char>::empty());
        assert(numeral_value(Seq::<char>::empty()) == 0);
        assert(numeral.last() == digit(n));
        assert(digit(n) as u8 == n + 48);
    } else {
        lemma_decimal_value(n / 10);
        lemma_decimal_digits(n / 10);
        assert(numeral.drop_last() =~= decimal(n / 10));
        assert(numeral.last() == digit(n % 10));
        assert(digit(n % 10) as u8 == n % 10 + 48);
        assert(numeral[0] == decimal(n / 10)[0]);
    }
}

/// A padded numeral stands for its number.
pub proof fn lemma_two_digits_value(n: nat)
    ensures
        numeral_value(two_digits(n)) == n,
{
    lemma_decimal_value(n);
    if n < 10 {
        let padded = two_digits(n);
        let zero = seq!['0'];
        assert(padded.drop_last() =~= zero);
        assert(padded.last() == digit(n));
        assert(digit(n) as u8 == n + 48);
        assert(zero.drop_last() =~= Seq::<char>::empty());
        assert(numeral_value(Seq::<char>::empty()) == 0);
        assert(zero.last() == '0');
        assert(numeral_value(zero) == 0);
    }
}

/// Below a hundred, the padded numeral is the tens digit and the ones digit.
pub proof fn lemma_two_digits_below_hundred(n: nat)
    requires
        n < 100,
    ensures
        two_digits(n) == seq![digit(n / 10), digit(n % 10)],
{
    reveal_with_fuel(decimal, 2);
    assert(two_digits(n) =~= seq![digit(n / 10), digit(n % 10)]);
}

/// Whatever the count of seconds, its text is the hours in two or more
/// digits, then `:MM:SS`, minutes and seconds below sixty in two digits each;
/// hours, minutes and seconds make up the count.
pub proof fn lemma_clock_text_shape(seconds: nat)
    ensures
        ({
            let text = clock_text(seconds);
            let hours = two_digits(seconds / 3600);
            let m = seconds % 3600 / 60;
            let s = seconds % 60;
            &&& m < 60
            &&& s < 60
            &&& seconds == seconds / 3600 * 3600 + m * 60 + s
            &&& hours.len() >= 2
            &&& forall|i: int| 0 <= i < hours.len() ==> is_digit(#[trigger] hours[i])
            &&& numeral_value(hours) == seconds / 3600
            &&& text == hours + seq![
                ':',
                digit(m / 10),
                digit(m % 10),
                ':',
                digit(s / 10),
                digit(s % 10),
            ]
        }),
{
    let h = seconds / 3600;
    let m = seconds % 3600 / 60;
    let s = seconds % 60;
    let hours = two_digits(h);
    lemma_decimal_digits(h);
    lemma_two_digits_value(h);
    lemma_two_digits_below_hundred(m);
    lemma_two_digits_below_hundred(s);
    assert forall|i: int| 0 <= i < hours.len() implies is_digit(#[trigger] hours[i]) by {
        if h < 10 {
            if i == 0 {
                assert(hours[0] == digit(0));
            } else {
                assert(hours[i] == decimal(h)[i - 1]);
            }
        }
    }
    assert(clock_text(seconds) =~= hours + seq![
        ':',
        digit(m / 10),
        digit(m % 10),
        ':',
        digit(s / 10),
        digit(s % 10),
    ]);
}

/// The text of one decimal digit.
fn digit_text(d: u8) -> (text: &'static str)
    requires
        d < 10,
    ensures
        text@ == seq![digit(d as nat)],
{
    proof {
        reveal_strlit("0");
        reveal_strlit("1");
        reveal_strlit("2");
        reveal_strlit("3");
        reveal_strlit("4");
        reveal_strlit("5");
        reveal_strlit("6");
        reveal_strlit("7");
        reveal_strlit("8");
        reveal_strlit("9");
    }
    let text = match d {
        0 => "0",
        1 => "1",
        2 => "2",
        3 => "3",
        4 => "4",
        5 => "5",
        6 => "6",
        7 => "7",
        8 => "8",
        _ => "9",
    };
    assert(text@ =~= seq![digit(d as nat)]);
    text
}

/// Appends a number in decimal.
pub fn push_decimal(out: &mut String, n: u64)
    ensures
        final(out)@ == old(out)@ + decimal(n as nat),
    decreases n,
{
    if n >= 10 {
        push_decimal(out, n / 10);
    }
    out.append(digit_text((n % 10) as u8));
    assert(out@ =~= old(out)@ + decimal(n as nat));
}

/// Appends a number in decimal, padded with a zero to two digits.
pub fn push_two_digits(out: &mut String, n: u64)
    ensures
        final(out)@ == old(out)@ + two_digits(n as nat),
{
    if n < 10 {
        out.append(digit_text(0));
    }
    push_decimal(out, n);
    assert(out@ =~= old(out)@ + two_digits(n as nat));
}

} // verus!
