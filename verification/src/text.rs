use vstd::prelude::*;
use vstd::std_specs::iter::IteratorSpec;
use vstd::string::*;

verus! {

broadcast use vstd::string::group_string_axioms;

/// Whether two string slices hold the same characters.
pub fn same_text(a: &str, b: &str) -> (same: bool)
    ensures
        same == (a@ == b@),
{
    let mut left = a.chars();
    let mut right = b.chars();
    let ghost mut done: int = 0;
    loop
        invariant
            0 <= done <= a@.len(),
            done <= b@.len(),
            left.remaining() == a@.skip(done),
            right.remaining() == b@.skip(done),
            a@.take(done) == b@.take(done),
            left.decrease() is Some,
        decreases left.decrease()->0,
    {
        let x = left.next();
        let y = right.next();
        match (x, y) {
            (Some(p), Some(q)) => {
                if p != q {
                    proof {
                        assert(a@[done] != b@[done]);
                    }
                    return false;
                }
                proof {
                    assert(a@.take(done + 1) =~= a@.take(done).push(a@[done]));
                    assert(b@.take(done + 1) =~= b@.take(done).push(b@[done]));
                    assert(a@.skip(done).drop_first() =~= a@.skip(done + 1));
                    assert(b@.skip(done).drop_first() =~= b@.skip(done + 1));
                    done = done + 1;
                }
            },
            (None, None) => {
                proof {
                    assert(a@.take(done) =~= a@);
                    assert(b@.take(done) =~= b@);
                }
                return true;
            },
            _ => {
                proof {
                    assert(a@.len() != b@.len());
                }
                return false;
            },
        }
    }
}

/// Whether `c` is one of the ten decimal digits.
pub open spec fn is_digit(c: char) -> bool {
    '0' <= c && c <= '9'
}

/// The number a decimal digit stands for.
pub open spec fn digit_value(c: char) -> nat {
    (c as int - '0' as int) as nat
}

/// Whether every character of `s` is a decimal digit.
pub open spec fn all_digits(s: Seq<char>) -> bool {
    forall|i: int| 0 <= i < s.len() ==> is_digit(#[trigger] s[i])
}

/// The number that a run of decimal digits writes, most significant digit first.
pub open spec fn digits_value(s: Seq<char>) -> nat
    decreases s.len(),
{
    if s.len() == 0 {
        0
    } else {
        digits_value(s.drop_last()) * 10 + digit_value(s.last())
    }
}

/// `s` without one leading plus sign, if it has one.
pub open spec fn without_plus(s: Seq<char>) -> Seq<char> {
    if s.len() > 0 && s[0] == '+' {
        s.skip(1)
    } else {
        s
    }
}

/// The unsigned 64-bit number that `s` writes in decimal: an optional plus sign, then one
/// or more digits and nothing else, the number being at most `u64::MAX`.
pub open spec fn u64_of(s: Seq<char>) -> Option<u64> {
    let digits = without_plus(s);
    if digits.len() > 0 && all_digits(digits) && digits_value(digits) <= u64::MAX {
        Some(digits_value(digits) as u64)
    } else {
        None
    }
}

/// A run of digits is worth at least as much as any of its prefixes.
pub proof fn lemma_prefix_value(s: Seq<char>, k: int)
    requires
        0 <= k <= s.len(),
    ensures
        digits_value(s.take(k)) <= digits_value(s),
    decreases s.len() - k,
{
    if k == s.len() {
        assert(s.take(k) =~= s);
    } else {
        lemma_prefix_value(s.drop_last(), k);
        assert(s.drop_last().take(k) =~= s.take(k));
    }
}

/// Reads an unsigned 64-bit number written in decimal.
pub fn parse_u64(text: &str) -> (number: Option<u64>)
    ensures
        number == u64_of(text@),
{
    let ghost digits = without_plus(text@);
    let mut rest = text.chars();
    let mut value: u64 = 0;
    let mut seen = false;
    let ghost mut done: int = 0;
    match rest.next() {
        None => {
            return None;
        },
        Some(c) => {
            if c == '+' {
                proof {
                    assert(text@.skip(0).drop_first() =~= digits.skip(0));
                    assert(digits.take(0).len() == 0);
                }
            } else if '0' <= c && c <= '9' {
                value = (c as u32 - '0' as u32) as u64;
                seen = true;
                proof {
                    done = 1;
                    assert(digits.take(1).drop_last().len() == 0);
                    assert(digits.take(1).last() == c);
                    assert(digits_value(digits.take(1)) == digits_value(digits.take(1).drop_last()) * 10
                        + digit_value(c));
                    assert(text@.skip(0).drop_first() =~= digits.skip(1));
                }
            } else {
                proof {
                    assert(!is_digit(digits[0]));
                }
                return None;
            }
        },
    }
    loop
        invariant
            digits == without_plus(text@),
            0 <= done <= digits.len(),
            seen == (done > 0),
            rest.remaining() == digits.skip(done),
            all_digits(digits.take(done)),
            value == digits_value(digits.take(done)),
            rest.decrease() is Some,
        decreases rest.decrease()->0,
    {
        match rest.next() {
            None => {
                proof {
                    assert(digits.take(done) =~= digits);
                }
                return if seen {
                    Some(value)
                } else {
                    None
                };
            },
            Some(c) => {
                if !('0' <= c && c <= '9') {
                    proof {
                        assert(!is_digit(digits[done]));
                    }
                    return None;
                }
                let digit: u64 = (c as u32 - '0' as u32) as u64;
                proof {
                    assert(digits.take(done + 1).drop_last() =~= digits.take(done));
                    assert(digits.take(done + 1).last() == c);
                    assert(digits.skip(done).drop_first() =~= digits.skip(done + 1));
                }
                if value > u64::MAX / 10 || value * 10 > u64::MAX - digit {
                    proof {
                        lemma_prefix_value(digits, done + 1);
                    }
                    return None;
                }
                value = value * 10 + digit;
                seen = true;
                proof {
                    done = done + 1;
                }
            },
        }
    }
}

/// The character that stands for a number below ten.
pub open spec fn digit_char(digit: nat) -> char {
    ('0' as int + digit) as char
}

/// A number written in decimal, without a sign and without leading zeros.
pub open spec fn decimal_digits(number: nat) -> Seq<char>
    decreases number,
{
    if number < 10 {
        seq![digit_char(number)]
    } else {
        decimal_digits(number / 10).push(digit_char(number % 10))
    }
}

/// What is written is read back: the digits of a number are digits, and they write that
/// number.
pub proof fn lemma_digits_read_back(number: nat)
    ensures
        decimal_digits(number).len() > 0,
        all_digits(decimal_digits(number)),
        digits_value(decimal_digits(number)) == number,
        decimal_digits(number)[0] != '+',
    decreases number,
{
    let digits = decimal_digits(number);
    if number < 10 {
        assert(digits.drop_last().len() == 0);
        assert(digits.last() == digit_char(number));
        assert(digits_value(digits) == digits_value(digits.drop_last()) * 10 + digit_value(
            digits.last(),
        ));
    } else {
        lemma_digits_read_back(number / 10);
        let front = decimal_digits(number / 10);
        assert(digits.drop_last() =~= front);
        assert(digits.last() == digit_char(number % 10));
        assert forall|i: int| 0 <= i < digits.len() implies is_digit(#[trigger] digits[i]) by {
            if i < front.len() {
                assert(digits[i] == front[i]);
            }
        }
        assert(digits[0] == front[0]);
    }
}

/// A number that fits 64 bits comes back from its own digits.
pub proof fn lemma_u64_reads_back(number: u64)
    ensures
        u64_of(decimal_digits(number as nat)) == Some(number),
{
    lemma_digits_read_back(number as nat);
}

/// The last `width` decimal digits of a number, with zeros in front where it has fewer.
pub open spec fn fixed_digits(number: nat, width: nat) -> Seq<char>
    decreases width,
{
    if width == 0 {
        Seq::empty()
    } else {
        fixed_digits(number / 10, (width - 1) as nat).push(digit_char(number % 10))
    }
}

/// The one-character text of a number below ten.
fn digit_text(digit: u128) -> (text: &'static str)
    requires
        digit < 10,
    ensures
        text@ == seq![digit_char(digit as nat)],
{
    proof {
        reveal_strlit("0");
        reveal_strlit("1");
        reveal_strlit("2");
        reveal_strlit("3");
        reveal_strlit("4");
        reveal_strlit("5");
        reveal_strlit("6");
        reveal_strlit("7");
        reveal_strlit("8");
        reveal_strlit("9");
    }
    let text = if digit == 0 {
        "0"
    } else if digit == 1 {
        "1"
    } else if digit == 2 {
        "2"
    } else if digit == 3 {
        "3"
    } else if digit == 4 {
        "4"
    } else if digit == 5 {
        "5"
    } else if digit == 6 {
        "6"
    } else if digit == 7 {
        "7"
    } else if digit == 8 {
        "8"
    } else {
        "9"
    };
    assert(text@ =~= seq![digit_char(digit as nat)]);
    text
}

/// Writes `number` in decimal behind what `text` holds.
pub fn append_digits(text: &mut String, number: u128)
    ensures
        final(text)@ == old(text)@ + decimal_digits(number as nat),
    decreases number,
{
    if number >= 10 {
        append_digits(text, number / 10);
    }
    text.append(digit_text(number % 10));
    proof {
        if number >= 10 {
            assert(old(text)@ + decimal_digits((number / 10) as nat) + seq![
                digit_char((number % 10) as nat),
            ] =~= old(text)@ + decimal_digits(number as nat));
        }
    }
}

/// Writes the last `width` decimal digits of `number` behind what `text` holds, with zeros
/// in front where it has fewer.
pub fn append_fixed_digits(text: &mut String, number: u128, width: u32)
    ensures
        final(text)@ == old(text)@ + fixed_digits(number as nat, width as nat),
    decreases width,
{
    if width > 0 {
        append_fixed_digits(text, number / 10, width - 1);
        text.append(digit_text(number % 10));
        proof {
            assert(old(text)@ + fixed_digits((number / 10) as nat, (width - 1) as nat) + seq![
                digit_char((number % 10) as nat),
            ] =~= old(text)@ + fixed_digits(number as nat, width as nat));
        }
    } else {
        proof {
            assert(old(text)@ + fixed_digits(number as nat, width as nat) =~= old(text)@);
        }
    }
}

/// `number` written in decimal.
pub fn u64_text(number: u64) -> (text: String)
    ensures
        text@ == decimal_digits(number as nat),
{
    let mut text = String::new();
    append_digits(&mut text, number as u128);
    assert(Seq::<char>::empty() + decimal_digits(number as nat) =~= decimal_digits(number as nat));
    text
}

/// What `char::is_alphabetic` answers for `c`: whether it has the Unicode property Alphabetic.
pub uninterp spec fn alphabetic(c: char) -> bool;

/// What `char::is_alphanumeric` answers for `c`: whether it is alphabetic or numeric in Unicode's
/// sense.
pub uninterp spec fn alphanumeric(c: char) -> bool;

/// `char::is_alphabetic` of the standard library. Its answer is read off Unicode's tables and
/// depends on the character alone; it is given the name `alphabetic`.
pub assume_specification[ char::is_alphabetic ](c: char) -> (answer: bool)
    ensures
        answer == alphabetic(c),
;

/// `char::is_alphanumeric` of the standard library. Its answer is read off Unicode's tables and
/// depends on the character alone; it is given the name `alphanumeric`.
pub assume_specification[ char::is_alphanumeric ](c: char) -> (answer: bool)
    ensures
        answer == alphanumeric(c),
;

/// Whether every character of `s` is alphabetic. True of the empty sequence.
pub open spec fn all_alphabetic(s: Seq<char>) -> bool {
    forall|i: int| 0 <= i < s.len() ==> alphabetic(#[trigger] s[i])
}

/// Whether every character of `s` is alphanumeric. True of the empty sequence.
pub open spec fn all_alphanumeric(s: Seq<char>) -> bool {
    forall|i: int| 0 <= i < s.len() ==> alphanumeric(#[trigger] s[i])
}

/// Whether `text` is made of alphabetic characters only.
pub fn only_alphabetic(text: &str) -> (answer: bool)
    ensures
        answer == all_alphabetic(text@),
{
    let mut rest = text.chars();
    let ghost mut done: int = 0;
    loop
        invariant
            0 <= done <= text@.len(),
            rest.remaining() == text@.skip(done),
            all_alphabetic(text@.take(done)),
            rest.decrease() is Some,
        decreases rest.decrease()->0,
    {
        match rest.next() {
            None => {
                proof {
                    assert(text@.take(done) =~= text@);
                }
                return true;
            },
            Some(c) => {
                if !c.is_alphabetic() {
                    proof {
                        assert(!alphabetic(text@[done]));
                    }
                    return false;
                }
                proof {
                    assert(text@.skip(done).drop_first() =~= text@.skip(done + 1));
                    assert(text@.take(done + 1) =~= text@.take(done).push(c));
                    done = done + 1;
                }
            },
        }
    }
}

/// Whether `text` is made of alphanumeric characters only.
pub fn only_alphanumeric(text: &str) -> (answer: bool)
    ensures
        answer == all_alphanumeric(text@),
{
    let mut rest = text.chars();
    let ghost mut done: int = 0;
    loop
        invariant
            0 <= done <= text@.len(),
            rest.remaining() == text@.skip(done),
            all_alphanumeric(text@.take(done)),
            rest.decrease() is Some,
        decreases rest.decrease()->0,
    {
        match rest.next() {
            None => {
                proof {
                    assert(text@.take(done) =~= text@);
                }
                return true;
            },
            Some(c) => {
                if !c.is_alphanumeric() {
                    proof {
                        assert(!alphanumeric(text@[done]));
                    }
                    return false;
                }
                proof {
                    assert(text@.skip(done).drop_first() =~= text@.skip(done + 1));
                    assert(text@.take(done + 1) =~= text@.take(done).push(c));
                    done = done + 1;
                }
            },
        }
    }
}

} // verus!
