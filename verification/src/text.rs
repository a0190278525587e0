//! Decimal digits as text: how numbers are written into names and read back.

use vstd::prelude::*;

verus! {

/// The character that writes the digit `d`.
pub open spec fn digit_char(d: int) -> char {
    (48 + d) as char
}

/// Whether `c` is one of `'0'` to `'9'`.
pub open spec fn is_digit(c: char) -> bool {
    48 <= c as int <= 57
}

/// The digit that `c` writes.
pub open spec fn digit_value(c: char) -> int {
    c as int - 48
}

/// `n` in decimal, without leading zeros.
pub open spec fn decimal(n: nat) -> Seq<char>
    decreases n,
{
    if n < 10 {
        seq![digit_char(n as int)]
    } else {
        decimal(n / 10).push(digit_char((n % 10) as int))
    }
}

/// `n` in two decimal digits, with a leading zero below ten.
pub open spec fn two_digits(n: nat) -> Seq<char> {
    seq![digit_char((n / 10) as int), digit_char((n % 10) as int)]
}

/// `n` in four decimal digits, with leading zeros below one thousand:
/// the hundreds in two digits, then the rest in two.
pub open spec fn four_digits(n: nat) -> Seq<char> {
    two_digits(n / 100) + two_digits(n % 100)
}

/// The number that a run of decimal digits writes, leading zeros allowed.
pub open spec fn number_of(s: Seq<char>) -> nat
    decreases s.len(),
{
    if s.len() == 0 {
        0
    } else {
        (number_of(s.drop_last()) * 10 + digit_value(s.last())) as nat
    }
}

/// Whether `s` holds decimal digits only.
pub open spec fn all_digits(s: Seq<char>) -> bool {
    forall|i: int| 0 <= i < s.len() ==> is_digit(#[trigger] s[i])
}

/// Whether `s` ends with `suffix`.
pub open spec fn ends_with(s: Seq<char>, suffix: Seq<char>) -> bool {
    suffix.len() <= s.len() && s.subrange(s.len() - suffix.len(), s.len() as int) == suffix
}

/// A digit and its character determine each other.
pub proof fn lemma_digit_char(d: int)
    requires
        0 <= d < 10,
    ensures
        is_digit(digit_char(d)),
        digit_value(digit_char(d)) == d,
{
}

/// Reading decimal text gives the number back.
pub proof fn lemma_decimal_round_trip(n: nat)
    ensures
        number_of(decimal(n)) == n,
    decreases n,
{
    if n < 10 {
        let s = decimal(n);
        assert(s.drop_last() =~= Seq::<char>::empty());
        assert(number_of(s.drop_last()) == 0);
    } else {
        lemma_decimal_round_trip(n / 10);
        let s = decimal(n);
        assert(s.drop_last() =~= decimal(n / 10));
    }
}

/// Different numbers have different decimal text.
pub proof fn lemma_decimal_injective(a: nat, b: nat)
    requires
        decimal(a) == decimal(b),
    ensures
        a == b,
{
    lemma_decimal_round_trip(a);
    lemma_decimal_round_trip(b);
}

/// The number that two digits write.
pub proof fn lemma_number_of_two(s: Seq<char>)
    requires
        s.len() == 2,
        all_digits(s),
    ensures
        number_of(s) == digit_value(s[0]) * 10 + digit_value(s[1]),
        number_of(s) < 100,
        two_digits(number_of(s)) == s,
{
    let t = s.drop_last();
    assert(t.drop_last() =~= Seq::<char>::empty());
    assert(number_of(t.drop_last()) == 0);
    assert(is_digit(s[0]) && is_digit(s[1]));
    assert(t.last() == s[0]);
    assert(number_of(t) == digit_value(s[0]));
    let hi = digit_value(s[0]);
    let lo = digit_value(s[1]);
    assert(number_of(s) == hi * 10 + lo);
    assert((hi * 10 + lo) / 10 == hi && (hi * 10 + lo) % 10 == lo);
    assert(digit_char(hi) == s[0] && digit_char(lo) == s[1]);
    assert(two_digits(number_of(s)) =~= s);
}

/// Two padded digits are digits, and reading them gives the number back.
pub proof fn lemma_two_digits_round_trip(n: nat)
    requires
        n < 100,
    ensures
        two_digits(n).len() == 2,
        all_digits(two_digits(n)),
        number_of(two_digits(n)) == n,
{
    let s = two_digits(n);
    lemma_digit_char((n / 10) as int);
    lemma_digit_char((n % 10) as int);
    assert(s[0] == digit_char((n / 10) as int) && s[1] == digit_char((n % 10) as int));
    assert(all_digits(s));
    lemma_number_of_two(s);
    assert(n == (n / 10) * 10 + n % 10);
}

/// The number that four digits write: that of the first two times one
/// hundred, and that of the last two.
pub proof fn lemma_number_of_four(s: Seq<char>)
    requires
        s.len() == 4,
        all_digits(s),
    ensures
        number_of(s) == number_of(s.subrange(0, 2)) * 100 + number_of(s.subrange(2, 4)),
        number_of(s) < 10000,
        four_digits(number_of(s)) == s,
{
    let front = s.subrange(0, 2);
    let back = s.subrange(2, 4);
    let t3 = s.drop_last();
    assert(is_digit(s[0]) && is_digit(s[1]) && is_digit(s[2]) && is_digit(s[3]));
    assert(front[0] == s[0] && front[1] == s[1]);
    assert(back[0] == s[2] && back[1] == s[3]);
    lemma_number_of_two(front);
    lemma_number_of_two(back);
    assert(t3.drop_last() =~= front);
    assert(t3.last() == s[2]);
    assert(number_of(t3) == number_of(front) * 10 + digit_value(s[2]));
    assert(number_of(s) == number_of(t3) * 10 + digit_value(s[3]));
    let hi = number_of(front);
    let lo = number_of(back);
    assert(number_of(s) == hi * 100 + lo);
    assert((hi * 100 + lo) / 100 == hi && (hi * 100 + lo) % 100 == lo);
    assert(four_digits(number_of(s)) =~= front + back);
    assert(front + back =~= s);
}

/// Four padded digits are digits, and reading them gives the number back.
pub proof fn lemma_four_digits_round_trip(n: nat)
    requires
        n < 10000,
    ensures
        four_digits(n).len() == 4,
        all_digits(four_digits(n)),
        number_of(four_digits(n)) == n,
{
    let s = four_digits(n);
    let hi = n / 100;
    let lo = n % 100;
    lemma_two_digits_round_trip(hi);
    lemma_two_digits_round_trip(lo);
    assert forall|i: int| 0 <= i < s.len() implies is_digit(#[trigger] s[i]) by {
        if i < 2 {
            assert(s[i] == two_digits(hi)[i]);
        } else {
            assert(s[i] == two_digits(lo)[i - 2]);
        }
    }
    lemma_number_of_four(s);
    assert(s.subrange(0, 2) =~= two_digits(hi));
    assert(s.subrange(2, 4) =~= two_digits(lo));
    assert(n == hi * 100 + lo);
}

/// Appends the character of one digit.
pub(crate) fn append_digit(out: &mut String, d: u8)
    requires
        d < 10,
    ensures
        final(out)@ == old(out)@.push(digit_char(d as int)),
{
    proof {
        reveal_strlit("0");
        reveal_strlit("1");
        reveal_strlit("2");
        reveal_strlit("3");
        reveal_strlit("4");
        reveal_strlit("5");
        reveal_strlit("6");
        reveal_strlit("7");
        reveal_strlit("8");
        reveal_strlit("9");
    }
    let text = if d == 0 {
        "0"
    } else if d == 1 {
        "1"
    } else if d == 2 {
        "2"
    } else if d == 3 {
        "3"
    } else if d == 4 {
        "4"
    } else if d == 5 {
        "5"
    } else if d == 6 {
        "6"
    } else if d == 7 {
        "7"
    } else if d == 8 {
        "8"
    } else {
        "9"
    };
    assert(text@ =~= seq![digit_char(d as int)]);
    out.append(text);
    assert(out@ =~= old(out)@.push(digit_char(d as int)));
}

/// Appends `n` in decimal, without leading zeros.
pub(crate) fn append_decimal(out: &mut String, n: u128)
    ensures
        final(out)@ == old(out)@ + decimal(n as nat),
    decreases n,
{
    if n >= 10 {
        append_decimal(out, n / 10);
    }
    append_digit(out, (n % 10) as u8);
    assert(out@ =~= old(out)@ + decimal(n as nat));
}

/// Appends `n` in two digits.
pub(crate) fn append_two_digits(out: &mut String, n: u32)
    requires
        n < 100,
    ensures
        final(out)@ == old(out)@ + two_digits(n as nat),
{
    append_digit(out, (n / 10) as u8);
    append_digit(out, (n % 10) as u8);
    assert(out@ =~= old(out)@ + two_digits(n as nat));
}

/// Appends `n` in four digits.
pub(crate) fn append_four_digits(out: &mut String, n: u32)
    requires
        n < 10000,
    ensures
        final(out)@ == old(out)@ + four_digits(n as nat),
{
    append_two_digits(out, n / 100);
    append_two_digits(out, n % 100);
    assert(out@ =~= old(out)@ + four_digits(n as nat));
}

/// The digit written at position `i` of `s`, if there is one.
pub(crate) fn digit_at(s: &str, i: usize) -> (r: Option<u32>)
    requires
        i < s@.len(),
    ensures
        r is Some <==> is_digit(s@[i as int]),
        r matches Some(d) ==> d == digit_value(s@[i as int]),
{
    let c = s.get_char(i);
    if '0' <= c && c <= '9' {
        Some(c as u32 - 48)
    } else {
        None
    }
}

/// The number written by the `width` digits of `s` that start at `from`,
/// if all of them are digits.
pub(crate) fn number_at(s: &str, from: usize, width: usize) -> (r: Option<u32>)
    requires
        from + width <= s@.len(),
        from + width <= usize::MAX,
        width <= 4,
    ensures
        r is Some <==> all_digits(s@.subrange(from as int, from + width)),
        r matches Some(v) ==> v == number_of(s@.subrange(from as int, from + width)),
{
    let mut value: u32 = 0;
    let mut k: usize = 0;
    while k < width
        invariant
            k <= width <= 4,
            from + width <= s@.len(),
            from + width <= usize::MAX,
            all_digits(s@.subrange(from as int, from + k)),
            value == number_of(s@.subrange(from as int, from + k)),
            k == 0 ==> value == 0,
            k == 1 ==> value < 10,
            k == 2 ==> value < 100,
            k == 3 ==> value < 1000,
        decreases width - k,
    {
        let ghost before = s@.subrange(from as int, from + k);
        let ghost now = s@.subrange(from as int, from + k + 1);
        assert(now.drop_last() =~= before);
        assert(now.last() == s@[from + k]);
        match digit_at(s, from + k) {
            Some(d) => {
                value = value * 10 + d;
                assert forall|i: int| 0 <= i < now.len() implies is_digit(#[trigger] now[i]) by {
                    if i < k {
                        assert(now[i] == before[i]);
                    }
                }
            },
            None => {
                let ghost whole = s@.subrange(from as int, from + width);
                assert(whole[k as int] == s@[from + k]);
                return None;
            },
        }
        k = k + 1;
    }
    Some(value)
}

} // verus!
