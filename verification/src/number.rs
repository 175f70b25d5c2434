//! Numbers as text: reading and writing decimal and hexadecimal digits.

use vstd::prelude::*;

verus! {

/// The value of the digit `c` in base `radix` (10 or 16), where it is one.
/// Hexadecimal digits may be written in either case.
pub open spec fn digit_value(c: char, radix: nat) -> Option<nat> {
    let n = c as u32;
    if 0x30 <= n <= 0x39 {
        Some((n - 0x30) as nat)
    } else if radix == 16 && 0x61 <= n <= 0x66 {
        Some((n - 0x61 + 10) as nat)
    } else if radix == 16 && 0x41 <= n <= 0x46 {
        Some((n - 0x41 + 10) as nat)
    } else {
        None
    }
}

/// Whether `s` is made of digits of base `radix` only.
pub open spec fn all_digits(s: Seq<char>, radix: nat) -> bool {
    forall|i: int| 0 <= i < s.len() ==> (#[trigger] digit_value(s[i], radix)) is Some
}

/// The number that the digits `s` write in base `radix`, most significant
/// digit first. Meant for sequences that satisfy `all_digits`.
pub open spec fn digits_value(s: Seq<char>, radix: nat) -> nat
    decreases s.len(),
{
    if s.len() == 0 {
        0
    } else {
        digits_value(s.drop_last(), radix) * radix + match digit_value(s.last(), radix) {
            Some(d) => d,
            None => 0,
        }
    }
}

/// The number that `s` writes in base `radix`: `s` must be one digit or more
/// and nothing else, and the number must fit in a `usize`.
pub open spec fn parsed_number(s: Seq<char>, radix: nat) -> Option<usize> {
    if s.len() > 0 && all_digits(s, radix) && digits_value(s, radix) <= usize::MAX {
        Some(digits_value(s, radix) as usize)
    } else {
        None
    }
}

/// A number is at least as large as the number that any of its leading
/// digits write.
pub proof fn lemma_digits_value_monotonic(s: Seq<char>, radix: nat, k: int)
    requires
        0 <= k <= s.len(),
        radix >= 1,
    ensures
        digits_value(s.take(k), radix) <= digits_value(s, radix),
    decreases s.len(),
{
    if k == s.len() {
        assert(s.take(k) =~= s);
    } else {
        lemma_digits_value_monotonic(s.drop_last(), radix, k);
        assert(s.drop_last().take(k) =~= s.take(k));
        assert(digits_value(s.drop_last(), radix) <= digits_value(s.drop_last(), radix) * radix)
            by (nonlinear_arith)
            requires
                radix >= 1,
        ;
    }
}

/// The value of the digit `c` in base 10 or 16, where it is one.
fn digit_of(c: char, hex: bool) -> (r: Option<usize>)
    ensures
        r is Some <==> digit_value(c, if hex { 16 } else { 10 }) is Some,
        r is Some ==> r->Some_0 == digit_value(c, if hex { 16 } else { 10 })->Some_0,
        r is Some ==> r->Some_0 < 16,
{
    let n: u32 = c as u32;
    if 0x30 <= n && n <= 0x39 {
        Some((n - 0x30) as usize)
    } else if hex && 0x61 <= n && n <= 0x66 {
        Some((n - 0x61 + 10) as usize)
    } else if hex && 0x41 <= n && n <= 0x46 {
        Some((n - 0x41 + 10) as usize)
    } else {
        None
    }
}

/// Reads `v[from..]` as a number in base 10, or in base 16 where `hex` is set.
fn parse_digits(v: &Vec<char>, from: usize, hex: bool) -> (r: Option<usize>)
    requires
        from <= v.len(),
    ensures
        r == parsed_number(v@.skip(from as int), if hex { 16 } else { 10 }),
{
    let radix: usize = if hex { 16 } else { 10 };
    let ghost s = v@.skip(from as int);
    if from == v.len() {
        return None;
    }
    let mut acc: usize = 0;
    let mut i: usize = from;
    while i < v.len()
        invariant
            from <= i <= v.len(),
            s == v@.skip(from as int),
            radix == (if hex { 16usize } else { 10usize }),
            all_digits(s.take(i - from), radix as nat),
            acc == digits_value(s.take(i - from), radix as nat),
        decreases v.len() - i,
    {
        let ghost k = i - from;
        assert(s[k] == v@[i as int]);
        assert(s.take(k + 1).drop_last() =~= s.take(k));
        match digit_of(v[i], hex) {
            None => {
                return None;
            },
            Some(d) => {
                if acc > (usize::MAX - d) / radix {
                    proof {
                        assert(acc * radix + d > usize::MAX) by (nonlinear_arith)
                            requires
                                acc > (usize::MAX - d) / (radix as int),
                                radix > 0,
                                d <= usize::MAX,
                        ;
                        lemma_digits_value_monotonic(s, radix as nat, k + 1);
                    }
                    return None;
                }
                assert(acc * radix + d <= usize::MAX) by (nonlinear_arith)
                    requires
                        acc <= (usize::MAX - d) / (radix as int),
                        radix > 0,
                        d <= usize::MAX,
                ;
                acc = acc * radix + d;
            },
        }
        i += 1;
    }
    assert(s.take(i - from) =~= s);
    Some(acc)
}

/// Reads `v` as a decimal number.
pub fn parse_decimal(v: &Vec<char>) -> (r: Option<usize>)
    ensures
        r == parsed_number(v@, 10),
{
    assert(v@.skip(0) =~= v@);
    parse_digits(v, 0, false)
}

/// The text of an address: hexadecimal digits, which the prefix `0x` may
/// precede.
pub open spec fn parsed_address(s: Seq<char>) -> Option<usize> {
    if s.len() >= 2 && s[0] == '0' && s[1] == 'x' {
        parsed_number(s.skip(2), 16)
    } else {
        parsed_number(s, 16)
    }
}

/// Reads `v` as a hexadecimal address with an optional prefix `0x`.
pub fn parse_address(v: &Vec<char>) -> (r: Option<usize>)
    ensures
        r == parsed_address(v@),
{
    if v.len() >= 2 && v[0] == '0' && v[1] == 'x' {
        parse_digits(v, 2, true)
    } else {
        assert(v@.skip(0) =~= v@);
        parse_digits(v, 0, true)
    }
}

/// The character that writes the digit `d`; letters are in lower case.
pub open spec fn digit_char(d: nat) -> char {
    if d == 0 {
        '0'
    } else if d == 1 {
        '1'
    } else if d == 2 {
        '2'
    } else if d == 3 {
        '3'
    } else if d == 4 {
        '4'
    } else if d == 5 {
        '5'
    } else if d == 6 {
        '6'
    } else if d == 7 {
        '7'
    } else if d == 8 {
        '8'
    } else if d == 9 {
        '9'
    } else if d == 10 {
        'a'
    } else if d == 11 {
        'b'
    } else if d == 12 {
        'c'
    } else if d == 13 {
        'd'
    } else if d == 14 {
        'e'
    } else {
        'f'
    }
}

/// The decimal digits of `n`, most significant first and without leading
/// zeros; zero is written `0`.
pub open spec fn decimal(n: nat) -> Seq<char>
    decreases n,
{
    if n < 10 {
        seq![digit_char(n)]
    } else {
        decimal(n / 10).push(digit_char(n % 10))
    }
}

/// The hexadecimal digits of `n`, in lower case, most significant first and
/// without leading zeros; zero is written `0`.
pub open spec fn hexadecimal(n: nat) -> Seq<char>
    decreases n,
{
    if n < 16 {
        seq![digit_char(n)]
    } else {
        hexadecimal(n / 16).push(digit_char(n % 16))
    }
}

/// The character that writes the digit `d`.
fn char_of_digit(d: u128) -> (c: char)
    requires
        d < 16,
    ensures
        c == digit_char(d as nat),
{
    if d == 0 {
        '0'
    } else if d == 1 {
        '1'
    } else if d == 2 {
        '2'
    } else if d == 3 {
        '3'
    } else if d == 4 {
        '4'
    } else if d == 5 {
        '5'
    } else if d == 6 {
        '6'
    } else if d == 7 {
        '7'
    } else if d == 8 {
        '8'
    } else if d == 9 {
        '9'
    } else if d == 10 {
        'a'
    } else if d == 11 {
        'b'
    } else if d == 12 {
        'c'
    } else if d == 13 {
        'd'
    } else if d == 14 {
        'e'
    } else {
        'f'
    }
}

/// Appends the decimal digits of `n` to `out`.
pub fn push_decimal(out: &mut String, n: u128)
    ensures
        final(out)@ == old(out)@ + decimal(n as nat),
    decreases n,
{
    if n >= 10 {
        push_decimal(out, n / 10);
    }
    out.push(char_of_digit(n % 10));
}

/// Appends the hexadecimal digits of `n` to `out`.
pub fn push_hexadecimal(out: &mut String, n: u128)
    ensures
        final(out)@ == old(out)@ + hexadecimal(n as nat),
    decreases n,
{
    if n >= 16 {
        push_hexadecimal(out, n / 16);
    }
    out.push(char_of_digit(n % 16));
}

} // verus!
