//! Numbers as text.

use vstd::prelude::*;
use crate::text::chars_of;

verus! {

/// The character for a digit below sixteen.
pub open spec fn digit_char(d: nat) -> char {
    if d == 0 { '0' } else if d == 1 { '1' } else if d == 2 { '2' } else if d == 3 { '3' }
    else if d == 4 { '4' } else if d == 5 { '5' } else if d == 6 { '6' } else if d == 7 { '7' }
    else if d == 8 { '8' } else if d == 9 { '9' } else if d == 10 { 'a' } else if d == 11 { 'b' }
    else if d == 12 { 'c' } else if d == 13 { 'd' } else if d == 14 { 'e' } else { 'f' }
}

/// The character for a digit below sixteen.
fn digit_of(d: u128) -> (c: char)
    requires
        d < 16,
    ensures
        c == digit_char(d as nat),
{
    match d {
        0 => '0',
        1 => '1',
        2 => '2',
        3 => '3',
        4 => '4',
        5 => '5',
        6 => '6',
        7 => '7',
        8 => '8',
        9 => '9',
        10 => 'a',
        11 => 'b',
        12 => 'c',
        13 => 'd',
        14 => 'e',
        _ => 'f',
    }
}

/// The digits of `n` in the given base, the most significant first, without leading zeros.
pub open spec fn digits(n: nat, base: nat) -> Seq<char>
    decreases n,
{
    if base < 2 || n < base {
        seq![digit_char(n)]
    } else {
        proof {
            assert(n / base < n) by (nonlinear_arith)
                requires
                    n >= base,
                    base >= 2,
            ;
        }
        digits(n / base, base).push(digit_char(n % base))
    }
}

/// `n` in decimal, with a minus sign where it is negative.
pub open spec fn decimal(n: int) -> Seq<char> {
    if n < 0 {
        seq!['-'] + digits((-n) as nat, 10)
    } else {
        digits(n as nat, 10)
    }
}

/// Appends the digits of `n`.
fn push_digits(out: &mut String, n: u128, base: u128)
    requires
        2 <= base <= 16,
    ensures
        final(out)@ == old(out)@ + digits(n as nat, base as nat),
    decreases n,
{
    if n < base {
        out.push(digit_of(n));
    } else {
        assert(n / base < n) by (nonlinear_arith)
            requires
                n >= base,
                base >= 2,
        ;
        push_digits(out, n / base, base);
        out.push(digit_of(n % base));
    }
}

/// `n` in decimal.
pub fn decimal_u64(n: u64) -> (r: String)
    ensures
        r@ == decimal(n as int),
{
    let mut out = String::new();
    push_digits(&mut out, n as u128, 10);
    out
}

/// `n` in decimal.
pub fn decimal_i64(n: i64) -> (r: String)
    ensures
        r@ == decimal(n as int),
{
    decimal_i128(n as i128)
}

/// `n` in decimal.
pub fn decimal_i128(n: i128) -> (r: String)
    ensures
        r@ == decimal(n as int),
{
    let mut out = String::new();
    if n < 0 {
        out.push('-');
        let m: u128 = if n == i128::MIN {
            0x8000_0000_0000_0000_0000_0000_0000_0000
        } else {
            (-n) as u128
        };
        push_digits(&mut out, m, 10);
    } else {
        push_digits(&mut out, n as u128, 10);
    }
    out
}

/// `n` zeros.
pub open spec fn zeros(n: nat) -> Seq<char> {
    Seq::new(n, |i: int| '0')
}

/// `n` in hexadecimal, filled up with zeros to at least eight digits.
pub open spec fn hex8(n: nat) -> Seq<char> {
    let d = digits(n, 16);
    if d.len() < 8 {
        zeros((8 - d.len()) as nat) + d
    } else {
        d
    }
}

/// `n` in hexadecimal, filled up with zeros to at least eight digits.
pub fn hex8_u64(n: u64) -> (r: String)
    ensures
        r@ == hex8(n as nat),
{
    let mut d = String::new();
    push_digits(&mut d, n as u128, 16);
    assert(d@ =~= digits(n as nat, 16));
    let len = d.as_str().unicode_len();
    let mut out = String::new();
    let mut k: usize = len;
    assert(out@ =~= zeros(0));
    while k < 8
        invariant
            len <= k,
            len <= 8 ==> k <= 8,
            len > 8 ==> k == len,
            out@ == zeros((k - len) as nat),
        decreases 8 - k,
    {
        out.push('0');
        k += 1;
        assert(out@ =~= zeros((k - len) as nat));
    }
    out.append(d.as_str());
    assert(len >= 8 ==> out@ =~= d@);
    out
}

/// The value of a decimal digit.
pub open spec fn digit_value(c: char) -> Option<int> {
    if '0' as int <= c as int <= '9' as int {
        Some(c as int - '0' as int)
    } else {
        None
    }
}

/// The number that a non-empty run of decimal digits stands for.
pub open spec fn read_digits(s: Seq<char>) -> Option<nat>
    decreases s.len(),
{
    if s.len() == 0 {
        None
    } else {
        match digit_value(s.last()) {
            None => None,
            Some(d) => if s.len() == 1 {
                Some(d as nat)
            } else {
                match read_digits(s.drop_last()) {
                    None => None,
                    Some(n) => Some((n * 10 + d) as nat),
                }
            },
        }
    }
}

/// The number that `s` stands for: an optional sign, then decimal digits.
pub open spec fn read_int(s: Seq<char>) -> Option<int> {
    if s.len() > 0 && s[0] == '-' {
        match read_digits(s.skip(1)) {
            Some(n) => Some(-(n as int)),
            None => None,
        }
    } else if s.len() > 0 && s[0] == '+' {
        match read_digits(s.skip(1)) {
            Some(n) => Some(n as int),
            None => None,
        }
    } else {
        match read_digits(s) {
            Some(n) => Some(n as int),
            None => None,
        }
    }
}

fn digit_value_of(c: char) -> (r: Option<u64>)
    ensures
        match r {
            Some(d) => digit_value(c) == Some(d as int) && d < 10,
            None => digit_value(c) is None,
        },
{
    match c {
        '0' => Some(0),
        '1' => Some(1),
        '2' => Some(2),
        '3' => Some(3),
        '4' => Some(4),
        '5' => Some(5),
        '6' => Some(6),
        '7' => Some(7),
        '8' => Some(8),
        '9' => Some(9),
        _ => None,
    }
}

/// What a run of digits stands for never gets smaller when a digit is added.
proof fn read_digits_grows(s: Seq<char>, k: int)
    requires
        0 < k <= s.len(),
        read_digits(s) is Some,
    ensures
        read_digits(s.take(k)) is Some,
        read_digits(s.take(k))->0 <= read_digits(s)->0,
    decreases s.len(),
{
    if k == s.len() {
        assert(s.take(k) =~= s);
    } else {
        read_digits_grows(s.drop_last(), k);
        assert(s.drop_last().take(k) =~= s.take(k));
    }
}

/// The number that the digits from `from` on stand for, where it is at most `max`.
fn read_digits_from(s: &[char], from: usize, max: u64) -> (r: Option<u64>)
    requires
        from <= s@.len(),
    ensures
        match r {
            Some(n) => read_digits(s@.skip(from as int)) == Some(n as nat) && n <= max,
            None => read_digits(s@.skip(from as int)) is None || read_digits(
                s@.skip(from as int),
            )->0 > max,
        },
{
    let ghost t = s@.skip(from as int);
    if from == s.len() {
        return None;
    }
    let mut n: u64 = 0;
    let mut i: usize = from;
    while i < s.len()
        invariant
            from <= i <= s@.len(),
            t == s@.skip(from as int),
            from < s@.len(),
            n <= max,
            i == from ==> n == 0,
            i > from ==> read_digits(t.take(i - from)) == Some(n as nat),
        decreases s@.len() - i,
    {
        let ghost shorter = t.take(i - from);
        let ghost longer = t.take(i - from + 1);
        assert(longer.drop_last() =~= shorter);
        assert(longer.last() == s@[i as int]);
        match digit_value_of(s[i]) {
            None => {
                proof {
                    if read_digits(t) is Some {
                        read_digits_grows(t, i - from + 1);
                    }
                }
                return None;
            },
            Some(d) => {
                if n > (max - d.min(max)) / 10 || d > max {
                    proof {
                        assert(n as int * 10 + d as int > max);
                        assert(read_digits(longer) == Some((n * 10 + d) as nat));
                        if read_digits(t) is Some {
                            read_digits_grows(t, i - from + 1);
                        }
                    }
                    return None;
                }
                n = n * 10 + d;
            },
        }
        i += 1;
        assert(read_digits(longer) == Some(n as nat));
    }
    assert(t.take(i - from) =~= t);
    Some(n)
}

/// The number that a run of digits stands for, where it is a `u64`.
pub fn parse_digits(s: &str) -> (r: Option<u64>)
    ensures
        match r {
            Some(n) => read_digits(s@) == Some(n as nat),
            None => match read_digits(s@) {
                Some(n) => n > u64::MAX,
                None => true,
            },
        },
{
    let c = chars_of(s);
    assert(c@.skip(0) =~= c@);
    read_digits_from(c.as_slice(), 0, u64::MAX)
}

/// The number that `s` stands for, where it is an `i64`.
pub fn parse_i64(s: &str) -> (r: Option<i64>)
    ensures
        match r {
            Some(n) => read_int(s@) == Some(n as int),
            None => match read_int(s@) {
                Some(n) => n < i64::MIN || n > i64::MAX,
                None => true,
            },
        },
{
    let c = chars_of(s);
    if c.len() > 0 && c[0] == '-' {
        match read_digits_from(c.as_slice(), 1, 0x8000_0000_0000_0000) {
            None => None,
            Some(n) => if n == 0x8000_0000_0000_0000 {
                Some(i64::MIN)
            } else {
                Some(-(n as i64))
            },
        }
    } else {
        let from: usize = if c.len() > 0 && c[0] == '+' {
            1
        } else {
            0
        };
        assert(c@.skip(0) =~= c@);
        match read_digits_from(c.as_slice(), from, 0x7fff_ffff_ffff_ffff) {
            None => None,
            Some(n) => Some(n as i64),
        }
    }
}

/// The number that `s` stands for, where it is an `i32`.
pub fn parse_i32(s: &str) -> (r: Option<i32>)
    ensures
        match r {
            Some(n) => read_int(s@) == Some(n as int),
            None => match read_int(s@) {
                Some(n) => n < i32::MIN || n > i32::MAX,
                None => true,
            },
        },
{
    match parse_i64(s) {
        None => None,
        Some(n) => if -0x8000_0000 <= n && n <= 0x7fff_ffff {
            Some(n as i32)
        } else {
            None
        },
    }
}

// ---- laws ----------------------------------------------------------------------------------

proof fn digit_char_differs(a: nat, b: nat)
    requires
        a < 16,
        b < 16,
        a != b,
    ensures
        digit_char(a) != digit_char(b),
{
}

/// The digits of a number in hexadecimal are never empty, and begin with no zero but for zero.
proof fn digits_shape(n: nat)
    ensures
        digits(n, 16).len() >= 1,
        n > 0 ==> digits(n, 16)[0] != '0',
    decreases n,
{
    if n >= 16 {
        assert(n / 16 < n) by (nonlinear_arith)
            requires
                n >= 16,
        ;
        digits_shape(n / 16);
    } else if n > 0 {
        digit_char_differs(n, 0);
    }
}

proof fn digits_differ(m: nat, n: nat)
    requires
        m != n,
    ensures
        digits(m, 16) != digits(n, 16),
    decreases m + n,
{
    let a = digits(m, 16);
    let b = digits(n, 16);
    digits_shape(m);
    digits_shape(n);
    if m % 16 != n % 16 {
        digit_char_differs(m % 16, n % 16);
        assert(a.last() == digit_char(m % 16));
        assert(b.last() == digit_char(n % 16));
    } else if m < 16 && n >= 16 {
        digits_shape(n / 16);
        assert(a.len() == 1 && b.len() >= 2);
    } else if n < 16 && m >= 16 {
        digits_shape(m / 16);
        assert(b.len() == 1 && a.len() >= 2);
    } else if m >= 16 {
        assert(m / 16 != n / 16);
        assert(m / 16 < m && n / 16 < n) by (nonlinear_arith)
            requires
                m >= 16,
                n >= 16,
        ;
        digits_differ(m / 16, n / 16);
        assert(a.drop_last() =~= digits(m / 16, 16));
        assert(b.drop_last() =~= digits(n / 16, 16));
    }
}

proof fn hex8_keeps_digits(m: nat, n: nat)
    requires
        hex8(m) == hex8(n),
        digits(m, 16).len() <= digits(n, 16).len(),
    ensures
        digits(m, 16) == digits(n, 16),
{
    let a = digits(m, 16);
    let b = digits(n, 16);
    digits_shape(m);
    digits_shape(n);
    let x = hex8(m);
    if a.len() == b.len() {
        assert(x.skip(x.len() - a.len()) =~= a);
        assert(x.skip(x.len() - b.len()) =~= b);
    } else {
        // The longer one begins where the shorter one still has a filling zero.
        assert(a.len() < 8);
        assert(x.len() == 8);
        assert(b.len() <= 8);
        let i = 8 - b.len();
        assert(hex8(n)[i] == b[0]);
        assert(hex8(m)[i] == '0');
        if n == 0 {
            assert(b.len() == 1);
        }
    }
}

/// No two numbers have the same padded hexadecimal text.
pub proof fn hex8_differs(m: nat, n: nat)
    requires
        m != n,
    ensures
        hex8(m) != hex8(n),
{
    digits_differ(m, n);
    if hex8(m) == hex8(n) {
        if digits(m, 16).len() <= digits(n, 16).len() {
            hex8_keeps_digits(m, n);
        } else {
            hex8_keeps_digits(n, m);
        }
    }
}

proof fn digits_are_digits(n: nat)
    ensures
        digits(n, 10).len() > 0,
        digits(n, 10)[0] != '-',
        digits(n, 10)[0] != '+',
        read_digits(digits(n, 10)) == Some(n),
    decreases n,
{
    if n >= 10 {
        digits_are_digits(n / 10);
        let d = digits(n, 10);
        assert(d.drop_last() =~= digits(n / 10, 10));
        assert(d[0] == digits(n / 10, 10)[0]);
        assert(digit_value(digit_char(n % 10)) == Some((n % 10) as int));
        assert(d.last() == digit_char(n % 10));
        assert((n / 10) * 10 + n % 10 == n);
    } else {
        assert(digit_value(digit_char(n)) == Some(n as int));
    }
}

/// A number that is written in decimal reads back as itself.
pub proof fn numbers_read_back(n: int)
    ensures
        read_int(decimal(n)) == Some(n),
        n >= 0 ==> read_digits(decimal(n)) == Some(n as nat),
{
    if n < 0 {
        digits_are_digits((-n) as nat);
        assert(decimal(n).skip(1) =~= digits((-n) as nat, 10));
    } else {
        digits_are_digits(n as nat);
    }
}

/// A run of digits stands for ten times the number before its last digit, and that digit; anything
/// else in it and it stands for nothing.
pub proof fn how_digits_are_read(s: Seq<char>, c: char)
    ensures
        read_digits(Seq::empty()) is None,
        !('0' as int <= c as int <= '9' as int) ==> read_digits(s.push(c)) is None,
        '0' as int <= c as int <= '9' as int ==> {
            &&& s.len() == 0 ==> read_digits(s.push(c)) == Some((c as int - '0' as int) as nat)
            &&& s.len() > 0 && read_digits(s) is None ==> read_digits(s.push(c)) is None
            &&& read_digits(s) matches Some(n) ==> read_digits(s.push(c)) == Some(
                (10 * n + (c as int - '0' as int)) as nat,
            )
        },
        s.len() > 0 && s[0] != '-' && s[0] != '+' ==> read_int(s) == match read_digits(s) {
            Some(n) => Some(n as int),
            None => None::<int>,
        },
{
    assert(s.push(c).drop_last() =~= s);
}

/// A sign before digits counts.
pub proof fn how_signs_are_read(s: Seq<char>)
    ensures
        read_digits(s) matches Some(n) ==> read_int(seq!['-'] + s) == Some(-(n as int))
            && read_int(seq!['+'] + s) == Some(n as int),
{
    assert((seq!['-'] + s).skip(1) =~= s);
    assert((seq!['+'] + s).skip(1) =~= s);
}

} // verus!
