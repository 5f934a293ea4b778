//! Character classes and case tables for ASCII identifiers, plus small
//! string helpers: equality, lexicographic order, decimal formatting and
//! status-code parsing.

use vstd::prelude::*;

verus! {

/// Word separators recognised by the case converter.
pub open spec fn is_sep_char(c: char) -> bool {
    c == '_' || c == '-' || c == ' '
}

pub open spec fn is_ascii_upper(c: char) -> bool {
    65 <= c as u32 && c as u32 <= 90
}

pub open spec fn is_ascii_lower(c: char) -> bool {
    97 <= c as u32 && c as u32 <= 122
}

pub open spec fn is_ascii_digit(c: char) -> bool {
    48 <= c as u32 && c as u32 <= 57
}

pub open spec fn is_ascii_alnum(c: char) -> bool {
    is_ascii_upper(c) || is_ascii_lower(c) || is_ascii_digit(c)
}

/// ASCII lower-casing, as a table so that spec and exec agree literally.
pub open spec fn lower_char(c: char) -> char {
    match c {
        'A' => 'a', 'B' => 'b', 'C' => 'c', 'D' => 'd', 'E' => 'e', 'F' => 'f',
        'G' => 'g', 'H' => 'h', 'I' => 'i', 'J' => 'j', 'K' => 'k', 'L' => 'l',
        'M' => 'm', 'N' => 'n', 'O' => 'o', 'P' => 'p', 'Q' => 'q', 'R' => 'r',
        'S' => 's', 'T' => 't', 'U' => 'u', 'V' => 'v', 'W' => 'w', 'X' => 'x',
        'Y' => 'y', 'Z' => 'z',
        _ => c,
    }
}

/// ASCII upper-casing, as a table so that spec and exec agree literally.
pub open spec fn upper_char(c: char) -> char {
    match c {
        'a' => 'A', 'b' => 'B', 'c' => 'C', 'd' => 'D', 'e' => 'E', 'f' => 'F',
        'g' => 'G', 'h' => 'H', 'i' => 'I', 'j' => 'J', 'k' => 'K', 'l' => 'L',
        'm' => 'M', 'n' => 'N', 'o' => 'O', 'p' => 'P', 'q' => 'Q', 'r' => 'R',
        's' => 'S', 't' => 'T', 'u' => 'U', 'v' => 'V', 'w' => 'W', 'x' => 'X',
        'y' => 'Y', 'z' => 'Z',
        _ => c,
    }
}

pub fn exec_is_sep_char(c: char) -> (r: bool)
    ensures
        r == is_sep_char(c),
{
    c == '_' || c == '-' || c == ' '
}

pub fn exec_is_ascii_upper(c: char) -> (r: bool)
    ensures
        r == is_ascii_upper(c),
{
    let u = c as u32;
    65 <= u && u <= 90
}

pub fn exec_is_ascii_lower(c: char) -> (r: bool)
    ensures
        r == is_ascii_lower(c),
{
    let u = c as u32;
    97 <= u && u <= 122
}

pub fn exec_is_ascii_digit(c: char) -> (r: bool)
    ensures
        r == is_ascii_digit(c),
{
    let u = c as u32;
    48 <= u && u <= 57
}

pub fn exec_is_ascii_alnum(c: char) -> (r: bool)
    ensures
        r == is_ascii_alnum(c),
{
    exec_is_ascii_upper(c) || exec_is_ascii_lower(c) || exec_is_ascii_digit(c)
}

pub fn exec_lower_char(c: char) -> (r: char)
    ensures
        r == lower_char(c),
{
    match c {
        'A' => 'a', 'B' => 'b', 'C' => 'c', 'D' => 'd', 'E' => 'e', 'F' => 'f',
        'G' => 'g', 'H' => 'h', 'I' => 'i', 'J' => 'j', 'K' => 'k', 'L' => 'l',
        'M' => 'm', 'N' => 'n', 'O' => 'o', 'P' => 'p', 'Q' => 'q', 'R' => 'r',
        'S' => 's', 'T' => 't', 'U' => 'u', 'V' => 'v', 'W' => 'w', 'X' => 'x',
        'Y' => 'y', 'Z' => 'z',
        _ => c,
    }
}

pub fn exec_upper_char(c: char) -> (r: char)
    ensures
        r == upper_char(c),
{
    match c {
        'a' => 'A', 'b' => 'B', 'c' => 'C', 'd' => 'D', 'e' => 'E', 'f' => 'F',
        'g' => 'G', 'h' => 'H', 'i' => 'I', 'j' => 'J', 'k' => 'K', 'l' => 'L',
        'm' => 'M', 'n' => 'N', 'o' => 'O', 'p' => 'P', 'q' => 'Q', 'r' => 'R',
        's' => 'S', 't' => 'T', 'u' => 'U', 'v' => 'V', 'w' => 'W', 'x' => 'X',
        'y' => 'Y', 'z' => 'Z',
        _ => c,
    }
}

/// Relies on `String::push`: appends exactly the one character.
#[verifier::external_body]
pub fn push_char(s: &mut String, c: char)
    ensures
        final(s)@ == old(s)@ + seq![c],
{
    s.push(c);
}

/// String equality by character comparison.
pub fn str_eq(a: &str, b: &str) -> (r: bool)
    ensures
        r == (a@ == b@),
{
    let an = a.unicode_len();
    let bn = b.unicode_len();
    if an != bn {
        return false;
    }
    let mut i: usize = 0;
    while i < an
        invariant
            an == a@.len(),
            an == b@.len(),
            i <= an,
            forall|j: int| 0 <= j < i ==> a@[j] == b@[j],
        decreases an - i,
    {
        if a.get_char(i) != b.get_char(i) {
            return false;
        }
        i = i + 1;
    }
    proof {
        assert(a@ =~= b@);
    }
    true
}

/// Strict lexicographic order on character sequences by code point.
pub open spec fn str_lt(a: Seq<char>, b: Seq<char>) -> bool
    decreases a.len(),
{
    if b.len() == 0 {
        false
    } else if a.len() == 0 {
        true
    } else if (a[0] as u32) < (b[0] as u32) {
        true
    } else if (a[0] as u32) > (b[0] as u32) {
        false
    } else {
        str_lt(a.drop_first(), b.drop_first())
    }
}

/// Decides [`str_lt`] on string slices.
pub fn str_less(a: &str, b: &str) -> (r: bool)
    ensures
        r == str_lt(a@, b@),
    decreases a@.len(),
{
    let an = a.unicode_len();
    let bn = b.unicode_len();
    if bn == 0 {
        false
    } else if an == 0 {
        true
    } else {
        let ca = a.get_char(0) as u32;
        let cb = b.get_char(0) as u32;
        if ca < cb {
            true
        } else if ca > cb {
            false
        } else {
            let ar = a.substring_char(1, an);
            let br = b.substring_char(1, bn);
            proof {
                assert(ar@ =~= a@.drop_first());
                assert(br@ =~= b@.drop_first());
            }
            str_less(ar, br)
        }
    }
}

/// The decimal digit character for a value below ten.
pub open spec fn digit_char(d: int) -> char {
    if d == 0 { '0' }
    else if d == 1 { '1' }
    else if d == 2 { '2' }
    else if d == 3 { '3' }
    else if d == 4 { '4' }
    else if d == 5 { '5' }
    else if d == 6 { '6' }
    else if d == 7 { '7' }
    else if d == 8 { '8' }
    else { '9' }
}

/// The decimal spelling of a natural number, without leading zeroes.
pub open spec fn dec_of(n: nat) -> Seq<char>
    decreases n,
{
    if n < 10 {
        seq![digit_char(n as int)]
    } else {
        dec_of(n / 10) + seq![digit_char((n % 10) as int)]
    }
}

/// The digit character of a value below ten.
fn exec_digit_char(d: u64) -> (r: char)
    requires
        d < 10,
    ensures
        r == digit_char(d as int),
{
    match d {
        0 => '0',
        1 => '1',
        2 => '2',
        3 => '3',
        4 => '4',
        5 => '5',
        6 => '6',
        7 => '7',
        8 => '8',
        _ => '9',
    }
}

/// Writes the decimal spelling of a value.
pub fn u64_to_string(n: u64) -> (r: String)
    ensures
        r@ == dec_of(n as nat),
    decreases n,
{
    if n < 10 {
        let mut s = String::new();
        push_char(&mut s, exec_digit_char(n));
        proof {
            assert(s@ =~= seq![digit_char(n as int)]);
        }
        s
    } else {
        let mut s = u64_to_string(n / 10);
        push_char(&mut s, exec_digit_char(n % 10));
        s
    }
}

/// The decimal spelling of an integer: a minus sign before the digits of
/// its magnitude.
pub open spec fn dec_int_of(n: int) -> Seq<char> {
    if n < 0 {
        seq!['-'] + dec_of((-n) as nat)
    } else {
        dec_of(n as nat)
    }
}

/// Writes the decimal spelling of an integer, minus sign first when
/// negative.
pub fn i64_to_string(n: i64) -> (r: String)
    ensures
        r@ == dec_int_of(n as int),
{
    if n >= 0 {
        u64_to_string(n as u64)
    } else {
        let m: u64 = ((-(n + 1)) as u64) + 1;
        proof {
            assert(m as int == -(n as int));
        }
        let mut s = String::new();
        push_char(&mut s, '-');
        let d = u64_to_string(m);
        let r = s.concat(d.as_str());
        proof {
            assert(s@ =~= seq!['-']);
            assert(r@ == seq!['-'] + dec_of((-(n as int)) as nat));
        }
        r
    }
}

/// The numeric value of a sequence of decimal digits, most significant first.
pub open spec fn digits_value(s: Seq<char>) -> int
    decreases s.len(),
{
    if s.len() == 0 {
        0
    } else {
        digits_value(s.drop_last()) * 10 + (s.last() as u32 - 48)
    }
}

/// Whether a sequence parses as a `u16`: all decimal digits, at least one,
/// and a value within range.
pub open spec fn parses_as_u16(s: Seq<char>) -> bool {
    s.len() > 0 && (forall|i: int| 0 <= i < s.len() ==> is_ascii_digit(#[trigger] s[i]))
        && digits_value(s) <= 65535
}

/// Parses a decimal `u16`, accepting exactly the all-digit spellings whose
/// value fits.
pub fn parse_u16(s: &str) -> (r: Option<u16>)
    ensures
        match r {
            Some(v) => parses_as_u16(s@) && v as int == digits_value(s@),
            None => !parses_as_u16(s@),
        },
{
    let n = s.unicode_len();
    if n == 0 {
        return None;
    }
    let mut i: usize = 0;
    let mut acc: u32 = 0;
    while i < n
        invariant
            n == s@.len(),
            0 < n,
            i <= n,
            forall|j: int| 0 <= j < i ==> is_ascii_digit(#[trigger] s@[j]),
            acc as int == digits_value(s@.take(i as int)),
            acc <= 65535,
        decreases n - i,
    {
        let c = s.get_char(i);
        let u = c as u32;
        if !(48 <= u && u <= 57) {
            proof {
                assert(!is_ascii_digit(s@[i as int]));
            }
            return None;
        }
        let d = u - 48;
        let next = acc * 10 + d;
        proof {
            assert(s@.take(i + 1).drop_last() =~= s@.take(i as int));
            assert(s@.take(i + 1).last() == s@[i as int]);
        }
        if next > 65535 {
            proof {
                if parses_as_u16(s@) {
                    lemma_digits_value_monotone(s@, i + 1);
                }
            }
            return None;
        }
        acc = next;
        i = i + 1;
    }
    proof {
        assert(s@.take(n as int) =~= s@);
    }
    Some(acc as u16)
}

/// Whether a sequence parses as an `i64`: an optional minus sign, then
/// decimal digits whose value fits. The most negative value is left out.
pub open spec fn parses_as_i64(s: Seq<char>) -> bool {
    if s.len() > 0 && s[0] == '-' {
        s.len() >= 2 && (forall|i: int| 1 <= i < s.len() ==> is_ascii_digit(#[trigger] s[i]))
            && digits_value(s.skip(1)) <= 0x7fff_ffff_ffff_ffff
    } else {
        s.len() > 0 && (forall|i: int| 0 <= i < s.len() ==> is_ascii_digit(#[trigger] s[i]))
            && digits_value(s) <= 0x7fff_ffff_ffff_ffff
    }
}

/// The value of an `i64` spelling.
pub open spec fn i64_value(s: Seq<char>) -> int {
    if s.len() > 0 && s[0] == '-' {
        -digits_value(s.skip(1))
    } else {
        digits_value(s)
    }
}

/// Parses a decimal `i64`, accepting exactly the spellings whose value
/// fits; the most negative value is not accepted.
pub fn parse_i64(s: &str) -> (r: Option<i64>)
    ensures
        match r {
            Some(v) => parses_as_i64(s@) && v as int == i64_value(s@),
            None => !parses_as_i64(s@),
        },
{
    let n = s.unicode_len();
    if n == 0 {
        return None;
    }
    let neg = s.get_char(0) == '-';
    let start: usize = if neg {
        1
    } else {
        0
    };
    if start >= n {
        return None;
    }
    let mut i: usize = start;
    let mut acc: u64 = 0;
    while i < n
        invariant
            n == s@.len(),
            start < n,
            start <= i <= n,
            start == 1 ==> s@[0] == '-',
            start == 0 ==> !(s@.len() > 0 && s@[0] == '-'),
            neg == (start == 1),
            start == 0 || start == 1,
            forall|j: int| start <= j < i ==> is_ascii_digit(#[trigger] s@[j]),
            acc as int == digits_value(s@.subrange(start as int, i as int)),
            acc <= 0x7fff_ffff_ffff_ffff,
        decreases n - i,
    {
        let c = s.get_char(i);
        let u = c as u32;
        if !(48 <= u && u <= 57) {
            proof {
                assert(!is_ascii_digit(s@[i as int]));
            }
            return None;
        }
        let d = (u - 48) as u64;
        if acc > (0x7fff_ffff_ffff_ffffu64 - d) / 10 {
            proof {
                let tail = if neg {
                    s@.skip(1)
                } else {
                    s@
                };
                if parses_as_i64(s@) {
                    assert forall|q: int| 0 <= q < tail.len() implies is_ascii_digit(
                        #[trigger] tail[q],
                    ) by {
                        if neg {
                            assert(tail == s@.skip(1));
                            assert(s@.skip(1)[q] == s@[q + 1]);
                            assert(is_ascii_digit(s@[q + 1]));
                        } else {
                            assert(tail == s@);
                            assert(is_ascii_digit(s@[q]));
                        }
                    }
                    lemma_digits_value_monotone(tail, i as int - start as int + 1);
                    assert(s@.subrange(start as int, i + 1).drop_last() =~= s@.subrange(
                        start as int,
                        i as int,
                    ));
                    assert(s@.subrange(start as int, i + 1).last() == s@[i as int]);
                    assert forall|q: int| 0 <= q < i + 1 - start implies #[trigger] s@.subrange(
                        start as int,
                        i + 1,
                    )[q] == tail.take(i as int - start as int + 1)[q] by {
                        assert(tail.take(i as int - start as int + 1)[q] == tail[q]);
                        if neg {
                            assert(tail == s@.skip(1));
                            assert(s@.skip(1)[q] == s@[q + 1]);
                        } else {
                            assert(tail == s@);
                        }
                        assert(s@.subrange(start as int, i + 1)[q] == s@[start + q]);
                    }
                    assert(s@.subrange(start as int, i + 1) =~= tail.take(
                        i as int - start as int + 1,
                    ));
                    assert(acc * 10 + d > 0x7fff_ffff_ffff_ffff) by (nonlinear_arith)
                        requires
                            acc > (0x7fff_ffff_ffff_ffffu64 - d) / 10,
                            d <= 9,
                            acc <= 0x7fff_ffff_ffff_ffff,
                    ;
                }
            }
            return None;
        }
        proof {
            assert(s@.subrange(start as int, i + 1).drop_last() =~= s@.subrange(
                start as int,
                i as int,
            ));
            assert(s@.subrange(start as int, i + 1).last() == s@[i as int]);
            assert(acc * 10 + d <= 0x7fff_ffff_ffff_ffff) by (nonlinear_arith)
                requires
                    acc <= (0x7fff_ffff_ffff_ffffu64 - d) / 10,
                    d <= 9,
            ;
        }
        acc = acc * 10 + d;
        i = i + 1;
    }
    proof {
        let tail = if neg {
            s@.skip(1)
        } else {
            s@
        };
        assert(s@.subrange(start as int, n as int) =~= tail);
    }
    if neg {
        Some(-(acc as i64))
    } else {
        Some(acc as i64)
    }
}

/// The decimal spelling of a natural number is all digits and reads back
/// to the same value.
pub proof fn lemma_dec_of_value(n: nat)
    ensures
        dec_of(n).len() > 0,
        forall|i: int| 0 <= i < dec_of(n).len() ==> is_ascii_digit(#[trigger] dec_of(n)[i]),
        digits_value(dec_of(n)) == n,
        dec_of(n)[0] != '-',
    decreases n,
{
    if n < 10 {
        assert(dec_of(n) == seq![digit_char(n as int)]);
        assert(digits_value(dec_of(n)) == digits_value(dec_of(n).drop_last()) * 10 + (dec_of(
            n,
        ).last() as u32 - 48));
        assert(dec_of(n).drop_last() =~= Seq::<char>::empty());
    } else {
        lemma_dec_of_value(n / 10);
        let w = dec_of(n / 10);
        assert(dec_of(n) == w + seq![digit_char((n % 10) as int)]);
        assert(dec_of(n).drop_last() =~= w);
        assert(dec_of(n).last() == digit_char((n % 10) as int));
        assert(digits_value(dec_of(n)) == digits_value(w) * 10 + (digit_char((n % 10) as int)
            as u32 - 48));
        assert forall|i: int| 0 <= i < dec_of(n).len() implies is_ascii_digit(
            #[trigger] dec_of(n)[i],
        ) by {
            if i < w.len() {
                assert(dec_of(n)[i] == w[i]);
            }
        }
    }
}

/// An integer's decimal spelling reads back to the same value, for every
/// value but the one whose magnitude has no positive counterpart.
pub proof fn lemma_dec_int_roundtrip(v: int)
    requires
        -0x8000_0000_0000_0000 < v <= 0x7fff_ffff_ffff_ffff,
    ensures
        parses_as_i64(dec_int_of(v)),
        i64_value(dec_int_of(v)) == v,
{
    if v < 0 {
        lemma_dec_of_value((-v) as nat);
        let s = dec_int_of(v);
        assert(s == seq!['-'] + dec_of((-v) as nat));
        assert(s[0] == '-');
        assert(s.skip(1) =~= dec_of((-v) as nat));
        assert forall|i: int| 1 <= i < s.len() implies is_ascii_digit(#[trigger] s[i]) by {
            assert(s[i] == dec_of((-v) as nat)[i - 1]);
        }
    } else {
        lemma_dec_of_value(v as nat);
        assert(dec_int_of(v) == dec_of(v as nat));
    }
}

/// Appending further digits never decreases the value of a digit string.
proof fn lemma_digits_value_monotone(s: Seq<char>, k: int)
    requires
        0 < k <= s.len(),
        forall|i: int| 0 <= i < s.len() ==> is_ascii_digit(#[trigger] s[i]),
    ensures
        digits_value(s) >= digits_value(s.take(k)),
    decreases s.len() - k,
{
    if k == s.len() {
        assert(s.take(k) =~= s);
    } else {
        lemma_digits_value_monotone(s, k + 1);
        assert(s.take(k + 1).drop_last() =~= s.take(k));
        assert(s.take(k + 1).last() == s[k]);
        lemma_digits_value_nonneg(s.take(k));
    }
}

/// The value of a digit string is never negative.
proof fn lemma_digits_value_nonneg(s: Seq<char>)
    requires
        forall|i: int| 0 <= i < s.len() ==> is_ascii_digit(#[trigger] s[i]),
    ensures
        digits_value(s) >= 0,
    decreases s.len(),
{
    if s.len() > 0 {
        assert(forall|i: int| 0 <= i < s.drop_last().len() ==> is_ascii_digit(
            #[trigger] s.drop_last()[i],
        ));
        lemma_digits_value_nonneg(s.drop_last());
    }
}

} // verus!
