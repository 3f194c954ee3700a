//! Fields and numbers of a line of text, as bytes.
use vstd::prelude::*;

verus! {

pub open spec fn is_blank(b: u8) -> bool {
    b == 0x20u8 || b == 0x09u8
}

/// The first position at or after `i` that holds no blank.
pub open spec fn skip_blanks(s: Seq<u8>, i: int) -> int
    decreases s.len() - i,
{
    if 0 <= i < s.len() && is_blank(s[i]) {
        skip_blanks(s, i + 1)
    } else {
        i
    }
}

/// The first position at or after `i` that holds a blank or `sep`.
pub open spec fn field_end(s: Seq<u8>, i: int, sep: u8) -> int
    decreases s.len() - i,
{
    if 0 <= i < s.len() && !is_blank(s[i]) && s[i] != sep {
        field_end(s, i + 1, sep)
    } else {
        i
    }
}

/// The value of digit `b` in base `radix` (10 or 16, either case), or -1.
pub open spec fn digit_value(b: u8, radix: nat) -> int {
    let d: int = if 0x30u8 <= b <= 0x39u8 {
        b - 0x30
    } else if 0x61u8 <= b <= 0x66u8 {
        b - 0x57
    } else if 0x41u8 <= b <= 0x46u8 {
        b - 0x37
    } else {
        radix as int
    };
    if d < radix {
        d
    } else {
        -1
    }
}

pub open spec fn all_digits(s: Seq<u8>, radix: nat) -> bool {
    forall|i: int| 0 <= i < s.len() ==> digit_value(#[trigger] s[i], radix) >= 0
}

/// The value of the digits `s`, most significant first.
pub open spec fn number_value(s: Seq<u8>, radix: nat) -> int
    decreases s.len(),
{
    if s.len() == 0 {
        0
    } else {
        number_value(s.drop_last(), radix) * radix + digit_value(s.last(), radix)
    }
}

/// The number that `s` writes in base `radix`, where `s` is a nonempty run of
/// digits whose value fits a `usize`.
pub open spec fn number_of(s: Seq<u8>, radix: nat) -> Option<usize> {
    if s.len() > 0 && all_digits(s, radix) && number_value(s, radix) <= usize::MAX {
        Some(number_value(s, radix) as usize)
    } else {
        None
    }
}

pub proof fn lemma_skip_blanks_bounds(s: Seq<u8>, i: int)
    requires
        0 <= i <= s.len(),
    ensures
        i <= skip_blanks(s, i) <= s.len(),
    decreases s.len() - i,
{
    if i < s.len() && is_blank(s[i]) {
        lemma_skip_blanks_bounds(s, i + 1);
    }
}

pub proof fn lemma_field_end_bounds(s: Seq<u8>, i: int, sep: u8)
    requires
        0 <= i <= s.len(),
    ensures
        i <= field_end(s, i, sep) <= s.len(),
    decreases s.len() - i,
{
    if i < s.len() && !is_blank(s[i]) && s[i] != sep {
        lemma_field_end_bounds(s, i + 1, sep);
    }
}

/// A prefix of a run of digits is worth no more than the whole run.
proof fn lemma_prefix_value_le(s: Seq<u8>, k: int, radix: nat)
    requires
        0 <= k <= s.len(),
        radix >= 1,
        all_digits(s, radix),
    ensures
        0 <= number_value(s.subrange(0, k), radix) <= number_value(s, radix),
    decreases s.len(),
{
    if k == s.len() {
        assert(s.subrange(0, k) == s);
        lemma_value_nonneg(s, radix);
    } else {
        let t = s.drop_last();
        assert(all_digits(t, radix)) by {
            assert forall|i: int| 0 <= i < t.len() implies digit_value(#[trigger] t[i], radix) >= 0 by {
                assert(t[i] == s[i]);
            }
        }
        lemma_prefix_value_le(t, k, radix);
        assert(t.subrange(0, k) == s.subrange(0, k));
        assert(digit_value(s.last(), radix) >= 0);
        let v = number_value(t, radix);
        assert(v * radix >= v) by (nonlinear_arith)
            requires
                v >= 0,
                radix >= 1,
        ;
    }
}

proof fn lemma_value_nonneg(s: Seq<u8>, radix: nat)
    requires
        all_digits(s, radix),
    ensures
        number_value(s, radix) >= 0,
    decreases s.len(),
{
    if s.len() > 0 {
        let t = s.drop_last();
        assert forall|i: int| 0 <= i < t.len() implies digit_value(#[trigger] t[i], radix) >= 0 by {
            assert(t[i] == s[i]);
        }
        lemma_value_nonneg(t, radix);
        assert(digit_value(s.last(), radix) >= 0);
        let v = number_value(t, radix);
        assert(v * radix >= 0) by (nonlinear_arith)
            requires
                v >= 0,
        ;
    }
}

/// Position of the first byte at or after `i` that is no blank.
pub fn skip_blanks_from(s: &[u8], i: usize) -> (r: usize)
    requires
        i <= s@.len(),
    ensures
        r == skip_blanks(s@, i as int),
        i <= r <= s@.len(),
{
    let mut j: usize = i;
    while j < s.len() && (s[j] == 0x20u8 || s[j] == 0x09u8)
        invariant
            i <= j <= s@.len(),
            skip_blanks(s@, j as int) == skip_blanks(s@, i as int),
        decreases s@.len() - j,
    {
        j += 1;
    }
    j
}

/// Position of the first blank or `sep` at or after `i`, or the length.
pub fn field_end_from(s: &[u8], i: usize, sep: u8) -> (r: usize)
    requires
        i <= s@.len(),
    ensures
        r == field_end(s@, i as int, sep),
        i <= r <= s@.len(),
{
    let mut j: usize = i;
    while j < s.len() && !(s[j] == 0x20u8 || s[j] == 0x09u8) && s[j] != sep
        invariant
            i <= j <= s@.len(),
            field_end(s@, j as int, sep) == field_end(s@, i as int, sep),
        decreases s@.len() - j,
    {
        j += 1;
    }
    j
}

fn digit(b: u8, radix: usize) -> (r: Option<usize>)
    requires
        radix == 10 || radix == 16,
    ensures
        match r {
            Some(d) => d == digit_value(b, radix as nat) && d < radix,
            None => digit_value(b, radix as nat) < 0,
        },
{
    let d: usize = if 0x30u8 <= b && b <= 0x39u8 {
        (b - 0x30u8) as usize
    } else if 0x61u8 <= b && b <= 0x66u8 {
        (b - 0x57u8) as usize
    } else if 0x41u8 <= b && b <= 0x46u8 {
        (b - 0x37u8) as usize
    } else {
        radix
    };
    if d < radix {
        Some(d)
    } else {
        None
    }
}

/// The number that `s` writes in base `radix`; `None` where `s` is empty, holds
/// a byte that is no digit, or writes a number too large for a `usize`.
pub fn parse_number(s: &[u8], radix: usize) -> (r: Option<usize>)
    requires
        radix == 10 || radix == 16,
    ensures
        r == number_of(s@, radix as nat),
{
    if s.len() == 0 {
        return None;
    }
    let mut acc: usize = 0;
    let mut i: usize = 0;
    while i < s.len()
        invariant
            i <= s@.len(),
            radix == 10 || radix == 16,
            all_digits(s@.subrange(0, i as int), radix as nat),
            acc == number_value(s@.subrange(0, i as int), radix as nat),
        decreases s@.len() - i,
    {
        let ghost pre = s@.subrange(0, i as int);
        let ghost next = s@.subrange(0, i + 1);
        assert(next.drop_last() == pre);
        match digit(s[i], radix) {
            None => {
                return None;
            },
            Some(d) => {
                if acc > (usize::MAX - d) / radix {
                    proof {
                        let m = (usize::MAX - d) as int;
                        let a = acc as int;
                        let rd = radix as int;
                        assert(a * rd + d > usize::MAX) by (nonlinear_arith)
                            requires
                                a > m / rd,
                                rd > 0,
                                m == usize::MAX - d,
                        ;
                        if all_digits(s@, radix as nat) {
                            lemma_prefix_value_le(s@, i + 1, radix as nat);
                        }
                    }
                    return None;
                }
                proof {
                    let m = (usize::MAX - d) as int;
                    let a = acc as int;
                    let rd = radix as int;
                    assert(a * rd + d <= usize::MAX) by (nonlinear_arith)
                        requires
                            a <= m / rd,
                            rd > 0,
                            m == usize::MAX - d,
                    ;
                }
                acc = acc * radix + d;
                assert(all_digits(next, radix as nat)) by {
                    assert forall|k: int| 0 <= k < next.len() implies digit_value(#[trigger] next[k], radix as nat) >= 0 by {
                        if k < i {
                            assert(next[k] == pre[k]);
                        }
                    }
                }
            },
        }
        i += 1;
    }
    assert(s@.subrange(0, s@.len() as int) == s@);
    Some(acc)
}

} // verus!
