//! Text comparison.
use vstd::prelude::*;

verus! {

/// Whether two texts hold the same characters.
pub fn same_text(a: &str, b: &str) -> (r: bool)
    ensures
        r == (a@ == b@),
{
    a.to_owned() == b.to_owned()
}

/// Whether a variable is set to exactly `text`.
pub open spec fn set_to(value: Option<&str>, text: Seq<char>) -> bool {
    value matches Some(v) && v@ == text
}

/// Whether a variable is set to exactly `text`.
pub fn is_set_to(value: Option<&str>, text: &str) -> (r: bool)
    ensures
        r == set_to(value, text@),
{
    match value {
        Some(v) => same_text(v, text),
        None => false,
    }
}

/// Lower case of an ASCII letter, any other byte itself.
pub open spec fn lower(b: u8) -> int {
    if 65 <= b <= 90 {
        b + 32
    } else {
        b as int
    }
}

/// The bytes of "true" in any mixture of cases.
pub open spec fn spells_true(b: Seq<u8>) -> bool {
    &&& b.len() == 4
    &&& lower(b[0]) == 116
    &&& lower(b[1]) == 114
    &&& lower(b[2]) == 117
    &&& lower(b[3]) == 101
}

fn lower_of(b: u8) -> (r: u8)
    ensures
        r == lower(b),
{
    if 65 <= b && b <= 90 {
        b + 32
    } else {
        b
    }
}

/// Whether a text spells "true" in any mixture of cases.
pub fn is_true_text(s: &str) -> (r: bool)
    ensures
        r == spells_true(vstd::utf8::encode_utf8(s@)),
{
    let b: &[u8] = s.as_bytes();
    b.len() == 4 && lower_of(b[0]) == 116 && lower_of(b[1]) == 114 && lower_of(b[2]) == 117
        && lower_of(b[3]) == 101
}

/// Value of a string of decimal digits.
pub open spec fn digits(b: Seq<u8>) -> Option<int>
    decreases b.len(),
{
    if b.len() == 0 {
        Some(0)
    } else {
        match digits(b.drop_last()) {
            Some(v) => if 48 <= b.last() <= 57 {
                Some(10 * v + (b.last() - 48))
            } else {
                None
            },
            None => None,
        }
    }
}

/// Value of a decimal number: an optional plus sign and at least one digit.
pub open spec fn decimal(b: Seq<u8>) -> Option<int> {
    let d = if b.len() > 0 && b[0] == 43 {
        b.subrange(1, b.len() as int)
    } else {
        b
    };
    if d.len() == 0 {
        None
    } else {
        digits(d)
    }
}

/// Reads a decimal number that fits in 32 bits.
pub fn parse_u32(s: &str) -> (r: Option<u32>)
    ensures
        r == (match decimal(vstd::utf8::encode_utf8(s@)) {
            Some(v) => if v <= u32::MAX {
                Some(v as u32)
            } else {
                None
            },
            None => None,
        }),
{
    let b: &[u8] = s.as_bytes();
    let n: usize = b.len();
    let start: usize = if n > 0 && b[0] == 43 {
        1
    } else {
        0
    };
    let ghost d = b@.subrange(start as int, n as int);
    assert(start == 0 ==> d =~= b@);
    if start == n {
        return None;
    }
    let mut v: u64 = 0;
    let mut i: usize = start;
    let mut fits: bool = true;
    while i < n
        invariant
            start <= i <= n,
            n == b@.len(),
            b@ == vstd::utf8::encode_utf8(s@),
            decimal(b@) == digits(d),
            d == b@.subrange(start as int, n as int),
            digits(d.take(i - start)) is Some,
            fits ==> v <= u32::MAX && digits(d.take(i - start)) == Some(v as int),
            !fits ==> digits(d.take(i - start))->0 > u32::MAX,
        decreases n - i,
    {
        let c: u8 = b[i];
        proof {
            let next = d.take(i - start + 1);
            assert(next.drop_last() =~= d.take(i - start));
            assert(next.last() == c);
        }
        if c < 48 || c > 57 {
            proof {
                lemma_bad_digit(d, i - start + 1);
            }
            return None;
        }
        if fits {
            v = 10 * v + (c - 48) as u64;
            if v > 0xffff_ffff {
                fits = false;
            }
        }
        i = i + 1;
    }
    assert(d.take(n - start) =~= d);
    if fits {
        Some(v as u32)
    } else {
        None
    }
}

/// Reads a decimal number that fits in a `usize`.
pub fn parse_usize(s: &str) -> (r: Option<usize>)
    ensures
        r == (match decimal(vstd::utf8::encode_utf8(s@)) {
            Some(v) => if v <= usize::MAX {
                Some(v as usize)
            } else {
                None
            },
            None => None,
        }),
{
    let b: &[u8] = s.as_bytes();
    let n: usize = b.len();
    let start: usize = if n > 0 && b[0] == 43 {
        1
    } else {
        0
    };
    let ghost d = b@.subrange(start as int, n as int);
    assert(start == 0 ==> d =~= b@);
    if start == n {
        return None;
    }
    let mut v: Option<usize> = Some(0);
    let mut i: usize = start;
    while i < n
        invariant
            start <= i <= n,
            n == b@.len(),
            b@ == vstd::utf8::encode_utf8(s@),
            decimal(b@) == digits(d),
            d == b@.subrange(start as int, n as int),
            digits(d.take(i - start)) is Some,
            v matches Some(x) ==> digits(d.take(i - start)) == Some(x as int),
            v is None ==> digits(d.take(i - start))->0 > usize::MAX,
        decreases n - i,
    {
        let c: u8 = b[i];
        proof {
            let next = d.take(i - start + 1);
            assert(next.drop_last() =~= d.take(i - start));
            assert(next.last() == c);
        }
        if c < 48 || c > 57 {
            proof {
                lemma_bad_digit(d, i - start + 1);
            }
            return None;
        }
        v = match v {
            Some(x) => match x.checked_mul(10) {
                Some(y) => y.checked_add((c - 48) as usize),
                None => None,
            },
            None => None,
        };
        i = i + 1;
    }
    assert(d.take(n - start) =~= d);
    v
}

/// A decimal number is not negative.
pub proof fn lemma_decimal_nonneg(b: Seq<u8>)
    ensures
        decimal(b) matches Some(v) ==> v >= 0,
{
    lemma_digits_nonneg(b);
    if b.len() > 0 {
        lemma_digits_nonneg(b.subrange(1, b.len() as int));
    }
}

proof fn lemma_digits_nonneg(b: Seq<u8>)
    ensures
        digits(b) matches Some(v) ==> v >= 0,
    decreases b.len(),
{
    if b.len() > 0 {
        lemma_digits_nonneg(b.drop_last());
    }
}

proof fn lemma_bad_digit(d: Seq<u8>, n: int)
    requires
        0 <= n <= d.len(),
        digits(d.take(n)) is None,
    ensures
        digits(d) is None,
    decreases d.len() - n,
{
    if n < d.len() {
        assert(d.take(n + 1).drop_last() =~= d.take(n));
        lemma_bad_digit(d, n + 1);
    } else {
        assert(d.take(n) =~= d);
    }
}

} // verus!
