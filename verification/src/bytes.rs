//! Small byte-string helpers shared by the console, the command parsers and
//! the executor: cloning, comparison, appending, and decimal rendering and
//! parsing of task ids and counters.

use vstd::prelude::*;

verus! {

/// Clone a byte vector.
pub fn clone_bytes(v: &Vec<u8>) -> (r: Vec<u8>)
    ensures
        r@ == v@,
{
    let mut r: Vec<u8> = Vec::new();
    let mut i: usize = 0;
    while i < v.len()
        invariant
            i <= v@.len(),
            r@ == v@.take(i as int),
        decreases v@.len() - i,
    {
        r.push(v[i]);
        proof {
            assert(r@ =~= v@.take(i + 1));
        }
        i += 1;
    }
    proof {
        assert(r@ =~= v@);
    }
    r
}

/// Whether two byte vectors hold the same bytes.
pub fn bytes_eq(a: &Vec<u8>, b: &Vec<u8>) -> (r: bool)
    ensures
        r == (a@ == b@),
{
    if a.len() != b.len() {
        proof {
            assert(a@ != b@);
        }
        return false;
    }
    let mut i: usize = 0;
    while i < a.len()
        invariant
            i <= a@.len(),
            a@.len() == b@.len(),
            forall|j: int| 0 <= j < i ==> a@[j] == b@[j],
        decreases a@.len() - i,
    {
        if a[i] != b[i] {
            return false;
        }
        i += 1;
    }
    proof {
        assert(a@ =~= b@);
    }
    true
}

/// Append all bytes of `src` to `out`.
pub fn append_bytes(out: &mut Vec<u8>, src: &Vec<u8>)
    ensures
        final(out)@ == old(out)@ + src@,
{
    let mut i: usize = 0;
    while i < src.len()
        invariant
            i <= src@.len(),
            out@ == old(out)@ + src@.take(i as int),
        decreases src@.len() - i,
    {
        out.push(src[i]);
        proof {
            assert(out@ =~= old(out)@ + src@.take(i + 1));
        }
        i += 1;
    }
    proof {
        assert(out@ =~= old(out)@ + src@);
    }
}

/// The decimal digits of `n`, most significant first.
pub open spec fn dec_digits(n: int) -> Seq<u8>
    decreases n,
{
    if n <= 0 {
        Seq::<u8>::empty()
    } else {
        dec_digits(n / 10).push((48 + n % 10) as u8)
    }
}

/// The decimal rendering of `n`: its digits, or "0" for zero.
pub open spec fn dec_repr(n: int) -> Seq<u8> {
    if n == 0 {
        seq![48u8]
    } else {
        dec_digits(n)
    }
}

/// Append the decimal rendering of `n` to `out`.
pub fn append_dec_u32(out: &mut Vec<u8>, n: u32)
    ensures
        final(out)@ == old(out)@ + dec_repr(n as int),
{
    if n == 0 {
        out.push(48);
        proof {
            assert(out@ =~= old(out)@ + dec_repr(0));
        }
        return ;
    }
    let mut digits: Vec<u8> = Vec::new();
    let mut m = n;
    while m > 0
        invariant
            dec_digits(n as int) == dec_digits(m as int) + digits@.reverse(),
        decreases m,
    {
        let ghost mpre = m as int;
        let d = (m % 10) as u8;
        digits.push(48 + d);
        m = m / 10;
        proof {
            assert(dec_digits(mpre) == dec_digits(mpre / 10).push((48 + mpre % 10) as u8));
            assert(digits@.reverse() =~= seq![(48 + mpre % 10) as u8] + digits@.drop_last().reverse());
            assert(dec_digits(m as int) + digits@.reverse() =~= dec_digits(mpre)
                + digits@.drop_last().reverse());
        }
    }
    proof {
        assert(dec_digits(n as int) =~= digits@.reverse());
    }
    let mut i: usize = digits.len();
    while i > 0
        invariant
            i <= digits@.len(),
            out@ == old(out)@ + digits@.reverse().take(digits@.len() - i),
        decreases i,
    {
        i -= 1;
        out.push(digits[i]);
        proof {
            assert(digits@.reverse()[digits@.len() - i - 1] == digits@[i as int]);
            assert(out@ =~= old(out)@ + digits@.reverse().take(digits@.len() - i));
        }
    }
    proof {
        assert(digits@.reverse().take(digits@.len() as int) =~= digits@.reverse());
        assert(out@ =~= old(out)@ + dec_repr(n as int));
    }
}

/// The numeric value of a digit string, most significant first.
pub open spec fn dec_value(s: Seq<u8>) -> int
    decreases s.len(),
{
    if s.len() == 0 {
        0
    } else {
        dec_value(s.drop_last()) * 10 + (s.last() - 48)
    }
}

/// Whether every byte of `s` is a decimal digit.
pub open spec fn all_digits(s: Seq<u8>) -> bool {
    forall|i: int| 0 <= i < s.len() ==> 48 <= #[trigger] s[i] <= 57
}

/// Parse a decimal 16-bit number: `Some` exactly for nonempty all-digit
/// strings whose value fits.
pub fn parse_u16(s: &Vec<u8>) -> (r: Option<u16>)
    ensures
        match r {
            Some(v) => s@.len() > 0 && all_digits(s@) && v == dec_value(s@) && dec_value(s@)
                <= 65535,
            None => s@.len() == 0 || !all_digits(s@) || dec_value(s@) > 65535,
        },
{
    if s.len() == 0 {
        return None;
    }
    let mut acc: u32 = 0;
    let mut i: usize = 0;
    while i < s.len()
        invariant
            i <= s@.len(),
            forall|j: int| 0 <= j < i ==> 48 <= #[trigger] s@[j] <= 57,
            acc == dec_value(s@.take(i as int)),
            acc <= 65535,
        decreases s@.len() - i,
    {
        let b = s[i];
        if b < 48 || b > 57 {
            proof {
                assert(!all_digits(s@));
            }
            return None;
        }
        let v = acc * 10 + ((b - 48) as u32);
        proof {
            assert(s@.take(i + 1).drop_last() =~= s@.take(i as int));
            assert(s@.take(i + 1).last() == s@[i as int]);
        }
        if v > 65535 {
            proof {
                if all_digits(s@) {
                    lemma_dec_value_monotonic(s@, i + 1);
                }
            }
            return None;
        }
        acc = v;
        i += 1;
    }
    proof {
        assert(s@.take(s@.len() as int) =~= s@);
    }
    Some(acc as u16)
}

/// The value of a digit string is at least the value of any of its prefixes
/// (all bytes being digits).
proof fn lemma_dec_value_monotonic(s: Seq<u8>, i: int)
    requires
        0 < i <= s.len(),
        forall|j: int| 0 <= j < i ==> 48 <= #[trigger] s[j] <= 57,
        all_digits(s),
    ensures
        dec_value(s) >= dec_value(s.take(i)),
    decreases s.len() - i,
{
    if i < s.len() {
        lemma_dec_value_monotonic(s, i + 1);
        assert(s.take(i + 1).drop_last() =~= s.take(i));
        assert(s.take(i + 1).last() == s[i]);
        assert(dec_value(s.take(i + 1)) == dec_value(s.take(i)) * 10 + (s[i] - 48));
        assert(dec_value(s.take(i)) >= 0) by {
            lemma_dec_value_nonneg(s.take(i));
        }
    } else {
        assert(s.take(i) =~= s);
    }
}

/// A digit string's value is never negative.
proof fn lemma_dec_value_nonneg(s: Seq<u8>)
    requires
        forall|i: int| 0 <= i < s.len() ==> 48 <= #[trigger] s[i] <= 57,
    ensures
        dec_value(s) >= 0,
    decreases s.len(),
{
    if s.len() > 0 {
        assert(forall|i: int| 0 <= i < s.drop_last().len() ==> 48 <= #[trigger] s.drop_last()[i]
            <= 57);
        lemma_dec_value_nonneg(s.drop_last());
    }
}


/// Append the decimal rendering of `n` to `out`.
pub fn append_dec_u64(out: &mut Vec<u8>, n: u64)
    ensures
        final(out)@ == old(out)@ + dec_repr(n as int),
{
    if n == 0 {
        out.push(48);
        proof {
            assert(out@ =~= old(out)@ + dec_repr(0));
        }
        return ;
    }
    let mut digits: Vec<u8> = Vec::new();
    let mut m = n;
    while m > 0
        invariant
            dec_digits(n as int) == dec_digits(m as int) + digits@.reverse(),
        decreases m,
    {
        let ghost mpre = m as int;
        let d = (m % 10) as u8;
        digits.push(48 + d);
        m = m / 10;
        proof {
            assert(dec_digits(mpre) == dec_digits(mpre / 10).push((48 + mpre % 10) as u8));
            assert(digits@.reverse() =~= seq![(48 + mpre % 10) as u8] + digits@.drop_last().reverse());
            assert(dec_digits(m as int) + digits@.reverse() =~= dec_digits(mpre)
                + digits@.drop_last().reverse());
        }
    }
    proof {
        assert(dec_digits(n as int) =~= digits@.reverse());
    }
    let mut i: usize = digits.len();
    while i > 0
        invariant
            i <= digits@.len(),
            out@ == old(out)@ + digits@.reverse().take(digits@.len() - i),
        decreases i,
    {
        i -= 1;
        out.push(digits[i]);
        proof {
            assert(digits@.reverse()[digits@.len() - i - 1] == digits@[i as int]);
            assert(out@ =~= old(out)@ + digits@.reverse().take(digits@.len() - i));
        }
    }
    proof {
        assert(digits@.reverse().take(digits@.len() as int) =~= digits@.reverse());
        assert(out@ =~= old(out)@ + dec_repr(n as int));
    }
}

/// The decimal rendering of a signed value: a minus sign before the digits
/// of its magnitude.
pub open spec fn dec_repr_signed(n: int) -> Seq<u8> {
    if n < 0 {
        seq![45u8] + dec_repr(-n)
    } else {
        dec_repr(n)
    }
}

/// Append the decimal rendering of `n`, sign included, to `out`.
pub fn append_dec_i64(out: &mut Vec<u8>, n: i64)
    requires
        n != i64::MIN,
    ensures
        final(out)@ == old(out)@ + dec_repr_signed(n as int),
{
    if n < 0 {
        out.push(45);
        append_dec_u64(out, (-n) as u64);
        proof {
            assert(out@ =~= old(out)@ + dec_repr_signed(n as int));
        }
    } else {
        append_dec_u64(out, n as u64);
    }
}

} // verus!
