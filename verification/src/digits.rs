//! Decimal rendering and parsing of unsigned 64-bit integers, used for the
//! `exp` claim inside an access-token payload.

use vstd::prelude::*;

verus! {

/// True of an ASCII decimal digit byte.
pub open spec fn is_digit_byte(b: u8) -> bool {
    48 <= b && b <= 57
}

/// The decimal rendering of `n`, most significant digit first.
pub open spec fn spec_digits(n: nat) -> Seq<u8>
    decreases n,
{
    if n < 10 {
        seq![(48 + n) as u8]
    } else {
        spec_digits(n / 10).push((48 + n % 10) as u8)
    }
}

/// The number denoted by a sequence of digit bytes, most significant first.
pub open spec fn digits_val(b: Seq<u8>) -> nat
    decreases b.len(),
{
    if b.len() == 0 {
        0
    } else {
        digits_val(b.drop_last()) * 10 + (b.last() - 48) as nat
    }
}

/// True when every byte of `b` is a decimal digit.
pub open spec fn all_digits(b: Seq<u8>) -> bool {
    forall|i: int| 0 <= i < b.len() ==> #[trigger] is_digit_byte(b[i])
}

/// What parsing a digit run yields: the denoted number, provided the run is
/// non-empty, all digits, and the number fits in a `u64`.
pub open spec fn spec_parse_u64(b: Seq<u8>) -> Option<u64> {
    if b.len() > 0 && all_digits(b) && digits_val(b) <= u64::MAX {
        Some(digits_val(b) as u64)
    } else {
        None
    }
}

/// The decimal rendering of `n` is made of digits and denotes `n`.
pub proof fn lemma_digits_val_of_spec_digits(n: nat)
    ensures
        all_digits(spec_digits(n)),
        digits_val(spec_digits(n)) == n,
        spec_digits(n).len() >= 1,
    decreases n,
{
    if n < 10 {
        let s = spec_digits(n);
        assert(s =~= seq![(48 + n) as u8]);
        assert(s.drop_last() =~= Seq::<u8>::empty());
        assert(s.last() == (48 + n) as u8);
        assert(digits_val(s) == digits_val(s.drop_last()) * 10 + (s.last() - 48) as nat);
        assert(digits_val(s.drop_last()) == 0);
        assert(digits_val(s) == n);
        assert(forall|i: int| 0 <= i < s.len() ==> #[trigger] is_digit_byte(s[i]));
    } else {
        lemma_digits_val_of_spec_digits(n / 10);
        let s = spec_digits(n / 10).push((48 + n % 10) as u8);
        assert(s.drop_last() =~= spec_digits(n / 10));
        assert(s.last() == (48 + n % 10) as u8);
        assert(forall|i: int|
            0 <= i < s.len() - 1 ==> s[i] == #[trigger] spec_digits(n / 10)[i]);
        assert(all_digits(s));
        assert(digits_val(s) == (n / 10) * 10 + n % 10);
        vstd::arithmetic::div_mod::lemma_fundamental_div_mod(n as int, 10);
    }
}

/// Rendering is injective: parsing the rendering of `n` gives back `n`.
pub proof fn lemma_parse_of_spec_digits(n: u64)
    ensures
        spec_parse_u64(spec_digits(n as nat)) == Some(n),
{
    lemma_digits_val_of_spec_digits(n as nat);
}

/// Appends the decimal rendering of `n` to `out`.
pub fn push_decimal(n: u64, out: &mut Vec<u8>)
    ensures
        final(out)@ == old(out)@ + spec_digits(n as nat),
    decreases n,
{
    if n < 10 {
        out.push(48 + n as u8);
        assert(out@ =~= old(out)@ + spec_digits(n as nat));
    } else {
        push_decimal(n / 10, out);
        out.push(48 + (n % 10) as u8);
        assert(out@ =~= old(out)@ + spec_digits(n as nat));
    }
}

/// A digit run denotes at least as much as any of its prefixes.
proof fn lemma_digits_val_prefix_le(b: Seq<u8>, i: int)
    requires
        0 <= i <= b.len(),
        all_digits(b),
    ensures
        digits_val(b.subrange(0, i)) <= digits_val(b),
    decreases b.len() - i,
{
    if i == b.len() {
        assert(b.subrange(0, i) =~= b);
    } else {
        lemma_digits_val_prefix_le(b, i + 1);
        let p = b.subrange(0, i + 1);
        assert(p.drop_last() =~= b.subrange(0, i));
        assert(digits_val(p) == digits_val(b.subrange(0, i)) * 10 + (b[i] - 48) as nat);
        assert(digits_val(b.subrange(0, i)) <= digits_val(p));
    }
}

/// Parses `b[from..to]` as an unsigned decimal number.
pub fn parse_u64(b: &[u8], from: usize, to: usize) -> (r: Option<u64>)
    requires
        from <= to <= b@.len(),
    ensures
        r == spec_parse_u64(b@.subrange(from as int, to as int)),
{
    let ghost whole = b@.subrange(from as int, to as int);
    if from == to {
        return None;
    }
    let mut acc: u64 = 0;
    let mut i: usize = from;
    while i < to
        invariant
            from <= i <= to <= b@.len(),
            whole == b@.subrange(from as int, to as int),
            to > from,
            all_digits(whole.subrange(0, i - from)),
            acc == digits_val(whole.subrange(0, i - from)),
        decreases to - i,
    {
        let d = b[i];
        if d < 48 || d > 57 {
            proof {
                assert(whole[i - from] == d);
                assert(!is_digit_byte(whole[i - from]));
            }
            return None;
        }
        let dv: u64 = (d - 48) as u64;
        proof {
            assert(whole.subrange(0, i - from + 1).drop_last() =~= whole.subrange(0, i - from));
            assert(whole.subrange(0, i - from + 1).last() == d);
        }
        if acc > (u64::MAX - dv) / 10 {
            proof {
                assert(digits_val(whole.subrange(0, i - from + 1))
                    == digits_val(whole.subrange(0, i - from)) * 10 + dv);
                assert(acc * 10 + dv > u64::MAX) by (nonlinear_arith)
                    requires
                        acc > (u64::MAX - dv) / 10,
                        dv <= 9,
                ;
                assert(digits_val(whole.subrange(0, i - from + 1)) > u64::MAX);
                if all_digits(whole) && digits_val(whole) <= u64::MAX {
                    lemma_digits_val_prefix_le(whole, i - from + 1);
                    assert(false);
                }
            }
            return None;
        }
        proof {
            assert(acc * 10 + dv <= u64::MAX) by (nonlinear_arith)
                requires
                    acc <= (u64::MAX - dv) / 10,
                    dv <= 9,
            ;
        }
        acc = acc * 10 + dv;
        i = i + 1;
    }
    proof {
        assert(whole.subrange(0, to - from) =~= whole);
    }
    Some(acc)
}

} // verus!
