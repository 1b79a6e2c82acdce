//! Conversion between ASCII decimal text and unsigned integers.
//!
//! The wire protocol carries flags, time-to-live values, counter amounts and
//! counter payloads as decimal digit strings; these functions convert between
//! that textual form and `u32`/`u64` values.

use vstd::prelude::*;

verus! {

/// True iff `b` is an ASCII decimal digit.
pub open spec fn is_digit(b: u8) -> bool {
    48 <= b <= 57
}

/// True iff every byte of `s` is an ASCII decimal digit.
pub open spec fn all_digits(s: Seq<u8>) -> bool {
    forall|i: int| 0 <= i < s.len() ==> is_digit(#[trigger] s[i])
}

/// Numeric value of a sequence of ASCII digit bytes, most significant first.
pub open spec fn dec_val(s: Seq<u8>) -> int
    decreases s.len(),
{
    if s.len() == 0 {
        0
    } else {
        dec_val(s.drop_last()) * 10 + (s.last() - 48)
    }
}

/// True iff `s` is a decimal numeral that denotes a value fitting in `u64`.
pub open spec fn is_valid_u64_text(s: Seq<u8>) -> bool {
    s.len() > 0 && all_digits(s) && dec_val(s) <= u64::MAX
}

/// True iff `s` is a decimal numeral that denotes a value fitting in `u32`.
pub open spec fn is_valid_u32_text(s: Seq<u8>) -> bool {
    s.len() > 0 && all_digits(s) && dec_val(s) <= u32::MAX
}

/// Shortest decimal numeral for `n` (no leading zeros except for `n == 0`).
pub open spec fn dec_text(n: nat) -> Seq<u8>
    decreases n,
{
    if n < 10 {
        seq![(48 + n) as u8]
    } else {
        dec_text(n / 10).push((48 + n % 10) as u8)
    }
}

/// A numeral made of digits denotes a non-negative value.
pub proof fn lemma_dec_val_nonneg(s: Seq<u8>)
    requires
        all_digits(s),
    ensures
        dec_val(s) >= 0,
    decreases s.len(),
{
    if s.len() > 0 {
        assert(all_digits(s.drop_last()));
        lemma_dec_val_nonneg(s.drop_last());
    }
}

/// Dropping trailing digits of a numeral never increases its value.
pub proof fn lemma_dec_val_prefix_le(s: Seq<u8>, i: int)
    requires
        all_digits(s),
        0 <= i <= s.len(),
    ensures
        dec_val(s.take(i)) <= dec_val(s),
    decreases s.len(),
{
    if i < s.len() {
        let t = s.drop_last();
        assert(all_digits(t));
        assert(s.take(i) =~= t.take(i));
        lemma_dec_val_prefix_le(t, i);
        lemma_dec_val_nonneg(t);
    } else {
        assert(s.take(i) =~= s);
    }
}

/// Appending one digit multiplies the value by ten and adds the digit.
proof fn lemma_dec_val_push(t: Seq<u8>, b: u8)
    ensures
        dec_val(t.push(b)) == dec_val(t) * 10 + (b - 48),
{
    let u = t.push(b);
    assert(u.drop_last() =~= t);
    assert(u.last() == b);
}

/// The decimal numeral of `n` consists of digits only.
pub proof fn lemma_dec_text_digits(n: nat)
    ensures
        all_digits(dec_text(n)),
        dec_text(n).len() >= 1,
    decreases n,
{
    if n < 10 {
    } else {
        lemma_dec_text_digits(n / 10);
        let t = dec_text(n / 10);
        let b = (48 + n % 10) as u8;
        assert(forall|i: int|
            0 <= i < t.push(b).len() ==> is_digit(#[trigger] t.push(b)[i])) by {
            assert(forall|i: int| 0 <= i < t.len() ==> t.push(b)[i] == #[trigger] t[i]);
        }
    }
}

/// Rendering a number as decimal text and reading it back is the identity.
pub proof fn lemma_dec_text_roundtrip(n: nat)
    ensures
        dec_val(dec_text(n)) == n,
    decreases n,
{
    if n < 10 {
        assert(dec_text(n) =~= Seq::<u8>::empty().push((48 + n) as u8));
        lemma_dec_val_push(Seq::<u8>::empty(), (48 + n) as u8);
    } else {
        lemma_dec_text_roundtrip(n / 10);
        lemma_dec_val_push(dec_text(n / 10), (48 + n % 10) as u8);
    }
}

/// An error returned when a byte string is not a decimal numeral in range.
#[derive(Debug, PartialEq, Eq)]
pub struct NumberError;

/// Parses an ASCII decimal numeral as a `u64`, rejecting anything that is
/// empty, contains a non-digit byte, or denotes a value above `u64::MAX`.
pub fn convert_bytes_to_u64(bytes: &[u8]) -> (r: Result<u64, NumberError>)
    ensures
        is_valid_u64_text(bytes@) ==> (r matches Ok(v) && v == dec_val(bytes@)),
        !is_valid_u64_text(bytes@) ==> r is Err,
{
    if bytes.len() == 0 {
        return Err(NumberError);
    }
    let mut acc: u64 = 0;
    let mut i: usize = 0;
    while i < bytes.len()
        invariant
            0 <= i <= bytes@.len(),
            all_digits(bytes@.take(i as int)),
            acc == dec_val(bytes@.take(i as int)),
        decreases bytes@.len() - i,
    {
        let b = bytes[i];
        proof {
            assert(bytes@.take(i + 1) =~= bytes@.take(i as int).push(bytes@[i as int]));
            lemma_dec_val_push(bytes@.take(i as int), bytes@[i as int]);
        }
        if b < 48 || b > 57 {
            proof {
                assert(!is_digit(bytes@[i as int]));
            }
            return Err(NumberError);
        }
        let d = (b - 48) as u64;
        let shifted = match acc.checked_mul(10) {
            Some(x) => x,
            None => {
                proof {
                    lemma_overflow_means_invalid(bytes@, i as int);
                }
                return Err(NumberError);
            },
        };
        acc = match shifted.checked_add(d) {
            Some(x) => x,
            None => {
                proof {
                    lemma_overflow_means_invalid(bytes@, i as int);
                }
                return Err(NumberError);
            },
        };
        i = i + 1;
    }
    proof {
        assert(bytes@.take(i as int) =~= bytes@);
    }
    Ok(acc)
}

/// If some digit step pushes the running value past `u64::MAX`, the whole
/// numeral is out of range (or contains a non-digit later on).
proof fn lemma_overflow_means_invalid(s: Seq<u8>, i: int)
    requires
        0 <= i < s.len(),
        is_digit(s[i]),
        dec_val(s.take(i)) * 10 + (s[i] - 48) > u64::MAX,
    ensures
        !is_valid_u64_text(s),
{
    if all_digits(s) {
        assert(s.take(i + 1) =~= s.take(i).push(s[i]));
        lemma_dec_val_push(s.take(i), s[i]);
        lemma_dec_val_prefix_le(s, i + 1);
    }
}

/// Parses an ASCII decimal numeral known to denote a `u64`.
pub fn bytes_to_u64(bytes: &[u8]) -> (r: u64)
    requires
        is_valid_u64_text(bytes@),
    ensures
        r == dec_val(bytes@),
{
    match convert_bytes_to_u64(bytes) {
        Ok(v) => v,
        Err(_) => vstd::pervasive::unreached(),
    }
}

/// Parses an ASCII decimal numeral known to denote a `u32`.
pub fn bytes_to_u32(bytes: &[u8]) -> (r: u32)
    requires
        is_valid_u32_text(bytes@),
    ensures
        r == dec_val(bytes@),
{
    proof {
        lemma_dec_val_nonneg(bytes@);
    }
    let v = bytes_to_u64(bytes);
    v as u32
}

/// Renders `u` as its shortest decimal numeral.
pub fn u64_to_bytes(u: u64) -> (r: Vec<u8>)
    ensures
        r@ == dec_text(u as nat),
    decreases u,
{
    if u < 10 {
        let mut v: Vec<u8> = Vec::new();
        v.push(48 + u as u8);
        proof {
            assert(v@ =~= dec_text(u as nat));
        }
        v
    } else {
        let mut v = u64_to_bytes(u / 10);
        v.push(48 + (u % 10) as u8);
        proof {
            assert(v@ =~= dec_text(u as nat));
        }
        v
    }
}

} // verus!
