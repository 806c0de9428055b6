//! Decimal notation for unsigned 64-bit integers.
//!
//! `parsed_u64` says which byte strings denote an unsigned 64-bit integer:
//! an optional leading `+` sign followed by one or more ASCII digits whose
//! value fits in 64 bits. `parse_u64_decimal` is the executable parser,
//! proved to accept exactly those strings.

use vstd::prelude::*;
use vstd::string::StringSliceAdditionalSpecFns;

verus! {

/// The byte for the ASCII `+` sign.
pub open spec fn plus_byte() -> u8 {
    43
}

/// True of a byte that is an ASCII decimal digit.
pub open spec fn is_digit_byte(b: u8) -> bool {
    48 <= b <= 57
}

/// Numeric value of an ASCII decimal digit byte.
pub open spec fn digit_byte_val(b: u8) -> int {
    b - 48
}

/// True when every byte of `s` is an ASCII decimal digit.
pub open spec fn all_digit_bytes(s: Seq<u8>) -> bool {
    forall|i: int| 0 <= i < s.len() ==> is_digit_byte(#[trigger] s[i])
}

/// The integer denoted by a sequence of ASCII digit bytes, most
/// significant digit first.
pub open spec fn digits_val(s: Seq<u8>) -> int
    decreases s.len(),
{
    if s.len() == 0 {
        0
    } else {
        digits_val(s.drop_last()) * 10 + digit_byte_val(s.last())
    }
}

/// The digit part of `s`: `s` with an optional leading `+` sign removed.
pub open spec fn unsigned_body(s: Seq<u8>) -> Seq<u8> {
    if s.len() > 0 && s[0] == plus_byte() {
        s.subrange(1, s.len() as int)
    } else {
        s
    }
}

/// The unsigned 64-bit integer denoted by the byte string `s`, if any:
/// an optional leading `+` sign, then one or more ASCII digits, and a
/// value of at most `u64::MAX`. This is what `str::parse::<u64>` accepts.
pub open spec fn parsed_u64(s: Seq<u8>) -> Option<u64> {
    let body = unsigned_body(s);
    if body.len() > 0 && all_digit_bytes(body) && digits_val(body) <= u64::MAX {
        Some(digits_val(body) as u64)
    } else {
        None
    }
}

/// A sequence of digit bytes denotes a nonnegative integer.
pub proof fn lemma_digits_val_nonneg(s: Seq<u8>)
    requires
        all_digit_bytes(s),
    ensures
        digits_val(s) >= 0,
    decreases s.len(),
{
    if s.len() > 0 {
        assert(all_digit_bytes(s.drop_last()));
        lemma_digits_val_nonneg(s.drop_last());
    }
}

/// Extending a digit string to the right can only increase its value.
pub proof fn lemma_digits_val_prefix_le(s: Seq<u8>, i: int)
    requires
        all_digit_bytes(s),
        0 <= i <= s.len(),
    ensures
        digits_val(s.subrange(0, i)) <= digits_val(s),
    decreases s.len() - i,
{
    if i == s.len() {
        assert(s.subrange(0, i) =~= s);
    } else {
        let t = s.subrange(0, i + 1);
        assert(t.drop_last() =~= s.subrange(0, i));
        assert(all_digit_bytes(t.drop_last()));
        lemma_digits_val_nonneg(t.drop_last());
        assert(digits_val(s.subrange(0, i)) <= digits_val(t));
        lemma_digits_val_prefix_le(s, i + 1);
    }
}

/// The decimal digit bytes of `n`, most significant digit first and
/// without a sign: the canonical way to write `n` in decimal.
pub open spec fn decimal_repr(n: u64) -> Seq<u8> {
    decimal_repr_nat(n as nat)
}

/// The decimal digit bytes of an unbounded natural number.
pub open spec fn decimal_repr_nat(n: nat) -> Seq<u8>
    decreases n,
{
    if n < 10 {
        seq![(48 + n) as u8]
    } else {
        decimal_repr_nat(n / 10).push((48 + n % 10) as u8)
    }
}

proof fn lemma_decimal_repr_nat(n: nat)
    ensures
        decimal_repr_nat(n).len() > 0,
        all_digit_bytes(decimal_repr_nat(n)),
        digits_val(decimal_repr_nat(n)) == n,
    decreases n,
{
    let s = decimal_repr_nat(n);
    if n < 10 {
        assert(s.drop_last() =~= Seq::<u8>::empty());
        assert(digits_val(Seq::<u8>::empty()) == 0);
        assert(digits_val(s) == digit_byte_val(s.last()));
    } else {
        lemma_decimal_repr_nat(n / 10);
        let p = decimal_repr_nat(n / 10);
        assert(s.drop_last() =~= p);
        assert(digits_val(s) == digits_val(p) * 10 + digit_byte_val(s.last()));
        assert(digit_byte_val(s.last()) == n % 10);
        assert((n / 10) * 10 + n % 10 == n);
        assert(forall|i: int| 0 <= i < s.len() ==> is_digit_byte(#[trigger] s[i])) by {
            assert(forall|i: int| 0 <= i < p.len() ==> s[i] == #[trigger] p[i]);
        }
    }
}

/// Writing an unsigned 64-bit integer in decimal and parsing it back
/// yields the integer itself.
pub proof fn lemma_decimal_repr_round_trip(n: u64)
    ensures
        parsed_u64(decimal_repr(n)) == Some(n),
{
    lemma_decimal_repr_nat(n as nat);
    let s = decimal_repr(n);
    assert(is_digit_byte(s[0]));
    assert(s[0] != plus_byte());
    assert(unsigned_body(s) == s);
}

/// Parses `raw` as an unsigned 64-bit decimal integer. Returns `Some`
/// exactly when the bytes of `raw` denote such an integer, and then
/// returns that integer.
pub fn parse_u64_decimal(raw: &str) -> (r: Option<u64>)
    ensures
        r == parsed_u64(raw.spec_bytes()),
{
    let bytes = raw.as_bytes();
    let n = bytes.len();
    let ghost s = raw.spec_bytes();
    let ghost body = unsigned_body(s);
    let start: usize = if n > 0 && bytes[0] == 43u8 {
        1
    } else {
        0
    };
    proof {
        assert(body =~= s.subrange(start as int, n as int));
    }
    if start >= n {
        proof {
            assert(body.len() == 0);
        }
        return None;
    }
    let mut acc: u64 = 0;
    let mut i: usize = start;
    while i < n
        invariant
            start <= i <= n,
            start < n,
            n == bytes@.len(),
            bytes@ == s,
            s == raw.spec_bytes(),
            body == unsigned_body(s),
            body =~= s.subrange(start as int, n as int),
            all_digit_bytes(body.subrange(0, i - start)),
            acc == digits_val(body.subrange(0, i - start)),
        decreases n - i,
    {
        let b = bytes[i];
        let ghost done = body.subrange(0, i - start);
        let ghost next = body.subrange(0, i + 1 - start);
        proof {
            assert(next.drop_last() =~= done);
            assert(next.last() == body[i - start]);
        }
        if b < 48 || b > 57 {
            proof {
                assert(body[i - start] == b);
                assert(!is_digit_byte(body[i - start]));
                assert(!all_digit_bytes(body));
            }
            return None;
        }
        let d = (b - 48) as u64;
        proof {
            assert(all_digit_bytes(next));
            assert(digits_val(next) == acc * 10 + d);
        }
        if acc > 1844674407370955161u64 || (acc == 1844674407370955161u64 && d > 5) {
            proof {
                assert(acc * 10 + d > u64::MAX);
                if all_digit_bytes(body) {
                    lemma_digits_val_prefix_le(body, i + 1 - start);
                    assert(digits_val(body) > u64::MAX);
                }
            }
            return None;
        }
        proof {
            assert(acc * 10 + d <= u64::MAX);
        }
        acc = acc * 10 + d;
        i = i + 1;
    }
    proof {
        assert(body.subrange(0, n - start) =~= body);
        assert(parsed_u64(s) == Some(acc));
    }
    Some(acc)
}

} // verus!
