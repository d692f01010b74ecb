//! Decimal numerals on the wire: parsing of the offset, size and chunk
//! fields, and printing of the numbers the protocol lines carry.  Parsing
//! accepts exactly what Rust's unsigned `str::parse` accepts — an optional
//! leading `+` followed by one or more ASCII digits, with the value in
//! range — and printing emits the plain digit string.

use vstd::prelude::*;

verus! {

pub open spec fn is_digit(c: char) -> bool {
    '0' <= c && c <= '9'
}

pub open spec fn digit_val(c: char) -> int {
    c as int - 48
}

pub open spec fn all_digits(s: Seq<char>) -> bool {
    forall|i: int| 0 <= i < s.len() ==> is_digit(#[trigger] s[i])
}

/// The value of a digit string, most significant digit first.
pub open spec fn dec_value(s: Seq<char>) -> int
    decreases s.len(),
{
    if s.len() == 0 {
        0
    } else {
        dec_value(s.drop_last()) * 10 + digit_val(s.last())
    }
}

/// The digit part of a numeral: everything after an optional leading `+`.
pub open spec fn dec_digits_part(s: Seq<char>) -> Seq<char> {
    if s.len() > 0 && s[0] == '+' {
        s.skip(1)
    } else {
        s
    }
}

/// `s` is a numeral that an unsigned type with maximum `max` accepts.
pub open spec fn is_dec_in_range(s: Seq<char>, max: int) -> bool {
    let d = dec_digits_part(s);
    d.len() > 0 && all_digits(d) && dec_value(d) <= max
}

pub proof fn lemma_dec_value_nonneg(s: Seq<char>)
    requires
        all_digits(s),
    ensures
        dec_value(s) >= 0,
    decreases s.len(),
{
    if s.len() > 0 {
        assert(all_digits(s.drop_last())) by {
            assert(forall|i: int| 0 <= i < s.len() - 1 ==> s.drop_last()[i] == s[i]);
        }
        lemma_dec_value_nonneg(s.drop_last());
    }
}

/// A digit string is worth at least any of its prefixes.
pub proof fn lemma_dec_value_prefix_le(s: Seq<char>, k: int)
    requires
        all_digits(s),
        0 <= k <= s.len(),
    ensures
        dec_value(s.take(k)) <= dec_value(s),
    decreases s.len() - k,
{
    if k == s.len() {
        assert(s.take(k) =~= s);
    } else {
        lemma_dec_value_prefix_le(s, k + 1);
        assert(s.take(k + 1).drop_last() =~= s.take(k));
        assert(s.take(k + 1).last() == s[k]);
        assert(all_digits(s.take(k))) by {
            assert(forall|i: int| 0 <= i < k ==> s.take(k)[i] == s[i]);
        }
        lemma_dec_value_nonneg(s.take(k));
        assert(dec_value(s.take(k)) <= dec_value(s.take(k)) * 10 + digit_val(s[k]));
    }
}

/// Parse an unsigned 64-bit decimal numeral, as `str::parse::<u64>` does.
pub fn parse_u64(s: &str) -> (r: Option<u64>)
    ensures
        r is Some <==> is_dec_in_range(s@, u64::MAX as int),
        r is Some ==> r->0 == dec_value(dec_digits_part(s@)),
{
    let len = s.unicode_len();
    let mut start: usize = 0;
    if len > 0 && s.get_char(0) == '+' {
        start = 1;
    }
    let ghost d = dec_digits_part(s@);
    proof {
        assert(d =~= s@.subrange(start as int, len as int));
    }
    if start == len {
        return None;
    }
    let mut val: u64 = 0;
    let mut k: usize = start;
    while k < len
        invariant
            start <= k <= len,
            len == s@.len(),
            d == dec_digits_part(s@),
            d == s@.subrange(start as int, len as int),
            all_digits(s@.subrange(start as int, k as int)),
            val == dec_value(s@.subrange(start as int, k as int)),
        decreases len - k,
    {
        let c = s.get_char(k);
        let cv = c as u32;
        if cv < 48 || cv > 57 {
            proof {
                assert(d[k - start] == s@[k as int]);
                assert(!is_digit(d[k - start]));
                assert(!all_digits(d));
            }
            return None;
        }
        let digit: u64 = ((cv - 48) as u64);
        proof {
            assert(is_digit(s@[k as int]));
            assert(digit == digit_val(s@[k as int]));
        }
        let ghost prefix = s@.subrange(start as int, k as int);
        let ghost prefix1 = s@.subrange(start as int, k + 1);
        proof {
            assert(prefix1.drop_last() =~= prefix);
            assert(prefix1.last() == s@[k as int]);
            assert(all_digits(prefix1)) by {
                assert(forall|i: int| 0 <= i < prefix.len() ==> prefix1[i] == prefix[i]);
            }
            assert(dec_value(prefix1) == val * 10 + digit);
        }
        if val > (u64::MAX - digit) / 10 {
            // The numeral overflows: its value already exceeds u64::MAX on
            // this prefix, or a later character is not a digit at all.
            proof {
                assert(val * 10 + digit > u64::MAX) by {
                    let q = (u64::MAX - digit) / 10;
                    assert(u64::MAX - digit == q * 10 + (u64::MAX - digit) % 10);
                    assert(val >= q + 1);
                    assert(val * 10 >= (q + 1) * 10) by (nonlinear_arith)
                        requires val >= q + 1;
                }
                if all_digits(d) {
                    assert(prefix1 =~= d.take(k + 1 - start));
                    lemma_dec_value_prefix_le(d, k + 1 - start);
                    assert(dec_value(d) >= dec_value(prefix1));
                    assert(dec_value(d) > u64::MAX as int);
                }
                assert(!is_dec_in_range(s@, u64::MAX as int));
            }
            return None;
        }
        val = val * 10 + digit;
        k = k + 1;
    }
    proof {
        assert(s@.subrange(start as int, k as int) =~= d);
        assert(d.len() > 0);
    }
    Some(val)
}

/// Parse a decimal numeral into `usize`, as `str::parse::<usize>` does.
pub fn parse_usize(s: &str) -> (r: Option<usize>)
    ensures
        r is Some <==> is_dec_in_range(s@, usize::MAX as int),
        r is Some ==> r->0 == dec_value(dec_digits_part(s@)),
{
    match parse_u64(s) {
        Some(v) => {
            if v <= usize::MAX as u64 {
                Some(v as usize)
            } else {
                None
            }
        },
        None => {
            proof {
                if is_dec_in_range(s@, usize::MAX as int) {
                    assert(dec_value(dec_digits_part(s@)) <= u64::MAX as int);
                }
            }
            None
        },
    }
}

/// The digit character of a value below ten.
pub open spec fn digit_char(d: int) -> char {
    if d == 0 { '0' }
    else if d == 1 { '1' }
    else if d == 2 { '2' }
    else if d == 3 { '3' }
    else if d == 4 { '4' }
    else if d == 5 { '5' }
    else if d == 6 { '6' }
    else if d == 7 { '7' }
    else if d == 8 { '8' }
    else { '9' }
}

/// The decimal numeral of `n`, most significant digit first.
pub open spec fn dec_str(n: nat) -> Seq<char>
    decreases n,
{
    if n < 10 {
        seq![digit_char(n as int)]
    } else {
        dec_str(n / 10).push(digit_char((n % 10) as int))
    }
}

fn digit_to_char(d: u64) -> (c: char)
    requires
        d < 10,
    ensures
        c == digit_char(d as int),
{
    if d == 0 { '0' }
    else if d == 1 { '1' }
    else if d == 2 { '2' }
    else if d == 3 { '3' }
    else if d == 4 { '4' }
    else if d == 5 { '5' }
    else if d == 6 { '6' }
    else if d == 7 { '7' }
    else if d == 8 { '8' }
    else { '9' }
}

/// Relies on `alloc::string::String::push`: appends the given character to
/// the end of the string.
pub assume_specification[ String::push ](s: &mut String, c: char)
    ensures
        final(s)@ == old(s)@.push(c),
;

/// Print `n` as a decimal numeral.
pub fn u64_to_dec(n: u64) -> (r: String)
    ensures
        r@ == dec_str(n as nat),
    decreases n,
{
    if n < 10 {
        let mut s = String::new();
        s.push(digit_to_char(n));
        proof {
            assert(s@ =~= dec_str(n as nat));
        }
        s
    } else {
        let mut s = u64_to_dec(n / 10);
        s.push(digit_to_char(n % 10));
        s
    }
}

/// Every printed numeral parses back to the number it came from.
pub proof fn lemma_dec_str_value(n: nat)
    ensures
        dec_str(n).len() >= 1,
        all_digits(dec_str(n)),
        dec_value(dec_str(n)) == n,
    decreases n,
{
    if n < 10 {
        let s = dec_str(n);
        assert(s =~= seq![digit_char(n as int)]);
        assert(s.drop_last() =~= Seq::<char>::empty());
        assert(s.last() == digit_char(n as int));
        assert(dec_value(Seq::<char>::empty()) == 0);
        assert(digit_val(digit_char(n as int)) == n);
        assert(dec_value(s) == dec_value(s.drop_last()) * 10 + digit_val(s.last()));
    } else {
        lemma_dec_str_value(n / 10);
        let s = dec_str(n);
        assert(s == dec_str(n / 10).push(digit_char((n % 10) as int)));
        assert(s.drop_last() =~= dec_str(n / 10));
        assert(s.last() == digit_char((n % 10) as int));
        assert(all_digits(s)) by {
            assert(forall|i: int| 0 <= i < s.len() - 1 ==> s[i] == dec_str(n / 10)[i]);
        }
        assert(dec_value(s) == (n / 10) * 10 + (n % 10));
    }
}

/// A printed `u64` is accepted by the parser and yields the same value.
pub proof fn lemma_dec_round_trip(n: u64)
    ensures
        is_dec_in_range(dec_str(n as nat), u64::MAX as int),
        dec_value(dec_digits_part(dec_str(n as nat))) == n,
{
    lemma_dec_str_value(n as nat);
    let s = dec_str(n as nat);
    assert(is_digit(s[0]));
    assert(s[0] != '+');
    assert(dec_digits_part(s) == s);
}

} // verus!
