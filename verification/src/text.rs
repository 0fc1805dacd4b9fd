//! Verified text building: appending characters and formatted numbers to
//! strings, with exact character-level specifications.

use vstd::prelude::*;

verus! {

/// Relies on `String::push`: appends exactly the one character.
#[verifier::external_body]
pub fn push_char(s: &mut String, c: char)
    ensures
        final(s)@ == old(s)@.push(c),
{
    s.push(c);
}

/// Relies on `str::push_str` via `String::push_str`: appends exactly the
/// given characters.
#[verifier::external_body]
pub fn push_str(s: &mut String, t: &str)
    ensures
        final(s)@ == old(s)@ + t@,
{
    s.push_str(t);
}

/// The digit character for value `d`: `0`–`9`, then upper-case letters.
pub open spec fn digit_char(d: int) -> char {
    if d < 10 {
        ((48 + d) as u32) as char
    } else {
        ((55 + d) as u32) as char
    }
}

/// The digits of `v` in the given base, most significant first, no sign,
/// at least one digit.
pub open spec fn base_digits(v: int, base: int) -> Seq<char>
    recommends
        v >= 0,
        2 <= base <= 16,
    decreases v,
    via base_digits_decreases
{
    if v < base || base < 2 {
        seq![digit_char(v)]
    } else {
        base_digits(v / base, base) + seq![digit_char(v % base)]
    }
}

#[via_fn]
proof fn base_digits_decreases(v: int, base: int) {
    if !(v < base || base < 2) {
        vstd::arithmetic::div_mod::lemma_div_is_strictly_smaller(v, base);
        vstd::arithmetic::div_mod::lemma_div_is_ordered_by_denominator(v, 1, base);
    }
}

/// `n` zero characters.
pub open spec fn zeros(n: int) -> Seq<char>
    decreases n,
{
    if n <= 0 {
        Seq::empty()
    } else {
        zeros(n - 1) + seq!['0']
    }
}

/// The digits of `v`, zero-padded on the left to at least `width`.
pub open spec fn base_digits_padded(v: int, base: int, width: int) -> Seq<char> {
    zeros(width - base_digits(v, base).len()) + base_digits(v, base)
}

/// Append the digits of `v` in the given base, zero-padded on the left to
/// at least `min_width` characters.
pub fn push_base_digits(s: &mut String, v: u64, base: u64, min_width: usize)
    requires
        2 <= base <= 16,
        min_width <= 64,
    ensures
        final(s)@ == old(s)@ + base_digits_padded(v as int, base as int, min_width as int),
{
    let mut rev: Vec<char> = Vec::new();
    let mut x: u64 = v;
    loop
        invariant_except_break
            2 <= base <= 16,
            base_digits(v as int, base as int) =~= base_digits(x as int, base as int)
                + rev@.reverse(),
        ensures
            base_digits(v as int, base as int) =~= rev@.reverse(),
        decreases x,
    {
        let d: u64 = x % base;
        let ghost prev = rev@;
        rev.push(digit_char_exec(d));
        proof {
            assert(rev@.reverse() =~= seq![digit_char(d as int)] + prev.reverse());
        }
        if x < base {
            proof {
                vstd::arithmetic::div_mod::lemma_small_mod(x as nat, base as nat);
                assert(base_digits(x as int, base as int) =~= seq![digit_char(x as int)]);
                assert(base_digits(v as int, base as int) =~= rev@.reverse());
            }
            break;
        }
        proof {
            assert(base_digits(x as int, base as int) == base_digits(
                (x as int) / (base as int),
                base as int,
            ) + seq![digit_char((x as int) % (base as int))]);
            assert(base_digits((x as int) / (base as int), base as int) + rev@.reverse()
                =~= base_digits(x as int, base as int) + prev.reverse());
            vstd::arithmetic::div_mod::lemma_div_is_strictly_smaller(x as int, base as int);
        }
        x = x / base;
    }
    while rev.len() < min_width
        invariant
            min_width <= 64,
            rev@.len() >= base_digits(v as int, base as int).len(),
            rev@.len() <= min_width || rev@.len() <= base_digits(v as int, base as int).len(),
            rev@.reverse() =~= zeros(rev@.len() - base_digits(
                v as int,
                base as int,
            ).len()) + base_digits(v as int, base as int),
        decreases min_width - rev@.len(),
    {
        let ghost prev = rev@;
        rev.push('0');
        proof {
            let k = prev.len() - base_digits(v as int, base as int).len();
            assert(rev@.reverse() =~= seq!['0'] + prev.reverse());
            assert(seq!['0'] + (zeros(k) + base_digits(v as int, base as int)) =~= (seq!['0']
                + zeros(k)) + base_digits(v as int, base as int));
            lemma_zeros_grow(k);
        }
    }
    let n: usize = rev.len();
    let mut j: usize = 0;
    let ghost target = rev@.reverse();
    while j < n
        invariant
            n == rev@.len(),
            j <= n,
            target == rev@.reverse(),
            s@ == old(s)@ + target.subrange(0, j as int),
        decreases n - j,
    {
        push_char(s, rev[n - 1 - j]);
        proof {
            assert(target.subrange(0, j + 1) =~= target.subrange(0, j as int).push(
                target[j as int],
            ));
            assert(target[j as int] == rev@[n - 1 - j]);
        }
        j = j + 1;
    }
    proof {
        assert(target.subrange(0, n as int) =~= target);
        assert(target =~= base_digits_padded(v as int, base as int, min_width as int));
    }
}

/// Prepending a zero is appending one more zero character.
proof fn lemma_zeros_grow(k: int)
    requires
        k >= 0,
    ensures
        seq!['0'] + zeros(k) =~= zeros(k + 1),
    decreases k,
{
    if k == 0 {
        assert(zeros(1) =~= zeros(0) + seq!['0']);
        assert(seq!['0'] + zeros(k) =~= seq!['0']);
    } else {
        lemma_zeros_grow(k - 1);
        assert(zeros(k + 1) == zeros(k) + seq!['0']);
        assert(seq!['0'] + zeros(k) =~= (seq!['0'] + zeros(k - 1)) + seq!['0']);
    }
}

/// The digit character, on machine integers.
fn digit_char_exec(d: u64) -> (c: char)
    requires
        d <= 15,
    ensures
        c == digit_char(d as int),
{
    if d < 10 {
        (48 + d as u32) as u8 as char
    } else {
        (55 + d as u32) as u8 as char
    }
}

} // verus!
