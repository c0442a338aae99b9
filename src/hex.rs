//! Lowercase hexadecimal text, the alphabet of every token this crate emits.

use vstd::prelude::*;

verus! {

/// The lowercase hex character for a digit value below sixteen.
pub open spec fn hex_digit(v: nat) -> u8 {
    if v < 10 {
        (48 + v) as u8
    } else {
        (87 + v) as u8
    }
}

pub open spec fn is_hex_digit(c: u8) -> bool {
    (48 <= c && c <= 57) || (97 <= c && c <= 102)
}

pub open spec fn digit_value(c: u8) -> nat {
    if c <= 57 {
        (c - 48) as nat
    } else {
        (c - 87) as nat
    }
}

pub open spec fn all_hex(s: Seq<u8>) -> bool {
    forall|i: int| 0 <= i < s.len() ==> is_hex_digit(#[trigger] s[i])
}

/// `x` written with exactly `n` hex digits, most significant first
/// (higher digits beyond `n` are dropped).
pub open spec fn hex_fixed(x: nat, n: nat) -> Seq<u8>
    decreases n,
{
    if n == 0 {
        seq![]
    } else {
        hex_fixed(x / 16, (n - 1) as nat).push(hex_digit(x % 16))
    }
}

/// The number that a run of hex digits denotes.
pub open spec fn hex_value(s: Seq<u8>) -> nat
    decreases s.len(),
{
    if s.len() == 0 {
        0
    } else {
        hex_value(s.drop_last()) * 16 + digit_value(s.last())
    }
}

/// Sixteen to the power `n`.
pub open spec fn radix(n: nat) -> nat
    decreases n,
{
    if n == 0 {
        1
    } else {
        16 * radix((n - 1) as nat)
    }
}

/// Each byte as two hex digits.
pub open spec fn hex_bytes(b: Seq<u8>) -> Seq<u8>
    decreases b.len(),
{
    if b.len() == 0 {
        seq![]
    } else {
        hex_bytes(b.drop_last()) + hex_fixed(b.last() as nat, 2)
    }
}

pub proof fn lemma_hex_fixed_shape(x: nat, n: nat)
    ensures
        hex_fixed(x, n).len() == n,
        all_hex(hex_fixed(x, n)),
    decreases n,
{
    if n > 0 {
        lemma_hex_fixed_shape(x / 16, (n - 1) as nat);
    }
}

pub proof fn lemma_hex_round_trip(x: nat, n: nat)
    requires
        x < radix(n),
    ensures
        hex_value(hex_fixed(x, n)) == x,
    decreases n,
{
    if n > 0 {
        let s = hex_fixed(x, n);
        assert(s.drop_last() =~= hex_fixed(x / 16, (n - 1) as nat));
        lemma_hex_round_trip(x / 16, (n - 1) as nat);
    }
}

pub proof fn lemma_hex_bytes_shape(b: Seq<u8>)
    ensures
        hex_bytes(b).len() == 2 * b.len(),
        all_hex(hex_bytes(b)),
    decreases b.len(),
{
    if b.len() > 0 {
        lemma_hex_bytes_shape(b.drop_last());
        lemma_hex_fixed_shape(b.last() as nat, 2);
        let l = hex_bytes(b.drop_last());
        let r = hex_fixed(b.last() as nat, 2);
        assert forall|i: int| 0 <= i < (l + r).len() implies is_hex_digit(#[trigger] (l + r)[i]) by {
            if i < l.len() {
                assert(is_hex_digit(l[i]));
            } else {
                assert(is_hex_digit(r[i - l.len()]));
            }
        }
    }
}

proof fn lemma_radix_bound(n: nat)
    requires
        n <= 32,
    ensures
        radix(n) <= radix(32),
        radix(32) == 0x1_0000_0000_0000_0000_0000_0000_0000_0000,
        radix(16) == 0x1_0000_0000_0000_0000,
    decreases 32 - n,
{
    reveal_with_fuel(radix, 33);
    if n < 32 {
        lemma_radix_bound(n + 1);
    }
}

pub fn digit_char(v: u8) -> (c: u8)
    requires
        v < 16,
    ensures
        c == hex_digit(v as nat),
{
    if v < 10 {
        48 + v
    } else {
        87 + v
    }
}

pub fn is_hex_char(c: u8) -> (r: bool)
    ensures
        r == is_hex_digit(c),
{
    (48 <= c && c <= 57) || (97 <= c && c <= 102)
}

/// Appends `x` as exactly `n` hex digits.
pub fn push_hex(out: &mut Vec<u8>, x: u128, n: usize)
    ensures
        final(out)@ == old(out)@ + hex_fixed(x as nat, n as nat),
    decreases n,
{
    if n > 0 {
        push_hex(out, x / 16, n - 1);
        out.push(digit_char((x % 16) as u8));
        assert(final(out)@ =~= old(out)@ + hex_fixed(x as nat, n as nat));
    }
}

/// Every byte of `s` is a lowercase hex digit.
pub fn check_all_hex(s: &[u8]) -> (r: bool)
    ensures
        r == all_hex(s@),
{
    let mut i: usize = 0;
    while i < s.len()
        invariant
            i <= s.len(),
            forall|j: int| 0 <= j < i ==> is_hex_digit(#[trigger] s@[j]),
        decreases s.len() - i,
    {
        if !is_hex_char(s[i]) {
            return false;
        }
        i = i + 1;
    }
    true
}

/// The value of the hex digits `s[lo..hi]`, at most thirty-two of them.
pub fn parse_hex(s: &[u8], lo: usize, hi: usize) -> (r: u128)
    requires
        lo <= hi <= s@.len(),
        hi - lo <= 32,
        all_hex(s@),
    ensures
        r == hex_value(s@.subrange(lo as int, hi as int)),
{
    let mut acc: u128 = 0;
    let mut i: usize = lo;
    while i < hi
        invariant
            lo <= i <= hi,
            hi <= s@.len(),
            hi - lo <= 32,
            all_hex(s@),
            acc == hex_value(s@.subrange(lo as int, i as int)),
            acc < radix((i - lo) as nat),
        decreases hi - i,
    {
        let c = s[i];
        let d: u8 = if c <= 57 {
            c.wrapping_sub(48)
        } else {
            c.wrapping_sub(87)
        };
        proof {
            lemma_radix_bound((i + 1 - lo) as nat);
            assert(s@.subrange(lo as int, i + 1).drop_last() =~= s@.subrange(lo as int, i as int));
            assert(is_hex_digit(s@[i as int]));
            let k = radix((i - lo) as nat);
            assert(acc * 16 + d < 16 * k) by (nonlinear_arith)
                requires
                    acc < k,
                    d < 16,
            ;
        }
        acc = acc * 16 + d as u128;
        i = i + 1;
    }
    acc
}

/// Each byte of `b` as two hex digits.
pub fn encode_bytes(b: &[u8]) -> (r: Vec<u8>)
    ensures
        r@ == hex_bytes(b@),
{
    let mut out: Vec<u8> = Vec::new();
    let mut i: usize = 0;
    while i < b.len()
        invariant
            i <= b.len(),
            out@ == hex_bytes(b@.subrange(0, i as int)),
        decreases b.len() - i,
    {
        proof {
            assert(b@.subrange(0, i + 1).drop_last() =~= b@.subrange(0, i as int));
        }
        push_hex(&mut out, b[i] as u128, 2);
        i = i + 1;
    }
    assert(b@.subrange(0, b@.len() as int) =~= b@);
    out
}

} // verus!
