//! The variable-length length prefix that opens every frame.
//!
//! A length is written in base 128, least significant digit first. Every
//! byte but the last has its top bit set. A reader accepts at most ten bytes
//! and keeps the low 64 bits of the number they spell.

use vstd::prelude::*;

verus! {

/// The bytes that spell `n` as a length prefix.
pub open spec fn varint(n: nat) -> Seq<u8>
    decreases n,
{
    if n < 128 {
        seq![n as u8]
    } else {
        seq![(n % 128 + 128) as u8] + varint(n / 128)
    }
}

/// `128` raised to the power `k`.
pub open spec fn pow128(k: nat) -> nat
    decreases k,
{
    if k == 0 {
        1
    } else {
        128 * pow128((k - 1) as nat)
    }
}

/// The number spelled by the low seven bits of each byte of `s`, least
/// significant digit first.
pub open spec fn digits_value(s: Seq<u8>) -> nat
    decreases s.len(),
{
    if s.len() == 0 {
        0
    } else {
        (s[0] % 128) as nat + 128 * digits_value(s.drop_first())
    }
}

/// Index of the first byte at or after `from` whose top bit is clear, or the
/// length of `s` where there is none.
pub open spec fn first_final(s: Seq<u8>, from: int) -> int
    decreases s.len() - from,
{
    if from < 0 || from >= s.len() {
        s.len() as int
    } else if s[from] < 128 {
        from
    } else {
        first_final(s, from + 1)
    }
}

/// What a reader learns from the bytes at the head of a stream.
pub enum Prefix {
    /// The prefix spans `width` bytes and announces `value` payload bytes.
    Complete { value: u64, width: usize },
    /// The bytes seen so far do not finish a prefix; more are needed.
    Incomplete,
    /// Ten bytes went by without finishing a prefix.
    Overflow,
}

/// True when the byte at `j` ends the prefix of `s`: it is the first byte with
/// a clear top bit, lies among the first ten, and is not a redundant zero.
pub open spec fn ends_prefix(s: Seq<u8>, j: int) -> bool {
    &&& 0 <= j < s.len()
    &&& j < 10
    &&& j == first_final(s, 0)
    &&& (j > 0 ==> s[j] != 0)
}

/// The prefix at the head of `s`.
///
/// A zero byte after the first never ends a prefix, so a reader that meets
/// one goes on waiting until the stream ends or ten bytes have gone by.
pub open spec fn spec_prefix(s: Seq<u8>) -> Prefix {
    let j = first_final(s, 0);
    if ends_prefix(s, j) {
        Prefix::Complete {
            value: (digits_value(s.subrange(0, j + 1)) % 0x1_0000_0000_0000_0000) as u64,
            width: (j + 1) as usize,
        }
    } else if s.len() < 10 {
        Prefix::Incomplete
    } else {
        Prefix::Overflow
    }
}

/// Appending a byte adds its low seven bits at the next power of 128.
pub proof fn lemma_digits_push(s: Seq<u8>, b: u8)
    ensures
        digits_value(s.push(b)) == digits_value(s) + (b % 128) as nat * pow128(s.len()),
    decreases s.len(),
{
    let d = (b % 128) as nat;
    if s.len() == 0 {
        assert(s.push(b).drop_first() =~= Seq::<u8>::empty());
        assert(digits_value(s.push(b).drop_first()) == 0);
        assert(pow128(0) == 1);
        assert(d * pow128(s.len()) == d) by (nonlinear_arith)
            requires
                pow128(s.len()) == 1,
        ;
    } else {
        let t = s.drop_first();
        let unit = pow128(t.len());
        assert(s.push(b).drop_first() =~= t.push(b));
        lemma_digits_push(t, b);
        assert(pow128(s.len()) == 128 * unit);
        assert(d * pow128(s.len()) == 128 * (d * unit)) by (nonlinear_arith)
            requires
                pow128(s.len()) == 128 * unit,
        ;
        assert(digits_value(s.push(b)) == (s[0] % 128) as nat + 128 * digits_value(t.push(b)));
        assert(digits_value(s) == (s[0] % 128) as nat + 128 * digits_value(t));
    }
}

/// `k` base-128 digits spell a number below `128^k`.
pub proof fn lemma_digits_bound(s: Seq<u8>)
    ensures
        digits_value(s) < pow128(s.len()),
    decreases s.len(),
{
    if s.len() > 0 {
        lemma_digits_bound(s.drop_first());
    }
}

/// The first ten powers of 128.
pub proof fn lemma_pow128_values()
    ensures
        pow128(0) == 1,
        pow128(1) == 0x80,
        pow128(2) == 0x4000,
        pow128(3) == 0x20_0000,
        pow128(4) == 0x1000_0000,
        pow128(5) == 0x8_0000_0000,
        pow128(6) == 0x400_0000_0000,
        pow128(7) == 0x2_0000_0000_0000,
        pow128(8) == 0x100_0000_0000_0000,
        pow128(9) == 0x8000_0000_0000_0000,
{
    reveal_with_fuel(pow128, 11);
}

/// The search for the final byte only looks at the bytes before it.
pub proof fn lemma_first_final_is_least(s: Seq<u8>, from: int)
    requires
        0 <= from <= s.len(),
    ensures
        from <= first_final(s, from) <= s.len(),
        first_final(s, from) < s.len() ==> s[first_final(s, from)] < 128,
        forall|i: int| from <= i < first_final(s, from) ==> s[i] >= 128,
    decreases s.len() - from,
{
    if from < s.len() && s[from] >= 128 {
        lemma_first_final_is_least(s, from + 1);
    }
}

/// A byte with a clear top bit that follows only bytes with a set top bit is
/// where the search ends.
pub proof fn lemma_first_final_at(s: Seq<u8>, from: int, j: int)
    requires
        0 <= from <= j < s.len(),
        s[j] < 128,
        forall|i: int| from <= i < j ==> s[i] >= 128,
    ensures
        first_final(s, from) == j,
    decreases j - from,
{
    if from < j {
        lemma_first_final_at(s, from + 1, j);
    }
}

/// Where the bytes seen so far end in a set top bit throughout, so does the
/// search: it finds nothing.
pub proof fn lemma_first_final_none(s: Seq<u8>, from: int)
    requires
        0 <= from <= s.len(),
        forall|i: int| from <= i < s.len() ==> s[i] >= 128,
    ensures
        first_final(s, from) == s.len(),
    decreases s.len() - from,
{
    if from < s.len() {
        lemma_first_final_none(s, from + 1);
    }
}

/// The shape of a written prefix: every byte but the last has its top bit
/// set, the last has not and is no redundant zero, and the digits spell `n`.
pub proof fn lemma_varint_shape(n: nat)
    ensures
        varint(n).len() >= 1,
        forall|i: int| 0 <= i < varint(n).len() - 1 ==> varint(n)[i] >= 128,
        varint(n).last() < 128,
        varint(n).len() > 1 ==> varint(n).last() != 0,
        digits_value(varint(n)) == n,
    decreases n,
{
    if n < 128 {
        assert(varint(n).drop_first() =~= Seq::<u8>::empty());
        assert(digits_value(varint(n).drop_first()) == 0);
    } else {
        let t = varint(n / 128);
        lemma_varint_shape(n / 128);
        assert(varint(n).drop_first() =~= t);
        assert(varint(n).last() == t.last());
        assert forall|i: int| 0 <= i < varint(n).len() - 1 implies varint(n)[i] >= 128 by {
            if i > 0 {
                assert(varint(n)[i] == t[i - 1]);
            }
        }
    }
}

/// A number below `128^k` is written in at most `k` bytes.
pub proof fn lemma_varint_width(n: nat, k: nat)
    requires
        k >= 1,
        n < pow128(k),
    ensures
        varint(n).len() <= k,
    decreases k,
{
    if n >= 128 {
        if k == 1 {
            reveal_with_fuel(pow128, 2);
        } else {
            assert(n / 128 < pow128((k - 1) as nat)) by (nonlinear_arith)
                requires
                    n < 128 * pow128((k - 1) as nat),
            ;
            lemma_varint_width(n / 128, (k - 1) as nat);
        }
    }
}

/// Reading back a written prefix gives the number that was written and the
/// count of bytes it took, whatever follows it in the stream.
pub proof fn lemma_prefix_of_varint(n: nat, rest: Seq<u8>)
    requires
        n <= u64::MAX,
    ensures
        spec_prefix(varint(n) + rest) == (Prefix::Complete {
            value: n as u64,
            width: varint(n).len() as usize,
        }),
        varint(n).len() <= 10,
{
    let s = varint(n) + rest;
    let j = varint(n).len() - 1;
    lemma_varint_shape(n);
    assert(pow128(10) == 0x40_0000_0000_0000_0000) by {
        reveal_with_fuel(pow128, 11);
    }
    lemma_varint_width(n, 10);
    assert(s[j] == varint(n).last());
    assert forall|i: int| 0 <= i < j implies s[i] >= 128 by {
        assert(s[i] == varint(n)[i]);
    }
    lemma_first_final_at(s, 0, j);
    assert(s.subrange(0, j + 1) =~= varint(n));
}

/// Once a prefix is complete, bytes that arrive later do not change it.
pub proof fn lemma_prefix_stable(s: Seq<u8>, more: Seq<u8>)
    requires
        spec_prefix(s) is Complete,
    ensures
        spec_prefix(s + more) == spec_prefix(s),
{
    let j = first_final(s, 0);
    let t = s + more;
    lemma_first_final_is_least(s, 0);
    assert(t[j] == s[j]);
    assert forall|i: int| 0 <= i < j implies t[i] >= 128 by {
        assert(t[i] == s[i]);
    }
    lemma_first_final_at(t, 0, j);
    assert(t.subrange(0, j + 1) =~= s.subrange(0, j + 1));
}

/// Once ten bytes went by without a prefix, later bytes do not mend it.
pub proof fn lemma_overflow_stable(s: Seq<u8>, more: Seq<u8>)
    requires
        spec_prefix(s) is Overflow,
    ensures
        spec_prefix(s + more) is Overflow,
{
    let j = first_final(s, 0);
    let t = s + more;
    lemma_first_final_is_least(s, 0);
    lemma_first_final_is_least(t, 0);
    if j < s.len() {
        assert(t[j] == s[j]);
        assert forall|i: int| 0 <= i < j implies t[i] >= 128 by {
            assert(t[i] == s[i]);
        }
        lemma_first_final_at(t, 0, j);
    } else {
        let k = first_final(t, 0);
        if k < 10 {
            assert(t[k] == s[k]);
        }
    }
}

/// Writes `n` as a length prefix.
pub fn encode_length(n: usize) -> (out: Vec<u8>)
    ensures
        out@ == varint(n as nat),
{
    let mut out: Vec<u8> = Vec::new();
    let mut rest: usize = n;
    while rest >= 128
        invariant
            varint(n as nat) == out@ + varint(rest as nat),
        decreases rest,
    {
        let digit: u8 = (rest % 128 + 128) as u8;
        proof {
            assert(out@.push(digit) + varint((rest / 128) as nat) =~= out@ + varint(rest as nat));
        }
        out.push(digit);
        rest = rest / 128;
    }
    proof {
        assert(out@.push(rest as u8) =~= out@ + varint(rest as nat));
    }
    out.push(rest as u8);
    out
}

/// Reads the length prefix at the head of `input`.
///
/// `Incomplete` asks for more bytes: the caller reads on and tries again, or
/// reports a premature end where the stream has none left.
pub fn read_prefix(input: &[u8]) -> (p: Prefix)
    ensures
        p == spec_prefix(input@),
{
    let mut i: usize = 0;
    let mut n: u64 = 0;
    let mut unit: u64 = 1;
    loop
        invariant
            i <= 9,
            i <= input.len(),
            forall|k: int| 0 <= k < i ==> input@[k] >= 128,
            n == digits_value(input@.subrange(0, i as int)),
            unit == pow128(i as nat),
        decreases 10 - i,
    {
        proof {
            lemma_pow128_values();
            lemma_digits_bound(input@.subrange(0, i as int));
        }
        if i >= input.len() {
            proof {
                lemma_first_final_none(input@, 0);
            }
            return Prefix::Incomplete;
        }
        let b: u8 = input[i];
        proof {
            assert(input@.subrange(0, i as int + 1) =~= input@.subrange(0, i as int).push(b));
            lemma_digits_push(input@.subrange(0, i as int), b);
        }
        if b < 128 {
            proof {
                lemma_first_final_at(input@, 0, i as int);
            }
            if i > 0 && b == 0 {
                if input.len() < 10 {
                    return Prefix::Incomplete;
                } else {
                    return Prefix::Overflow;
                }
            }
            if i == 9 {
                let top: u64 = (b % 2) as u64;
                proof {
                    let k = b as nat;
                    let low = n as nat;
                    assert((low + k * 0x8000_0000_0000_0000) % 0x1_0000_0000_0000_0000 == low + (k
                        % 2) * 0x8000_0000_0000_0000) by (nonlinear_arith)
                        requires
                            low < 0x8000_0000_0000_0000,
                    ;
                }
                return Prefix::Complete { value: n + top * 0x8000_0000_0000_0000, width: 10 };
            }
            proof {
                assert((b as nat) * pow128(i as nat) + pow128(i as nat) <= 128 * pow128(i as nat))
                    by (nonlinear_arith)
                    requires
                        b < 128,
                ;
                assert(pow128((i + 1) as nat) == 128 * pow128(i as nat));
            }
            return Prefix::Complete { value: n + (b as u64) * unit, width: i + 1 };
        }
        proof {
            lemma_first_final_is_least(input@, 0);
        }
        if i == 9 {
            return Prefix::Overflow;
        }
        proof {
            assert(((b - 128) as nat) * pow128(i as nat) + pow128(i as nat) <= 128 * pow128(
                i as nat,
            )) by (nonlinear_arith)
                requires
                    128 <= b < 256,
            ;
            assert(pow128((i + 1) as nat) == 128 * pow128(i as nat));
        }
        n = n + ((b - 128) as u64) * unit;
        unit = unit * 128;
        i = i + 1;
    }
}

} // verus!
