use vstd::prelude::*;

use vstd::arithmetic::div_mod::lemma_mod_breakdown;

verus! {

/// Little-endian base-256 digits of `v`, `width` of them, least significant first.
pub open spec fn le_bytes(v: nat, width: nat) -> Seq<u8>
    decreases width,
{
    if width == 0 {
        Seq::empty()
    } else {
        seq![(v % 256) as u8] + le_bytes(v / 256, (width - 1) as nat)
    }
}

/// Digits of `v` in big order: the little-order digits reversed.
pub open spec fn be_bytes(v: nat, width: nat) -> Seq<u8> {
    le_bytes(v, width).reverse()
}

/// There are `width` digits.
pub proof fn lemma_le_bytes_len(v: nat, width: nat)
    ensures
        le_bytes(v, width).len() == width,
    decreases width,
{
    if width > 0 {
        lemma_le_bytes_len(v / 256, (width - 1) as nat);
    }
}

/// Writes the `width` little-order digits of `v`.
pub fn le_digits(v: u128, width: usize) -> (r: Vec<u8>)
    requires
        width <= 16,
    ensures
        r@ == le_bytes(v as nat, width as nat),
{
    let mut r: Vec<u8> = Vec::new();
    let mut x: u128 = v;
    let mut i: usize = 0;
    while i < width
        invariant
            i <= width,
            r@ + le_bytes(x as nat, (width - i) as nat) == le_bytes(v as nat, width as nat),
        decreases width - i,
    {
        let d: u8 = (x % 256) as u8;
        r.push(d);
        x = x / 256;
        i = i + 1;
    }
    r
}

/// Writes the `width` big-order digits of `v`.
pub fn be_digits(v: u128, width: usize) -> (r: Vec<u8>)
    requires
        width <= 16,
    ensures
        r@ == be_bytes(v as nat, width as nat),
{
    let le = le_digits(v, width);
    proof {
        lemma_le_bytes_len(v as nat, width as nat);
    }
    let mut r: Vec<u8> = Vec::new();
    let mut i: usize = le.len();
    while i > 0
        invariant
            i <= le@.len(),
            le@.len() == width,
            r@ == le@.skip(i as int).reverse(),
        decreases i,
    {
        i = i - 1;
        r.push(le[i]);
        proof {
            assert(le@.skip(i as int).reverse() =~= le@.skip(i + 1 as int).reverse().push(le@[i as int]));
        }
    }
    proof {
        assert(le@.skip(0) =~= le@);
    }
    r
}

/// 256 to the power `width`.
pub open spec fn pow256(width: nat) -> nat
    decreases width,
{
    if width == 0 {
        1
    } else {
        256 * pow256((width - 1) as nat)
    }
}

/// The number whose digits, most significant first, are `s`.
pub open spec fn be_value(s: Seq<u8>) -> nat
    decreases s.len(),
{
    if s.len() == 0 {
        0
    } else {
        be_value(s.drop_last()) * 256 + s.last() as nat
    }
}

/// The number whose digits, least significant first, are `s`.
pub open spec fn le_value(s: Seq<u8>) -> nat {
    be_value(s.reverse())
}

/// A number of `k` digits is below 256 to the power `k`.
pub proof fn lemma_be_value_bound(s: Seq<u8>)
    ensures
        be_value(s) < pow256(s.len()),
    decreases s.len(),
{
    if s.len() > 0 {
        lemma_be_value_bound(s.drop_last());
        let a = be_value(s.drop_last());
        let p = pow256(s.drop_last().len());
        let d = s.last() as nat;
        assert(a * 256 + d < 256 * p) by (nonlinear_arith)
            requires
                a < p,
                d < 256,
        ;
    }
}

/// Powers of 256 grow with the exponent.
pub proof fn lemma_pow256_monotone(a: nat, b: nat)
    requires
        a <= b,
    ensures
        pow256(a) <= pow256(b),
    decreases b,
{
    if a < b {
        lemma_pow256_monotone(a, (b - 1) as nat);
    }
}

/// Sixteen digits span the whole of `u128`.
pub proof fn lemma_pow256_16()
    ensures
        pow256(16) == u128::MAX as nat + 1,
{
    reveal_with_fuel(pow256, 17);
    assert(pow256(16) == 0x1_0000_0000_0000_0000_0000_0000_0000_0000);
}

/// The powers that the integer widths need.
pub proof fn lemma_pow256_widths()
    ensures
        pow256(1) == 0x100,
        pow256(2) == 0x1_0000,
        pow256(4) == 0x1_0000_0000,
        pow256(8) == 0x1_0000_0000_0000_0000,
        pow256(16) == 0x1_0000_0000_0000_0000_0000_0000_0000_0000,
{
    reveal_with_fuel(pow256, 17);
}

/// Reading back the digits of `v` gives `v` reduced to their width.
pub proof fn lemma_digits_value(v: nat, width: nat)
    ensures
        be_value(be_bytes(v, width)) == v % pow256(width),
        le_value(le_bytes(v, width)) == v % pow256(width),
    decreases width,
{
    if width == 0 {
        assert(be_bytes(v, 0) =~= Seq::<u8>::empty());
    } else {
        let w = (width - 1) as nat;
        lemma_digits_value(v / 256, w);
        lemma_le_bytes_len(v / 256, w);
        assert(be_bytes(v, width) =~= be_bytes(v / 256, w).push((v % 256) as u8));
        assert(be_bytes(v, width).drop_last() =~= be_bytes(v / 256, w));
        lemma_pow256_monotone(0, w);
        lemma_mod_breakdown(v as int, 256, pow256(w) as int);
        assert(le_bytes(v, width).reverse() =~= be_bytes(v, width));
    }
}

/// The number whose digits, most significant first, are `b`.
pub fn be_number(b: &Vec<u8>) -> (r: u128)
    requires
        b@.len() <= 16,
    ensures
        r == be_value(b@),
{
    let mut acc: u128 = 0;
    let mut i: usize = 0;
    while i < b.len()
        invariant
            i <= b@.len() <= 16,
            acc == be_value(b@.take(i as int)),
        decreases b@.len() - i,
    {
        proof {
            assert(b@.take(i + 1 as int).drop_last() =~= b@.take(i as int));
            lemma_be_value_bound(b@.take(i + 1 as int));
            lemma_pow256_monotone((i + 1) as nat, 16);
            lemma_pow256_16();
        }
        acc = acc * 256 + b[i] as u128;
        i = i + 1;
    }
    proof {
        assert(b@.take(b@.len() as int) =~= b@);
    }
    acc
}

/// The number whose digits, least significant first, are `b`.
pub fn le_number(b: &Vec<u8>) -> (r: u128)
    requires
        b@.len() <= 16,
    ensures
        r == le_value(b@),
{
    let mut acc: u128 = 0;
    let mut i: usize = b.len();
    while i > 0
        invariant
            i <= b@.len() <= 16,
            acc == be_value(b@.skip(i as int).reverse()),
        decreases i,
    {
        i = i - 1;
        proof {
            let t = b@.skip(i as int).reverse();
            assert(t.drop_last() =~= b@.skip(i + 1 as int).reverse());
            assert(t.last() == b@[i as int]);
            lemma_be_value_bound(t);
            lemma_pow256_monotone(t.len(), 16);
            lemma_pow256_16();
        }
        acc = acc * 256 + b[i] as u128;
    }
    proof {
        assert(b@.skip(0) =~= b@);
    }
    acc
}

} // verus!
