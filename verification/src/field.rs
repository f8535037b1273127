//! The scalar field of the proof system, modelled as integers modulo a fixed
//! prime.  Every witness cell of the gadget is a field element; the constraint
//! algebra below is exact arithmetic modulo `FIELD_MODULUS`.

use vstd::arithmetic::div_mod::{
    lemma_add_mod_noop, lemma_add_mod_noop_right, lemma_fundamental_div_mod_converse_mod,
    lemma_mod_bound, lemma_mul_mod_noop_left, lemma_mul_mod_noop_right, lemma_small_mod,
    lemma_sub_mod_noop,
};
use vstd::arithmetic::mul::{
    lemma_mul_is_associative, lemma_mul_is_distributive_add_other_way,
    lemma_mul_is_distributive_sub_other_way,
};
use vstd::prelude::*;

verus! {

/// The field modulus: the Mersenne prime 2^61 - 1.
pub const FIELD_MODULUS: u64 = 2305843009213693951;

/// The modulus as a mathematical integer.
pub open spec fn modulus() -> int {
    FIELD_MODULUS as int
}

/// A value is a canonical field element when it lies below the modulus.
pub open spec fn in_field(a: int) -> bool {
    0 <= a < modulus()
}

/// Field addition: `(a + b) mod p`.
pub open spec fn fadd_s(a: int, b: int) -> int {
    (a + b) % modulus()
}

/// Field subtraction: `(a - b) mod p`, with the Euclidean (non-negative) remainder.
pub open spec fn fsub_s(a: int, b: int) -> int {
    (a - b) % modulus()
}

/// Field multiplication: `(a * b) mod p`.
pub open spec fn fmul_s(a: int, b: int) -> int {
    (a * b) % modulus()
}

/// Field exponentiation by a natural number.
pub open spec fn fpow_s(r: int, n: nat) -> int
    decreases n,
{
    if n == 0 {
        1
    } else {
        fmul_s(r, fpow_s(r, (n - 1) as nat))
    }
}

/// Addition of two canonical field elements.
pub fn fadd(a: u64, b: u64) -> (r: u64)
    requires
        a < FIELD_MODULUS,
        b < FIELD_MODULUS,
    ensures
        r == fadd_s(a as int, b as int),
        r < FIELD_MODULUS,
{
    let s: u64 = a + b;
    if s >= FIELD_MODULUS {
        proof {
            lemma_fundamental_div_mod_converse_mod(
                a + b,
                modulus(),
                1,
                s - FIELD_MODULUS,
            );
        }
        s - FIELD_MODULUS
    } else {
        proof {
            lemma_small_mod(s as nat, FIELD_MODULUS as nat);
        }
        s
    }
}

/// Subtraction of two canonical field elements.
pub fn fsub(a: u64, b: u64) -> (r: u64)
    requires
        a < FIELD_MODULUS,
        b < FIELD_MODULUS,
    ensures
        r == fsub_s(a as int, b as int),
        r < FIELD_MODULUS,
{
    let t: u64 = a + FIELD_MODULUS - b;
    if t >= FIELD_MODULUS {
        proof {
            lemma_fundamental_div_mod_converse_mod(
                a - b,
                modulus(),
                0,
                t - FIELD_MODULUS,
            );
        }
        t - FIELD_MODULUS
    } else {
        proof {
            lemma_fundamental_div_mod_converse_mod(a - b, modulus(), -1, t as int);
        }
        t
    }
}

/// Multiplication of two canonical field elements.
pub fn fmul(a: u64, b: u64) -> (r: u64)
    requires
        a < FIELD_MODULUS,
        b < FIELD_MODULUS,
    ensures
        r == fmul_s(a as int, b as int),
        r < FIELD_MODULUS,
{
    proof {
        assert(0 <= (a as int) * (b as int) < 0x40000000000000000000000000000000)
            by (nonlinear_arith)
            requires
                a < 0x2000000000000000,
                b < 0x2000000000000000,
        ;
    }
    let prod: u128 = (a as u128) * (b as u128);
    proof {
        lemma_mod_bound(prod as int, modulus());
    }
    (prod % (FIELD_MODULUS as u128)) as u64
}

/// Every power of a field element is a canonical field element.
pub proof fn lemma_fpow_in_field(r: int, n: nat)
    ensures
        in_field(fpow_s(r, n)),
    decreases n,
{
    if n == 0 {
    } else {
        lemma_fpow_in_field(r, (n - 1) as nat);
        lemma_mod_bound(r * fpow_s(r, (n - 1) as nat), modulus());
    }
}

/// Field multiplication is associative.
pub proof fn lemma_fmul_assoc(a: int, b: int, c: int)
    ensures
        fmul_s(fmul_s(a, b), c) == fmul_s(a, fmul_s(b, c)),
{
    lemma_mul_mod_noop_left(a * b, c, modulus());
    lemma_mul_mod_noop_right(a, b * c, modulus());
    lemma_mul_is_associative(a, b, c);
}

/// Multiplying by one is the identity on canonical field elements.
pub proof fn lemma_fmul_one(a: int)
    requires
        in_field(a),
    ensures
        fmul_s(1, a) == a,
        fmul_s(a, 1) == a,
{
    lemma_small_mod(a as nat, FIELD_MODULUS as nat);
}

/// Powers of a common base multiply by adding exponents.
pub proof fn lemma_fpow_add(r: int, m: nat, n: nat)
    ensures
        fmul_s(fpow_s(r, m), fpow_s(r, n)) == fpow_s(r, m + n),
    decreases m,
{
    if m == 0 {
        lemma_fpow_in_field(r, n);
        lemma_fmul_one(fpow_s(r, n));
    } else {
        let a = fpow_s(r, (m - 1) as nat);
        let b = fpow_s(r, n);
        lemma_fpow_add(r, (m - 1) as nat, n);
        lemma_fmul_assoc(r, a, b);
        assert(fmul_s(fmul_s(r, a), b) == fmul_s(r, fmul_s(a, b)));
    }
}

/// Exponentiation of a canonical field element.
pub fn fpow(r: u64, n: u64) -> (res: u64)
    requires
        r < FIELD_MODULUS,
    ensures
        res == fpow_s(r as int, n as nat),
        res < FIELD_MODULUS,
{
    let mut acc: u64 = 1;
    let mut i: u64 = 0;
    while i < n
        invariant
            i <= n,
            r < FIELD_MODULUS,
            acc < FIELD_MODULUS,
            acc == fpow_s(r as int, i as nat),
        decreases n - i,
    {
        acc = fmul(r, acc);
        i = i + 1;
    }
    acc
}

/// Subtraction of canonical field elements vanishes exactly on equal ones.
pub proof fn lemma_fsub_zero_iff(a: int, b: int)
    requires
        in_field(a),
        in_field(b),
    ensures
        (fsub_s(a, b) == 0) <==> (a == b),
{
    if a >= b {
        lemma_small_mod((a - b) as nat, FIELD_MODULUS as nat);
    } else {
        lemma_fundamental_div_mod_converse_mod(a - b, modulus(), -1, a - b + modulus());
    }
}

/// Multiplying by zero annihilates.
pub proof fn lemma_fmul_zero(x: int)
    ensures
        fmul_s(x, 0) == 0,
        fmul_s(0, x) == 0,
{
    lemma_small_mod(0, FIELD_MODULUS as nat);
}

/// One times one is one in the field.
pub proof fn lemma_f_one()
    ensures
        fmul_s(1, 1) == 1,
{
    lemma_small_mod(1, FIELD_MODULUS as nat);
}

/// Subtracting a value from itself gives zero.
pub proof fn lemma_fsub_self(x: int)
    ensures
        fsub_s(x, x) == 0,
{
    lemma_small_mod(0, FIELD_MODULUS as nat);
}

/// A field addition lands in the canonical range.
pub proof fn lemma_in_field_fadd(a: int, b: int)
    ensures
        in_field(fadd_s(a, b)),
{
    lemma_mod_bound(a + b, modulus());
}

/// A field subtraction lands in the canonical range.
pub proof fn lemma_in_field_fsub(a: int, b: int)
    ensures
        in_field(fsub_s(a, b)),
{
    lemma_mod_bound(a - b, modulus());
}

/// A field multiplication lands in the canonical range.
pub proof fn lemma_in_field_fmul(a: int, b: int)
    ensures
        in_field(fmul_s(a, b)),
{
    lemma_mod_bound(a * b, modulus());
}

/// Adding zero is the identity on canonical field elements.
pub proof fn lemma_fadd_zero(x: int)
    requires
        in_field(x),
    ensures
        fadd_s(x, 0) == x,
        fadd_s(0, x) == x,
{
    lemma_small_mod(x as nat, FIELD_MODULUS as nat);
}

/// Adding a canonical field element is the identity exactly when it is zero.
pub proof fn lemma_fadd_zero_iff(a: int, d: int)
    requires
        in_field(a),
        in_field(d),
    ensures
        (fadd_s(a, d) == a) <==> (d == 0),
{
    if a + d < modulus() {
        lemma_small_mod((a + d) as nat, FIELD_MODULUS as nat);
    } else {
        lemma_fundamental_div_mod_converse_mod(a + d, modulus(), 1, a + d - modulus());
    }
}

/// A common addend cancels out of a field subtraction.
pub proof fn lemma_fsub_fadd_cancel(x: int, y: int, c: int)
    ensures
        fsub_s(fadd_s(c, x), fadd_s(c, y)) == fsub_s(x, y),
{
    lemma_add_mod_noop_right(c, x, modulus());
    lemma_add_mod_noop_right(c, y, modulus());
    lemma_sub_mod_noop(c + x, c + y, modulus());
    assert(fsub_s(fadd_s(c, x), fadd_s(c, y)) == ((c + x) - (c + y)) % modulus());
}

/// Reordering the second and third addend of a double field addition.
pub proof fn lemma_fadd_swap(f: int, a: int, b: int)
    ensures
        fadd_s(fadd_s(f, a), b) == fadd_s(fadd_s(f, b), a),
{
    lemma_add_mod_noop_right(b, f + a, modulus());
    lemma_add_mod_noop_right(a, f + b, modulus());
}

/// Field multiplication distributes over field subtraction.
pub proof fn lemma_fmul_sub_dist(a: int, b: int, c: int)
    ensures
        fmul_s(fsub_s(a, b), c) == fsub_s(fmul_s(a, c), fmul_s(b, c)),
{
    lemma_mul_mod_noop_left(a - b, c, modulus());
    lemma_sub_mod_noop(a * c, b * c, modulus());
    lemma_mul_is_distributive_sub_other_way(c, a, b);
}

/// Replacing `u` by `v` under a common multiplier shifts a fold by the
/// scaled difference of the two.
pub proof fn lemma_fadd_sub_add(f: int, u: int, v: int, c: int)
    ensures
        fadd_s(fadd_s(f, fmul_s(u, c)), fmul_s(fsub_s(v, u), c)) == fadd_s(f, fmul_s(v, c)),
{
    lemma_add_mod_noop_right(f, u * c, modulus());
    lemma_mul_mod_noop_left(v - u, c, modulus());
    lemma_add_mod_noop(f + u * c, (v - u) * c, modulus());
    lemma_mul_is_distributive_sub_other_way(c, v, u);
    assert(fadd_s(fadd_s(f, fmul_s(u, c)), fmul_s(fsub_s(v, u), c)) == (f + u * c + (v * c - u
        * c)) % modulus());
    lemma_add_mod_noop_right(f, v * c, modulus());
}

/// The removed nibble, restored in the high half of the first original key
/// byte, recombines with the re-encoded low half: extending a fingerprint
/// by the two parts separately equals extending it by the original byte.
pub proof fn lemma_fuse_nibble(up: int, p: int, d: int, m: int)
    ensures
        fadd_s(fadd_s(up, fmul_s(p, fmul_s(16, m))), fmul_s(d, m)) == fadd_s(
            up,
            fmul_s(16 * p + d, m),
        ),
{
    lemma_mul_mod_noop_right(p, 16 * m, modulus());
    lemma_mul_is_associative(p, 16, m);
    assert(fmul_s(p, fmul_s(16, m)) == (16 * p * m) % modulus());
    lemma_add_mod_noop_right(up, 16 * p * m, modulus());
    lemma_add_mod_noop(up + 16 * p * m, d * m, modulus());
    assert(fadd_s(fadd_s(up, fmul_s(p, fmul_s(16, m))), fmul_s(d, m)) == (up + 16 * p * m + d
        * m) % modulus());
    lemma_mul_is_distributive_add_other_way(m, 16 * p, d);
    lemma_add_mod_noop_right(up, (16 * p + d) * m, modulus());
}

/// The table of successive challenge powers shared by every gate: entry `i`
/// holds `r^(i+1)`.  The table covers one full payload width; folds past its
/// end wrap around, multiplying by the table's largest power.
pub open spec fn r_table_wf(t: Seq<u64>, r: int) -> bool {
    &&& t.len() == 32
    &&& forall|i: int|
        0 <= i < 32 ==> (#[trigger] t[i]) as int == fpow_s(r, (i + 1) as nat) && t[i]
            < FIELD_MODULUS
}

/// Builds the table of challenge powers `r^1 .. r^32`.
pub fn build_r_table(r: u64) -> (t: Vec<u64>)
    requires
        r < FIELD_MODULUS,
    ensures
        r_table_wf(t@, r as int),
{
    let mut t: Vec<u64> = Vec::new();
    let mut cur: u64 = r;
    proof {
        assert(fpow_s(r as int, 0) == 1);
        assert(fpow_s(r as int, 1) == fmul_s(r as int, 1));
        lemma_fmul_one(r as int);
    }
    while t.len() < 32
        invariant
            r < FIELD_MODULUS,
            cur < FIELD_MODULUS,
            t.len() <= 32,
            cur == fpow_s(r as int, (t.len() + 1) as nat),
            forall|i: int|
                0 <= i < t.len() ==> (#[trigger] t@[i]) as int == fpow_s(r as int, (i + 1) as nat)
                    && t@[i] < FIELD_MODULUS,
        decreases 32 - t.len(),
    {
        t.push(cur);
        cur = fmul(r, cur);
    }
    t
}

} // verus!
