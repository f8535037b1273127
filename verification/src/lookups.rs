//! The fixed multiplier table and the length-consistency lookups.
//!
//! The table holds one row per step count, tagged as multiplier rows,
//! mapping the number of encoding bytes already folded to the challenge
//! power that follows them.  The gadget issues one lookup per encoding
//! class, each scaled by its class boolean so that the inactive class
//! collapses to the table's all-zero row.

use crate::field::{
    fadd, fadd_s, fmul, fmul_s, fpow_s, fsub, fsub_s, lemma_fmul_one, lemma_fmul_zero,
    lemma_fpow_in_field,
    FIELD_MODULUS,
};
use vstd::arithmetic::div_mod::lemma_small_mod;
use crate::window::RowWindow;
use vstd::prelude::*;

verus! {

/// Tag of the multiplier rows in the shared fixed table.
pub const RMULT_TAG: u64 = 1;

/// One row of the shared fixed table.
pub struct FixedRow {
    /// Row family tag.
    pub tag: u64,
    /// Number of encoding bytes folded so far.
    pub steps: u64,
    /// Challenge power that the next byte receives.
    pub mult: u64,
}

/// The fixed multiplier table for challenge `r` with step counts up to `n`:
/// an all-zero-valued guard row first, then one row per step count.
pub open spec fn rmult_table_wf(t: Seq<FixedRow>, r: int, n: nat) -> bool {
    &&& t.len() == n + 2
    &&& t[0].tag == RMULT_TAG && t[0].steps == 0 && t[0].mult == 0
    &&& forall|s: int|
        0 <= s <= n ==> (#[trigger] t[s + 1]).tag == RMULT_TAG && t[s + 1].steps == s && t[s
            + 1].mult as int == fpow_s(r, s as nat)
}

/// Builds the fixed multiplier table for challenge `r`, covering step counts
/// `0 ..= n`.
pub fn build_rmult_table(r: u64, n: u64) -> (t: Vec<FixedRow>)
    requires
        r < FIELD_MODULUS,
        n < 0x10000,
    ensures
        rmult_table_wf(t@, r as int, n as nat),
{
    let mut t: Vec<FixedRow> = Vec::new();
    t.push(FixedRow { tag: RMULT_TAG, steps: 0, mult: 0 });
    let mut cur: u64 = 1;
    let mut s: u64 = 0;
    while s <= n
        invariant
            s <= n + 1,
            n < 0x10000,
            r < FIELD_MODULUS,
            cur < FIELD_MODULUS,
            cur == fpow_s(r as int, s as nat),
            t@.len() == s + 1,
            t@[0].tag == RMULT_TAG && t@[0].steps == 0 && t@[0].mult == 0,
            forall|i: int|
                0 <= i < s ==> (#[trigger] t@[i + 1]).tag == RMULT_TAG && t@[i + 1].steps == i
                    && t@[i + 1].mult as int == fpow_s(r as int, i as nat),
        decreases n + 1 - s,
    {
        t.push(FixedRow { tag: RMULT_TAG, steps: s, mult: cur });
        cur = fmul(r, cur);
        s = s + 1;
    }
    t
}

/// A tuple appears among the rows of the fixed table.
pub open spec fn fixed_tuple_in_table(t: Seq<FixedRow>, tag: int, steps: int, mult: int) -> bool {
    exists|i: int|
        0 <= i < t.len() && (#[trigger] t[i]).tag == tag && t[i].steps == steps && t[i].mult
            == mult
}

/// Scans the fixed table for a tuple.
pub fn lookup_fixed(t: &Vec<FixedRow>, tag: u64, steps: u64, mult: u64) -> (found: bool)
    ensures
        found == fixed_tuple_in_table(t@, tag as int, steps as int, mult as int),
{
    let mut i: usize = 0;
    while i < t.len()
        invariant
            i <= t.len(),
            forall|j: int|
                0 <= j < i ==> !((#[trigger] t@[j]).tag == tag && t@[j].steps == steps
                    && t@[j].mult == mult),
        decreases t.len() - i,
    {
        let row = &t[i];
        if row.tag == tag && row.steps == steps && row.mult == mult {
            return true;
        }
        i = i + 1;
    }
    false
}

/// The lookup tuple of the short encoding class: tag, declared step count
/// `(second header byte - 128) + 2` and the stored multiplier, the latter
/// two scaled by the enable and class booleans.
pub open spec fn short_mult_tuple_s(w: RowWindow) -> (int, int, int) {
    (
        RMULT_TAG as int,
        fmul_s(
            w.q_enable as int,
            fmul_s(fadd_s(fsub_s(w.leaf.s_rlp2 as int, 128), 2), w.is_short as int),
        ),
        fmul_s(w.q_enable as int, fmul_s(w.acc_mult as int, w.is_short as int)),
    )
}

/// The lookup tuple of the long encoding class: the key length is declared
/// by the first payload byte and the prefix occupies three bytes.
pub open spec fn long_mult_tuple_s(w: RowWindow) -> (int, int, int) {
    (
        RMULT_TAG as int,
        fmul_s(
            w.q_enable as int,
            fmul_s(fadd_s(fsub_s(w.leaf.s_advices[0] as int, 128), 3), w.is_long as int),
        ),
        fmul_s(w.q_enable as int, fmul_s(w.acc_mult as int, w.is_long as int)),
    )
}

/// The short-class length-consistency lookup is satisfied on this table.
pub open spec fn short_mult_lookup_holds(w: RowWindow, t: Seq<FixedRow>) -> bool {
    fixed_tuple_in_table(
        t,
        short_mult_tuple_s(w).0,
        short_mult_tuple_s(w).1,
        short_mult_tuple_s(w).2,
    )
}

/// The long-class length-consistency lookup is satisfied on this table.
pub open spec fn long_mult_lookup_holds(w: RowWindow, t: Seq<FixedRow>) -> bool {
    fixed_tuple_in_table(
        t,
        long_mult_tuple_s(w).0,
        long_mult_tuple_s(w).1,
        long_mult_tuple_s(w).2,
    )
}

/// Evaluates the short-class lookup on a witness.
pub fn check_short_mult_lookup(w: &RowWindow, t: &Vec<FixedRow>) -> (found: bool)
    requires
        w.wf(),
    ensures
        found == short_mult_lookup_holds(*w, t@),
{
    let steps = fadd(fsub(w.leaf.s_rlp2, 128), 2);
    let t1 = fmul(w.q_enable, fmul(steps, w.is_short));
    let t2 = fmul(w.q_enable, fmul(w.acc_mult, w.is_short));
    lookup_fixed(t, RMULT_TAG, t1, t2)
}

/// Evaluates the long-class lookup on a witness.
pub fn check_long_mult_lookup(w: &RowWindow, t: &Vec<FixedRow>) -> (found: bool)
    requires
        w.wf(),
    ensures
        found == long_mult_lookup_holds(*w, t@),
{
    let steps = fadd(fsub(w.leaf.s_advices[0], 128), 3);
    let t1 = fmul(w.q_enable, fmul(steps, w.is_long));
    let t2 = fmul(w.q_enable, fmul(w.acc_mult, w.is_long));
    lookup_fixed(t, RMULT_TAG, t1, t2)
}

/// A length-consistency lookup whose class boolean is off is vacuous: its
/// scaled tuple collapses to the table's guard row.
pub proof fn lemma_inactive_class_lookup(w: RowWindow, t: Seq<FixedRow>, r: int, n: nat)
    requires
        rmult_table_wf(t, r, n),
    ensures
        w.is_short == 0 ==> short_mult_lookup_holds(w, t),
        w.is_long == 0 ==> long_mult_lookup_holds(w, t),
{
    if w.is_short == 0 {
        lemma_fmul_zero(fadd_s(fsub_s(w.leaf.s_rlp2 as int, 128), 2));
        lemma_fmul_zero(w.acc_mult as int);
        lemma_fmul_zero(w.q_enable as int);
        assert(t[0].tag == RMULT_TAG && t[0].steps == 0 && t[0].mult == 0);
        assert(fixed_tuple_in_table(t, RMULT_TAG as int, 0, 0));
    }
    if w.is_long == 0 {
        lemma_fmul_zero(fadd_s(fsub_s(w.leaf.s_advices[0] as int, 128), 3));
        lemma_fmul_zero(w.acc_mult as int);
        lemma_fmul_zero(w.q_enable as int);
        assert(t[0].tag == RMULT_TAG && t[0].steps == 0 && t[0].mult == 0);
        assert(fixed_tuple_in_table(t, RMULT_TAG as int, 0, 0));
    }
}

/// Multiplier agreement: for every key length, a witness that declares that
/// length and stores the table's own challenge power for the matching step
/// count satisfies the length-consistency lookup of its class, short and
/// long alike.
pub proof fn lemma_multiplier_agreement(
    w: RowWindow,
    t: Seq<FixedRow>,
    r: int,
    n: nat,
    len: nat,
)
    requires
        w.wf(),
        rmult_table_wf(t, r, n),
        len + 3 <= n,
        w.q_enable == 1,
        len < 34,
    ensures
        w.is_short == 1 && w.leaf.s_rlp2 as int == 128 + len && w.acc_mult as int == fpow_s(
            r,
            (len + 2) as nat,
        ) ==> short_mult_lookup_holds(w, t),
        w.is_long == 1 && w.leaf.s_advices[0] as int == 128 + len && w.acc_mult as int == fpow_s(
            r,
            (len + 3) as nat,
        ) ==> long_mult_lookup_holds(w, t),
{
    lemma_fpow_in_field(r, (len + 2) as nat);
    lemma_fpow_in_field(r, (len + 3) as nat);
    if w.is_short == 1 && w.leaf.s_rlp2 as int == 128 + len && w.acc_mult as int == fpow_s(
        r,
        (len + 2) as nat,
    ) {
        lemma_small_mod(len, FIELD_MODULUS as nat);
        lemma_small_mod((len + 2) as nat, FIELD_MODULUS as nat);
        lemma_fmul_one(fadd_s(fsub_s(w.leaf.s_rlp2 as int, 128), 2));
        lemma_fmul_one(w.acc_mult as int);
        lemma_fmul_one(fmul_s(fadd_s(fsub_s(w.leaf.s_rlp2 as int, 128), 2), 1));
        lemma_fmul_one(fmul_s(w.acc_mult as int, 1));
        assert(short_mult_tuple_s(w).1 == len + 2);
        assert(short_mult_tuple_s(w).2 == w.acc_mult as int);
        assert(t[((len + 2) + 1) as int].steps == len + 2 && t[((len + 2) + 1) as int].mult as int == fpow_s(
            r,
            (len + 2) as nat,
        ));
        assert(fixed_tuple_in_table(t, RMULT_TAG as int, (len + 2) as int, w.acc_mult as int));
    }
    if w.is_long == 1 && w.leaf.s_advices[0] as int == 128 + len && w.acc_mult as int == fpow_s(
        r,
        (len + 3) as nat,
    ) {
        lemma_small_mod(len, FIELD_MODULUS as nat);
        lemma_small_mod((len + 3) as nat, FIELD_MODULUS as nat);
        lemma_fmul_one(fadd_s(fsub_s(w.leaf.s_advices[0] as int, 128), 3));
        lemma_fmul_one(w.acc_mult as int);
        lemma_fmul_one(fmul_s(fadd_s(fsub_s(w.leaf.s_advices[0] as int, 128), 3), 1));
        lemma_fmul_one(fmul_s(w.acc_mult as int, 1));
        assert(long_mult_tuple_s(w).1 == len + 3);
        assert(long_mult_tuple_s(w).2 == w.acc_mult as int);
        assert(t[((len + 3) + 1) as int].steps == len + 3 && t[((len + 3) + 1) as int].mult as int == fpow_s(
            r,
            (len + 3) as nat,
        ));
        assert(fixed_tuple_in_table(t, RMULT_TAG as int, (len + 3) as int, w.acc_mult as int));
    }
}

} // verus!
