//! Random-linear-combination fingerprints.
//!
//! A byte sequence is committed to as `sum(cell[j] * m * r^(j+k)) mod p` for
//! the shared verifier challenge `r`: a scaling factor `m` and a position
//! offset `k` let the same fold serve the whole-encoding fingerprint, the
//! value-row continuation and the drift-consistency reconstructions.  The
//! executable fold reads challenge powers from the fixed table of width 32
//! and wraps past its end by one extra multiplication with the table's
//! largest power.

use crate::field::{
    fadd, fadd_s, fmul, fmul_s, fpow_s, fsub, fsub_s, in_field, lemma_fadd_sub_add,
    lemma_fadd_swap, lemma_fmul_one, lemma_fpow_add, r_table_wf, FIELD_MODULUS,
};
use crate::window::{encoding_cells, leaf_row_cells, leaf_row_wf, LeafRow, RowWindow};
use vstd::prelude::*;

verus! {

/// A vector of cells, as a sequence of mathematical integers.
pub open spec fn as_ints(s: Seq<u64>) -> Seq<int> {
    s.map(|j: int, v: u64| v as int)
}

/// The RLC fold: `sum over j of s[j] * (m * r^(j+k))`, in field arithmetic.
pub open spec fn mfold_at(s: Seq<int>, r: int, m: int, k: nat) -> int
    decreases s.len(),
{
    if s.len() == 0 {
        0
    } else {
        fadd_s(
            mfold_at(s.drop_last(), r, m, k),
            fmul_s(s.last(), fmul_s(m, fpow_s(r, ((s.len() - 1) + k) as nat))),
        )
    }
}

/// The multiplier that position `pos` of a fold scaled by `m` receives,
/// taken from the challenge-power table; positions past the table's width
/// wrap around through one extra multiplication by its largest power.
pub fn coeff_at(rt: &Vec<u64>, r: u64, m: u64, pos: u64) -> (c: u64)
    requires
        r_table_wf(rt@, r as int),
        m < FIELD_MODULUS,
        pos <= 34,
    ensures
        c as int == fmul_s(m as int, fpow_s(r as int, pos as nat)),
        c < FIELD_MODULUS,
{
    if pos == 0 {
        proof {
            lemma_fmul_one(m as int);
        }
        m
    } else if pos <= 32 {
        fmul(m, rt[(pos - 1) as usize])
    } else {
        let wrapped: u64 = fmul(rt[(pos - 33) as usize], rt[31]);
        proof {
            lemma_fpow_add(r as int, (pos - 32) as nat, 32);
        }
        fmul(m, wrapped)
    }
}

/// Folds a cell vector into its RLC fingerprint, scaled by `m` and starting
/// at position offset `k`.
pub fn mfold(cells: &Vec<u64>, rt: &Vec<u64>, r: u64, m: u64, k: u64) -> (res: u64)
    requires
        r_table_wf(rt@, r as int),
        m < FIELD_MODULUS,
        cells@.len() + k <= 35,
        forall|j: int| 0 <= j < cells@.len() ==> (#[trigger] cells@[j]) < FIELD_MODULUS,
    ensures
        res as int == mfold_at(as_ints(cells@), r as int, m as int, k as nat),
        res < FIELD_MODULUS,
{
    let ghost s = as_ints(cells@);
    let mut acc: u64 = 0;
    let mut j: usize = 0;
    proof {
        assert(s.take(0).len() == 0);
    }
    while j < cells.len()
        invariant
            j <= cells.len(),
            r_table_wf(rt@, r as int),
            m < FIELD_MODULUS,
            cells@.len() + k <= 35,
            forall|i: int| 0 <= i < cells@.len() ==> (#[trigger] cells@[i]) < FIELD_MODULUS,
            s == as_ints(cells@),
            acc < FIELD_MODULUS,
            acc as int == mfold_at(s.take(j as int), r as int, m as int, k as nat),
        decreases cells.len() - j,
    {
        let c: u64 = coeff_at(rt, r, m, (j as u64) + k);
        let term: u64 = fmul(cells[j], c);
        let next: u64 = fadd(acc, term);
        proof {
            let t1 = s.take(j + 1);
            assert(t1.drop_last() =~= s.take(j as int));
            assert(t1.last() == s[j as int]);
            assert(s[j as int] == cells@[j as int] as int);
        }
        acc = next;
        j = j + 1;
    }
    proof {
        assert(s.take(cells@.len() as int) =~= s);
    }
    acc
}

/// A fold always lands in the canonical field range.
pub proof fn lemma_mfold_in_field(s: Seq<int>, r: int, m: int, k: nat)
    ensures
        in_field(mfold_at(s, r, m, k)),
{
    if s.len() == 0 {
    } else {
        crate::field::lemma_in_field_fadd(
            mfold_at(s.drop_last(), r, m, k),
            fmul_s(s.last(), fmul_s(m, fpow_s(r, ((s.len() - 1) + k) as nat))),
        );
    }
}

/// Changing one cell of a fold shifts the result by the difference of the
/// new and old values, scaled by that position's multiplier.
pub proof fn lemma_mfold_update(s: Seq<int>, i: int, v: int, r: int, m: int, k: nat)
    requires
        0 <= i < s.len(),
    ensures
        mfold_at(s.update(i, v), r, m, k) == fadd_s(
            mfold_at(s, r, m, k),
            fmul_s(fsub_s(v, s[i]), fmul_s(m, fpow_s(r, (i + k) as nat))),
        ),
    decreases s.len(),
{
    let c = fmul_s(m, fpow_s(r, (i + k) as nat));
    let s2 = s.update(i, v);
    if i == s.len() - 1 {
        assert(s2.drop_last() =~= s.drop_last());
        assert(s2.last() == v);
        let f = mfold_at(s.drop_last(), r, m, k);
        lemma_fadd_sub_add(f, s[i], v, c);
    } else {
        assert(s2.drop_last() =~= s.drop_last().update(i, v));
        assert(s2.last() == s.last());
        lemma_mfold_update(s.drop_last(), i, v, r, m, k);
        let f = mfold_at(s.drop_last(), r, m, k);
        let d = fmul_s(fsub_s(v, s[i]), c);
        let l = fmul_s(s.last(), fmul_s(m, fpow_s(r, ((s.len() - 1) + k) as nat)));
        lemma_fadd_swap(f, d, l);
    }
}

/// Copies the cells of a leaf row, header first, into a vector.
pub fn leaf_row_to_vec(row: &LeafRow) -> (v: Vec<u64>)
    ensures
        as_ints(v@) == leaf_row_cells(*row),
        v@.len() == 34,
        leaf_row_wf(*row) ==> forall|j: int| 0 <= j < 34 ==> (#[trigger] v@[j]) < FIELD_MODULUS,
{
    let mut v: Vec<u64> = Vec::new();
    v.push(row.s_rlp1);
    v.push(row.s_rlp2);
    let mut i: usize = 0;
    while i < 32
        invariant
            i <= 32,
            v@.len() == i + 2,
            v@[0] == row.s_rlp1,
            v@[1] == row.s_rlp2,
            forall|j: int| 0 <= j < i ==> (#[trigger] v@[j + 2]) == row.s_advices[j],
        decreases 32 - i,
    {
        v.push(row.s_advices[i]);
        i = i + 1;
    }
    proof {
        assert forall|j: int| 0 <= j < 34 implies as_ints(v@)[j] == leaf_row_cells(*row)[j] by {
            if j >= 2 {
                assert(v@[(j - 2) + 2] == row.s_advices[j - 2]);
            }
        }
        assert(as_ints(v@) =~= leaf_row_cells(*row));
        if leaf_row_wf(*row) {
            assert forall|j: int| 0 <= j < 34 implies v@[j] < FIELD_MODULUS by {
                if j >= 2 {
                    assert(in_field(row.s_advices[j - 2] as int));
                    assert(v@[(j - 2) + 2] == row.s_advices[j - 2]);
                }
            }
        }
    }
    v
}

/// The byte-level RLC fingerprint of the full drifted-leaf encoding: header,
/// payload and overflow cell, folded in column order from challenge power
/// zero.
pub open spec fn leaf_encoding_rlc_s(w: RowWindow, r: int) -> int {
    mfold_at(encoding_cells(w), r, 1, 0)
}

/// Computes the drifted-leaf encoding fingerprint.
pub fn leaf_encoding_rlc(w: &RowWindow, rt: &Vec<u64>, r: u64) -> (res: u64)
    requires
        w.wf(),
        r_table_wf(rt@, r as int),
    ensures
        res as int == leaf_encoding_rlc_s(*w, r as int),
        res < FIELD_MODULUS,
{
    let mut cells = leaf_row_to_vec(&w.leaf);
    cells.push(w.c_rlp1);
    proof {
        assert(as_ints(cells@) =~= encoding_cells(*w));
    }
    mfold(&cells, rt, r, 1, 0)
}

/// Residual of the fingerprint gate: the recomputed encoding fingerprint
/// must equal the stored accumulator cell whenever the gadget is enabled.
pub open spec fn rlc_gate_residual_s(w: RowWindow, r: int) -> int {
    fmul_s(w.q_enable as int, fsub_s(leaf_encoding_rlc_s(w, r), w.acc as int))
}

/// The fingerprint gate is satisfied when its residual vanishes.
pub open spec fn rlc_gate_holds(w: RowWindow, r: int) -> bool {
    rlc_gate_residual_s(w, r) == 0
}

/// Evaluates the fingerprint-gate residual on a witness.
pub fn rlc_gate_residual(w: &RowWindow, rt: &Vec<u64>, r: u64) -> (res: u64)
    requires
        w.wf(),
        r_table_wf(rt@, r as int),
    ensures
        res as int == rlc_gate_residual_s(*w, r as int),
        res < FIELD_MODULUS,
{
    let rlc = leaf_encoding_rlc(w, rt, r);
    let diff = fsub(rlc, w.acc);
    fmul(w.q_enable, diff)
}

} // verus!
