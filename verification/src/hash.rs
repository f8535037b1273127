//! The hash-membership lookups.
//!
//! The reconstructed leaf encoding — the drifted key row followed by the
//! pre-drift value row — is folded into one fingerprint and looked up in the
//! external hash table together with the hash words stored at the drifted
//! position of the placeholder branch.  The check runs once per trie
//! version, each multiplied by that version's placeholder boolean so the
//! side without a placeholder collapses to an all-zero tuple.

use crate::field::{fadd, fadd_s, fmul, fmul_s, lemma_fmul_zero, r_table_wf, FIELD_MODULUS};
use crate::rlc::{as_ints, leaf_row_to_vec, mfold, mfold_at};
use crate::window::{leaf_row_cells, LeafRow, RowWindow};
use vstd::prelude::*;

verus! {

/// One row of the external hash table: an input fingerprint and the words
/// of its hash.
pub struct HashRow {
    /// RLC fingerprint of the hashed byte sequence.
    pub input_rlc: u64,
    /// The hash of that sequence, as four words.
    pub output: [u64; 4],
}

/// A tuple appears among the rows of the hash table.
pub open spec fn hash_tuple_in_table(
    t: Seq<HashRow>,
    input: int,
    o0: int,
    o1: int,
    o2: int,
    o3: int,
) -> bool {
    exists|i: int|
        0 <= i < t.len() && (#[trigger] t[i]).input_rlc == input && t[i].output[0] == o0
            && t[i].output[1] == o1 && t[i].output[2] == o2 && t[i].output[3] == o3
}

/// Scans the hash table for a tuple.
pub fn lookup_hash(t: &Vec<HashRow>, input: u64, o: [u64; 4]) -> (found: bool)
    ensures
        found == hash_tuple_in_table(
            t@,
            input as int,
            o[0] as int,
            o[1] as int,
            o[2] as int,
            o[3] as int,
        ),
{
    let mut i: usize = 0;
    while i < t.len()
        invariant
            i <= t.len(),
            forall|j: int|
                0 <= j < i ==> !((#[trigger] t@[j]).input_rlc == input && t@[j].output[0] == o[0]
                    && t@[j].output[1] == o[1] && t@[j].output[2] == o[2] && t@[j].output[3]
                    == o[3]),
        decreases t.len() - i,
    {
        let row = &t[i];
        if row.input_rlc == input && row.output[0] == o[0] && row.output[1] == o[1]
            && row.output[2] == o[2] && row.output[3] == o[3] {
            return true;
        }
        i = i + 1;
    }
    false
}

/// Fingerprint of the reconstructed leaf: the stored key-row fingerprint
/// continued over a pre-drift value row, every value byte scaled by the
/// stored multiplier.
pub open spec fn leaf_with_value_rlc_s(w: RowWindow, row: LeafRow, r: int) -> int {
    fadd_s(w.acc as int, mfold_at(leaf_row_cells(row), r, w.acc_mult as int, 0))
}

/// Computes the reconstructed-leaf fingerprint over a value row.
pub fn leaf_with_value_rlc(w: &RowWindow, row: &LeafRow, rt: &Vec<u64>, r: u64) -> (res: u64)
    requires
        w.wf(),
        crate::window::leaf_row_wf(*row),
        r_table_wf(rt@, r as int),
    ensures
        res as int == leaf_with_value_rlc_s(*w, *row, r as int),
        res < FIELD_MODULUS,
{
    let cells = leaf_row_to_vec(row);
    proof {
        assert(as_ints(cells@) == leaf_row_cells(*row));
    }
    let folded = mfold(&cells, rt, r, w.acc_mult, 0);
    fadd(w.acc, folded)
}

/// The hash-membership lookup tuple of one trie version: the reconstructed
/// fingerprint and the branch's stored hash words, all scaled by the enable
/// and placeholder booleans.
pub open spec fn hash_tuple_s(w: RowWindow, row: LeafRow, hash: [u64; 4], guard: int, r: int) -> (
    int,
    int,
    int,
    int,
    int,
) {
    (
        fmul_s(w.q_enable as int, fmul_s(leaf_with_value_rlc_s(w, row, r), guard)),
        fmul_s(w.q_enable as int, fmul_s(hash[0] as int, guard)),
        fmul_s(w.q_enable as int, fmul_s(hash[1] as int, guard)),
        fmul_s(w.q_enable as int, fmul_s(hash[2] as int, guard)),
        fmul_s(w.q_enable as int, fmul_s(hash[3] as int, guard)),
    )
}

/// The hash-membership lookup of the first ("before") trie version is
/// satisfied on this table.
pub open spec fn hash_lookup_before_holds(w: RowWindow, t: Seq<HashRow>, r: int) -> bool {
    {
        let tuple = hash_tuple_s(w, w.value_s, w.s_hash, w.is_branch_s_placeholder as int, r);
        hash_tuple_in_table(t, tuple.0, tuple.1, tuple.2, tuple.3, tuple.4)
    }
}

/// The hash-membership lookup of the second ("after") trie version is
/// satisfied on this table.
pub open spec fn hash_lookup_after_holds(w: RowWindow, t: Seq<HashRow>, r: int) -> bool {
    {
        let tuple = hash_tuple_s(w, w.value_c, w.c_hash, w.is_branch_c_placeholder as int, r);
        hash_tuple_in_table(t, tuple.0, tuple.1, tuple.2, tuple.3, tuple.4)
    }
}

/// A hash-membership lookup whose placeholder boolean is off is vacuous:
/// its scaled tuple collapses to all zeros, and any table holding an
/// all-zero row satisfies it.
pub proof fn lemma_inactive_side_lookup(w: RowWindow, t: Seq<HashRow>, r: int)
    requires
        exists|i: int|
            0 <= i < t.len() && (#[trigger] t[i]).input_rlc == 0 && t[i].output[0] == 0
                && t[i].output[1] == 0 && t[i].output[2] == 0 && t[i].output[3] == 0,
    ensures
        w.is_branch_s_placeholder == 0 ==> hash_lookup_before_holds(w, t, r),
        w.is_branch_c_placeholder == 0 ==> hash_lookup_after_holds(w, t, r),
{
    if w.is_branch_s_placeholder == 0 {
        lemma_fmul_zero(leaf_with_value_rlc_s(w, w.value_s, r));
        lemma_fmul_zero(w.s_hash[0] as int);
        lemma_fmul_zero(w.s_hash[1] as int);
        lemma_fmul_zero(w.s_hash[2] as int);
        lemma_fmul_zero(w.s_hash[3] as int);
        lemma_fmul_zero(w.q_enable as int);
        assert(hash_tuple_in_table(t, 0, 0, 0, 0, 0));
    }
    if w.is_branch_c_placeholder == 0 {
        lemma_fmul_zero(leaf_with_value_rlc_s(w, w.value_c, r));
        lemma_fmul_zero(w.c_hash[0] as int);
        lemma_fmul_zero(w.c_hash[1] as int);
        lemma_fmul_zero(w.c_hash[2] as int);
        lemma_fmul_zero(w.c_hash[3] as int);
        lemma_fmul_zero(w.q_enable as int);
        assert(hash_tuple_in_table(t, 0, 0, 0, 0, 0));
    }
}

/// Evaluates one hash-membership lookup on a witness.
fn check_hash_lookup(
    w: &RowWindow,
    row: &LeafRow,
    hash: &[u64; 4],
    guard: u64,
    rt: &Vec<u64>,
    r: u64,
    t: &Vec<HashRow>,
) -> (found: bool)
    requires
        w.wf(),
        crate::window::leaf_row_wf(*row),
        guard < FIELD_MODULUS,
        forall|i: int| 0 <= i < 4 ==> (#[trigger] hash[i]) < FIELD_MODULUS,
        r_table_wf(rt@, r as int),
    ensures
        ({
            let tuple = hash_tuple_s(*w, *row, *hash, guard as int, r as int);
            found == hash_tuple_in_table(t@, tuple.0, tuple.1, tuple.2, tuple.3, tuple.4)
        }),
{
    let rlc = leaf_with_value_rlc(w, row, rt, r);
    let input = fmul(w.q_enable, fmul(rlc, guard));
    let o = [
        fmul(w.q_enable, fmul(hash[0], guard)),
        fmul(w.q_enable, fmul(hash[1], guard)),
        fmul(w.q_enable, fmul(hash[2], guard)),
        fmul(w.q_enable, fmul(hash[3], guard)),
    ];
    lookup_hash(t, input, o)
}

/// Evaluates the before-version hash-membership lookup on a witness.
pub fn check_hash_lookup_before(w: &RowWindow, rt: &Vec<u64>, r: u64, t: &Vec<HashRow>) -> (found:
    bool)
    requires
        w.wf(),
        r_table_wf(rt@, r as int),
    ensures
        found == hash_lookup_before_holds(*w, t@, r as int),
{
    check_hash_lookup(w, &w.value_s, &w.s_hash, w.is_branch_s_placeholder, rt, r, t)
}

/// Evaluates the after-version hash-membership lookup on a witness.
pub fn check_hash_lookup_after(w: &RowWindow, rt: &Vec<u64>, r: u64, t: &Vec<HashRow>) -> (found:
    bool)
    requires
        w.wf(),
        r_table_wf(rt@, r as int),
    ensures
        found == hash_lookup_after_holds(*w, t@, r as int),
{
    check_hash_lookup(w, &w.value_c, &w.c_hash, w.is_branch_c_placeholder, rt, r, t)
}

} // verus!
