//! The drift-consistency gate.
//!
//! The key fingerprint accumulated upstream down to the inserted branch,
//! extended by the branch slot the leaf drifted to and by the drifted leaf's
//! own key bytes, must reproduce the fingerprint the sibling gadget computed
//! for the pre-drift leaf.  Four mutually exclusive cases — encoding length
//! times nibble parity — place the drifted nibble and shift the payload
//! fold; each equality is further duplicated per placeholder side.  Every
//! constraint is emitted unconditionally and multiplied by its 0/1 guards,
//! so an inactive case is zero-forced rather than skipped.

use crate::field::{
    fadd, fadd_s, fmul, fmul_s, fpow_s, fsub, fsub_s, lemma_f_one, lemma_fadd_zero, lemma_fmul_one,
    lemma_fmul_zero, lemma_fsub_self, lemma_fuse_nibble, lemma_in_field_fadd, lemma_in_field_fmul,
    lemma_in_field_fsub, r_table_wf, FIELD_MODULUS,
};
use vstd::arithmetic::div_mod::lemma_small_mod;
use crate::rlc::{as_ints, lemma_mfold_update, mfold, mfold_at};
use crate::window::{LeafRow, RowWindow};
use vstd::prelude::*;

verus! {

/// The payload cells of a leaf row, as mathematical integers.
pub open spec fn advices_ints(row: LeafRow) -> Seq<int> {
    row.s_advices@.map(|i: int, v: u64| v as int)
}

/// The multiplier the upstream accumulator assigns to the drifted nibble:
/// its own running multiplier advanced over the extension-node bytes.
pub open spec fn key_m_s(w: RowWindow) -> int {
    fmul_s(w.branch_rlc_mult as int, w.mult_diff as int)
}

/// The upstream fingerprint extended by the drifted nibble in the
/// high-nibble position.
pub open spec fn drift_start_s(w: RowWindow) -> int {
    fadd_s(w.key_rlc_cur as int, fmul_s(w.drifted_pos as int, fmul_s(16, key_m_s(w))))
}

/// Contribution of the first payload byte when the drifted nibble pairs
/// with it: the byte carries the odd-length marker plus one key nibble.
pub open spec fn odd_byte_term_s(w: RowWindow, byte: int) -> int {
    fmul_s(fsub_s(byte, 48), fmul_s(key_m_s(w), w.sel1 as int))
}

/// Payload bytes folded by the short-form reconstruction: everything after
/// the first payload byte, one challenge power up.
pub open spec fn short_tail(w: RowWindow) -> Seq<int> {
    advices_ints(w.leaf).subrange(1, 32)
}

/// Payload bytes folded by the long-form reconstruction: the payload region
/// starts one column later and the overflow cell completes the capacity.
pub open spec fn long_tail(w: RowWindow) -> Seq<int> {
    advices_ints(w.leaf).subrange(2, 32).push(w.c_rlp1 as int)
}

/// The short-form reconstruction of the pre-drift key fingerprint.
pub open spec fn drift_short_s(w: RowWindow, r: int) -> int {
    fadd_s(
        fadd_s(drift_start_s(w), odd_byte_term_s(w, w.leaf.s_advices[0] as int)),
        mfold_at(short_tail(w), r, key_m_s(w), 1),
    )
}

/// The long-form reconstruction of the pre-drift key fingerprint.
pub open spec fn drift_long_s(w: RowWindow, r: int) -> int {
    fadd_s(
        fadd_s(drift_start_s(w), odd_byte_term_s(w, w.leaf.s_advices[1] as int)),
        mfold_at(long_tail(w), r, key_m_s(w), 1),
    )
}

/// The six residuals of the drift-consistency gate: the two even-parity
/// marker constraints and the four guarded fingerprint equalities.
pub struct DriftResiduals {
    /// Short form, even parity: the first payload byte is the bare marker.
    pub marker_short: u64,
    /// Short form, before-placeholder: reconstruction meets the stored fingerprint.
    pub key_s_short: u64,
    /// Short form, after-placeholder: reconstruction meets the stored fingerprint.
    pub key_c_short: u64,
    /// Long form, even parity: the second payload byte is the bare marker.
    pub marker_long: u64,
    /// Long form, before-placeholder: reconstruction meets the stored fingerprint.
    pub key_s_long: u64,
    /// Long form, after-placeholder: reconstruction meets the stored fingerprint.
    pub key_c_long: u64,
}

/// Residual of the even-parity marker constraint of the short form.
pub open spec fn marker_short_s(w: RowWindow) -> int {
    fmul_s(
        w.q_enable as int,
        fmul_s(fsub_s(w.leaf.s_advices[0] as int, 32), fmul_s(w.sel2 as int, w.is_short as int)),
    )
}

/// Residual of the even-parity marker constraint of the long form.
pub open spec fn marker_long_s(w: RowWindow) -> int {
    fmul_s(
        w.q_enable as int,
        fmul_s(fsub_s(w.leaf.s_advices[1] as int, 32), fmul_s(w.sel2 as int, w.is_long as int)),
    )
}

/// Residual of one guarded fingerprint equality.
pub open spec fn key_residual_s(q: int, guard: int, class: int, stored: int, recomputed: int) -> int {
    fmul_s(q, fmul_s(guard, fmul_s(class, fsub_s(stored, recomputed))))
}

/// All six drift-consistency residuals of a witness.
pub open spec fn drift_residuals_s(w: RowWindow, r: int) -> (int, int, int, int, int, int) {
    (
        marker_short_s(w),
        key_residual_s(
            w.q_enable as int,
            w.is_branch_s_placeholder as int,
            w.is_short as int,
            w.leaf_key_s_rlc as int,
            drift_short_s(w, r),
        ),
        key_residual_s(
            w.q_enable as int,
            w.is_branch_c_placeholder as int,
            w.is_short as int,
            w.leaf_key_c_rlc as int,
            drift_short_s(w, r),
        ),
        marker_long_s(w),
        key_residual_s(
            w.q_enable as int,
            w.is_branch_s_placeholder as int,
            w.is_long as int,
            w.leaf_key_s_rlc as int,
            drift_long_s(w, r),
        ),
        key_residual_s(
            w.q_enable as int,
            w.is_branch_c_placeholder as int,
            w.is_long as int,
            w.leaf_key_c_rlc as int,
            drift_long_s(w, r),
        ),
    )
}

/// The drift-consistency gate is satisfied when every residual vanishes.
pub open spec fn drift_gate_holds(w: RowWindow, r: int) -> bool {
    {
        let res = drift_residuals_s(w, r);
        res.0 == 0 && res.1 == 0 && res.2 == 0 && res.3 == 0 && res.4 == 0 && res.5 == 0
    }
}

/// Computes the short-form reconstruction of the pre-drift fingerprint.
pub fn drift_short_rlc(w: &RowWindow, rt: &Vec<u64>, r: u64) -> (res: u64)
    requires
        w.wf(),
        r_table_wf(rt@, r as int),
    ensures
        res as int == drift_short_s(*w, r as int),
        res < FIELD_MODULUS,
{
    let m = fmul(w.branch_rlc_mult, w.mult_diff);
    let start = fadd(w.key_rlc_cur, fmul(w.drifted_pos, fmul(16, m)));
    let base = fadd(start, fmul(fsub(w.leaf.s_advices[0], 48), fmul(m, w.sel1)));
    let mut cells: Vec<u64> = Vec::new();
    let mut i: usize = 1;
    while i < 32
        invariant
            1 <= i <= 32,
            w.wf(),
            cells@.len() == i - 1,
            forall|j: int| 0 <= j < i - 1 ==> (#[trigger] cells@[j]) == w.leaf.s_advices[j + 1],
        decreases 32 - i,
    {
        cells.push(w.leaf.s_advices[i]);
        i = i + 1;
    }
    proof {
        assert(as_ints(cells@) =~= short_tail(*w));
        assert forall|j: int| 0 <= j < cells@.len() implies (#[trigger] cells@[j])
            < FIELD_MODULUS by {
            assert(crate::field::in_field(w.leaf.s_advices[j + 1] as int));
        }
    }
    let folded = mfold(&cells, rt, r, m, 1);
    fadd(base, folded)
}

/// Computes the long-form reconstruction of the pre-drift fingerprint.
pub fn drift_long_rlc(w: &RowWindow, rt: &Vec<u64>, r: u64) -> (res: u64)
    requires
        w.wf(),
        r_table_wf(rt@, r as int),
    ensures
        res as int == drift_long_s(*w, r as int),
        res < FIELD_MODULUS,
{
    let m = fmul(w.branch_rlc_mult, w.mult_diff);
    let start = fadd(w.key_rlc_cur, fmul(w.drifted_pos, fmul(16, m)));
    let base = fadd(start, fmul(fsub(w.leaf.s_advices[1], 48), fmul(m, w.sel1)));
    let mut cells: Vec<u64> = Vec::new();
    let mut i: usize = 2;
    while i < 32
        invariant
            2 <= i <= 32,
            w.wf(),
            cells@.len() == i - 2,
            forall|j: int| 0 <= j < i - 2 ==> (#[trigger] cells@[j]) == w.leaf.s_advices[j + 2],
        decreases 32 - i,
    {
        cells.push(w.leaf.s_advices[i]);
        i = i + 1;
    }
    cells.push(w.c_rlp1);
    proof {
        assert(as_ints(cells@) =~= long_tail(*w));
        assert forall|j: int| 0 <= j < cells@.len() implies (#[trigger] cells@[j])
            < FIELD_MODULUS by {
            if j < 30 {
                assert(crate::field::in_field(w.leaf.s_advices[j + 2] as int));
            }
        }
    }
    let folded = mfold(&cells, rt, r, m, 1);
    fadd(base, folded)
}

/// Evaluates all six drift-consistency residuals on a witness.
pub fn drift_residuals(w: &RowWindow, rt: &Vec<u64>, r: u64) -> (res: DriftResiduals)
    requires
        w.wf(),
        r_table_wf(rt@, r as int),
    ensures
        res.marker_short as int == drift_residuals_s(*w, r as int).0,
        res.key_s_short as int == drift_residuals_s(*w, r as int).1,
        res.key_c_short as int == drift_residuals_s(*w, r as int).2,
        res.marker_long as int == drift_residuals_s(*w, r as int).3,
        res.key_s_long as int == drift_residuals_s(*w, r as int).4,
        res.key_c_long as int == drift_residuals_s(*w, r as int).5,
{
    let short_rlc = drift_short_rlc(w, rt, r);
    let long_rlc = drift_long_rlc(w, rt, r);
    let marker_short = fmul(
        w.q_enable,
        fmul(fsub(w.leaf.s_advices[0], 32), fmul(w.sel2, w.is_short)),
    );
    let marker_long = fmul(
        w.q_enable,
        fmul(fsub(w.leaf.s_advices[1], 32), fmul(w.sel2, w.is_long)),
    );
    let key_s_short = fmul(
        w.q_enable,
        fmul(
            w.is_branch_s_placeholder,
            fmul(w.is_short, fsub(w.leaf_key_s_rlc, short_rlc)),
        ),
    );
    let key_c_short = fmul(
        w.q_enable,
        fmul(
            w.is_branch_c_placeholder,
            fmul(w.is_short, fsub(w.leaf_key_c_rlc, short_rlc)),
        ),
    );
    let key_s_long = fmul(
        w.q_enable,
        fmul(
            w.is_branch_s_placeholder,
            fmul(w.is_long, fsub(w.leaf_key_s_rlc, long_rlc)),
        ),
    );
    let key_c_long = fmul(
        w.q_enable,
        fmul(
            w.is_branch_c_placeholder,
            fmul(w.is_long, fsub(w.leaf_key_c_rlc, long_rlc)),
        ),
    );
    DriftResiduals {
        marker_short,
        key_s_short,
        key_c_short,
        marker_long,
        key_s_long,
        key_c_long,
    }
}

/// A guarded fingerprint equality with all guards one reduces to the bare
/// field difference of the stored and recomputed fingerprints.
proof fn lemma_key_residual_unit(st: int, rec: int)
    ensures
        key_residual_s(1, 1, 1, st, rec) == fsub_s(st, rec),
{
    lemma_in_field_fsub(st, rec);
    lemma_fmul_one(fsub_s(st, rec));
    lemma_fmul_one(fmul_s(1, fsub_s(st, rec)));
    lemma_fmul_one(fmul_s(1, fmul_s(1, fsub_s(st, rec))));
}

/// A guarded fingerprint equality with a zero guard or class vanishes.
proof fn lemma_key_residual_gated(q: int, guard: int, class: int, st: int, rec: int)
    requires
        guard == 0 || class == 0,
    ensures
        key_residual_s(q, guard, class, st, rec) == 0,
{
    if class == 0 {
        lemma_fmul_zero(fsub_s(st, rec));
        lemma_fmul_zero(guard);
    } else {
        lemma_fmul_zero(fmul_s(class, fsub_s(st, rec)));
    }
    lemma_fmul_zero(q);
}

/// Guard exclusivity: when the parity selectors, the length-class booleans
/// and the placeholder booleans are each one-hot, exactly one of the four
/// drift-consistency guard products is one, the other three are zero, and
/// exactly one of the two hash-membership guard booleans is non-zero.
pub proof fn lemma_guard_exclusivity(w: RowWindow)
    requires
        w.sel1 + w.sel2 == 1,
        w.is_short + w.is_long == 1,
        w.is_branch_s_placeholder + w.is_branch_c_placeholder == 1,
    ensures
        fmul_s(w.sel1 as int, w.is_short as int) == if w.sel1 == 1 && w.is_short == 1 {
            1int
        } else {
            0int
        },
        fmul_s(w.sel2 as int, w.is_short as int) == if w.sel2 == 1 && w.is_short == 1 {
            1int
        } else {
            0int
        },
        fmul_s(w.sel1 as int, w.is_long as int) == if w.sel1 == 1 && w.is_long == 1 {
            1int
        } else {
            0int
        },
        fmul_s(w.sel2 as int, w.is_long as int) == if w.sel2 == 1 && w.is_long == 1 {
            1int
        } else {
            0int
        },
        fmul_s(w.sel1 as int, w.is_short as int) + fmul_s(w.sel2 as int, w.is_short as int)
            + fmul_s(w.sel1 as int, w.is_long as int) + fmul_s(w.sel2 as int, w.is_long as int)
            == 1,
        (w.is_branch_s_placeholder != 0) <==> (w.is_branch_c_placeholder == 0),
{
    assert(w.sel1 == 0 || w.sel1 == 1);
    assert(w.is_short == 0 || w.is_short == 1);
    lemma_fmul_zero(0);
    lemma_fmul_zero(1);
    lemma_f_one();
}

/// Round-trip, short form, even drift: after the drifted nibble is removed
/// the remaining nibble count is even, so the re-encoding keeps every key
/// byte in place and puts the bare marker in the first payload cell.  A
/// witness whose stored pre-drift fingerprint is the upstream fingerprint
/// extended by the drifted nibble and the unchanged key bytes satisfies the
/// whole drift-consistency gate.
pub proof fn lemma_round_trip_short_even(w: RowWindow, r: int)
    requires
        w.wf(),
        w.q_enable == 1,
        w.is_short == 1,
        w.is_long == 0,
        w.sel2 == 1,
        w.sel1 == 0,
        w.is_branch_s_placeholder + w.is_branch_c_placeholder == 1,
        w.drifted_pos < 16,
        w.leaf.s_advices[0] == 32,
        w.is_branch_s_placeholder == 1 ==> w.leaf_key_s_rlc as int == fadd_s(
            drift_start_s(w),
            mfold_at(short_tail(w), r, key_m_s(w), 1),
        ),
        w.is_branch_c_placeholder == 1 ==> w.leaf_key_c_rlc as int == fadd_s(
            drift_start_s(w),
            mfold_at(short_tail(w), r, key_m_s(w), 1),
        ),
    ensures
        drift_gate_holds(w, r),
{
    let m = key_m_s(w);
    let t = mfold_at(short_tail(w), r, m, 1);
    assert(odd_byte_term_s(w, 32) == 0) by {
        lemma_fmul_zero(m);
        lemma_fmul_zero(fsub_s(32, 48));
    }
    lemma_in_field_fadd(w.key_rlc_cur as int, fmul_s(w.drifted_pos as int, fmul_s(16, m)));
    lemma_fadd_zero(drift_start_s(w));
    assert(drift_short_s(w, r) == fadd_s(drift_start_s(w), t));
    lemma_round_trip_guards(w, r, drift_short_s(w, r));
}

/// Round-trip, short form, odd drift: the drifted nibble and the first
/// remaining key nibble shared one byte, so the re-encoding shifts every
/// key byte and carries the freed nibble in the odd-length marker byte.
/// A witness whose stored pre-drift fingerprint is the upstream fingerprint
/// extended by the original first key byte — the drifted nibble in its high
/// half — and the shifted key bytes satisfies the whole gate.
pub proof fn lemma_round_trip_short_odd(w: RowWindow, r: int)
    requires
        w.wf(),
        w.q_enable == 1,
        w.is_short == 1,
        w.is_long == 0,
        w.sel1 == 1,
        w.sel2 == 0,
        w.is_branch_s_placeholder + w.is_branch_c_placeholder == 1,
        w.drifted_pos < 16,
        48 <= w.leaf.s_advices[0] < 64,
        w.is_branch_s_placeholder == 1 ==> w.leaf_key_s_rlc as int == fadd_s(
            fadd_s(
                w.key_rlc_cur as int,
                fmul_s(
                    16 * (w.drifted_pos as int) + (w.leaf.s_advices[0] as int - 48),
                    key_m_s(w),
                ),
            ),
            mfold_at(short_tail(w), r, key_m_s(w), 1),
        ),
        w.is_branch_c_placeholder == 1 ==> w.leaf_key_c_rlc as int == fadd_s(
            fadd_s(
                w.key_rlc_cur as int,
                fmul_s(
                    16 * (w.drifted_pos as int) + (w.leaf.s_advices[0] as int - 48),
                    key_m_s(w),
                ),
            ),
            mfold_at(short_tail(w), r, key_m_s(w), 1),
        ),
    ensures
        drift_gate_holds(w, r),
{
    let m = key_m_s(w);
    let a0 = w.leaf.s_advices[0] as int;
    let p = w.drifted_pos as int;
    lemma_odd_byte_fuses(w, a0);
    lemma_fuse_nibble(w.key_rlc_cur as int, p, a0 - 48, m);
    assert(fadd_s(drift_start_s(w), odd_byte_term_s(w, a0)) == fadd_s(
        w.key_rlc_cur as int,
        fmul_s(16 * p + (a0 - 48), m),
    ));
    lemma_round_trip_guards(w, r, drift_short_s(w, r));
}

/// Round-trip, long form, even drift: as in the short even case, but the
/// marker sits one column later and the fold covers the overflow cell.
pub proof fn lemma_round_trip_long_even(w: RowWindow, r: int)
    requires
        w.wf(),
        w.q_enable == 1,
        w.is_long == 1,
        w.is_short == 0,
        w.sel2 == 1,
        w.sel1 == 0,
        w.is_branch_s_placeholder + w.is_branch_c_placeholder == 1,
        w.drifted_pos < 16,
        w.leaf.s_advices[1] == 32,
        w.is_branch_s_placeholder == 1 ==> w.leaf_key_s_rlc as int == fadd_s(
            drift_start_s(w),
            mfold_at(long_tail(w), r, key_m_s(w), 1),
        ),
        w.is_branch_c_placeholder == 1 ==> w.leaf_key_c_rlc as int == fadd_s(
            drift_start_s(w),
            mfold_at(long_tail(w), r, key_m_s(w), 1),
        ),
    ensures
        drift_gate_holds(w, r),
{
    let m = key_m_s(w);
    let t = mfold_at(long_tail(w), r, m, 1);
    assert(odd_byte_term_s(w, 32) == 0) by {
        lemma_fmul_zero(m);
        lemma_fmul_zero(fsub_s(32, 48));
    }
    lemma_in_field_fadd(w.key_rlc_cur as int, fmul_s(w.drifted_pos as int, fmul_s(16, m)));
    lemma_fadd_zero(drift_start_s(w));
    assert(drift_long_s(w, r) == fadd_s(drift_start_s(w), t));
    lemma_round_trip_guards(w, r, drift_long_s(w, r));
}

/// Round-trip, long form, odd drift: as in the short odd case, with the
/// marker byte one column later and the overflow cell folded in.
pub proof fn lemma_round_trip_long_odd(w: RowWindow, r: int)
    requires
        w.wf(),
        w.q_enable == 1,
        w.is_long == 1,
        w.is_short == 0,
        w.sel1 == 1,
        w.sel2 == 0,
        w.is_branch_s_placeholder + w.is_branch_c_placeholder == 1,
        w.drifted_pos < 16,
        48 <= w.leaf.s_advices[1] < 64,
        w.is_branch_s_placeholder == 1 ==> w.leaf_key_s_rlc as int == fadd_s(
            fadd_s(
                w.key_rlc_cur as int,
                fmul_s(
                    16 * (w.drifted_pos as int) + (w.leaf.s_advices[1] as int - 48),
                    key_m_s(w),
                ),
            ),
            mfold_at(long_tail(w), r, key_m_s(w), 1),
        ),
        w.is_branch_c_placeholder == 1 ==> w.leaf_key_c_rlc as int == fadd_s(
            fadd_s(
                w.key_rlc_cur as int,
                fmul_s(
                    16 * (w.drifted_pos as int) + (w.leaf.s_advices[1] as int - 48),
                    key_m_s(w),
                ),
            ),
            mfold_at(long_tail(w), r, key_m_s(w), 1),
        ),
    ensures
        drift_gate_holds(w, r),
{
    let m = key_m_s(w);
    let a1 = w.leaf.s_advices[1] as int;
    let p = w.drifted_pos as int;
    lemma_odd_byte_fuses(w, a1);
    lemma_fuse_nibble(w.key_rlc_cur as int, p, a1 - 48, m);
    assert(fadd_s(drift_start_s(w), odd_byte_term_s(w, a1)) == fadd_s(
        w.key_rlc_cur as int,
        fmul_s(16 * p + (a1 - 48), m),
    ));
    lemma_round_trip_guards(w, r, drift_long_s(w, r));
}

/// With the parity selector on, the marker byte's contribution simplifies
/// to its low nibble scaled by the current multiplier.
proof fn lemma_odd_byte_fuses(w: RowWindow, byte: int)
    requires
        w.sel1 == 1,
        48 <= byte < 64,
    ensures
        odd_byte_term_s(w, byte) == fmul_s(byte - 48, key_m_s(w)),
{
    let m = key_m_s(w);
    lemma_in_field_fmul(w.branch_rlc_mult as int, w.mult_diff as int);
    lemma_fmul_one(m);
    lemma_small_mod((byte - 48) as nat, FIELD_MODULUS as nat);
}

/// Once the recomputed fingerprint of the active class equals the stored
/// one, every residual of the drift gate vanishes: active guards see equal
/// values and inactive guards zero-force their constraints.
proof fn lemma_round_trip_guards(w: RowWindow, r: int, rec: int)
    requires
        w.wf(),
        w.q_enable == 1,
        w.sel2 == 0 || w.sel2 == 1,
        w.is_short + w.is_long == 1,
        w.is_branch_s_placeholder + w.is_branch_c_placeholder == 1,
        w.is_short == 1 ==> rec == drift_short_s(w, r),
        w.is_long == 1 ==> rec == drift_long_s(w, r),
        w.is_short == 1 && w.sel2 == 1 ==> w.leaf.s_advices[0] == 32,
        w.is_long == 1 && w.sel2 == 1 ==> w.leaf.s_advices[1] == 32,
        w.is_branch_s_placeholder == 1 ==> w.leaf_key_s_rlc as int == rec,
        w.is_branch_c_placeholder == 1 ==> w.leaf_key_c_rlc as int == rec,
    ensures
        drift_gate_holds(w, r),
{
    lemma_marker_vanishes(w);
    lemma_zero_residuals(w, r, rec);
}

/// Both marker residuals vanish whenever the active class's marker byte is
/// the bare even-length marker, the parity selector is off, or the class
/// itself is off.
proof fn lemma_marker_vanishes(w: RowWindow)
    requires
        w.q_enable == 1,
        w.sel2 == 0 || w.sel2 == 1,
        w.is_short + w.is_long == 1,
        w.is_short == 1 && w.sel2 == 1 ==> w.leaf.s_advices[0] == 32,
        w.is_long == 1 && w.sel2 == 1 ==> w.leaf.s_advices[1] == 32,
    ensures
        marker_short_s(w) == 0,
        marker_long_s(w) == 0,
{
    lemma_fsub_self(32);
    lemma_fmul_zero(1);
    lemma_fmul_zero(w.sel2 as int);
    lemma_fmul_zero(w.is_short as int);
    lemma_fmul_zero(w.is_long as int);
    lemma_fmul_zero(fsub_s(w.leaf.s_advices[0] as int, 32));
    lemma_fmul_zero(fsub_s(w.leaf.s_advices[1] as int, 32));
    lemma_fmul_zero(fmul_s(w.sel2 as int, w.is_short as int));
    lemma_fmul_zero(fmul_s(w.sel2 as int, w.is_long as int));
}

/// The four guarded fingerprint equalities vanish when the active side's
/// stored fingerprint equals the active class's reconstruction.
proof fn lemma_zero_residuals(w: RowWindow, r: int, rec: int)
    requires
        w.wf(),
        w.q_enable == 1,
        w.is_short + w.is_long == 1,
        w.is_branch_s_placeholder + w.is_branch_c_placeholder == 1,
        w.is_short == 1 ==> rec == drift_short_s(w, r),
        w.is_long == 1 ==> rec == drift_long_s(w, r),
        w.is_branch_s_placeholder == 1 ==> w.leaf_key_s_rlc as int == rec,
        w.is_branch_c_placeholder == 1 ==> w.leaf_key_c_rlc as int == rec,
    ensures
        drift_residuals_s(w, r).1 == 0,
        drift_residuals_s(w, r).2 == 0,
        drift_residuals_s(w, r).4 == 0,
        drift_residuals_s(w, r).5 == 0,
{
    let q = w.q_enable as int;
    let sp = w.is_branch_s_placeholder as int;
    let cp = w.is_branch_c_placeholder as int;
    let sh = w.is_short as int;
    let lo = w.is_long as int;
    let sts = w.leaf_key_s_rlc as int;
    let stc = w.leaf_key_c_rlc as int;
    let rs = drift_short_s(w, r);
    let rl = drift_long_s(w, r);
    if sp == 1 && sh == 1 {
        lemma_key_residual_unit(sts, rs);
        assert(fsub_s(sts, rs) == 0);
    } else {
        lemma_key_residual_gated(q, sp, sh, sts, rs);
    }
    if cp == 1 && sh == 1 {
        lemma_key_residual_unit(stc, rs);
        assert(fsub_s(stc, rs) == 0);
    } else {
        lemma_key_residual_gated(q, cp, sh, stc, rs);
    }
    if sp == 1 && lo == 1 {
        lemma_key_residual_unit(sts, rl);
        assert(fsub_s(sts, rl) == 0);
    } else {
        lemma_key_residual_gated(q, sp, lo, sts, rl);
    }
    if cp == 1 && lo == 1 {
        lemma_key_residual_unit(stc, rl);
        assert(fsub_s(stc, rl) == 0);
    } else {
        lemma_key_residual_gated(q, cp, lo, stc, rl);
    }
}

/// Flipping a single payload byte under an active short class and before
/// placeholder breaks the fingerprint equality, unless that byte's fold
/// multiplier collapses to zero in the field (a zero running multiplier
/// hides any flip), which the last premise excludes.
pub proof fn lemma_flip_payload_byte(w: RowWindow, w2: RowWindow, j: int, r: int)
    requires
        w.wf(),
        w2.wf(),
        w.q_enable == 1,
        w.is_branch_s_placeholder == 1,
        w.is_short == 1,
        w2.q_enable == w.q_enable,
        w2.is_branch_s_placeholder == w.is_branch_s_placeholder,
        w2.is_short == w.is_short,
        w2.sel1 == w.sel1,
        w2.leaf_key_s_rlc == w.leaf_key_s_rlc,
        w2.key_rlc_cur == w.key_rlc_cur,
        w2.branch_rlc_mult == w.branch_rlc_mult,
        w2.mult_diff == w.mult_diff,
        w2.drifted_pos == w.drifted_pos,
        1 <= j < 32,
        w2.leaf.s_advices@ == w.leaf.s_advices@.update(j, w2.leaf.s_advices[j]),
        drift_residuals_s(w, r).1 == 0,
        fmul_s(
            fsub_s(w2.leaf.s_advices[j] as int, w.leaf.s_advices[j] as int),
            fmul_s(key_m_s(w), fpow_s(r, j as nat)),
        ) != 0,
    ensures
        drift_residuals_s(w2, r).1 != 0,
{
    let m = key_m_s(w);
    let st = w.leaf_key_s_rlc as int;
    let b1 = w.leaf.s_advices[j] as int;
    let b2 = w2.leaf.s_advices[j] as int;
    let dterm = fmul_s(fsub_s(b2, b1), fmul_s(m, fpow_s(r, j as nat)));
    assert(w2.leaf.s_advices[0] == w.leaf.s_advices[0]) by {
        assert(w2.leaf.s_advices@[0] == w.leaf.s_advices@.update(j, w2.leaf.s_advices[j])[0]);
    }
    assert(key_m_s(w2) == m);
    assert(drift_start_s(w2) == drift_start_s(w));
    let odd = odd_byte_term_s(w, w.leaf.s_advices[0] as int);
    assert(odd_byte_term_s(w2, w2.leaf.s_advices[0] as int) == odd);
    assert forall|i: int| 0 <= i < 31 implies short_tail(w2)[i] == short_tail(w).update(
        j - 1,
        b2,
    )[i] by {
        assert(w2.leaf.s_advices@[i + 1] == w.leaf.s_advices@.update(
            j,
            w2.leaf.s_advices[j],
        )[i + 1]);
    }
    assert(short_tail(w2) =~= short_tail(w).update(j - 1, b2));
    lemma_mfold_update(short_tail(w), j - 1, b2, r, m, 1 as nat);
    let t1 = mfold_at(short_tail(w), r, m, 1);
    let t2 = mfold_at(short_tail(w2), r, m, 1);
    assert(short_tail(w)[j - 1] == b1);
    assert(t2 == fadd_s(t1, dterm));
    let base = fadd_s(drift_start_s(w), odd);
    let rec1 = drift_short_s(w, r);
    let rec2 = drift_short_s(w2, r);
    assert(rec1 == fadd_s(base, t1));
    assert(rec2 == fadd_s(base, t2));
    lemma_key_residual_unit(st, rec1);
    lemma_in_field_fadd(base, t1);
    lemma_in_field_fadd(base, t2);
    crate::field::lemma_fsub_zero_iff(st, rec1);
    assert(st == rec1);
    lemma_key_residual_unit(st, rec2);
    crate::field::lemma_fsub_fadd_cancel(t1, t2, base);
    assert(fsub_s(rec1, rec2) == fsub_s(t1, t2));
    crate::rlc::lemma_mfold_in_field(short_tail(w), r, m, 1 as nat);
    crate::rlc::lemma_mfold_in_field(short_tail(w2), r, m, 1 as nat);
    lemma_in_field_fmul(fsub_s(b2, b1), fmul_s(m, fpow_s(r, j as nat)));
    crate::field::lemma_fadd_zero_iff(t1, dterm);
    assert(t1 != t2);
    crate::field::lemma_fsub_zero_iff(t1, t2);
    assert(drift_residuals_s(w2, r).1 == fsub_s(st, rec2));
}

/// Flipping the parity selectors of an odd-parity short witness, while the
/// gate stays active, turns the even-parity marker constraint non-zero:
/// the marker byte still carries the odd-length marker and a key nibble.
pub proof fn lemma_flip_parity_selector(w: RowWindow, w2: RowWindow)
    requires
        w.wf(),
        w2.wf(),
        w.q_enable == 1,
        w.is_short == 1,
        w.sel1 == 1,
        w.sel2 == 0,
        48 <= w.leaf.s_advices[0] < 64,
        w2.q_enable == 1,
        w2.is_short == 1,
        w2.sel1 == 0,
        w2.sel2 == 1,
        w2.leaf.s_advices@ == w.leaf.s_advices@,
    ensures
        marker_short_s(w2) != 0,
{
    let a0 = w2.leaf.s_advices[0] as int;
    assert(w2.leaf.s_advices@[0] == w.leaf.s_advices@[0]);
    assert(48 <= a0 < 64);
    lemma_small_mod((a0 - 32) as nat, FIELD_MODULUS as nat);
    assert(fsub_s(a0, 32) == a0 - 32);
    lemma_f_one();
    lemma_fmul_one(fsub_s(a0, 32));
    assert(marker_short_s(w2) == a0 - 32);
}

/// Flipping the drifted position under an active short class and before
/// placeholder breaks the fingerprint equality, unless the position's
/// multiplier collapses to zero in the field, which the last premise
/// excludes.
pub proof fn lemma_flip_drifted_pos(w: RowWindow, w2: RowWindow, r: int)
    requires
        w.wf(),
        w2.wf(),
        w.q_enable == 1,
        w.is_branch_s_placeholder == 1,
        w.is_short == 1,
        w2.q_enable == w.q_enable,
        w2.is_branch_s_placeholder == w.is_branch_s_placeholder,
        w2.is_short == w.is_short,
        w2.sel1 == w.sel1,
        w2.leaf_key_s_rlc == w.leaf_key_s_rlc,
        w2.key_rlc_cur == w.key_rlc_cur,
        w2.branch_rlc_mult == w.branch_rlc_mult,
        w2.mult_diff == w.mult_diff,
        w2.c_rlp1 == w.c_rlp1,
        w2.leaf.s_advices@ == w.leaf.s_advices@,
        drift_residuals_s(w, r).1 == 0,
        fmul_s(
            fsub_s(w2.drifted_pos as int, w.drifted_pos as int),
            fmul_s(16, key_m_s(w)),
        ) != 0,
    ensures
        drift_residuals_s(w2, r).1 != 0,
{
    let m = key_m_s(w);
    let st = w.leaf_key_s_rlc as int;
    let q16 = fmul_s(16, m);
    let p1 = w.drifted_pos as int;
    let p2 = w2.drifted_pos as int;
    let ps1 = fmul_s(p1, q16);
    let ps2 = fmul_s(p2, q16);
    assert(key_m_s(w2) == m);
    crate::field::lemma_fmul_sub_dist(p2, p1, q16);
    lemma_in_field_fmul(p1, q16);
    lemma_in_field_fmul(p2, q16);
    crate::field::lemma_fsub_zero_iff(ps2, ps1);
    assert(ps2 != ps1);
    let up = w.key_rlc_cur as int;
    let s1 = drift_start_s(w);
    let s2 = drift_start_s(w2);
    assert(s1 == fadd_s(up, ps1));
    assert(s2 == fadd_s(up, ps2));
    assert(w2.leaf.s_advices[0] == w.leaf.s_advices[0]);
    let odd = odd_byte_term_s(w, w.leaf.s_advices[0] as int);
    assert(odd_byte_term_s(w2, w2.leaf.s_advices[0] as int) == odd);
    assert(advices_ints(w2.leaf) =~= advices_ints(w.leaf));
    assert(short_tail(w2) == short_tail(w));
    let t = mfold_at(short_tail(w), r, m, 1);
    let a1 = fadd_s(s1, odd);
    let a2 = fadd_s(s2, odd);
    let rec1 = drift_short_s(w, r);
    let rec2 = drift_short_s(w2, r);
    assert(rec1 == fadd_s(a1, t));
    assert(rec2 == fadd_s(a2, t));
    lemma_key_residual_unit(st, rec1);
    lemma_in_field_fadd(a1, t);
    lemma_in_field_fadd(a2, t);
    crate::field::lemma_fsub_zero_iff(st, rec1);
    assert(st == rec1);
    lemma_key_residual_unit(st, rec2);
    assert(fadd_s(a1, t) == fadd_s(t, a1));
    assert(fadd_s(a2, t) == fadd_s(t, a2));
    crate::field::lemma_fsub_fadd_cancel(a1, a2, t);
    crate::field::lemma_fsub_fadd_cancel(s1, s2, odd);
    assert(fadd_s(s1, odd) == fadd_s(odd, s1));
    assert(fadd_s(s2, odd) == fadd_s(odd, s2));
    crate::field::lemma_fsub_fadd_cancel(ps1, ps2, up);
    assert(fsub_s(rec1, rec2) == fsub_s(ps1, ps2));
    crate::field::lemma_fsub_zero_iff(ps1, ps2);
    assert(drift_residuals_s(w2, r).1 == fsub_s(st, rec2));
}

/// Evaluates the drift-consistency gate on a witness.
pub fn check_drift_gate(w: &RowWindow, rt: &Vec<u64>, r: u64) -> (ok: bool)
    requires
        w.wf(),
        r_table_wf(rt@, r as int),
    ensures
        ok == drift_gate_holds(*w, r as int),
{
    let res = drift_residuals(w, rt, r);
    res.marker_short == 0 && res.key_s_short == 0 && res.key_c_short == 0 && res.marker_long == 0
        && res.key_s_long == 0 && res.key_c_long == 0
}

} // verus!
