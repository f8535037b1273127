use mpt::chip::LeafKeyInAddedBranchChip;
use mpt::drift::{check_drift_gate, drift_short_rlc};
use mpt::field::{build_r_table, fadd, fmul, fpow, fsub, FIELD_MODULUS};
use mpt::hash::{check_hash_lookup_after, check_hash_lookup_before, leaf_with_value_rlc, HashRow};
use mpt::lookups::{
    build_rmult_table, check_long_mult_lookup, check_short_mult_lookup, lookup_fixed, RMULT_TAG,
};
use mpt::rlc::{leaf_encoding_rlc, rlc_gate_residual};
use mpt::window::{LeafRow, RowWindow};

fn zero_leaf_row() -> LeafRow {
    LeafRow { s_rlp1: 0, s_rlp2: 0, s_advices: [0u64; 32] }
}

fn base_window() -> RowWindow {
    RowWindow {
        q_enable: 1,
        leaf: zero_leaf_row(),
        c_rlp1: 0,
        acc: 0,
        acc_mult: 0,
        is_long: 0,
        is_short: 0,
        sel1: 0,
        sel2: 0,
        is_branch_s_placeholder: 0,
        is_branch_c_placeholder: 0,
        key_rlc_cur: 0,
        branch_rlc_mult: 1,
        mult_diff: 1,
        leaf_key_s_rlc: 0,
        leaf_key_c_rlc: 0,
        drifted_pos: 0,
        value_s: zero_leaf_row(),
        value_c: zero_leaf_row(),
        s_hash: [0u64; 4],
        c_hash: [0u64; 4],
    }
}

#[test]
fn field_ops_exact_values() {
    assert_eq!(fadd(FIELD_MODULUS - 1, 5), 4);
    assert_eq!(fadd(3, 4), 7);
    assert_eq!(fsub(3, 5), FIELD_MODULUS - 2);
    assert_eq!(fsub(5, 3), 2);
    assert_eq!(fmul(3, 4), 12);
    // The modulus is 2^61 - 1, so 2^61 reduces to exactly 1.
    assert_eq!(fpow(2, 61), 1);
    assert_eq!(fpow(2, 62), 2);
}

#[test]
fn r_table_holds_successive_powers() {
    let r: u64 = 0x1234_5678;
    let rt = build_r_table(r);
    assert_eq!(rt.len(), 32);
    assert_eq!(rt[0], r);
    assert_eq!(rt[1], fmul(r, r));
    assert_eq!(rt[31], fpow(r, 32));
}

#[test]
fn encoding_rlc_matches_direct_sum_with_wrap() {
    // Fill every cell, including the overflow cell past the 32-wide power
    // table, so the fold has to wrap.
    let r: u64 = 131;
    let rt = build_r_table(r);
    let mut w = base_window();
    w.leaf.s_rlp1 = 226;
    w.leaf.s_rlp2 = 160;
    for i in 0..32 {
        w.leaf.s_advices[i] = (10 + i) as u64;
    }
    w.c_rlp1 = 250;
    let got = leaf_encoding_rlc(&w, &rt, r);
    let mut expected: u64 = 0;
    expected = fadd(expected, fmul(226, fpow(r, 0)));
    expected = fadd(expected, fmul(160, fpow(r, 1)));
    for i in 0..32 {
        expected = fadd(expected, fmul((10 + i) as u64, fpow(r, (i + 2) as u64)));
    }
    expected = fadd(expected, fmul(250, fpow(r, 34)));
    assert_eq!(got, expected);
}

#[test]
fn rlc_gate_residual_zero_iff_acc_matches() {
    let r: u64 = 97;
    let rt = build_r_table(r);
    let mut w = base_window();
    w.leaf.s_rlp1 = 226;
    w.leaf.s_rlp2 = 160;
    w.leaf.s_advices[0] = 32;
    w.leaf.s_advices[1] = 0x58;
    w.leaf.s_advices[2] = 0x9c;
    w.acc = leaf_encoding_rlc(&w, &rt, r);
    assert_eq!(rlc_gate_residual(&w, &rt, r), 0);
    w.acc = fadd(w.acc, 1);
    assert_ne!(rlc_gate_residual(&w, &rt, r), 0);
}

#[test]
fn multiplier_agreement_short_and_long() {
    // For every key length, the locally implied step count must meet the
    // table's own challenge power, for both encoding classes.
    let r: u64 = 123_457;
    let table = build_rmult_table(r, 40);
    for len in 0u64..34 {
        let mut w = base_window();
        w.is_short = 1;
        w.leaf.s_rlp2 = 128 + len;
        w.acc_mult = fpow(r, len + 2);
        assert!(check_short_mult_lookup(&w, &table), "short, len {}", len);
        let mut wl = base_window();
        wl.is_long = 1;
        wl.leaf.s_advices[0] = 128 + len;
        wl.acc_mult = fpow(r, len + 3);
        assert!(check_long_mult_lookup(&wl, &table), "long, len {}", len);
    }
}

#[test]
fn multiplier_disagreement_fails_lookup() {
    let r: u64 = 123_457;
    let table = build_rmult_table(r, 40);
    let mut w = base_window();
    w.is_short = 1;
    w.leaf.s_rlp2 = 128 + 5;
    w.acc_mult = fpow(r, 8);  // the short class implies 7 steps, not 8
    assert!(!check_short_mult_lookup(&w, &table));
    w.acc_mult = fpow(r, 7);
    assert!(check_short_mult_lookup(&w, &table));
}

#[test]
fn inactive_class_lookup_degenerates_to_guard_row() {
    let r: u64 = 99;
    let table = build_rmult_table(r, 40);
    let mut w = base_window();
    // Short class off: the scaled tuple is (tag, 0, 0), the guard row.
    w.is_short = 0;
    w.leaf.s_rlp2 = 200;
    w.acc_mult = 12345;
    assert!(check_short_mult_lookup(&w, &table));
    assert!(lookup_fixed(&table, RMULT_TAG, 0, 0));
}

#[test]
fn guard_products_are_one_hot() {
    // Over every one-hot selector assignment, exactly one of the four
    // parity-times-class guard products is non-zero.
    for parity in 0..2u64 {
        for class in 0..2u64 {
            let sel1 = parity;
            let sel2 = 1 - parity;
            let is_short = class;
            let is_long = 1 - class;
            let products = [
                fmul(sel1, is_short),
                fmul(sel2, is_short),
                fmul(sel1, is_long),
                fmul(sel2, is_long),
            ];
            let ones = products.iter().filter(|&&p| p == 1).count();
            let zeros = products.iter().filter(|&&p| p == 0).count();
            assert_eq!(ones, 1);
            assert_eq!(zeros, 3);
        }
    }
}

/// Builds the short-form even-drift scenario: key bytes `[0x20, 0x58, 0x9c]`
/// after nibble 7 was removed at position 0 and the even marker applied;
/// the pre-drift leaf carried `[0x27, 0x58, 0x9c]`.
fn scenario_even_short(r: u64, rt: &[u64]) -> RowWindow {
    let _ = rt;
    let mut w = base_window();
    w.is_short = 1;
    w.sel2 = 1;
    w.is_branch_s_placeholder = 1;
    w.drifted_pos = 7;
    w.leaf.s_rlp1 = 226;
    w.leaf.s_rlp2 = 160;
    w.leaf.s_advices[0] = 0x20;
    w.leaf.s_advices[1] = 0x58;
    w.leaf.s_advices[2] = 0x9c;
    w.key_rlc_cur = 1000;
    w.branch_rlc_mult = 3;
    w.mult_diff = 5;
    // The pre-drift fingerprint: upstream, then the drifted nibble in the
    // high half of its byte, then the unchanged key bytes.
    let m = fmul(w.branch_rlc_mult, w.mult_diff);
    let mut expected = fadd(w.key_rlc_cur, fmul(7, fmul(16, m)));
    expected = fadd(expected, fmul(0x58, fmul(m, fpow(r, 1))));
    expected = fadd(expected, fmul(0x9c, fmul(m, fpow(r, 2))));
    w.leaf_key_s_rlc = expected;
    w
}

#[test]
fn scenario_even_short_satisfies_only_its_branch() {
    let r: u64 = 7919;
    let rt = build_r_table(r);
    let w = scenario_even_short(r, &rt);
    assert!(check_drift_gate(&w, &rt, r));

    // Odd parity instead: the reconstruction gains a marker term and the
    // equality breaks.
    let mut w_odd = w.clone();
    w_odd.sel1 = 1;
    w_odd.sel2 = 0;
    assert!(!check_drift_gate(&w_odd, &rt, r));

    // Long class, even parity: the long marker constraint sees 0x58.
    let mut w_long = w.clone();
    w_long.is_short = 0;
    w_long.is_long = 1;
    assert!(!check_drift_gate(&w_long, &rt, r));

    // Long class, odd parity: the shifted long reconstruction disagrees.
    let mut w_long_odd = w.clone();
    w_long_odd.is_short = 0;
    w_long_odd.is_long = 1;
    w_long_odd.sel1 = 1;
    w_long_odd.sel2 = 0;
    assert!(!check_drift_gate(&w_long_odd, &rt, r));
}

#[test]
fn negative_flips_break_the_active_equality() {
    let r: u64 = 7919;
    let rt = build_r_table(r);
    let w = scenario_even_short(r, &rt);
    assert!(check_drift_gate(&w, &rt, r));

    // A single payload byte.
    let mut w_byte = w.clone();
    w_byte.leaf.s_advices[1] = 0x59;
    assert!(!check_drift_gate(&w_byte, &rt, r));

    // The drifted position.
    let mut w_pos = w.clone();
    w_pos.drifted_pos = 8;
    assert!(!check_drift_gate(&w_pos, &rt, r));

    // A selector.
    let mut w_sel = w.clone();
    w_sel.sel1 = 1;
    w_sel.sel2 = 0;
    assert!(!check_drift_gate(&w_sel, &rt, r));

    // The stored fingerprint itself.
    let mut w_st = w.clone();
    w_st.leaf_key_s_rlc = fadd(w_st.leaf_key_s_rlc, 1);
    assert!(!check_drift_gate(&w_st, &rt, r));
}

#[test]
fn scenario_long_odd_full_width_key() {
    // A 32-byte key in the long form: header [0xf8, 0x43, 0x9f], the first
    // payload byte one smaller than in the pre-drift row, the freed nibble
    // carried by the odd marker byte, and the fold reaching the overflow
    // cell.
    let r: u64 = 65537;
    let rt = build_r_table(r);
    let p: u64 = 0xa;
    let l: u64 = 0x3;
    let mut w = base_window();
    w.is_long = 1;
    w.sel1 = 1;
    w.is_branch_c_placeholder = 1;
    w.drifted_pos = p;
    w.leaf.s_rlp1 = 0xf8;
    w.leaf.s_rlp2 = 0x43;
    w.leaf.s_advices[0] = 0x9f;
    w.leaf.s_advices[1] = 48 + l;
    for i in 2..32 {
        w.leaf.s_advices[i] = (0x40 + i) as u64;
    }
    w.c_rlp1 = 0x7d;
    w.key_rlc_cur = 424_242;
    w.branch_rlc_mult = 11;
    w.mult_diff = 13;
    let m = fmul(w.branch_rlc_mult, w.mult_diff);
    // Upstream, then the original first key byte (drifted nibble in its
    // high half), then the shifted key bytes and the overflow cell.
    let mut expected = fadd(w.key_rlc_cur, fmul(16 * p + l, m));
    for i in 2..32 {
        expected = fadd(
            expected,
            fmul((0x40 + i) as u64, fmul(m, fpow(r, (i - 1) as u64))),
        );
    }
    expected = fadd(expected, fmul(0x7d, fmul(m, fpow(r, 31))));
    w.leaf_key_c_rlc = expected;
    assert!(check_drift_gate(&w, &rt, r));

    // Even parity instead: the long marker constraint sees 48 + l.
    let mut w_even = w.clone();
    w_even.sel1 = 0;
    w_even.sel2 = 1;
    assert!(!check_drift_gate(&w_even, &rt, r));

    // Short class instead, either parity: the unshifted reconstruction
    // disagrees.
    let mut w_short = w.clone();
    w_short.is_long = 0;
    w_short.is_short = 1;
    assert!(!check_drift_gate(&w_short, &rt, r));
    let mut w_short_even = w_short.clone();
    w_short_even.sel1 = 0;
    w_short_even.sel2 = 1;
    assert!(!check_drift_gate(&w_short_even, &rt, r));
}

#[test]
fn scenario_hash_membership() {
    // An encoded leaf whose fingerprint, continued over the value row with
    // the stored multiplier, pairs with the branch's stored hash words in
    // the hash table, under the before-placeholder guard.
    let r: u64 = 1009;
    let rt = build_r_table(r);
    let mut w = base_window();
    w.is_branch_s_placeholder = 1;
    w.acc = 777_777;
    w.acc_mult = fpow(r, 5);
    w.value_s.s_rlp1 = 198;
    w.value_s.s_rlp2 = 130;
    w.value_s.s_advices[0] = 17;
    w.value_s.s_advices[1] = 34;
    w.s_hash = [111, 222, 333, 444];
    let value_row = w.value_s;
    let input = leaf_with_value_rlc(&w, &value_row, &rt, r);
    let table = vec![
        HashRow { input_rlc: 0, output: [0, 0, 0, 0] },
        HashRow { input_rlc: input, output: [111, 222, 333, 444] },
    ];
    assert!(check_hash_lookup_before(&w, &rt, r, &table));
    // The after side has no placeholder: its tuple degenerates to the
    // all-zero row.
    assert!(check_hash_lookup_after(&w, &rt, r, &table));

    // Unrelated output bytes must fail.
    let bad_table = vec![
        HashRow { input_rlc: 0, output: [0, 0, 0, 0] },
        HashRow { input_rlc: input, output: [111, 222, 333, 445] },
    ];
    assert!(!check_hash_lookup_before(&w, &rt, r, &bad_table));

    // A flipped value byte changes the fingerprint and must also fail.
    let mut w_bad = w;
    w_bad.value_s.s_advices[0] = 18;
    assert!(!check_hash_lookup_before(&w_bad, &rt, r, &table));
}

#[test]
fn chip_accepts_a_fully_consistent_witness() {
    let r: u64 = 2027;
    let config = LeafKeyInAddedBranchChip::configure(r);
    assert_eq!(config.r, r);
    let chip = LeafKeyInAddedBranchChip::construct(config);
    let rt = build_r_table(r);

    let mut w = scenario_even_short(r, &rt);
    // Key length 2 declared by the short header: 2 + 2 = 4 steps.
    w.leaf.s_rlp2 = 128 + 2;
    w.acc_mult = fpow(r, 4);
    w.acc = leaf_encoding_rlc(&w, &rt, r);
    // Rebuild the drift target: s_rlp2 changed nothing in the key cells.
    w.s_hash = [9, 8, 7, 6];
    let value_row = w.value_s;
    let input = leaf_with_value_rlc(&w, &value_row, &rt, r);
    let fixed = build_rmult_table(r, 40);
    let hashes = vec![
        HashRow { input_rlc: 0, output: [0, 0, 0, 0] },
        HashRow { input_rlc: input, output: [9, 8, 7, 6] },
    ];
    assert!(chip.satisfied(&w, &fixed, &hashes));

    // Any broken piece makes the whole gadget unsatisfied.
    let mut w_bad = w.clone();
    w_bad.acc = fadd(w_bad.acc, 1);
    assert!(!chip.satisfied(&w_bad, &fixed, &hashes));
    let mut w_bad2 = w.clone();
    w_bad2.drifted_pos = 3;
    assert!(!chip.satisfied(&w_bad2, &fixed, &hashes));
    let mut w_bad3 = w.clone();
    w_bad3.acc_mult = fpow(r, 5);
    assert!(!chip.satisfied(&w_bad3, &fixed, &hashes));
}

#[test]
fn drift_reconstruction_exact_value() {
    // One exact expected value for the short-form reconstruction formula.
    let r: u64 = 10;
    let rt = build_r_table(r);
    let mut w = base_window();
    w.sel1 = 1;
    w.key_rlc_cur = 5;
    w.branch_rlc_mult = 2;
    w.mult_diff = 3;
    w.drifted_pos = 1;
    w.leaf.s_advices[0] = 49;  // odd marker plus nibble 1
    w.leaf.s_advices[1] = 7;
    // up + p*16*m + (a0-48)*m + a1*m*r = 5 + 96 + 6 + 420 = 527
    assert_eq!(drift_short_rlc(&w, &rt, r), 527);
}
