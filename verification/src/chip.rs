//! The drifted-leaf chip: the public surface of the gadget.
//!
//! Configuration precomputes the shared challenge-power table once; the
//! constructed chip then decides, for any row window and any pair of lookup
//! tables, whether the complete constraint set of the gadget is satisfied:
//! the encoding-fingerprint gate, the two length-consistency lookups, the
//! drift-consistency gate and the two hash-membership lookups.

use crate::drift::{check_drift_gate, drift_gate_holds};
use crate::field::{build_r_table, r_table_wf, FIELD_MODULUS};
use crate::hash::{
    check_hash_lookup_after, check_hash_lookup_before, hash_lookup_after_holds,
    hash_lookup_before_holds, HashRow,
};
use crate::lookups::{
    check_long_mult_lookup, check_short_mult_lookup, long_mult_lookup_holds,
    short_mult_lookup_holds, FixedRow,
};
use crate::rlc::{rlc_gate_holds, rlc_gate_residual};
use crate::window::RowWindow;
use vstd::prelude::*;

verus! {

/// Every constraint the gadget contributes is satisfied by the witness:
/// gates have zero residuals and lookup tuples appear in their tables.
pub open spec fn gadget_holds(
    w: RowWindow,
    r: int,
    fixed: Seq<FixedRow>,
    hashes: Seq<HashRow>,
) -> bool {
    &&& rlc_gate_holds(w, r)
    &&& short_mult_lookup_holds(w, fixed)
    &&& long_mult_lookup_holds(w, fixed)
    &&& drift_gate_holds(w, r)
    &&& hash_lookup_before_holds(w, hashes, r)
    &&& hash_lookup_after_holds(w, hashes, r)
}

/// Configuration of the drifted-leaf gadget: the challenge and its
/// precomputed power table, shared by every gate.
pub struct LeafKeyInAddedBranchConfig {
    /// The shared verifier challenge.
    pub r: u64,
    /// The table of challenge powers the folds read.
    pub r_table: Vec<u64>,
}

impl LeafKeyInAddedBranchConfig {
    /// The power table matches the challenge.
    pub open spec fn wf(self) -> bool {
        &&& self.r < FIELD_MODULUS
        &&& r_table_wf(self.r_table@, self.r as int)
    }
}

/// The drifted-leaf verification chip.
pub struct LeafKeyInAddedBranchChip {
    config: LeafKeyInAddedBranchConfig,
}

impl LeafKeyInAddedBranchChip {
    /// Builds the gadget configuration for a verifier challenge.
    pub fn configure(r: u64) -> (config: LeafKeyInAddedBranchConfig)
        requires
            r < FIELD_MODULUS,
        ensures
            config.wf(),
            config.r == r,
    {
        let r_table = build_r_table(r);
        LeafKeyInAddedBranchConfig { r, r_table }
    }

    /// Wraps a configuration into a chip.
    pub fn construct(config: LeafKeyInAddedBranchConfig) -> (chip: Self)
        ensures
            chip.spec_config() == config,
    {
        Self { config }
    }

    /// The chip's configuration.
    pub fn config(&self) -> (config: &LeafKeyInAddedBranchConfig)
        ensures
            config == self.spec_config(),
    {
        &self.config
    }

    /// The chip carries no loaded state beyond its configuration.
    pub fn loaded(&self) {
    }

    /// The configuration the chip was constructed with.
    pub closed spec fn spec_config(self) -> LeafKeyInAddedBranchConfig {
        self.config
    }

    /// Decides whether a witness satisfies every constraint of the gadget
    /// against the given fixed and hash tables.
    pub fn satisfied(
        &self,
        w: &RowWindow,
        fixed: &Vec<FixedRow>,
        hashes: &Vec<HashRow>,
    ) -> (ok: bool)
        requires
            self.spec_config().wf(),
            w.wf(),
        ensures
            ok == gadget_holds(*w, self.spec_config().r as int, fixed@, hashes@),
    {
        let rt = &self.config.r_table;
        let r = self.config.r;
        let rlc_ok = rlc_gate_residual(w, rt, r) == 0;
        let short_ok = check_short_mult_lookup(w, fixed);
        let long_ok = check_long_mult_lookup(w, fixed);
        let drift_ok = check_drift_gate(w, rt, r);
        let before_ok = check_hash_lookup_before(w, rt, r, hashes);
        let after_ok = check_hash_lookup_after(w, rt, r, hashes);
        rlc_ok && short_ok && long_ok && drift_ok && before_ok && after_ok
    }
}

} // verus!
