//! The typed row window of the drifted-leaf gadget.
//!
//! The circuit reads every value it constrains from named columns at fixed
//! row offsets around the drifted-leaf row.  Here those cells become named
//! fields, resolved once by the surrounding layout planner; the
//! relative-positioning contract is unchanged, only the magic offsets gain
//! names.  Every cell is a canonical field element; byte cells are assumed to
//! be range-checked to `[0, 256)` by an external collaborator and are not
//! re-checked here.

use crate::field::in_field;
use vstd::prelude::*;

verus! {

/// A leaf row holding an RLP header and a fixed-capacity payload region:
/// used both for the drifted-leaf key row and for the pre-drift value rows.
#[derive(Clone, Copy)]
pub struct LeafRow {
    /// First header byte.
    pub s_rlp1: u64,
    /// Second header byte.
    pub s_rlp2: u64,
    /// The payload byte columns.
    pub s_advices: [u64; 32],
}

/// All cells the gadget constrains, gathered from their fixed row offsets.
#[derive(Clone, Copy)]
pub struct RowWindow {
    /// Selector that switches the whole gadget on for this row.
    pub q_enable: u64,
    /// The drifted-leaf row: header bytes and payload region.
    pub leaf: LeafRow,
    /// Overflow cell after the payload region, used by the longest keys.
    pub c_rlp1: u64,
    /// Stored byte-level RLC fingerprint of the drifted-leaf encoding.
    pub acc: u64,
    /// Stored multiplier: the challenge power that follows the encoding.
    pub acc_mult: u64,
    /// Boolean column: the leaf encoding uses the long (three header bytes) form.
    pub is_long: u64,
    /// Boolean column: the leaf encoding uses the short (two header bytes) form.
    pub is_short: u64,
    /// Parity selector from the branch initialization row: the drifted nibble
    /// pairs with the first payload nibble.
    pub sel1: u64,
    /// Parity selector from the branch initialization row: the first payload
    /// byte is the bare even-length marker.
    pub sel2: u64,
    /// Boolean from the branch initialization row: the placeholder branch
    /// lives in the first ("before") trie version.
    pub is_branch_s_placeholder: u64,
    /// Boolean from the branch initialization row: the placeholder branch
    /// lives in the second ("after") trie version.
    pub is_branch_c_placeholder: u64,
    /// Upstream key fingerprint accumulated down to the inserted branch.
    pub key_rlc_cur: u64,
    /// Multiplier the upstream accumulator assigns to the next nibble.
    pub branch_rlc_mult: u64,
    /// Multiplier advance contributed by the extension-node bytes.
    pub mult_diff: u64,
    /// Key fingerprint the sibling gadget computed for the pre-drift leaf of
    /// the first trie version.
    pub leaf_key_s_rlc: u64,
    /// Key fingerprint the sibling gadget computed for the pre-drift leaf of
    /// the second trie version.
    pub leaf_key_c_rlc: u64,
    /// Branch slot the leaf drifted to: the key nibble the branch consumed.
    pub drifted_pos: u64,
    /// Value row of the pre-drift leaf in the first trie version.
    pub value_s: LeafRow,
    /// Value row of the pre-drift leaf in the second trie version.
    pub value_c: LeafRow,
    /// Hash words stored at the drifted position of the placeholder branch,
    /// first trie version.
    pub s_hash: [u64; 4],
    /// Hash words stored at the drifted position of the placeholder branch,
    /// second trie version.
    pub c_hash: [u64; 4],
}

/// Every cell of a leaf row is a canonical field element.
pub open spec fn leaf_row_wf(row: LeafRow) -> bool {
    &&& in_field(row.s_rlp1 as int)
    &&& in_field(row.s_rlp2 as int)
    &&& forall|i: int| 0 <= i < 32 ==> in_field((#[trigger] row.s_advices[i]) as int)
}

impl RowWindow {
    /// Every cell of the window is a canonical field element.
    pub open spec fn wf(self) -> bool {
        &&& in_field(self.q_enable as int)
        &&& leaf_row_wf(self.leaf)
        &&& in_field(self.c_rlp1 as int)
        &&& in_field(self.acc as int)
        &&& in_field(self.acc_mult as int)
        &&& in_field(self.is_long as int)
        &&& in_field(self.is_short as int)
        &&& in_field(self.sel1 as int)
        &&& in_field(self.sel2 as int)
        &&& in_field(self.is_branch_s_placeholder as int)
        &&& in_field(self.is_branch_c_placeholder as int)
        &&& in_field(self.key_rlc_cur as int)
        &&& in_field(self.branch_rlc_mult as int)
        &&& in_field(self.mult_diff as int)
        &&& in_field(self.leaf_key_s_rlc as int)
        &&& in_field(self.leaf_key_c_rlc as int)
        &&& in_field(self.drifted_pos as int)
        &&& leaf_row_wf(self.value_s)
        &&& leaf_row_wf(self.value_c)
        &&& forall|i: int| 0 <= i < 4 ==> in_field((#[trigger] self.s_hash[i]) as int)
        &&& forall|i: int| 0 <= i < 4 ==> in_field((#[trigger] self.c_hash[i]) as int)
    }
}

/// The full on-the-wire byte sequence of a leaf row, header first, in column
/// order, as mathematical integers.
pub open spec fn leaf_row_cells(row: LeafRow) -> Seq<int> {
    seq![row.s_rlp1 as int, row.s_rlp2 as int] + row.s_advices@.map(|i: int, v: u64| v as int)
}

/// The drifted-leaf encoding: the leaf row followed by the overflow cell.
pub open spec fn encoding_cells(w: RowWindow) -> Seq<int> {
    leaf_row_cells(w.leaf).push(w.c_rlp1 as int)
}

} // verus!
