//! Constraint model of the drifted-leaf gadget of a Merkle-Patricia-trie
//! circuit: the algebraic checks that a leaf displaced into a newly inserted
//! branch is a correct re-encoding of the original leaf with exactly one key
//! nibble consumed, and that its hash sits at the drifted position of the
//! placeholder branch.
//!
//! All values are elements of a prime field, represented as `u64` below the
//! modulus.  The gadget itself never branches: every constraint is a field
//! expression multiplied by 0/1 guard cells, and a witness satisfies the
//! gadget when every gate residual is zero and every lookup tuple appears in
//! its table.

pub mod chip;
pub mod drift;
pub mod field;
pub mod hash;
pub mod lookups;
pub mod rlc;
pub mod window;
