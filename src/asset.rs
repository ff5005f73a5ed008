use vstd::prelude::*;

use crate::component::NUM_ITEM;

verus! {

/// A production table entry: per-good inputs consumed, outputs produced, and
/// the number of ticks one production run takes.
#[derive(Clone, Debug, PartialEq, Eq)]
pub struct AssetWorkplaceData {
    pub name: String,
    pub inputs: Vec<u8>,
    pub outs: Vec<u8>,
    pub duration: u32,
}

/// A good's display data.
#[derive(Clone, Debug, PartialEq, Eq)]
pub struct AssetItemData {
    pub name: String,
}

/// The amount at index `i` of a delta list, zero past its end.
pub open spec fn delta_at(v: Seq<u8>, i: int) -> u8 {
    if 0 <= i < v.len() {
        v[i]
    } else {
        0
    }
}

impl AssetWorkplaceData {
    /// Delta lists name no good beyond the stockpile.
    pub open spec fn wf(&self) -> bool {
        self.inputs@.len() <= NUM_ITEM && self.outs@.len() <= NUM_ITEM
    }

    /// Whether a production run changes good `i`.
    pub open spec fn touches(&self, i: int) -> bool {
        delta_at(self.inputs@, i) > 0 || delta_at(self.outs@, i) > 0
    }

    /// The amount of good `i` after a run, from `q` before it: outputs are
    /// added first, saturating at `u16::MAX`, then inputs are taken away,
    /// saturating at zero.
    pub open spec fn produce(&self, i: int, q: u16) -> u16 {
        let added = q as int + delta_at(self.outs@, i) as int;
        let capped = if added > u16::MAX as int { u16::MAX as int } else { added };
        let taken = capped - delta_at(self.inputs@, i) as int;
        if taken < 0 { 0u16 } else { taken as u16 }
    }

    /// Checks that the delta lists fit the stockpile.
    pub fn check(&self) -> (r: bool)
        ensures
            r == self.wf(),
    {
        self.inputs.len() <= NUM_ITEM && self.outs.len() <= NUM_ITEM
    }
}

} // verus!
