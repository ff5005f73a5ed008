use vstd::prelude::*;

use crate::misc::GridPoint;

verus! {

/// Number of goods every stockpile and price record tracks.
pub const NUM_ITEM: usize = 4;

/// Index of the currency good (the numeraire).
pub const CURRENCY: usize = 0;

/// Value of an action slot or of an agent's current action meaning "none".
pub const NO_ACTION: u8 = 255;

/// Number of action slots in an agent's repertoire.
pub const NUM_ACTION_SLOTS: usize = 23;

/// A production site; `variant` indexes the workplace table.
#[derive(Clone, Copy, Debug, PartialEq, Eq)]
pub struct ComponentWorkplace {
    pub variant: u8,
}

/// Quantities of each good held by an entity; index `CURRENCY` is money.
#[derive(Clone, Copy, Debug, PartialEq, Eq)]
pub struct ComponentStockpile {
    pub items: [u16; NUM_ITEM],
}

impl ComponentStockpile {
    /// A stockpile holding `items`.
    pub fn new(items: [u16; NUM_ITEM]) -> (r: ComponentStockpile)
        ensures
            r.items@ == items@,
    {
        ComponentStockpile { items }
    }
}

/// Abstract content of a price record.
pub struct PriceView {
    pub update: Seq<bool>,
    pub buy: Seq<u16>,
    pub sell: Seq<u16>,
}

/// Posted quotes of a trading entity, with one dirty flag per good.
#[derive(Clone, Copy, Debug, PartialEq, Eq)]
pub struct ComponentPrice {
    pub update: [bool; NUM_ITEM],
    pub buy: [u16; NUM_ITEM],
    pub sell: [u16; NUM_ITEM],
}

impl View for ComponentPrice {
    type V = PriceView;

    open spec fn view(&self) -> PriceView {
        PriceView { update: self.update@, buy: self.buy@, sell: self.sell@ }
    }
}

impl ComponentPrice {
    /// A fresh record: every quote zero and every good flagged for recomputation.
    pub fn new() -> (r: ComponentPrice)
        ensures
            r@.update == Seq::new(NUM_ITEM as nat, |i: int| true),
            r@.buy == Seq::new(NUM_ITEM as nat, |i: int| 0u16),
            r@.sell == Seq::new(NUM_ITEM as nat, |i: int| 0u16),
    {
        let r = ComponentPrice { update: [true; NUM_ITEM], buy: [0; NUM_ITEM], sell: [0; NUM_ITEM] };
        assert(r@.update =~= Seq::new(NUM_ITEM as nat, |i: int| true));
        assert(r@.buy =~= Seq::new(NUM_ITEM as nat, |i: int| 0u16));
        assert(r@.sell =~= Seq::new(NUM_ITEM as nat, |i: int| 0u16));
        r
    }

    /// Flags every good of the record for recomputation.
    pub fn mark_all_dirty(&mut self)
        ensures
            final(self)@.update == Seq::new(NUM_ITEM as nat, |i: int| true),
            final(self)@.buy == old(self)@.buy,
            final(self)@.sell == old(self)@.sell,
    {
        self.update = [true; NUM_ITEM];
        assert(self@.update =~= Seq::new(NUM_ITEM as nat, |i: int| true));
    }
}


/// The decision state of an autonomous agent.
#[derive(Clone, Copy, Debug, PartialEq, Eq)]
pub struct ComponentAgent {
    /// Catalog indices of the actions the agent may perform; `NO_ACTION` fills unused slots.
    pub actions: [u8; NUM_ACTION_SLOTS],
    /// The committed action, or `NO_ACTION` when idle.
    pub current: u8,
    /// The entity the committed action is aimed at.
    pub target: Option<usize>,
    /// Set on commitment, cleared once the action has been initialised.
    pub fresh: bool,
}

impl ComponentAgent {
    /// An idle agent with the given repertoire.
    pub fn new(actions: [u8; NUM_ACTION_SLOTS]) -> (r: ComponentAgent)
        ensures
            r.actions@ == actions@,
            r.current == NO_ACTION,
            r.target is None,
            !r.fresh,
    {
        ComponentAgent { actions, current: NO_ACTION, target: None, fresh: false }
    }

    pub open spec fn is_idle(&self) -> bool {
        self.current == NO_ACTION
    }
}

/// The pending waypoints of a moving entity; the next one is the last element.
#[derive(Clone, Debug, PartialEq, Eq)]
pub struct ComponentMovement {
    pub targets: Vec<GridPoint>,
}

impl ComponentMovement {
    /// An entity standing still.
    pub fn new() -> (r: ComponentMovement)
        ensures
            r.targets@ == Seq::<GridPoint>::empty(),
    {
        ComponentMovement { targets: Vec::new() }
    }

    /// Whether the entity has arrived, that is has no waypoint left.
    pub fn arrived(&self) -> (r: bool)
        ensures
            r == (self.targets@.len() == 0),
    {
        self.targets.len() == 0
    }
}

/// Marks the entity steered by the player.
#[derive(Clone, Copy, Debug, PartialEq, Eq)]
pub struct ComponentPlayerControlled;

} // verus!
