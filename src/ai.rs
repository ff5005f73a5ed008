use vstd::prelude::*;

use rand::Rng;

use crate::asset::{AssetItemData, AssetWorkplaceData};
use crate::component::{
    ComponentAgent, ComponentMovement, ComponentPrice, ComponentStockpile, ComponentWorkplace,
    PriceView, CURRENCY, NO_ACTION, NUM_ITEM,
};
use crate::delay::DelayTable;
use crate::market::{all_dirty, price_wf, refresh_price, refreshed, IndifferenceLevels};
use crate::misc::{get_targets, route_waypoints, same_cell, GridPoint, TileGrid};

verus! {

/// Workplace variant of a mine.
pub const MINE: u8 = 0;
/// Workplace variant of a furnace.
pub const FURNACE: u8 = 1;
/// Workplace variant of a smithy.
pub const SMITHY: u8 = 2;
/// Workplace variant of a trading post.
pub const MARKET: u8 = 3;

/// Stockpile index of ore.
pub const ORE: usize = 1;
/// Stockpile index of ingots.
pub const INGOT: usize = 2;
/// Stockpile index of tools.
pub const TOOLS: usize = 3;

/// Shape of an axis' response curve.
#[derive(Clone, Copy, Debug, PartialEq, Eq, Structural)]
pub enum AICurveType {
    Quadratic,
    Logistic,
    Logit,
}

/// The world quantity an axis samples.
#[derive(Clone, Copy, Debug, PartialEq, Eq, Structural)]
pub enum AIInputType {
    MyStockpileOre,
    MyStockpileIngot,
    MyStockpileTools,
    DistanceFromMe,
    PriceDiffBuyOre,
    PriceDiffBuyIngot,
    PriceDiffBuyTools,
    PriceDiffSellOre,
    PriceDiffSellIngot,
    PriceDiffSellTools,
    CanBuyOre,
    CanBuyIngot,
    CanBuyTools,
    CanSellOre,
    CanSellIngot,
    CanSellTools,
}

/// Doing nothing for a tick.
#[derive(Clone, Debug)]
pub struct AIActionIdle {
    pub name: String,
    pub axis: Vec<u16>,
}

/// Producing at a smithy.
#[derive(Clone, Debug)]
pub struct AIActionWorkAtSmithy {
    pub name: String,
    pub axis: Vec<u16>,
}

/// Producing at a furnace.
#[derive(Clone, Debug)]
pub struct AIActionWorkAtFurnace {
    pub name: String,
    pub axis: Vec<u16>,
}

/// Producing at a mine.
#[derive(Clone, Debug)]
pub struct AIActionWorkAtMine {
    pub name: String,
    pub axis: Vec<u16>,
}

/// Buying one unit of ore at a trading post.
#[derive(Clone, Debug)]
pub struct AIActionBuyOre {
    pub name: String,
    pub axis: Vec<u16>,
}

/// Buying one ingot at a trading post.
#[derive(Clone, Debug)]
pub struct AIActionBuyIngot {
    pub name: String,
    pub axis: Vec<u16>,
}

/// Buying one unit of tools at a trading post.
#[derive(Clone, Debug)]
pub struct AIActionBuyTools {
    pub name: String,
    pub axis: Vec<u16>,
}

/// Selling one unit of ore at a trading post.
#[derive(Clone, Debug)]
pub struct AIActionSellOre {
    pub name: String,
    pub axis: Vec<u16>,
}

/// Selling one ingot at a trading post.
#[derive(Clone, Debug)]
pub struct AIActionSellIngot {
    pub name: String,
    pub axis: Vec<u16>,
}

/// Selling one unit of tools at a trading post.
#[derive(Clone, Debug)]
pub struct AIActionSellTools {
    pub name: String,
    pub axis: Vec<u16>,
}

/// An entry of the action catalog; `axis` lists the indices of the axes
/// that score it.
#[derive(Clone, Debug)]
pub enum AIAction {
    Idle(AIActionIdle),
    WorkAtMine(AIActionWorkAtMine),
    WorkAtFurnace(AIActionWorkAtFurnace),
    WorkAtSmithy(AIActionWorkAtSmithy),
    BuyOre(AIActionBuyOre),
    BuyIngot(AIActionBuyIngot),
    BuyTools(AIActionBuyTools),
    SellOre(AIActionSellOre),
    SellIngot(AIActionSellIngot),
    SellTools(AIActionSellTools),
}

/// What an action does, whatever its name and axes.
#[derive(Clone, Copy, Debug, PartialEq, Eq, Structural)]
pub enum ActionKind {
    Idle,
    /// Produce at a workplace of the given variant.
    Work { site: u8 },
    /// Buy one unit of the given good at a trading post.
    Buy { good: usize },
    /// Sell one unit of the given good at a trading post.
    Sell { good: usize },
}

impl AIAction {
    pub open spec fn spec_kind(&self) -> ActionKind {
        match self {
            AIAction::Idle(_) => ActionKind::Idle,
            AIAction::WorkAtMine(_) => ActionKind::Work { site: MINE },
            AIAction::WorkAtFurnace(_) => ActionKind::Work { site: FURNACE },
            AIAction::WorkAtSmithy(_) => ActionKind::Work { site: SMITHY },
            AIAction::BuyOre(_) => ActionKind::Buy { good: ORE },
            AIAction::BuyIngot(_) => ActionKind::Buy { good: INGOT },
            AIAction::BuyTools(_) => ActionKind::Buy { good: TOOLS },
            AIAction::SellOre(_) => ActionKind::Sell { good: ORE },
            AIAction::SellIngot(_) => ActionKind::Sell { good: INGOT },
            AIAction::SellTools(_) => ActionKind::Sell { good: TOOLS },
        }
    }

    /// The kind of the action.
    pub fn kind(&self) -> (r: ActionKind)
        ensures
            r == self.spec_kind(),
    {
        match self {
            AIAction::Idle(_) => ActionKind::Idle,
            AIAction::WorkAtMine(_) => ActionKind::Work { site: MINE },
            AIAction::WorkAtFurnace(_) => ActionKind::Work { site: FURNACE },
            AIAction::WorkAtSmithy(_) => ActionKind::Work { site: SMITHY },
            AIAction::BuyOre(_) => ActionKind::Buy { good: ORE },
            AIAction::BuyIngot(_) => ActionKind::Buy { good: INGOT },
            AIAction::BuyTools(_) => ActionKind::Buy { good: TOOLS },
            AIAction::SellOre(_) => ActionKind::Sell { good: ORE },
            AIAction::SellIngot(_) => ActionKind::Sell { good: INGOT },
            AIAction::SellTools(_) => ActionKind::Sell { good: TOOLS },
        }
    }

    pub open spec fn spec_tag(&self) -> u8 {
        match self {
            AIAction::Idle(_) => 0,
            AIAction::WorkAtMine(_) => 1,
            AIAction::WorkAtFurnace(_) => 2,
            AIAction::WorkAtSmithy(_) => 3,
            AIAction::BuyOre(_) => 4,
            AIAction::BuyIngot(_) => 5,
            AIAction::BuyTools(_) => 6,
            AIAction::SellOre(_) => 7,
            AIAction::SellIngot(_) => 8,
            AIAction::SellTools(_) => 9,
        }
    }

    /// The priority tag of the action: its index in the standard catalog.
    pub fn tag(&self) -> (r: u8)
        ensures
            r == self.spec_tag(),
    {
        match self {
            AIAction::Idle(_) => 0,
            AIAction::WorkAtMine(_) => 1,
            AIAction::WorkAtFurnace(_) => 2,
            AIAction::WorkAtSmithy(_) => 3,
            AIAction::BuyOre(_) => 4,
            AIAction::BuyIngot(_) => 5,
            AIAction::BuyTools(_) => 6,
            AIAction::SellOre(_) => 7,
            AIAction::SellIngot(_) => 8,
            AIAction::SellTools(_) => 9,
        }
    }

    /// The action's display name.
    pub fn get_name(&self) -> (r: &String)
        ensures
            r == match self {
                AIAction::Idle(a) => &a.name,
                AIAction::WorkAtMine(a) => &a.name,
                AIAction::WorkAtFurnace(a) => &a.name,
                AIAction::WorkAtSmithy(a) => &a.name,
                AIAction::BuyOre(a) => &a.name,
                AIAction::BuyIngot(a) => &a.name,
                AIAction::BuyTools(a) => &a.name,
                AIAction::SellOre(a) => &a.name,
                AIAction::SellIngot(a) => &a.name,
                AIAction::SellTools(a) => &a.name,
            },
    {
        match self {
            AIAction::Idle(a) => &a.name,
            AIAction::WorkAtMine(a) => &a.name,
            AIAction::WorkAtFurnace(a) => &a.name,
            AIAction::WorkAtSmithy(a) => &a.name,
            AIAction::BuyOre(a) => &a.name,
            AIAction::BuyIngot(a) => &a.name,
            AIAction::BuyTools(a) => &a.name,
            AIAction::SellOre(a) => &a.name,
            AIAction::SellIngot(a) => &a.name,
            AIAction::SellTools(a) => &a.name,
        }
    }

    /// The indices of the axes that score the action.
    pub fn get_axis(&self) -> (r: &Vec<u16>)
        ensures
            r == match self {
                AIAction::Idle(a) => &a.axis,
                AIAction::WorkAtMine(a) => &a.axis,
                AIAction::WorkAtFurnace(a) => &a.axis,
                AIAction::WorkAtSmithy(a) => &a.axis,
                AIAction::BuyOre(a) => &a.axis,
                AIAction::BuyIngot(a) => &a.axis,
                AIAction::BuyTools(a) => &a.axis,
                AIAction::SellOre(a) => &a.axis,
                AIAction::SellIngot(a) => &a.axis,
                AIAction::SellTools(a) => &a.axis,
            },
    {
        match self {
            AIAction::Idle(a) => &a.axis,
            AIAction::WorkAtMine(a) => &a.axis,
            AIAction::WorkAtFurnace(a) => &a.axis,
            AIAction::WorkAtSmithy(a) => &a.axis,
            AIAction::BuyOre(a) => &a.axis,
            AIAction::BuyIngot(a) => &a.axis,
            AIAction::BuyTools(a) => &a.axis,
            AIAction::SellOre(a) => &a.axis,
            AIAction::SellIngot(a) => &a.axis,
            AIAction::SellTools(a) => &a.axis,
        }
    }
}

/// The part of the world that stays fixed while agents act: the
/// configuration tables, the map, where each entity stands, and which
/// entities are workplaces. Entities are indices into the per-entity vectors.
pub struct AIData {
    pub workplace_datas: Vec<AssetWorkplaceData>,
    pub item_datas: Vec<AssetItemData>,
    pub tilemap: TileGrid,
    /// The tile each entity stands on, if it is on the map.
    pub cells: Vec<Option<GridPoint>>,
    pub workplaces: Vec<Option<ComponentWorkplace>>,
}

/// The per-entity stores that actions change.
pub struct AIState {
    pub stockpiles: Vec<Option<ComponentStockpile>>,
    pub movements: Vec<Option<ComponentMovement>>,
    pub prices: Vec<Option<ComponentPrice>>,
}

/// Abstract content of the changing stores: stockpile quantities, price
/// records and pending waypoints, per entity.
pub struct WorldView {
    pub stock: Seq<Option<Seq<u16>>>,
    pub price: Seq<Option<PriceView>>,
    pub path: Seq<Option<Seq<GridPoint>>>,
}

impl View for AIState {
    type V = WorldView;

    open spec fn view(&self) -> WorldView {
        WorldView {
            stock: self.stockpiles@.map_values(
                |o: Option<ComponentStockpile>|
                    match o {
                        Some(s) => Some(s.items@),
                        None => None,
                    },
            ),
            price: self.prices@.map_values(
                |o: Option<ComponentPrice>|
                    match o {
                        Some(p) => Some(p@),
                        None => None,
                    },
            ),
            path: self.movements@.map_values(
                |o: Option<ComponentMovement>|
                    match o {
                        Some(m) => Some(m.targets@),
                        None => None,
                    },
            ),
        }
    }
}

impl AIData {
    /// Number of entities.
    pub open spec fn n(&self) -> int {
        self.cells@.len() as int
    }

/// The map is well formed, every entity has a workplace entry, every
/// production table entry fits the stockpile, and every workplace's
/// variant names an entry of the table.
    pub open spec fn wf(&self) -> bool {
        &&& self.tilemap.wf()
        &&& self.workplaces@.len() == self.n()
        &&& forall|i: int| 0 <= i < self.workplace_datas@.len() ==> (#[trigger] self.workplace_datas@[i]).wf()
        &&& forall|e: int| 0 <= e < self.n() && (#[trigger] self.workplaces@[e]) is Some
            ==> (self.workplaces@[e]->0.variant as int) < self.workplace_datas@.len()
    }

    /// The workplace variant of entity `e`, if it is a workplace.
    pub open spec fn site_of(&self, e: int) -> Option<u8> {
        match self.workplaces@[e] {
            Some(w) => Some(w.variant),
            None => None,
        }
    }
}

/// Every entity has an entry, possibly empty, in each store; every record held
/// is of full size.
pub open spec fn world_wf(s: &AIData, w: WorldView) -> bool {
    &&& w.stock.len() == s.n()
    &&& w.price.len() == s.n()
    &&& w.path.len() == s.n()
    &&& forall|e: int| 0 <= e < s.n() && (#[trigger] w.stock[e]) is Some ==> w.stock[e]->0.len() == NUM_ITEM
    &&& forall|e: int| 0 <= e < s.n() && (#[trigger] w.price[e]) is Some ==> price_wf(w.price[e]->0)
}

/// An entity that can carry out actions: it holds goods, prices and movement.
pub open spec fn is_actor(s: &AIData, w: WorldView, e: int) -> bool {
    &&& 0 <= e < s.n()
    &&& w.stock[e] is Some
    &&& w.price[e] is Some
    &&& w.path[e] is Some
}


/// Whether entity `t` is a target that an action of kind `k` by `me` may be
/// scored against: a workplace of the right variant for production; a
/// trading post with goods and prices that has the good in stock, for a
/// purchase; a trading post with goods and prices while `me` holds the good,
/// for a sale. Idling has no target.
pub open spec fn qualifies(k: ActionKind, me: int, t: int, s: &AIData, w: WorldView) -> bool {
    match k {
        ActionKind::Idle => false,
        ActionKind::Work { site } => s.site_of(t) == Some(site),
        ActionKind::Buy { good } => {
            &&& s.site_of(t) == Some(MARKET)
            &&& w.stock[t] is Some
            &&& w.price[t] is Some
            &&& w.stock[t]->0[good as int] >= 1
        },
        ActionKind::Sell { good } => {
            &&& s.site_of(t) == Some(MARKET)
            &&& w.stock[t] is Some
            &&& w.price[t] is Some
            &&& w.stock[me] is Some
            &&& w.stock[me]->0[good as int] >= 1
        },
    }
}

/// Trade kinds name a good other than currency.
pub open spec fn good_in_range(k: ActionKind) -> bool {
    match k {
        ActionKind::Buy { good } => 1 <= good < NUM_ITEM,
        ActionKind::Sell { good } => 1 <= good < NUM_ITEM,
        _ => true,
    }
}

impl ActionKind {
    /// Whether `t` qualifies as a target of this kind of action by `me`.
    pub fn qualifies_exec(&self, me: usize, t: usize, s: &AIData, st: &AIState) -> (r: bool)
        requires
            s.wf(),
            world_wf(s, st@),
            me < s.n(),
            t < s.n(),
            good_in_range(*self),
        ensures
            r == qualifies(*self, me as int, t as int, s, st@),
    {
        let site = match s.workplaces[t] {
            Some(wp) => Some(wp.variant),
            None => None,
        };
        match *self {
            ActionKind::Idle => false,
            ActionKind::Work { site: want } => site == Some(want),
            ActionKind::Buy { good } => {
                site == Some(MARKET) && st.prices[t].is_some() && match st.stockpiles[t] {
                    Some(sp) => sp.items[good] >= 1,
                    None => false,
                }
            },
            ActionKind::Sell { good } => {
                site == Some(MARKET) && st.prices[t].is_some() && st.stockpiles[t].is_some()
                    && match st.stockpiles[me] {
                    Some(sp) => sp.items[good] >= 1,
                    None => false,
                }
            },
        }
    }
}

proof fn lemma_kind_goods(a: AIAction)
    ensures
        good_in_range(a.spec_kind()),
{
}

impl AIAction {
    /// The entities this action can be scored against, in increasing order:
    /// exactly those that qualify.
    pub fn candidates(&self, me: usize, s: &AIData, st: &AIState) -> (r: Vec<usize>)
        requires
            s.wf(),
            world_wf(s, st@),
            me < s.n(),
        ensures
            forall|k: int| 0 <= k < r@.len() ==> (#[trigger] r@[k] as int) < s.n()
                && qualifies(self.spec_kind(), me as int, r@[k] as int, s, st@),
            forall|k1: int, k2: int| 0 <= k1 < k2 < r@.len() ==> #[trigger] r@[k1] < #[trigger] r@[k2],
            forall|t: int| 0 <= t < s.n() && qualifies(self.spec_kind(), me as int, t, s, st@)
                ==> r@.contains(t as usize),
    {
        let kind = self.kind();
        proof { lemma_kind_goods(*self); }
        let n = s.cells.len();
        let mut out: Vec<usize> = Vec::new();
        let mut t: usize = 0;
        while t < n
            invariant
                n == s.n(),
                t <= n,
                s.wf(),
                world_wf(s, st@),
                me < n,
                kind == self.spec_kind(),
                good_in_range(kind),
                forall|k: int| 0 <= k < out@.len() ==> (#[trigger] out@[k] as int) < t
                    && qualifies(kind, me as int, out@[k] as int, s, st@),
                forall|k1: int, k2: int| 0 <= k1 < k2 < out@.len() ==> #[trigger] out@[k1] < #[trigger] out@[k2],
                forall|u: int| 0 <= u < t && qualifies(kind, me as int, u, s, st@) ==> out@.contains(u as usize),
            decreases n - t,
        {
            if kind.qualifies_exec(me, t, s, st) {
                let ghost before = out@;
                out.push(t);
                proof {
                    assert forall|u: int| 0 <= u < t + 1 && qualifies(kind, me as int, u, s, st@)
                        implies out@.contains(u as usize) by {
                        if u < t {
                            let j = choose|j: int| 0 <= j < before.len() && before[j] == u as usize;
                            assert(out@[j] == u as usize);
                        } else {
                            assert(out@[before.len() as int] == u as usize);
                        }
                    }
                }
            }
            t = t + 1;
        }
        out
    }
}


/// The stores with entity `e`'s stockpile holding `q`.
pub open spec fn with_stock(w: WorldView, e: int, q: Seq<u16>) -> WorldView {
    WorldView { stock: w.stock.update(e, Some(q)), ..w }
}

/// The stores with entity `e`'s price record set to `p`.
pub open spec fn with_price(w: WorldView, e: int, p: PriceView) -> WorldView {
    WorldView { price: w.price.update(e, Some(p)), ..w }
}

/// The stores with entity `e`'s pending waypoints set to `p`.
pub open spec fn with_path(w: WorldView, e: int, p: Seq<GridPoint>) -> WorldView {
    WorldView { path: w.path.update(e, Some(p)), ..w }
}

impl AIState {
    /// The stockpile of entity `e`.
    pub fn stock(&self, e: usize) -> (r: ComponentStockpile)
        requires
            e < self@.stock.len(),
            self@.stock[e as int] is Some,
        ensures
            Some(r.items@) == self@.stock[e as int],
    {
        self.stockpiles[e].unwrap()
    }

    /// The price record of entity `e`.
    pub fn price(&self, e: usize) -> (r: ComponentPrice)
        requires
            e < self@.price.len(),
            self@.price[e as int] is Some,
        ensures
            Some(r@) == self@.price[e as int],
    {
        self.prices[e].unwrap()
    }

    /// Whether entity `e` has no waypoint left.
    pub fn arrived(&self, e: usize) -> (r: bool)
        requires
            e < self@.path.len(),
            self@.path[e as int] is Some,
        ensures
            r == (self@.path[e as int]->0.len() == 0),
    {
        match &self.movements[e] {
            Some(m) => m.arrived(),
            None => true,
        }
    }

    fn put_stock(&mut self, e: usize, q: ComponentStockpile)
        requires
            e < old(self)@.stock.len(),
        ensures
            final(self)@ == with_stock(old(self)@, e as int, q.items@),
    {
        let ghost before = self@;
        self.stockpiles[e] = Some(q);
        assert(self@.stock =~= before.stock.update(e as int, Some(q.items@)));
        assert(self@.price =~= before.price);
        assert(self@.path =~= before.path);
    }

    fn put_price(&mut self, e: usize, p: ComponentPrice)
        requires
            e < old(self)@.price.len(),
        ensures
            final(self)@ == with_price(old(self)@, e as int, p@),
    {
        let ghost before = self@;
        self.prices[e] = Some(p);
        assert(self@.price =~= before.price.update(e as int, Some(p@)));
        assert(self@.stock =~= before.stock);
        assert(self@.path =~= before.path);
    }

    fn put_path(&mut self, e: usize, targets: Vec<GridPoint>)
        requires
            e < old(self)@.path.len(),
        ensures
            final(self)@ == with_path(old(self)@, e as int, targets@),
    {
        let ghost before = self@;
        let ghost t = targets@;
        self.movements[e] = Some(ComponentMovement { targets });
        assert(self@.path =~= before.path.update(e as int, Some(t)));
        assert(self@.stock =~= before.stock);
        assert(self@.price =~= before.price);
    }
}

/// The outcome of committing to an action of kind `k` aimed at `t`: idling
/// succeeds at once; any other action needs both cells known, clears the
/// pending waypoints when `me` already stands on the target's cell, and
/// otherwise asks for a route, failing (with nothing changed) when none is found.
pub open spec fn init_spec(k: ActionKind, me: int, t: int, s: &AIData, w: WorldView) -> (bool, WorldView) {
    match k {
        ActionKind::Idle => (true, w),
        _ => match (s.cells@[me], s.cells@[t]) {
            (Some(a), Some(b)) => if a == b {
                (true, with_path(w, me, seq![]))
            } else {
                let r = route_waypoints(&s.tilemap, a, b);
                if r.len() > 0 {
                    (true, with_path(w, me, r))
                } else {
                    (false, w)
                }
            },
            _ => (false, w),
        },
    }
}

impl AIAction {
    /// Commits `me` to this action aimed at `target`, requesting movement
    /// when needed; returns whether the action can go ahead.
    pub fn initialize(&self, me: usize, target: usize, s: &AIData, st: &mut AIState) -> (r: bool)
        requires
            s.wf(),
            world_wf(s, old(st)@),
            is_actor(s, old(st)@, me as int),
            target < s.n(),
        ensures
            (r, final(st)@) == init_spec(self.spec_kind(), me as int, target as int, s, old(st)@),
            world_wf(s, final(st)@),
    {
        match self.kind() {
            ActionKind::Idle => true,
            _ => {
                match (s.cells[me], s.cells[target]) {
                    (Some(a), Some(b)) => {
                        if same_cell(&a, &b) {
                            st.put_path(me, Vec::new());
                            true
                        } else {
                            let r = get_targets(&a, &b, &s.tilemap);
                            if r.len() > 0 {
                                st.put_path(me, r);
                                true
                            } else {
                                false
                            }
                        }
                    },
                    _ => false,
                }
            },
        }
    }
}


/// Whether a purchase of one unit of `good` by `me` from `t` goes through:
/// two different parties holding goods and prices, the buyer's bid above
/// the seller's ask, the seller holding a unit, the buyer holding the price,
/// and both new holdings within `u16`.
pub open spec fn buy_happens(good: int, me: int, t: int, w: WorldView) -> bool {
    &&& me != t
    &&& w.stock[t] is Some
    &&& w.price[t] is Some
    &&& {
        let ask = w.price[t]->0.sell[good];
        let qm = w.stock[me]->0;
        let qt = w.stock[t]->0;
        &&& w.price[me]->0.buy[good] > ask
        &&& qt[good] >= 1
        &&& qm[CURRENCY as int] >= ask
        &&& qm[good] < u16::MAX
        &&& qt[CURRENCY as int] + ask <= u16::MAX
    }
}

/// The stores after `me` tries to buy one unit of `good` from `t`: on
/// success the unit moves to `me`, the seller's ask moves to `t`, and every
/// price flag of both parties is set.
pub open spec fn buy_spec(good: int, me: int, t: int, w: WorldView) -> WorldView {
    if buy_happens(good, me, t, w) {
        let ask = w.price[t]->0.sell[good];
        let qm = w.stock[me]->0;
        let qt = w.stock[t]->0;
        let w1 = with_stock(w, t, qt.update(good, (qt[good] - 1) as u16).update(CURRENCY as int, (qt[CURRENCY as int] + ask) as u16));
        let w2 = with_stock(w1, me, qm.update(good, (qm[good] + 1) as u16).update(CURRENCY as int, (qm[CURRENCY as int] - ask) as u16));
        let w3 = with_price(w2, me, all_dirty(w.price[me]->0));
        with_price(w3, t, all_dirty(w.price[t]->0))
    } else {
        w
    }
}

/// Whether a sale of one unit of `good` by `me` to `t` goes through: two
/// different parties holding goods and prices, the seller's ask below the
/// buyer's bid, the buyer holding the price, the seller holding a unit, and
/// both new holdings within `u16`.
pub open spec fn sell_happens(good: int, me: int, t: int, w: WorldView) -> bool {
    &&& me != t
    &&& w.stock[t] is Some
    &&& w.price[t] is Some
    &&& {
        let bid = w.price[t]->0.buy[good];
        let qm = w.stock[me]->0;
        let qt = w.stock[t]->0;
        &&& w.price[me]->0.sell[good] < bid
        &&& qt[CURRENCY as int] >= bid
        &&& qm[good] >= 1
        &&& qt[good] < u16::MAX
        &&& qm[CURRENCY as int] + bid <= u16::MAX
    }
}

/// The stores after `me` tries to sell one unit of `good` to `t`: on
/// success the unit moves to `t`, the buyer's bid moves to `me`, and every
/// price flag of both parties is set.
pub open spec fn sell_spec(good: int, me: int, t: int, w: WorldView) -> WorldView {
    if sell_happens(good, me, t, w) {
        let bid = w.price[t]->0.buy[good];
        let qm = w.stock[me]->0;
        let qt = w.stock[t]->0;
        let w1 = with_stock(w, t, qt.update(good, (qt[good] + 1) as u16).update(CURRENCY as int, (qt[CURRENCY as int] - bid) as u16));
        let w2 = with_stock(w1, me, qm.update(good, (qm[good] - 1) as u16).update(CURRENCY as int, (qm[CURRENCY as int] + bid) as u16));
        let w3 = with_price(w2, me, all_dirty(w.price[me]->0));
        with_price(w3, t, all_dirty(w.price[t]->0))
    } else {
        w
    }
}

fn buy_one(good: usize, me: usize, t: usize, st: &mut AIState)
    requires
        old(st)@.stock.len() == old(st)@.price.len(),
        me < old(st)@.stock.len(),
        t < old(st)@.stock.len(),
        old(st)@.stock[me as int] is Some,
        old(st)@.price[me as int] is Some,
        old(st)@.stock[me as int]->0.len() == NUM_ITEM,
        old(st)@.price[me as int]->0.update.len() == NUM_ITEM,
        1 <= good < NUM_ITEM,
    ensures
        final(st)@ == buy_spec(good as int, me as int, t as int, old(st)@),
{
    if me == t {
        return;
    }
    match (st.stockpiles[t], st.prices[t]) {
        (Some(qt), Some(pt)) => {
            let qm = st.stock(me);
            let pm = st.price(me);
            let ask = pt.sell[good];
            if pm.buy[good] > ask && qt.items[good] >= 1 && qm.items[CURRENCY] >= ask
                && qm.items[good] < u16::MAX && qt.items[CURRENCY] <= u16::MAX - ask {
                let mut qt2 = qt;
                qt2.items[good] = qt.items[good] - 1;
                qt2.items[CURRENCY] = qt.items[CURRENCY] + ask;
                st.put_stock(t, qt2);
                let mut qm2 = qm;
                qm2.items[good] = qm.items[good] + 1;
                qm2.items[CURRENCY] = qm.items[CURRENCY] - ask;
                st.put_stock(me, qm2);
                let mut pm2 = pm;
                pm2.mark_all_dirty();
                st.put_price(me, pm2);
                let mut pt2 = pt;
                pt2.mark_all_dirty();
                st.put_price(t, pt2);
                proof {
                    assert(qt2.items@ =~= qt.items@.update(good as int, (qt.items@[good as int] - 1) as u16).update(CURRENCY as int, (qt.items@[CURRENCY as int] + ask) as u16));
                    assert(qm2.items@ =~= qm.items@.update(good as int, (qm.items@[good as int] + 1) as u16).update(CURRENCY as int, (qm.items@[CURRENCY as int] - ask) as u16));
                    assert(pm2@ == all_dirty(pm@));
                    assert(pt2@ == all_dirty(pt@));
                }
            }
        },
        _ => {},
    }
}

fn sell_one(good: usize, me: usize, t: usize, st: &mut AIState)
    requires
        old(st)@.stock.len() == old(st)@.price.len(),
        me < old(st)@.stock.len(),
        t < old(st)@.stock.len(),
        old(st)@.stock[me as int] is Some,
        old(st)@.price[me as int] is Some,
        old(st)@.stock[me as int]->0.len() == NUM_ITEM,
        old(st)@.price[me as int]->0.update.len() == NUM_ITEM,
        1 <= good < NUM_ITEM,
    ensures
        final(st)@ == sell_spec(good as int, me as int, t as int, old(st)@),
{
    if me == t {
        return;
    }
    match (st.stockpiles[t], st.prices[t]) {
        (Some(qt), Some(pt)) => {
            let qm = st.stock(me);
            let pm = st.price(me);
            let bid = pt.buy[good];
            if pm.sell[good] < bid && qt.items[CURRENCY] >= bid && qm.items[good] >= 1
                && qt.items[good] < u16::MAX && qm.items[CURRENCY] <= u16::MAX - bid {
                let mut qt2 = qt;
                qt2.items[good] = qt.items[good] + 1;
                qt2.items[CURRENCY] = qt.items[CURRENCY] - bid;
                st.put_stock(t, qt2);
                let mut qm2 = qm;
                qm2.items[good] = qm.items[good] - 1;
                qm2.items[CURRENCY] = qm.items[CURRENCY] + bid;
                st.put_stock(me, qm2);
                let mut pm2 = pm;
                pm2.mark_all_dirty();
                st.put_price(me, pm2);
                let mut pt2 = pt;
                pt2.mark_all_dirty();
                st.put_price(t, pt2);
                proof {
                    assert(qt2.items@ =~= qt.items@.update(good as int, (qt.items@[good as int] + 1) as u16).update(CURRENCY as int, (qt.items@[CURRENCY as int] - bid) as u16));
                    assert(qm2.items@ =~= qm.items@.update(good as int, (qm.items@[good as int] - 1) as u16).update(CURRENCY as int, (qm.items@[CURRENCY as int] + bid) as u16));
                    assert(pm2@ == all_dirty(pm@));
                    assert(pt2@ == all_dirty(pt@));
                }
            }
        },
        _ => {},
    }
}


/// The stores after a production run of `me` at workplace `t`: the run's
/// outputs are added to `me`'s stockpile and its inputs taken away (see
/// `AssetWorkplaceData::produce`), and the price flag of each good the run
/// changes is set. A target that is no workplace produces nothing.
pub open spec fn produced(me: int, t: int, s: &AIData, w: WorldView) -> WorldView {
    match s.site_of(t) {
        Some(v) => {
            let data = s.workplace_datas@[v as int];
            let q = w.stock[me]->0;
            let p = w.price[me]->0;
            let q2 = Seq::new(NUM_ITEM as nat, |i: int| data.produce(i, q[i]));
            let p2 = PriceView { update: Seq::new(NUM_ITEM as nat, |i: int| p.update[i] || data.touches(i)), ..p };
            with_price(with_stock(w, me, q2), me, p2)
        },
        None => w,
    }
}

/// Ticks one production run of workplace `t` takes; zero for a non-workplace.
pub open spec fn duration_of(t: int, s: &AIData) -> u32 {
    match s.site_of(t) {
        Some(v) => s.workplace_datas@[v as int].duration,
        None => 0,
    }
}

/// One tick of production by `me` at `t` under action `tag`, on arrival: the
/// countdown starts at the workplace's duration and loses one each tick; the
/// tick it reaches zero (at once for a duration of zero or one) the run
/// completes, the countdown is dropped, and the action is done.
pub open spec fn work_spec(tag: u8, me: int, t: int, s: &AIData, w: WorldView, d: Map<(u8, usize), u32>)
    -> (bool, WorldView, Map<(u8, usize), u32>)
{
    let key = (tag, me as usize);
    let left = if d.contains_key(key) { d[key] } else { duration_of(t, s) };
    if left > 1 {
        (false, w, d.insert(key, (left - 1) as u32))
    } else {
        (true, produced(me, t, s, w), d.remove(key))
    }
}

fn produce_at(me: usize, t: usize, s: &AIData, st: &mut AIState)
    requires
        s.wf(),
        world_wf(s, old(st)@),
        is_actor(s, old(st)@, me as int),
        t < s.n(),
    ensures
        final(st)@ == produced(me as int, t as int, s, old(st)@),
{
    match s.workplaces[t] {
        Some(wp) => {
            let data = &s.workplace_datas[wp.variant as usize];
            let q0 = st.stock(me);
            let p0 = st.price(me);
            let mut q = q0;
            let mut p = p0;
            let mut i: usize = 0;
            while i < NUM_ITEM
                invariant
                    data.wf(),
                    i <= NUM_ITEM,
                    forall|j: int| 0 <= j < i ==> #[trigger] q.items@[j] == data.produce(j, q0.items@[j]),
                    forall|j: int| i <= j < NUM_ITEM ==> #[trigger] q.items@[j] == q0.items@[j],
                    forall|j: int| 0 <= j < i ==> #[trigger] p.update@[j] == (p0.update@[j] || data.touches(j)),
                    forall|j: int| i <= j < NUM_ITEM ==> #[trigger] p.update@[j] == p0.update@[j],
                    p.buy@ == p0.buy@,
                    p.sell@ == p0.sell@,
                decreases NUM_ITEM - i,
            {
                let out: u8 = if i < data.outs.len() { data.outs[i] } else { 0 };
                let inp: u8 = if i < data.inputs.len() { data.inputs[i] } else { 0 };
                let added: u32 = q.items[i] as u32 + out as u32;
                let capped: u32 = if added > u16::MAX as u32 { u16::MAX as u32 } else { added };
                let taken: u32 = if capped >= inp as u32 { capped - inp as u32 } else { 0 };
                q.items[i] = taken as u16;
                if out > 0 || inp > 0 {
                    p.update[i] = true;
                }
                i = i + 1;
            }
            st.put_stock(me, q);
            st.put_price(me, p);
            proof {
                let v = wp.variant as int;
                let q2 = Seq::new(NUM_ITEM as nat, |j: int| data.produce(j, q0.items@[j]));
                assert(q.items@ =~= q2);
                let pv = p0@;
                assert(p@.update =~= Seq::new(NUM_ITEM as nat, |j: int| pv.update[j] || data.touches(j)));
            }
        },
        None => {},
    }
}

fn work_tick(tag: u8, me: usize, t: usize, s: &AIData, st: &mut AIState, delays: &mut DelayTable) -> (r: bool)
    requires
        s.wf(),
        world_wf(s, old(st)@),
        is_actor(s, old(st)@, me as int),
        t < s.n(),
        old(delays).wf(),
    ensures
        (r, final(st)@, final(delays)@) == work_spec(tag, me as int, t as int, s, old(st)@, old(delays)@),
        final(delays).wf(),
{
    let duration: u32 = match s.workplaces[t] {
        Some(wp) => s.workplace_datas[wp.variant as usize].duration,
        None => 0,
    };
    let left: u32 = match delays.get(tag, me) {
        Some(v) => v,
        None => duration,
    };
    if left > 1 {
        delays.set(tag, me, left - 1);
        false
    } else {
        delays.remove(tag, me);
        produce_at(me, t, s, st);
        true
    }
}


/// One tick of an action of kind `k` (catalog tag `tag`) by `me` aimed at
/// `t`: idling is done at once; any other action waits, not done, while
/// waypoints are pending; on arrival production counts down (see
/// `work_spec`), and a trade makes its single attempt and is done whether
/// or not the exchange went through.
pub open spec fn advance_spec(
    k: ActionKind,
    tag: u8,
    me: int,
    t: int,
    s: &AIData,
    w: WorldView,
    d: Map<(u8, usize), u32>,
) -> (bool, WorldView, Map<(u8, usize), u32>) {
    match k {
        ActionKind::Idle => (true, w, d),
        _ => if w.path[me]->0.len() > 0 {
            (false, w, d)
        } else {
            match k {
                ActionKind::Work { .. } => work_spec(tag, me, t, s, w, d),
                ActionKind::Buy { good } => (true, buy_spec(good as int, me, t, w), d),
                ActionKind::Sell { good } => (true, sell_spec(good as int, me, t, w), d),
                ActionKind::Idle => (true, w, d),
            }
        },
    }
}

impl AIAction {
    /// Runs this action of `me` aimed at `target` for one tick; returns
    /// whether it is done.
    pub fn advance(&self, me: usize, target: usize, s: &AIData, st: &mut AIState, delays: &mut DelayTable) -> (r: bool)
        requires
            s.wf(),
            world_wf(s, old(st)@),
            is_actor(s, old(st)@, me as int),
            target < s.n(),
            old(delays).wf(),
        ensures
            (r, final(st)@, final(delays)@) == advance_spec(
                self.spec_kind(),
                self.spec_tag(),
                me as int,
                target as int,
                s,
                old(st)@,
                old(delays)@,
            ),
            world_wf(s, final(st)@),
            final(delays).wf(),
    {
        let kind = self.kind();
        match kind {
            ActionKind::Idle => true,
            _ => {
                if !st.arrived(me) {
                    return false;
                }
                match kind {
                    ActionKind::Work { .. } => work_tick(self.tag(), me, target, s, st, delays),
                    ActionKind::Buy { good } => {
                        proof { lemma_kind_goods(*self); }
                        buy_one(good, me, target, st);
                        true
                    },
                    ActionKind::Sell { good } => {
                        proof { lemma_kind_goods(*self); }
                        sell_one(good, me, target, st);
                        true
                    },
                    ActionKind::Idle => true,
                }
            },
        }
    }
}


/// An applicable catalog entry for an agent: the action's tag and the
/// target it was scored best against.
#[derive(Clone, Copy, Debug, PartialEq, Eq)]
pub struct Evaluation {
    pub action: u8,
    pub target: Option<usize>,
}

/// Relies on `rand::Rng::gen_range` on `rand::thread_rng()` over `0..n`:
/// a value below `n`. The range is never empty here, where it would panic.
#[verifier::external_body]
fn uniform_below(n: usize) -> (r: usize)
    requires
        n > 0,
    ensures
        r < n,
{
    rand::thread_rng().gen_range(0..n)
}

/// Picks the entry an agent commits to among the applicable ones: the only
/// one when there is one; otherwise the entry at `weighted`, the index drawn
/// by weighted sampling; and when that draw is missing (all weights zero)
/// or out of range, an entry drawn uniformly. `None` when nothing is
/// applicable.
pub fn select_evaluation(evals: &Vec<Evaluation>, weighted: Option<usize>) -> (r: Option<Evaluation>)
    ensures
        r is None <==> evals@.len() == 0,
        evals@.len() == 1 ==> r == Some(evals@[0]),
        evals@.len() > 1 ==> (weighted matches Some(i) ==> (i < evals@.len() ==> r == Some(evals@[i as int]))),
        r matches Some(e) ==> evals@.contains(e),
{
    let n = evals.len();
    if n == 0 {
        None
    } else if n == 1 {
        Some(evals[0])
    } else {
        let i = match weighted {
            Some(i) if i < n => i,
            _ => uniform_below(n),
        };
        proof { assert(evals@[i as int] == evals@[i as int]); }
        Some(evals[i])
    }
}

impl ComponentAgent {
    /// Commits the agent to `e` and marks the commitment fresh.
    pub fn commit(&mut self, e: Evaluation)
        ensures
            final(self).current == e.action,
            final(self).target == e.target,
            final(self).fresh,
            final(self).actions == old(self).actions,
    {
        self.current = e.action;
        self.target = e.target;
        self.fresh = true;
    }
}

/// The selection step of one agent: an idle agent commits to the entry
/// `select_evaluation` picks; a busy agent is left alone. Returns false only
/// for an idle agent with nothing applicable, which is then left unchanged.
pub fn select_action(agent: &mut ComponentAgent, evals: &Vec<Evaluation>, weighted: Option<usize>) -> (r: bool)
    ensures
        !old(agent).is_idle() ==> r && *final(agent) == *old(agent),
        old(agent).is_idle() && evals@.len() == 0 ==> !r && *final(agent) == *old(agent),
        old(agent).is_idle() && evals@.len() > 0 ==> {
            &&& r
            &&& final(agent).fresh
            &&& final(agent).actions == old(agent).actions
            &&& evals@.contains(Evaluation { action: final(agent).current, target: final(agent).target })
            &&& evals@.len() == 1 ==> final(agent).current == evals@[0].action
                && final(agent).target == evals@[0].target
            &&& evals@.len() > 1 ==> (weighted matches Some(i) ==> (i < evals@.len()
                ==> final(agent).current == evals@[i as int].action
                && final(agent).target == evals@[i as int].target))
        },
{
    if agent.current != NO_ACTION {
        return true;
    }
    match select_evaluation(evals, weighted) {
        Some(e) => {
            agent.commit(e);
            proof { assert(Evaluation { action: agent.current, target: agent.target } == e); }
            true
        },
        None => false,
    }
}


/// The agent back to idle, with no target and no fresh commitment.
pub open spec fn reset(a: ComponentAgent) -> ComponentAgent {
    ComponentAgent { current: NO_ACTION, target: None, fresh: false, ..a }
}

/// One execution tick of agent `a` (entity `me`): a target outside the
/// world resets it; a fresh commitment is initialised first, and on failure
/// (or for an action missing from the catalog) the agent goes back to idle;
/// a committed agent then advances its action and goes back to idle once
/// the action reports done. The target defaults to the agent itself.
pub open spec fn execute_spec(
    a: ComponentAgent,
    me: int,
    catalog: Seq<AIAction>,
    s: &AIData,
    w: WorldView,
    d: Map<(u8, usize), u32>,
) -> (ComponentAgent, WorldView, Map<(u8, usize), u32>) {
    let t = match a.target {
        Some(t) => t as int,
        None => me,
    };
    if t >= s.n() {
        (reset(a), w, d)
    } else {
        let (a1, w1) = if a.fresh {
            let a0 = ComponentAgent { fresh: false, ..a };
            if (a.current as int) < catalog.len() {
                let (ok, w1) = init_spec(catalog[a.current as int].spec_kind(), me, t, s, w);
                if ok {
                    (a0, w1)
                } else {
                    (reset(a0), w1)
                }
            } else {
                (reset(a0), w)
            }
        } else {
            (a, w)
        };
        if a1.current == NO_ACTION {
            (a1, w1, d)
        } else if (a1.current as int) < catalog.len() {
            let act = catalog[a1.current as int];
            let (done, w2, d2) = advance_spec(act.spec_kind(), act.spec_tag(), me, t, s, w1, d);
            (if done { ComponentAgent { current: NO_ACTION, ..a1 } } else { a1 }, w2, d2)
        } else {
            (ComponentAgent { current: NO_ACTION, ..a1 }, w1, d)
        }
    }
}

/// Runs one execution tick of agent `agent`, which is entity `me`.
pub fn execute_agent(
    agent: &mut ComponentAgent,
    me: usize,
    catalog: &Vec<AIAction>,
    s: &AIData,
    st: &mut AIState,
    delays: &mut DelayTable,
)
    requires
        s.wf(),
        world_wf(s, old(st)@),
        is_actor(s, old(st)@, me as int),
        old(delays).wf(),
    ensures
        (*final(agent), final(st)@, final(delays)@) == execute_spec(
            *old(agent),
            me as int,
            catalog@,
            s,
            old(st)@,
            old(delays)@,
        ),
        world_wf(s, final(st)@),
        final(delays).wf(),
{
    let target = match agent.target {
        Some(t) => t,
        None => me,
    };
    if target >= s.cells.len() {
        agent.current = NO_ACTION;
        agent.target = None;
        agent.fresh = false;
        return;
    }
    if agent.fresh {
        agent.fresh = false;
        if (agent.current as usize) < catalog.len() {
            if !catalog[agent.current as usize].initialize(me, target, s, st) {
                agent.current = NO_ACTION;
                agent.target = None;
            }
        } else {
            agent.current = NO_ACTION;
            agent.target = None;
        }
    }
    if agent.current != NO_ACTION {
        if (agent.current as usize) < catalog.len() {
            if catalog[agent.current as usize].advance(me, target, s, st, delays) {
                agent.current = NO_ACTION;
            }
        } else {
            agent.current = NO_ACTION;
        }
    }
}

/// The execution step at entity `e` of the phase: an agent that is an actor
/// runs one tick; any other entry is left alone.
pub open spec fn phase_step(
    agents: Seq<Option<ComponentAgent>>,
    e: int,
    catalog: Seq<AIAction>,
    s: &AIData,
    w: WorldView,
    d: Map<(u8, usize), u32>,
) -> (Seq<Option<ComponentAgent>>, WorldView, Map<(u8, usize), u32>) {
    match agents[e] {
        Some(a) => if is_actor(s, w, e) {
            let (a2, w2, d2) = execute_spec(a, e, catalog, s, w, d);
            (agents.update(e, Some(a2)), w2, d2)
        } else {
            (agents, w, d)
        },
        None => (agents, w, d),
    }
}

/// The execution phase over entities `0 .. i`, one after the other in
/// increasing order.
pub open spec fn phase_upto(
    agents: Seq<Option<ComponentAgent>>,
    catalog: Seq<AIAction>,
    s: &AIData,
    w: WorldView,
    d: Map<(u8, usize), u32>,
    i: int,
) -> (Seq<Option<ComponentAgent>>, WorldView, Map<(u8, usize), u32>)
    decreases i,
{
    if i <= 0 {
        (agents, w, d)
    } else {
        let (ag, w1, d1) = phase_upto(agents, catalog, s, w, d, i - 1);
        phase_step(ag, i - 1, catalog, s, w1, d1)
    }
}

proof fn lemma_phase_len(
    agents: Seq<Option<ComponentAgent>>,
    catalog: Seq<AIAction>,
    s: &AIData,
    w: WorldView,
    d: Map<(u8, usize), u32>,
    i: int,
)
    requires
        0 <= i <= agents.len(),
    ensures
        phase_upto(agents, catalog, s, w, d, i).0.len() == agents.len(),
    decreases i,
{
    if i > 0 {
        lemma_phase_len(agents, catalog, s, w, d, i - 1);
    }
}

/// The execution phase of a tick: every agent entity, in increasing order,
/// runs one execution tick, each seeing the stores as the ones before it
/// left them.
pub fn run_execution_phase(
    agents: &mut Vec<Option<ComponentAgent>>,
    catalog: &Vec<AIAction>,
    s: &AIData,
    st: &mut AIState,
    delays: &mut DelayTable,
)
    requires
        s.wf(),
        world_wf(s, old(st)@),
        old(delays).wf(),
    ensures
        (final(agents)@, final(st)@, final(delays)@) == phase_upto(
            old(agents)@,
            catalog@,
            s,
            old(st)@,
            old(delays)@,
            old(agents)@.len() as int,
        ),
        world_wf(s, final(st)@),
        final(delays).wf(),
{
    let ghost ag0 = agents@;
    let ghost w0 = st@;
    let ghost d0 = delays@;
    let n = agents.len();
    let mut e: usize = 0;
    while e < n
        invariant
            e <= n,
            n == ag0.len(),
            s.wf(),
            world_wf(s, st@),
            delays.wf(),
            (agents@, st@, delays@) == phase_upto(ag0, catalog@, s, w0, d0, e as int),
        decreases n - e,
    {
        proof { lemma_phase_len(ag0, catalog@, s, w0, d0, e as int); }
        match agents[e] {
            Some(a) => {
                let actor = e < s.cells.len() && st.stockpiles[e].is_some() && st.prices[e].is_some()
                    && st.movements[e].is_some();
                if actor {
                    let mut a2 = a;
                    execute_agent(&mut a2, e, catalog, s, st, delays);
                    agents[e] = Some(a2);
                }
            },
            None => {},
        }
        e = e + 1;
    }
}


/// Whether the price engine recomputes entity `e`: it holds goods and
/// prices, and its levels are given.
pub open spec fn priced(w: WorldView, levels: Seq<Option<IndifferenceLevels>>, e: int) -> bool {
    &&& w.stock[e] is Some
    &&& w.price[e] is Some
    &&& e < levels.len()
    &&& levels[e] is Some
}

/// The price phase of a tick: each entity holding goods and prices, for
/// which `levels` gives its indifference levels (computed from its current
/// holdings), gets its dirty quotes recomputed (see `refreshed`); nothing
/// else changes.
pub fn run_price_phase(st: &mut AIState, levels: &Vec<Option<IndifferenceLevels>>)
    requires
        old(st)@.stock.len() == old(st)@.price.len(),
    ensures
        final(st)@.stock == old(st)@.stock,
        final(st)@.path == old(st)@.path,
        final(st)@.price.len() == old(st)@.price.len(),
        forall|e: int| 0 <= e < old(st)@.price.len() ==> #[trigger] final(st)@.price[e] == if priced(
            old(st)@,
            levels@,
            e,
        ) {
            Some(refreshed(
                old(st)@.price[e]->0,
                old(st)@.stock[e]->0[CURRENCY as int],
                levels@[e]->0.gain@,
                levels@[e]->0.loss@,
            ))
        } else {
            old(st)@.price[e]
        },
{
    let ghost w0 = st@;
    let n = st.prices.len();
    let mut e: usize = 0;
    while e < n
        invariant
            e <= n,
            n == w0.price.len(),
            w0.stock.len() == n,
            st@.stock == w0.stock,
            st@.path == w0.path,
            st@.price.len() == n,
            forall|j: int| e <= j < n ==> #[trigger] st@.price[j] == w0.price[j],
            forall|j: int| 0 <= j < e ==> #[trigger] st@.price[j] == if priced(w0, levels@, j) {
                Some(refreshed(
                    w0.price[j]->0,
                    w0.stock[j]->0[CURRENCY as int],
                    levels@[j]->0.gain@,
                    levels@[j]->0.loss@,
                ))
            } else {
                w0.price[j]
            },
        decreases n - e,
    {
        proof {
            assert(st@.stock[e as int] == match st.stockpiles@[e as int] {
                Some(q) => Some(q.items@),
                None => None::<Seq<u16>>,
            });
            assert(st@.price[e as int] == match st.prices@[e as int] {
                Some(p) => Some(p@),
                None => None::<PriceView>,
            });
        }
        if e < levels.len() {
            match (st.stockpiles[e], st.prices[e], levels[e]) {
                (Some(q), Some(p), Some(l)) => {
                    let mut p2 = p;
                    refresh_price(&mut p2, &q, &l);
                    st.put_price(e, p2);
                },
                _ => {},
            }
        }
        e = e + 1;
    }
}


/// `k` successive ticks of action kind `k_` (tag `tag`) by `me` at `t`,
/// each starting from the stores and countdowns the one before left.
pub open spec fn advance_ticks(
    k_: ActionKind,
    tag: u8,
    me: int,
    t: int,
    s: &AIData,
    w: WorldView,
    d: Map<(u8, usize), u32>,
    k: nat,
) -> (bool, WorldView, Map<(u8, usize), u32>)
    decreases k,
{
    if k <= 1 {
        advance_spec(k_, tag, me, t, s, w, d)
    } else {
        let (_, w1, d1) = advance_ticks(k_, tag, me, t, s, w, d, (k - 1) as nat);
        advance_spec(k_, tag, me, t, s, w1, d1)
    }
}

proof fn lemma_countdown(
    site: u8,
    tag: u8,
    me: int,
    t: int,
    s: &AIData,
    w: WorldView,
    d: Map<(u8, usize), u32>,
    k: nat,
)
    requires
        w.path[me] == Some(Seq::<GridPoint>::empty()),
        !d.contains_key((tag, me as usize)),
        1 <= k < duration_of(t, s),
    ensures
        advance_ticks(ActionKind::Work { site }, tag, me, t, s, w, d, k)
            == (false, w, d.insert((tag, me as usize), (duration_of(t, s) - k) as u32)),
    decreases k,
{
    if k > 1 {
        lemma_countdown(site, tag, me, t, s, w, d, (k - 1) as nat);
        let key = (tag, me as usize);
        let d1 = d.insert(key, (duration_of(t, s) - (k - 1)) as u32);
        assert(d1.insert(key, (duration_of(t, s) - k) as u32) =~= d.insert(key, (duration_of(t, s) - k) as u32));
    }
}

/// Production at a workplace of duration `n >= 1`, by an agent standing on
/// it with no countdown running: each of the first `n - 1` ticks reports
/// not done and leaves the stores as they were; tick `n` reports done,
/// applies the production run (see `produced`) and drops the countdown.
pub proof fn law_production_takes_duration_ticks(
    site: u8,
    tag: u8,
    me: int,
    t: int,
    s: &AIData,
    w: WorldView,
    d: Map<(u8, usize), u32>,
)
    requires
        w.path[me] == Some(Seq::<GridPoint>::empty()),
        !d.contains_key((tag, me as usize)),
        duration_of(t, s) >= 1,
    ensures
        forall|k: nat| 1 <= k < duration_of(t, s) ==> {
            let (done, w1, _) = #[trigger] advance_ticks(ActionKind::Work { site }, tag, me, t, s, w, d, k);
            !done && w1 == w
        },
        advance_ticks(ActionKind::Work { site }, tag, me, t, s, w, d, duration_of(t, s) as nat)
            == (true, produced(me, t, s, w), d),
{
    let n = duration_of(t, s);
    let key = (tag, me as usize);
    assert forall|k: nat| 1 <= k < n implies {
        let (done, w1, _) = #[trigger] advance_ticks(ActionKind::Work { site }, tag, me, t, s, w, d, k);
        !done && w1 == w
    } by {
        lemma_countdown(site, tag, me, t, s, w, d, k);
    }
    if n > 1 {
        lemma_countdown(site, tag, me, t, s, w, d, (n - 1) as nat);
        assert(d.insert(key, 1u32).remove(key) =~= d);
    } else {
        assert(d.remove(key) =~= d);
    }
}

/// A trade never creates or destroys goods or currency: for every good, what
/// the two parties hold together is the same after a purchase or a sale as
/// before it.
pub proof fn law_trade_conserves_goods(good: int, me: int, t: int, w: WorldView)
    requires
        0 <= me < w.stock.len(),
        0 <= t < w.stock.len(),
        me != t,
        w.stock.len() == w.price.len(),
        w.stock[me] is Some,
        w.stock[t] is Some,
        w.price[me] is Some,
        w.stock[me]->0.len() == NUM_ITEM,
        w.stock[t]->0.len() == NUM_ITEM,
        1 <= good < NUM_ITEM,
    ensures
        forall|i: int| 0 <= i < NUM_ITEM ==> #[trigger] buy_spec(good, me, t, w).stock[me]->0[i]
            + buy_spec(good, me, t, w).stock[t]->0[i] == w.stock[me]->0[i] + w.stock[t]->0[i],
        forall|i: int| 0 <= i < NUM_ITEM ==> #[trigger] sell_spec(good, me, t, w).stock[me]->0[i]
            + sell_spec(good, me, t, w).stock[t]->0[i] == w.stock[me]->0[i] + w.stock[t]->0[i],
{
}


/// The target an agent's action is aimed at: its own entity when it has none.
pub open spec fn target_of(a: ComponentAgent, me: int) -> int {
    match a.target {
        Some(t) => t as int,
        None => me,
    }
}

/// One execution tick of an agent touches only its own stores and those of
/// its target: every other entity's goods, prices and waypoints stay as
/// they were. This is what makes the per-agent steps of the phase safe to
/// run one after another over shared stores.
pub proof fn law_execution_is_local(
    a: ComponentAgent,
    me: int,
    catalog: Seq<AIAction>,
    s: &AIData,
    w: WorldView,
    d: Map<(u8, usize), u32>,
    e: int,
)
    requires
        world_wf(s, w),
        is_actor(s, w, me),
        0 <= e < s.n(),
        e != me,
        e != target_of(a, me),
    ensures
        ({
            let w2 = execute_spec(a, me, catalog, s, w, d).1;
            &&& w2.stock[e] == w.stock[e]
            &&& w2.price[e] == w.price[e]
            &&& w2.path[e] == w.path[e]
        }),
{
}

} // verus!
