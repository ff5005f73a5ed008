use agent_economy::ai::{
    execute_agent, run_execution_phase, run_price_phase, select_action, select_evaluation, AIAction, AIActionBuyOre,
    AIActionIdle, AIActionSellOre, AIActionWorkAtMine, AIData, AIState, ActionKind, Evaluation, MARKET, MINE, ORE,
};
use agent_economy::asset::{AssetItemData, AssetWorkplaceData};
use agent_economy::component::{
    ComponentAgent, ComponentMovement, ComponentPrice, ComponentStockpile, ComponentWorkplace, NO_ACTION,
    NUM_ACTION_SLOTS,
};
use agent_economy::delay::DelayTable;
use agent_economy::market::{refresh_price, IndifferenceLevels};
use agent_economy::misc::{get_targets, GridPoint, TileGrid};

fn workplace_table() -> Vec<AssetWorkplaceData> {
    vec![
        AssetWorkplaceData { name: "Mine".to_string(), inputs: vec![], outs: vec![0, 3, 0, 0], duration: 5 },
        AssetWorkplaceData { name: "Furnace".to_string(), inputs: vec![0, 2], outs: vec![0, 0, 1], duration: 3 },
        AssetWorkplaceData { name: "Smithy".to_string(), inputs: vec![0, 0, 1], outs: vec![0, 0, 0, 1], duration: 2 },
        AssetWorkplaceData { name: "Market".to_string(), inputs: vec![], outs: vec![], duration: 0 },
    ]
}

fn item_table() -> Vec<AssetItemData> {
    ["Amethyst", "Ore", "Ingot", "Tools"].iter().map(|n| AssetItemData { name: n.to_string() }).collect()
}

fn quiet_price() -> ComponentPrice {
    ComponentPrice { update: [false; 4], buy: [0; 4], sell: [0; 4] }
}

/// Entity 0 is an agent, entity 1 a mine, entity 2 a market; all on an open 8x8 map.
fn small_world(agent_cell: GridPoint) -> (AIData, AIState) {
    let data = AIData {
        workplace_datas: workplace_table(),
        item_datas: item_table(),
        tilemap: TileGrid::filled(8, 8, 0),
        cells: vec![Some(agent_cell), Some(GridPoint { x: 5, y: 5 }), Some(GridPoint { x: 2, y: 6 })],
        workplaces: vec![None, Some(ComponentWorkplace { variant: MINE }), Some(ComponentWorkplace { variant: MARKET })],
    };
    let state = AIState {
        stockpiles: vec![
            Some(ComponentStockpile::new([100, 0, 0, 0])),
            None,
            Some(ComponentStockpile::new([0, 10, 0, 0])),
        ],
        movements: vec![Some(ComponentMovement::new()), None, None],
        prices: vec![Some(quiet_price()), None, Some(quiet_price())],
    };
    (data, state)
}

fn mine_action() -> AIAction {
    AIAction::WorkAtMine(AIActionWorkAtMine { name: "Work at Mine".to_string(), axis: vec![0, 1, 6] })
}

fn buy_ore_action() -> AIAction {
    AIAction::BuyOre(AIActionBuyOre { name: "Buy Ore".to_string(), axis: vec![0, 1, 7, 13] })
}

fn sell_ore_action() -> AIAction {
    AIAction::SellOre(AIActionSellOre { name: "Sell Ore".to_string(), axis: vec![0, 4, 10, 16] })
}

#[test]
fn trade_buy_moves_one_unit_at_the_sellers_ask() {
    let (data, mut state) = small_world(GridPoint { x: 2, y: 6 });
    state.prices[2].as_mut().unwrap().sell[ORE] = 5;
    state.prices[0].as_mut().unwrap().buy[ORE] = 6;
    let mut delays = DelayTable::new();
    let done = buy_ore_action().advance(0, 2, &data, &mut state, &mut delays);
    assert!(done);
    assert_eq!(state.stock(0).items, [95, 1, 0, 0]);
    assert_eq!(state.stock(2).items, [5, 9, 0, 0]);
    assert_eq!(state.price(0).update, [true; 4]);
    assert_eq!(state.price(2).update, [true; 4]);
}

#[test]
fn trade_buy_refused_when_bid_not_above_ask() {
    let (data, mut state) = small_world(GridPoint { x: 2, y: 6 });
    state.prices[2].as_mut().unwrap().sell[ORE] = 6;
    state.prices[0].as_mut().unwrap().buy[ORE] = 6;
    let mut delays = DelayTable::new();
    assert!(buy_ore_action().advance(0, 2, &data, &mut state, &mut delays));
    assert_eq!(state.stock(0).items, [100, 0, 0, 0]);
    assert_eq!(state.stock(2).items, [0, 10, 0, 0]);
    assert_eq!(state.price(0).update, [false; 4]);
}

#[test]
fn trade_buy_refused_when_buyer_cannot_pay() {
    let (data, mut state) = small_world(GridPoint { x: 2, y: 6 });
    state.stockpiles[0] = Some(ComponentStockpile::new([4, 0, 0, 0]));
    state.prices[2].as_mut().unwrap().sell[ORE] = 5;
    state.prices[0].as_mut().unwrap().buy[ORE] = 6;
    let mut delays = DelayTable::new();
    assert!(buy_ore_action().advance(0, 2, &data, &mut state, &mut delays));
    assert_eq!(state.stock(0).items, [4, 0, 0, 0]);
    assert_eq!(state.stock(2).items, [0, 10, 0, 0]);
}

#[test]
fn trade_sell_moves_one_unit_at_the_buyers_bid() {
    let (data, mut state) = small_world(GridPoint { x: 2, y: 6 });
    state.stockpiles[0] = Some(ComponentStockpile::new([0, 3, 0, 0]));
    state.stockpiles[2] = Some(ComponentStockpile::new([50, 0, 0, 0]));
    state.prices[2].as_mut().unwrap().buy[ORE] = 7;
    state.prices[0].as_mut().unwrap().sell[ORE] = 4;
    let mut delays = DelayTable::new();
    assert!(sell_ore_action().advance(0, 2, &data, &mut state, &mut delays));
    assert_eq!(state.stock(0).items, [7, 2, 0, 0]);
    assert_eq!(state.stock(2).items, [43, 1, 0, 0]);
    assert_eq!(state.price(0).update, [true; 4]);
    assert_eq!(state.price(2).update, [true; 4]);
}

#[test]
fn trade_waits_while_moving() {
    let (data, mut state) = small_world(GridPoint { x: 0, y: 0 });
    state.movements[0] = Some(ComponentMovement { targets: vec![GridPoint { x: 1, y: 1 }] });
    state.prices[2].as_mut().unwrap().sell[ORE] = 5;
    state.prices[0].as_mut().unwrap().buy[ORE] = 6;
    let mut delays = DelayTable::new();
    assert!(!buy_ore_action().advance(0, 2, &data, &mut state, &mut delays));
    assert_eq!(state.stock(0).items, [100, 0, 0, 0]);
}

#[test]
fn production_at_mine_completes_on_fifth_call() {
    let (data, mut state) = small_world(GridPoint { x: 5, y: 5 });
    let mut delays = DelayTable::new();
    let mine = mine_action();
    for call in 1..=4 {
        assert!(!mine.advance(0, 1, &data, &mut state, &mut delays), "call {}", call);
        assert_eq!(state.stock(0).items, [100, 0, 0, 0]);
    }
    assert!(mine.advance(0, 1, &data, &mut state, &mut delays));
    assert_eq!(state.stock(0).items, [100, 3, 0, 0]);
    assert_eq!(state.price(0).update, [false, true, false, false]);
    assert_eq!(delays.get(mine.tag(), 0), None);
}

#[test]
fn production_inputs_stop_at_zero() {
    let mut data = small_world(GridPoint { x: 5, y: 5 }).0;
    data.workplaces[1] = Some(ComponentWorkplace { variant: 1 });
    let mut state = small_world(GridPoint { x: 5, y: 5 }).1;
    state.stockpiles[0] = Some(ComponentStockpile::new([0, 1, 0, 0]));
    let mut delays = DelayTable::new();
    let mine = mine_action();
    assert!(!mine.advance(0, 1, &data, &mut state, &mut delays));
    assert!(!mine.advance(0, 1, &data, &mut state, &mut delays));
    assert!(mine.advance(0, 1, &data, &mut state, &mut delays));
    assert_eq!(state.stock(0).items, [0, 0, 1, 0]);
    assert_eq!(state.price(0).update, [false, true, true, false]);
}

#[test]
fn idle_is_done_at_once() {
    let (data, mut state) = small_world(GridPoint { x: 0, y: 0 });
    let idle = AIAction::Idle(AIActionIdle { name: "Idle".to_string(), axis: vec![] });
    let mut delays = DelayTable::new();
    assert!(idle.initialize(0, 0, &data, &mut state));
    assert!(idle.advance(0, 0, &data, &mut state, &mut delays));
    assert_eq!(idle.tag(), 0);
    assert_eq!(idle.kind(), ActionKind::Idle);
    assert_eq!(idle.get_name(), "Idle");
}

#[test]
fn refresh_sets_quotes_from_levels_and_clears_flags() {
    let stock = ComponentStockpile::new([100, 4, 0, 0]);
    let levels = IndifferenceLevels { gain: [0, 90, 120, 101], loss: [0, 112, 99, 130] };
    let mut price = ComponentPrice::new();
    refresh_price(&mut price, &stock, &levels);
    assert_eq!(price.buy, [0, 10, 0, 0]);
    assert_eq!(price.sell, [0, 12, 0, 30]);
    assert_eq!(price.update, [true, false, false, false]);
}

#[test]
fn refresh_twice_gives_the_same_quotes() {
    let stock = ComponentStockpile::new([60, 2, 5, 1]);
    let levels = IndifferenceLevels { gain: [0, 55, 58, 50], loss: [0, 70, 61, 80] };
    let mut price = ComponentPrice::new();
    refresh_price(&mut price, &stock, &levels);
    let once = price;
    refresh_price(&mut price, &stock, &levels);
    assert_eq!(price, once);
    price.mark_all_dirty();
    refresh_price(&mut price, &stock, &levels);
    assert_eq!(price.buy, once.buy);
    assert_eq!(price.sell, once.sell);
}

#[test]
fn refresh_leaves_clean_goods_alone() {
    let stock = ComponentStockpile::new([10, 0, 0, 0]);
    let levels = IndifferenceLevels { gain: [0, 1, 1, 1], loss: [0, 20, 20, 20] };
    let mut price = ComponentPrice { update: [false, false, true, false], buy: [0, 7, 7, 7], sell: [0, 8, 8, 8] };
    refresh_price(&mut price, &stock, &levels);
    assert_eq!(price.buy, [0, 7, 9, 7]);
    assert_eq!(price.sell, [0, 8, 10, 8]);
}

#[test]
fn price_phase_skips_entities_without_levels() {
    let (_, mut state) = small_world(GridPoint { x: 0, y: 0 });
    state.prices[0].as_mut().unwrap().mark_all_dirty();
    state.prices[2].as_mut().unwrap().mark_all_dirty();
    let levels = vec![Some(IndifferenceLevels { gain: [0, 97, 98, 99], loss: [0, 103, 104, 105] }), None, None];
    run_price_phase(&mut state, &levels);
    assert_eq!(state.price(0).buy, [0, 3, 2, 1]);
    assert_eq!(state.price(0).sell, [0, 3, 4, 5]);
    assert_eq!(state.price(2).update, [true; 4]);
}

#[test]
fn selection_commits_to_the_only_candidate() {
    let evals = vec![Evaluation { action: 0, target: None }];
    for draw in [None, Some(0), Some(3)] {
        assert_eq!(select_evaluation(&evals, draw), Some(evals[0]));
    }
    let mut agent = ComponentAgent::new([NO_ACTION; NUM_ACTION_SLOTS]);
    assert!(select_action(&mut agent, &evals, None));
    assert_eq!(agent.current, 0);
    assert_eq!(agent.target, None);
    assert!(agent.fresh);
}

#[test]
fn selection_follows_the_weighted_draw() {
    let evals = vec![
        Evaluation { action: 0, target: None },
        Evaluation { action: 1, target: Some(1) },
        Evaluation { action: 4, target: Some(2) },
    ];
    assert_eq!(select_evaluation(&evals, Some(2)), Some(evals[2]));
    assert_eq!(select_evaluation(&evals, Some(1)), Some(evals[1]));
}

#[test]
fn selection_falls_back_to_a_uniform_draw() {
    let evals = vec![Evaluation { action: 1, target: Some(1) }, Evaluation { action: 4, target: Some(2) }];
    let mut seen = [false; 2];
    for _ in 0..200 {
        let e = select_evaluation(&evals, None).unwrap();
        let k = evals.iter().position(|x| *x == e).unwrap();
        seen[k] = true;
        let e = select_evaluation(&evals, Some(9)).unwrap();
        assert!(evals.contains(&e));
    }
    assert_eq!(seen, [true, true]);
}

#[test]
fn selection_with_nothing_applicable_fails() {
    let evals: Vec<Evaluation> = vec![];
    assert_eq!(select_evaluation(&evals, Some(0)), None);
    let mut agent = ComponentAgent::new([NO_ACTION; NUM_ACTION_SLOTS]);
    assert!(!select_action(&mut agent, &evals, None));
    assert_eq!(agent, ComponentAgent::new([NO_ACTION; NUM_ACTION_SLOTS]));
}

#[test]
fn selection_leaves_busy_agents_alone() {
    let mut agent = ComponentAgent::new([NO_ACTION; NUM_ACTION_SLOTS]);
    agent.current = 3;
    let before = agent;
    assert!(select_action(&mut agent, &vec![Evaluation { action: 0, target: None }], None));
    assert_eq!(agent, before);
}

#[test]
fn route_on_open_map_keeps_only_turning_points() {
    let grid = TileGrid::filled(10, 10, 0);
    let start = GridPoint { x: 0, y: 0 };
    let goal = GridPoint { x: 4, y: 0 };
    let route = get_targets(&start, &goal, &grid);
    assert_eq!(route, vec![goal, start]);
}

#[test]
fn route_to_same_cell_is_that_cell() {
    let grid = TileGrid::filled(3, 3, 0);
    let p = GridPoint { x: 1, y: 1 };
    assert_eq!(get_targets(&p, &p, &grid), vec![p]);
}

#[test]
fn route_around_a_wall() {
    let mut grid = TileGrid::filled(5, 5, 0);
    for y in 0..4 {
        grid.set_terrain(GridPoint { x: 2, y }, 1);
    }
    let start = GridPoint { x: 0, y: 0 };
    let goal = GridPoint { x: 4, y: 0 };
    let route = get_targets(&start, &goal, &grid);
    assert_eq!(route[0], goal);
    assert_eq!(*route.last().unwrap(), start);
    assert!(route.len() >= 3);
    assert!(route.iter().all(|p| !(p.x == 2 && p.y < 4)));
}

#[test]
fn route_to_walled_off_cell_is_empty() {
    let mut grid = TileGrid::filled(5, 5, 0);
    for y in 0..5 {
        grid.set_terrain(GridPoint { x: 2, y }, 1);
    }
    assert!(get_targets(&GridPoint { x: 0, y: 0 }, &GridPoint { x: 4, y: 4 }, &grid).is_empty());
}

#[test]
fn neighbours_of_a_corner() {
    let mut grid = TileGrid::filled(3, 3, 0);
    grid.set_terrain(GridPoint { x: 1, y: 1 }, 2);
    let n = grid.neighbours(&GridPoint { x: 0, y: 0 });
    assert_eq!(n, vec![(GridPoint { x: 1, y: 0 }, 1), (GridPoint { x: 0, y: 1 }, 1)]);
}

#[test]
fn delay_table_keeps_one_countdown_per_key() {
    let mut d = DelayTable::new();
    assert_eq!(d.get(1, 7), None);
    d.set(1, 7, 4);
    d.set(2, 7, 9);
    d.set(1, 7, 3);
    assert_eq!(d.get(1, 7), Some(3));
    assert_eq!(d.get(2, 7), Some(9));
    d.remove(1, 7);
    assert_eq!(d.get(1, 7), None);
    assert_eq!(d.get(2, 7), Some(9));
}

#[test]
fn candidates_are_the_qualifying_targets() {
    let (data, state) = small_world(GridPoint { x: 0, y: 0 });
    assert_eq!(mine_action().candidates(0, &data, &state), vec![1]);
    assert_eq!(buy_ore_action().candidates(0, &data, &state), vec![2]);
    assert_eq!(sell_ore_action().candidates(0, &data, &state), Vec::<usize>::new());
    let idle = AIAction::Idle(AIActionIdle { name: "Idle".to_string(), axis: vec![] });
    assert_eq!(idle.candidates(0, &data, &state), Vec::<usize>::new());
}

#[test]
fn initialize_requests_a_route() {
    let (data, mut state) = small_world(GridPoint { x: 0, y: 0 });
    assert!(mine_action().initialize(0, 1, &data, &mut state));
    let path = &state.movements[0].as_ref().unwrap().targets;
    assert_eq!(path, &vec![GridPoint { x: 5, y: 5 }, GridPoint { x: 0, y: 0 }]);
}

#[test]
fn initialize_when_co_located_clears_the_route() {
    let (data, mut state) = small_world(GridPoint { x: 5, y: 5 });
    state.movements[0] = Some(ComponentMovement { targets: vec![GridPoint { x: 1, y: 1 }] });
    assert!(mine_action().initialize(0, 1, &data, &mut state));
    assert!(state.arrived(0));
}

#[test]
fn initialize_fails_without_route() {
    let (mut data, mut state) = small_world(GridPoint { x: 0, y: 0 });
    for y in 0..8 {
        data.tilemap.set_terrain(GridPoint { x: 3, y }, 1);
    }
    assert!(!mine_action().initialize(0, 1, &data, &mut state));
    assert!(state.arrived(0));
}

#[test]
fn failed_initialization_returns_agent_to_idle() {
    let (mut data, mut state) = small_world(GridPoint { x: 0, y: 0 });
    for y in 0..8 {
        data.tilemap.set_terrain(GridPoint { x: 3, y }, 1);
    }
    let catalog = vec![AIAction::Idle(AIActionIdle { name: "Idle".to_string(), axis: vec![] }), mine_action()];
    let mut agent = ComponentAgent::new([NO_ACTION; NUM_ACTION_SLOTS]);
    agent.commit(Evaluation { action: 1, target: Some(1) });
    let mut delays = DelayTable::new();
    execute_agent(&mut agent, 0, &catalog, &data, &mut state, &mut delays);
    assert_eq!(agent.current, NO_ACTION);
    assert_eq!(agent.target, None);
    assert!(!agent.fresh);
}

#[test]
fn agent_runs_production_to_completion() {
    let (data, mut state) = small_world(GridPoint { x: 5, y: 5 });
    let catalog = vec![AIAction::Idle(AIActionIdle { name: "Idle".to_string(), axis: vec![] }), mine_action()];
    let mut agent = ComponentAgent::new([NO_ACTION; NUM_ACTION_SLOTS]);
    agent.commit(Evaluation { action: 1, target: Some(1) });
    let mut delays = DelayTable::new();
    for _ in 0..4 {
        execute_agent(&mut agent, 0, &catalog, &data, &mut state, &mut delays);
        assert_eq!(agent.current, 1);
        assert!(!agent.fresh);
    }
    execute_agent(&mut agent, 0, &catalog, &data, &mut state, &mut delays);
    assert_eq!(agent.current, NO_ACTION);
    assert_eq!(state.stock(0).items, [100, 3, 0, 0]);
}

#[test]
fn execution_phase_runs_agents_in_order() {
    let (data, mut state) = small_world(GridPoint { x: 2, y: 6 });
    state.prices[2].as_mut().unwrap().sell[ORE] = 5;
    state.prices[0].as_mut().unwrap().buy[ORE] = 6;
    let catalog = vec![
        AIAction::Idle(AIActionIdle { name: "Idle".to_string(), axis: vec![] }),
        mine_action(),
        mine_action(),
        mine_action(),
        buy_ore_action(),
    ];
    let mut agent = ComponentAgent::new([NO_ACTION; NUM_ACTION_SLOTS]);
    agent.commit(Evaluation { action: 4, target: Some(2) });
    let mut agents = vec![Some(agent), None, None];
    let mut delays = DelayTable::new();
    run_execution_phase(&mut agents, &catalog, &data, &mut state, &mut delays);
    assert_eq!(agents[0].unwrap().current, NO_ACTION);
    assert_eq!(state.stock(0).items, [95, 1, 0, 0]);
    assert_eq!(state.stock(2).items, [5, 9, 0, 0]);
}

#[test]
fn agent_with_target_outside_world_is_reset() {
    let (data, mut state) = small_world(GridPoint { x: 0, y: 0 });
    let catalog = vec![mine_action()];
    let mut agent = ComponentAgent::new([NO_ACTION; NUM_ACTION_SLOTS]);
    agent.commit(Evaluation { action: 0, target: Some(40) });
    let mut delays = DelayTable::new();
    execute_agent(&mut agent, 0, &catalog, &data, &mut state, &mut delays);
    assert_eq!(agent.current, NO_ACTION);
    assert_eq!(agent.target, None);
}

#[test]
fn execution_leaves_uninvolved_entities_alone() {
    let (mut data, mut state) = small_world(GridPoint { x: 2, y: 6 });
    data.cells.push(Some(GridPoint { x: 7, y: 7 }));
    data.workplaces.push(Some(ComponentWorkplace { variant: MARKET }));
    state.stockpiles.push(Some(ComponentStockpile::new([40, 4, 0, 0])));
    state.prices.push(Some(quiet_price()));
    state.movements.push(None);
    state.prices[2].as_mut().unwrap().sell[ORE] = 5;
    state.prices[0].as_mut().unwrap().buy[ORE] = 6;
    let catalog = vec![buy_ore_action()];
    let mut agent = ComponentAgent::new([NO_ACTION; NUM_ACTION_SLOTS]);
    agent.commit(Evaluation { action: 0, target: Some(2) });
    let mut delays = DelayTable::new();
    execute_agent(&mut agent, 0, &catalog, &data, &mut state, &mut delays);
    assert_eq!(state.stock(0).items, [95, 1, 0, 0]);
    assert_eq!(state.stock(3).items, [40, 4, 0, 0]);
    assert_eq!(state.price(3), quiet_price());
}
