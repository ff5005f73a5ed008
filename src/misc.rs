use vstd::prelude::*;

verus! {

/// A cell of the tile grid.
#[derive(Clone, Copy, Debug, PartialEq, Eq, Structural, Hash)]
pub struct GridPoint {
    pub x: u32,
    pub y: u32,
}

/// One tile of the map; terrain `0` is walkable.
#[derive(Clone, Copy, Debug, PartialEq, Eq, Structural, Default)]
pub struct MiscTile {
    pub terrain: usize,
}

/// A rectangular tile map stored row by row.
pub struct TileGrid {
    pub width: u32,
    pub height: u32,
    pub tiles: Vec<MiscTile>,
}

impl TileGrid {
/// One tile per cell.
    pub open spec fn wf(&self) -> bool {
        self.tiles@.len() == self.width as int * self.height as int
    }

    pub open spec fn in_bounds(&self, p: GridPoint) -> bool {
        p.x < self.width && p.y < self.height
    }

    pub open spec fn tile_index(&self, p: GridPoint) -> int {
        p.y as int * self.width as int + p.x as int
    }

    /// A cell that lies on the map and whose terrain can be walked on.
    pub open spec fn walkable(&self, p: GridPoint) -> bool {
        self.in_bounds(p) && self.tiles@[self.tile_index(p)].terrain == 0
    }

    /// One move of a walk: to one of the eight surrounding cells, which must be walkable.
    pub open spec fn step(&self, a: GridPoint, b: GridPoint) -> bool {
        &&& b != a
        &&& a.x <= b.x + 1 && b.x <= a.x + 1
        &&& a.y <= b.y + 1 && b.y <= a.y + 1
        &&& self.walkable(b)
    }

    /// A non-empty sequence of cells, each reached from the one before by a step.
    pub open spec fn is_walk(&self, p: Seq<GridPoint>) -> bool {
        &&& p.len() >= 1
        &&& forall|k: int| 0 <= k < p.len() - 1 ==> #[trigger] self.step(p[k], p[k + 1])
    }

    /// Some walk leads from `a` to `b`.
    pub open spec fn reachable(&self, a: GridPoint, b: GridPoint) -> bool {
        exists|p: Seq<GridPoint>| #[trigger] self.is_walk(p) && p[0] == a && p.last() == b
    }

    /// A map of `width * height` tiles, all of terrain `terrain`.
    pub fn filled(width: u32, height: u32, terrain: usize) -> (r: TileGrid)
        requires
            width as int * height as int <= usize::MAX,
        ensures
            r.wf(),
            r.width == width,
            r.height == height,
            forall|i: int| 0 <= i < r.tiles@.len() ==> (#[trigger] r.tiles@[i]).terrain == terrain,
    {
        let n: usize = (width as usize) * (height as usize);
        let mut tiles: Vec<MiscTile> = Vec::new();
        let mut i: usize = 0;
        while i < n
            invariant
                i <= n,
                tiles@.len() == i,
                forall|k: int| 0 <= k < i ==> (#[trigger] tiles@[k]).terrain == terrain,
            decreases n - i,
        {
            tiles.push(MiscTile { terrain });
            i = i + 1;
        }
        TileGrid { width, height, tiles }
    }

    /// Sets the terrain of cell `p`.
    pub fn set_terrain(&mut self, p: GridPoint, terrain: usize)
        requires
            old(self).wf(),
            old(self).in_bounds(p),
        ensures
            final(self).wf(),
            final(self).width == old(self).width,
            final(self).height == old(self).height,
            final(self).tiles@ == old(self).tiles@.update(old(self).tile_index(p), MiscTile { terrain }),
    {
        let idx = self.index_of(p);
        self.tiles[idx] = MiscTile { terrain };
    }

    fn index_of(&self, p: GridPoint) -> (r: usize)
        requires
            self.wf(),
            self.in_bounds(p),
        ensures
            r as int == self.tile_index(p),
            r < self.tiles@.len(),
    {
        let n = self.tiles.len();
        proof {
            let w = self.width as int;
            let h = self.height as int;
            let x = p.x as int;
            let y = p.y as int;
            assert(y * w + x < h * w) by (nonlinear_arith)
                requires 0 <= x < w, 0 <= y < h;
            assert(h * w == w * h) by (nonlinear_arith);
            assert(y * w <= y * w + x);
            assert(y * w + x < n);
        }
        let row: usize = (p.y as usize) * (self.width as usize);
        row + (p.x as usize)
    }

    /// Whether `p` lies on the map and can be walked on.
    pub fn is_walkable(&self, p: GridPoint) -> (r: bool)
        requires
            self.wf(),
        ensures
            r == self.walkable(p),
    {
        if p.x < self.width && p.y < self.height {
            let idx = self.index_of(p);
            self.tiles[idx].terrain == 0
        } else {
            false
        }
    }
}


impl TileGrid {
    fn push_if_walkable(&self, out: &mut Vec<(GridPoint, u64)>, b: GridPoint)
        requires
            self.wf(),
        ensures
            forall|k: int| 0 <= k < old(out)@.len() ==> #[trigger] final(out)@[k] == old(out)@[k],
            final(out)@.len() == old(out)@.len() + if self.walkable(b) { 1int } else { 0 },
            self.walkable(b) ==> final(out)@.last() == (b, 1u64),
    {
        if self.is_walkable(b) {
            out.push((b, 1));
        }
    }

    /// The cells one step away from `a`, each with move cost 1: the four
    /// straight neighbours first, then the four diagonal ones.
    pub fn neighbours(&self, a: &GridPoint) -> (r: Vec<(GridPoint, u64)>)
        requires
            self.wf(),
        ensures
            forall|k: int| 0 <= k < r@.len() ==> (#[trigger] r@[k]).1 == 1,
            forall|b: GridPoint| self.step(*a, b) <==> r@.contains((b, 1u64)),
    {
        let a = *a;
        let mut out: Vec<(GridPoint, u64)> = Vec::new();
        let left = a.x >= 1;
        let right = a.x < u32::MAX;
        let down = a.y >= 1;
        let up = a.y < u32::MAX;
        let ghost i0: int = out@.len() as int;
        if left {
            self.push_if_walkable(&mut out, GridPoint { x: a.x - 1, y: a.y });
        }
        let ghost i1: int = out@.len() as int;
        if right {
            self.push_if_walkable(&mut out, GridPoint { x: a.x + 1, y: a.y });
        }
        let ghost i2: int = out@.len() as int;
        if down {
            self.push_if_walkable(&mut out, GridPoint { x: a.x, y: a.y - 1 });
        }
        let ghost i3: int = out@.len() as int;
        if up {
            self.push_if_walkable(&mut out, GridPoint { x: a.x, y: a.y + 1 });
        }
        let ghost i4: int = out@.len() as int;
        if left && down {
            self.push_if_walkable(&mut out, GridPoint { x: a.x - 1, y: a.y - 1 });
        }
        let ghost i5: int = out@.len() as int;
        if right && down {
            self.push_if_walkable(&mut out, GridPoint { x: a.x + 1, y: a.y - 1 });
        }
        let ghost i6: int = out@.len() as int;
        if right && up {
            self.push_if_walkable(&mut out, GridPoint { x: a.x + 1, y: a.y + 1 });
        }
        let ghost i7: int = out@.len() as int;
        if left && up {
            self.push_if_walkable(&mut out, GridPoint { x: a.x - 1, y: a.y + 1 });
        }
        proof {
            assert forall|k: int| 0 <= k < out@.len() implies (#[trigger] out@[k]).1 == 1
                && self.step(a, out@[k].0) by {}
            assert forall|b: GridPoint| self.step(a, b) implies out@.contains((b, 1u64)) by {
                if b.x as int == (a.x - 1) && b.y as int == a.y as int {
                    assert(out@[i0] == (b, 1u64));
                } else if b.x as int == (a.x + 1) && b.y as int == a.y as int {
                    assert(out@[i1] == (b, 1u64));
                } else if b.x as int == a.x as int && b.y as int == (a.y - 1) {
                    assert(out@[i2] == (b, 1u64));
                } else if b.x as int == a.x as int && b.y as int == (a.y + 1) {
                    assert(out@[i3] == (b, 1u64));
                } else if b.x as int == (a.x - 1) && b.y as int == (a.y - 1) {
                    assert(out@[i4] == (b, 1u64));
                } else if b.x as int == (a.x + 1) && b.y as int == (a.y - 1) {
                    assert(out@[i5] == (b, 1u64));
                } else if b.x as int == (a.x + 1) && b.y as int == (a.y + 1) {
                    assert(out@[i6] == (b, 1u64));
                } else if b.x as int == (a.x - 1) && b.y as int == (a.y + 1) {
                    assert(out@[i7] == (b, 1u64));
                }
            }
        }
        out
    }
}


/// Distance `|a.x - b.x| + |a.y - b.y|`, the estimate handed to the route search.
pub fn manhattan(a: &GridPoint, b: &GridPoint) -> (r: u64)
    ensures
        r as int == abs_diff(a.x as int, b.x as int) + abs_diff(a.y as int, b.y as int),
{
    let dx: u64 = if a.x >= b.x { (a.x - b.x) as u64 } else { (b.x - a.x) as u64 };
    let dy: u64 = if a.y >= b.y { (a.y - b.y) as u64 } else { (b.y - a.y) as u64 };
    dx + dy
}

pub open spec fn abs_diff(a: int, b: int) -> int {
    if a >= b { a - b } else { b - a }
}

/// Whether two cells are the same.
pub fn same_cell(a: &GridPoint, b: &GridPoint) -> (r: bool)
    ensures
        r == (*a == *b),
{
    a.x == b.x && a.y == b.y
}

/// The walk that the A* search of the `pathfinding` crate returns on this
/// map, from `start` to `goal`, or `None`.
pub uninterp spec fn astar_route(
    width: u32,
    height: u32,
    tiles: Seq<MiscTile>,
    start: GridPoint,
    goal: GridPoint,
) -> Option<Seq<GridPoint>>;

/// Relies on `pathfinding::directed::astar::astar`, searching from `start` for
/// `goal` over `TileGrid::neighbours`: a found path holds `start` first and
/// the goal last, each node a successor of the one before, and `None` comes
/// back only when no node satisfying the goal test can be reached.
#[verifier::external_body]
fn search_route(grid: &TileGrid, start: GridPoint, goal: GridPoint) -> (r: Option<Vec<GridPoint>>)
    requires
        grid.wf(),
    ensures
        match r {
            Some(p) => astar_route(grid.width, grid.height, grid.tiles@, start, goal) == Some(p@),
            None => astar_route(grid.width, grid.height, grid.tiles@, start, goal) is None,
        },
        r matches Some(p) ==> grid.is_walk(p@) && p@[0] == start && p@.last() == goal,
        r is None <==> !grid.reachable(start, goal),
{
    pathfinding::directed::astar::astar(
        &start,
        |n| grid.neighbours(n),
        |n| manhattan(n, &goal),
        |n| same_cell(n, &goal),
    ).map(|found| found.0)
}

/// Whether the `i`-th cell of `p` is kept when a walk is reduced to its
/// turning points: the two ends always, an inner cell unless it lies
/// midway between its two neighbours.
pub open spec fn is_turn(p: Seq<GridPoint>, i: int) -> bool {
    ||| i == 0
    ||| i == p.len() - 1
    ||| p[i - 1].x + p[i + 1].x != 2 * p[i].x
    ||| p[i - 1].y + p[i + 1].y != 2 * p[i].y
}

/// The kept cells of `p` at positions `i` and after, last position first.
pub open spec fn turns_from(p: Seq<GridPoint>, i: int) -> Seq<GridPoint>
    decreases p.len() - i,
{
    if i >= p.len() || i < 0 {
        seq![]
    } else if is_turn(p, i) {
        turns_from(p, i + 1).push(p[i])
    } else {
        turns_from(p, i + 1)
    }
}

/// The turning points of walk `p`, from its end back to its start: a
/// movement queue whose next waypoint is its last element.
pub open spec fn waypoints(p: Seq<GridPoint>) -> Seq<GridPoint> {
    turns_from(p, 0)
}

/// Reduces a walk to its turning points, in reverse order (see `waypoints`).
pub fn simplify_path(path: &Vec<GridPoint>) -> (r: Vec<GridPoint>)
    ensures
        r@ == waypoints(path@),
{
    let n = path.len();
    let mut out: Vec<GridPoint> = Vec::new();
    let mut i: usize = n;
    while i > 0
        invariant
            i <= n,
            n == path@.len(),
            out@ == turns_from(path@, i as int),
        decreases i,
    {
        i = i - 1;
        let keep = if i == 0 || i + 1 == n {
            true
        } else {
            let t0 = path[i - 1];
            let t1 = path[i + 1];
            let t = path[i];
            (t0.x as u64) + (t1.x as u64) != 2 * (t.x as u64)
                || (t0.y as u64) + (t1.y as u64) != 2 * (t.y as u64)
        };
        if keep {
            out.push(path[i]);
        }
    }
    out
}

proof fn lemma_waypoints_nonempty(p: Seq<GridPoint>)
    requires
        p.len() >= 1,
    ensures
        waypoints(p).len() >= 1,
        waypoints(p).last() == p[0],
{
}

/// Waypoints from `start` to `goal`, last element first to visit; empty when
/// the search finds no route.
pub fn get_targets(start: &GridPoint, goal: &GridPoint, tilemap: &TileGrid) -> (r: Vec<GridPoint>)
    requires
        tilemap.wf(),
    ensures
        r@ == route_waypoints(tilemap, *start, *goal),
        r@.len() == 0 <==> !tilemap.reachable(*start, *goal),
        r@.len() > 0 ==> r@.last() == *start && r@[0] == *goal,
{
    match search_route(tilemap, *start, *goal) {
        Some(p) => {
            proof {
                lemma_waypoints_nonempty(p@);
                lemma_waypoints_first(p@);
            }
            simplify_path(&p)
        },
        None => Vec::new(),
    }
}

/// What `get_targets` returns: the waypoints of the searched route, or nothing.
pub open spec fn route_waypoints(grid: &TileGrid, start: GridPoint, goal: GridPoint) -> Seq<GridPoint> {
    match astar_route(grid.width, grid.height, grid.tiles@, start, goal) {
        Some(p) => waypoints(p),
        None => seq![],
    }
}

proof fn lemma_turns_first(p: Seq<GridPoint>, i: int)
    requires
        0 <= i < p.len(),
    ensures
        turns_from(p, i).len() >= 1,
        turns_from(p, i)[0] == p.last(),
    decreases p.len() - i,
{
    if i + 1 < p.len() {
        lemma_turns_first(p, i + 1);
        let rest = turns_from(p, i + 1);
        if is_turn(p, i) {
            assert(rest.push(p[i])[0] == rest[0]);
        }
    } else {
        assert(turns_from(p, i + 1) =~= seq![]);
        assert(turns_from(p, i) =~= seq![p[i]]);
    }
}

proof fn lemma_waypoints_first(p: Seq<GridPoint>)
    requires
        p.len() >= 1,
    ensures
        waypoints(p)[0] == p.last(),
{
    lemma_turns_first(p, 0);
}

} // verus!
