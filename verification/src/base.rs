use vstd::prelude::*;

use crate::random::random_below;

verus! {

/// Width of the underground grid, in tiles.
pub const GRID_WIDTH: usize = 20;
/// Height of the underground grid, in tiles; row 0 is the surface.
pub const GRID_HEIGHT: usize = 15;
/// Column of the command center the base starts with.
pub const COMMAND_X: usize = 10;
/// Row of the command center the base starts with.
pub const COMMAND_Y: usize = 2;
/// Resources that each factory yields per production cycle.
pub const FACTORY_YIELD: usize = 10;
/// How many random tiles a unit looks at when it searches for somewhere to walk.
pub const SEARCH_TRIES: usize = 10;

/// What occupies one tile of the underground base.
#[derive(Clone, Copy, Debug, PartialEq, Eq, Structural)]
pub enum RoomType {
    Dirt,
    Empty,
    CommandCenter,
    Barracks,
    Factory,
}

/// The room that a tile holds when a base is founded: the surface row is open, the command
/// center sits at (`COMMAND_X`, `COMMAND_Y`), everything else is dirt.
pub open spec fn initial_room(x: int, y: int) -> RoomType {
    if y == 0 {
        RoomType::Empty
    } else if x == COMMAND_X && y == COMMAND_Y {
        RoomType::CommandCenter
    } else {
        RoomType::Dirt
    }
}

/// Whether (`x`, `y`) lies on the grid.
pub open spec fn on_grid(x: int, y: int) -> bool {
    0 <= x < GRID_WIDTH && 0 <= y < GRID_HEIGHT
}

/// The row-major position of tile (`x`, `y`).
pub open spec fn tile_index(x: int, y: int) -> int {
    y * GRID_WIDTH + x
}

/// The underground base: one room per tile.
pub struct Grid {
    cells: Vec<RoomType>,
}

impl Grid {
    /// The grid holds exactly one room per tile.
    pub closed spec fn wf(&self) -> bool {
        self.cells@.len() == GRID_WIDTH * GRID_HEIGHT
    }

    /// The room at tile (`x`, `y`).
    pub closed spec fn cell(&self, x: int, y: int) -> RoomType {
        self.cells@[tile_index(x, y)]
    }

    /// Whether a room may be placed at (`x`, `y`): below the surface, on the grid, and only
    /// over dirt or an already dug tile.
    pub open spec fn can_build(&self, x: int, y: int) -> bool {
        &&& on_grid(x, y)
        &&& y > 0
        &&& (self.cell(x, y) == RoomType::Dirt || self.cell(x, y) == RoomType::Empty)
    }

    /// The surface row is open and the command center stands where the base was founded.
    pub open spec fn keeps_foundation(&self) -> bool {
        &&& forall|x: int| 0 <= x < GRID_WIDTH ==> #[trigger] self.cell(x, 0) == RoomType::Empty
        &&& self.cell(COMMAND_X as int, COMMAND_Y as int) == RoomType::CommandCenter
    }

    /// A freshly founded base.
    pub fn new() -> (g: Grid)
        ensures
            g.wf(),
            g.keeps_foundation(),
            forall|x: int, y: int| on_grid(x, y) ==> #[trigger] g.cell(x, y) == initial_room(x, y),
    {
        let mut cells: Vec<RoomType> = Vec::new();
        let mut y: usize = 0;
        while y < GRID_HEIGHT
            invariant
                y <= GRID_HEIGHT,
                cells@.len() == y * GRID_WIDTH,
                forall|i: int| 0 <= i < cells@.len() ==> #[trigger] cells@[i] == initial_room(i % 20, i / 20),
            decreases GRID_HEIGHT - y,
        {
            let mut x: usize = 0;
            while x < GRID_WIDTH
                invariant
                    y < GRID_HEIGHT,
                    x <= GRID_WIDTH,
                    cells@.len() == y * GRID_WIDTH + x,
                    forall|i: int| 0 <= i < cells@.len() ==> #[trigger] cells@[i] == initial_room(i % 20, i / 20),
                decreases GRID_WIDTH - x,
            {
                let room = if y == 0 {
                    RoomType::Empty
                } else if x == COMMAND_X && y == COMMAND_Y {
                    RoomType::CommandCenter
                } else {
                    RoomType::Dirt
                };
                proof {
                    let i = y * 20 + x;
                    assert(i % 20 == x as int && i / 20 == y as int) by (nonlinear_arith)
                        requires i == y * 20 + x, 0 <= x < 20, 0 <= y;
                }
                cells.push(room);
                x = x + 1;
            }
            y = y + 1;
        }
        let g = Grid { cells };
        assert(g.cell(COMMAND_X as int, COMMAND_Y as int) == initial_room(COMMAND_X as int, COMMAND_Y as int));
        assert forall|x: int, y: int| on_grid(x, y) implies #[trigger] g.cell(x, y) == initial_room(x, y) by {
            let i = y * 20 + x;
            assert(i % 20 == x && i / 20 == y && 0 <= i < 300) by (nonlinear_arith)
                requires i == y * 20 + x, 0 <= x < 20, 0 <= y < 15;
        }
        g
    }

    /// The room at tile (`x`, `y`).
    pub fn room_at(&self, x: usize, y: usize) -> (r: RoomType)
        requires
            self.wf(),
            on_grid(x as int, y as int),
        ensures
            r == self.cell(x as int, y as int),
    {
        self.cells[y * GRID_WIDTH + x]
    }

    /// Places `room` at (`x`, `y`) when the rules allow it there, and leaves the base as it is
    /// otherwise.
    pub fn place_room(&mut self, x: usize, y: usize, room: RoomType)
        requires
            old(self).wf(),
        ensures
            final(self).wf(),
            forall|a: int, b: int| on_grid(a, b) ==> #[trigger] final(self).cell(a, b) == (
                if a == x && b == y && old(self).can_build(a, b) { room } else { old(self).cell(a, b) }),
            // a standing room (command center, barracks, factory) is never replaced
            forall|a: int, b: int| on_grid(a, b) && old(self).cell(a, b) != RoomType::Dirt
                && old(self).cell(a, b) != RoomType::Empty ==> #[trigger] final(self).cell(a, b) == old(self).cell(a, b),
            // the surface and the command center survive every placement
            old(self).keeps_foundation() ==> final(self).keeps_foundation(),
            // the placement is one step of a run of placements
            forall|a: int, b: int| on_grid(a, b) ==> #[trigger] final(self).cell(a, b)
                == cell_after(*old(self), seq![Placement { x, y, room }], a, b),
    {
        if x < GRID_WIDTH && y < GRID_HEIGHT && y > 0 {
            let i = y * GRID_WIDTH + x;
            let current = self.cells[i];
            if current == RoomType::Dirt || current == RoomType::Empty {
                self.cells.set(i, room);
            }
            assert forall|a: int, b: int| on_grid(a, b) implies #[trigger] self.cell(a, b) == (
                if a == x && b == y && old(self).can_build(a, b) { room } else { old(self).cell(a, b) }) by {
                lemma_tile_index_injective(a, b, x as int, y as int);
            }
        }
        proof {
            lemma_cell_after_single(*old(self), Placement { x, y, room });
        }
    }
}

impl Grid {
    /// Every tile that holds `room`, in row-major order (row by row from the surface down,
    /// left to right within a row).
    pub fn room_sites(&self, room: RoomType) -> (sites: Vec<(usize, usize)>)
        requires
            self.wf(),
        ensures
            forall|i: int| 0 <= i < sites@.len() ==> on_grid(#[trigger] sites@[i].0 as int, sites@[i].1 as int)
                && self.cell(sites@[i].0 as int, sites@[i].1 as int) == room,
            forall|i: int, j: int| 0 <= i < j < sites@.len() ==>
                tile_index(#[trigger] sites@[i].0 as int, sites@[i].1 as int)
                    < tile_index(#[trigger] sites@[j].0 as int, sites@[j].1 as int),
            forall|x: int, y: int| on_grid(x, y) && #[trigger] self.cell(x, y) == room ==>
                sites@.contains((x as usize, y as usize)),
    {
        let mut sites: Vec<(usize, usize)> = Vec::new();
        let mut y: usize = 0;
        while y < GRID_HEIGHT
            invariant
                self.wf(),
                y <= GRID_HEIGHT,
                forall|i: int| 0 <= i < sites@.len() ==> on_grid(#[trigger] sites@[i].0 as int, sites@[i].1 as int)
                    && self.cell(sites@[i].0 as int, sites@[i].1 as int) == room
                    && tile_index(sites@[i].0 as int, sites@[i].1 as int) < tile_index(0, y as int),
                forall|i: int, j: int| 0 <= i < j < sites@.len() ==>
                    tile_index(#[trigger] sites@[i].0 as int, sites@[i].1 as int)
                        < tile_index(#[trigger] sites@[j].0 as int, sites@[j].1 as int),
                forall|a: int, b: int| on_grid(a, b) && b < y && #[trigger] self.cell(a, b) == room ==>
                    sites@.contains((a as usize, b as usize)),
            decreases GRID_HEIGHT - y,
        {
            let mut x: usize = 0;
            while x < GRID_WIDTH
                invariant
                    self.wf(),
                    y < GRID_HEIGHT,
                    x <= GRID_WIDTH,
                    forall|i: int| 0 <= i < sites@.len() ==> on_grid(#[trigger] sites@[i].0 as int, sites@[i].1 as int)
                        && self.cell(sites@[i].0 as int, sites@[i].1 as int) == room
                        && tile_index(sites@[i].0 as int, sites@[i].1 as int) < tile_index(x as int, y as int),
                    forall|i: int, j: int| 0 <= i < j < sites@.len() ==>
                        tile_index(#[trigger] sites@[i].0 as int, sites@[i].1 as int)
                            < tile_index(#[trigger] sites@[j].0 as int, sites@[j].1 as int),
                    forall|a: int, b: int| on_grid(a, b) && (b < y || (b == y && a < x)) && #[trigger] self.cell(a, b) == room ==>
                        sites@.contains((a as usize, b as usize)),
                decreases GRID_WIDTH - x,
            {
                if self.room_at(x, y) == room {
                    let ghost before = sites@;
                    sites.push((x, y));
                    assert(sites@[sites@.len() - 1] == (x, y));
                    assert forall|a: int, b: int| on_grid(a, b) && (b < y || (b == y && a < x + 1))
                        && #[trigger] self.cell(a, b) == room implies sites@.contains((a as usize, b as usize)) by {
                        if a == x && b == y {
                            assert(sites@[sites@.len() - 1] == (a as usize, b as usize));
                        } else {
                            assert(before.contains((a as usize, b as usize)));
                            let k = choose|k: int| 0 <= k < before.len() && before[k] == (a as usize, b as usize);
                            assert(sites@[k] == (a as usize, b as usize));
                        }
                    }
                }
                x = x + 1;
            }
            y = y + 1;
        }
        sites
    }

    /// The first of `draws` that is not dirt, if any.
    pub fn first_open_tile(&self, draws: &Vec<(usize, usize)>) -> (r: Option<(usize, usize)>)
        requires
            self.wf(),
            forall|i: int| 0 <= i < draws@.len() ==> on_grid(#[trigger] draws@[i].0 as int, draws@[i].1 as int),
        ensures
            r == first_open(*self, draws@),
            r matches Some(t) ==> on_grid(t.0 as int, t.1 as int) && self.cell(t.0 as int, t.1 as int) != RoomType::Dirt,
    {
        let mut i: usize = 0;
        assert(draws@.skip(0) =~= draws@);
        while i < draws.len()
            invariant
                self.wf(),
                i <= draws@.len(),
                forall|k: int| 0 <= k < draws@.len() ==> on_grid(#[trigger] draws@[k].0 as int, draws@[k].1 as int),
                first_open(*self, draws@) == first_open(*self, draws@.skip(i as int)),
            decreases draws@.len() - i,
        {
            let (x, y) = draws[i];
            assert(draws@.skip(i as int)[0] == draws@[i as int]);
            assert(draws@.skip(i as int).drop_first() =~= draws@.skip(i + 1));
            if self.room_at(x, y) != RoomType::Dirt {
                return Some((x, y));
            }
            i = i + 1;
        }
        assert(draws@.skip(i as int).len() == 0);
        None
    }

    /// Looks at up to `SEARCH_TRIES` random tiles and returns the first one that is not dirt.
    ///
    /// Which tiles are looked at is up to the random generator; the result is what
    /// `first_open` gives for the tiles that were drawn, and the search gives up only after
    /// `SEARCH_TRIES` dirt tiles.
    pub fn pick_open_tile(&self) -> (r: Option<(usize, usize)>)
        requires
            self.wf(),
        ensures
            exists|drawn: Seq<(usize, usize)>| {
                &&& drawn.len() <= SEARCH_TRIES
                &&& (forall|i: int| 0 <= i < drawn.len() ==> on_grid(#[trigger] drawn[i].0 as int, drawn[i].1 as int))
                &&& r == #[trigger] first_open(*self, drawn)
                &&& r is None ==> drawn.len() == SEARCH_TRIES
            },
            r matches Some(t) ==> on_grid(t.0 as int, t.1 as int) && self.cell(t.0 as int, t.1 as int) != RoomType::Dirt,
    {
        let ghost mut drawn: Seq<(usize, usize)> = Seq::empty();
        let mut tries: usize = SEARCH_TRIES;
        while tries > 0
            invariant
                self.wf(),
                drawn.len() + tries == SEARCH_TRIES,
                forall|i: int| 0 <= i < drawn.len() ==> on_grid(#[trigger] drawn[i].0 as int, drawn[i].1 as int),
                first_open(*self, drawn) == None::<(usize, usize)>,
            decreases tries,
        {
            let rx = random_below(GRID_WIDTH);
            let ry = random_below(GRID_HEIGHT);
            proof {
                lemma_first_open_push(*self, drawn, (rx, ry));
                drawn = drawn.push((rx, ry));
            }
            if self.room_at(rx, ry) != RoomType::Dirt {
                assert(first_open(*self, drawn) == Some((rx, ry)));
                return Some((rx, ry));
            }
            tries = tries - 1;
        }
        assert(first_open(*self, drawn) == None::<(usize, usize)>);
        None
    }
}

/// The first of `draws` whose tile is not dirt.
pub open spec fn first_open(g: Grid, draws: Seq<(usize, usize)>) -> Option<(usize, usize)>
    decreases draws.len(),
{
    if draws.len() == 0 {
        None
    } else if g.cell(draws[0].0 as int, draws[0].1 as int) != RoomType::Dirt {
        Some(draws[0])
    } else {
        first_open(g, draws.drop_first())
    }
}

/// Drawing one more tile after a fruitless search finds that tile exactly when it is open.
#[verifier::spinoff_prover]
proof fn lemma_first_open_push(g: Grid, draws: Seq<(usize, usize)>, t: (usize, usize))
    requires
        first_open(g, draws) == None::<(usize, usize)>,
    ensures
        first_open(g, draws.push(t)) == (if g.cell(t.0 as int, t.1 as int) != RoomType::Dirt {
            Some(t)
        } else {
            None::<(usize, usize)>
        }),
    decreases draws.len(),
{
    let pushed = draws.push(t);
    if draws.len() == 0 {
        assert(pushed.drop_first() =~= Seq::<(usize, usize)>::empty());
        assert(pushed[0] == t);
        assert(first_open(g, pushed.drop_first()) == None::<(usize, usize)>);
    } else {
        assert(pushed.drop_first() =~= draws.drop_first().push(t));
        assert(pushed[0] == draws[0]);
        assert(g.cell(draws[0].0 as int, draws[0].1 as int) == RoomType::Dirt);
        assert(first_open(g, draws.drop_first()) == None::<(usize, usize)>);
        lemma_first_open_push(g, draws.drop_first(), t);
        assert(first_open(g, pushed) == first_open(g, pushed.drop_first()));
    }
}

/// The rooms a player can choose to place: digging (an open tile), barracks, factory.
pub open spec fn selectable(room: RoomType) -> bool {
    room == RoomType::Empty || room == RoomType::Barracks || room == RoomType::Factory
}

/// The room selected after a frame in which the number keys 1 (dig), 2 (barracks) and
/// 3 (factory) were pressed or not: the keys are read in that order, so the last pressed
/// wins; with none pressed the selection stays `current`.
pub fn select_room(current: RoomType, key1: bool, key2: bool, key3: bool) -> (r: RoomType)
    ensures
        r == (if key3 {
            RoomType::Factory
        } else if key2 {
            RoomType::Barracks
        } else if key1 {
            RoomType::Empty
        } else {
            current
        }),
        selectable(current) ==> selectable(r),
{
    let mut r = current;
    if key1 {
        r = RoomType::Empty;
    }
    if key2 {
        r = RoomType::Barracks;
    }
    if key3 {
        r = RoomType::Factory;
    }
    r
}

/// One click on the grid: place `room` at (`x`, `y`).
#[derive(Clone, Copy, Debug, PartialEq, Eq, Structural)]
pub struct Placement {
    pub x: usize,
    pub y: usize,
    pub room: RoomType,
}

/// The room at (`a`, `b`) after the placements `moves`, made in order on `g`.
pub open spec fn cell_after(g: Grid, moves: Seq<Placement>, a: int, b: int) -> RoomType
    decreases moves.len(),
{
    if moves.len() == 0 {
        g.cell(a, b)
    } else {
        let m = moves.last();
        let before = cell_after(g, moves.drop_last(), a, b);
        if a == m.x && b == m.y && on_grid(a, b) && b > 0 && (before == RoomType::Dirt || before
            == RoomType::Empty) {
            m.room
        } else {
            before
        }
    }
}

/// A single placement, spelled out.
proof fn lemma_cell_after_single(g: Grid, m: Placement)
    ensures
        forall|a: int, b: int| #[trigger] cell_after(g, seq![m], a, b) == (
            if a == m.x && b == m.y && g.can_build(a, b) { m.room } else { g.cell(a, b) }),
{
    assert(seq![m].drop_last() =~= Seq::<Placement>::empty());
    assert(seq![m].last() == m);
    assert forall|a: int, b: int| #[trigger] cell_after(g, seq![m], a, b) == (
        if a == m.x && b == m.y && g.can_build(a, b) { m.room } else { g.cell(a, b) }) by {
        assert(cell_after(g, Seq::<Placement>::empty(), a, b) == g.cell(a, b));
        assert(cell_after(g, seq![m].drop_last(), a, b) == g.cell(a, b));
    }
}

/// Placements compose: a grid that shows the result of `moves`, after one more placement,
/// shows the result of `moves` followed by that placement.
pub proof fn lemma_cell_after_push(g0: Grid, moves: Seq<Placement>, m: Placement, g1: Grid, g2: Grid)
    requires
        forall|a: int, b: int| on_grid(a, b) ==> #[trigger] g1.cell(a, b) == cell_after(g0, moves, a, b),
        forall|a: int, b: int| on_grid(a, b) ==> #[trigger] g2.cell(a, b) == cell_after(g1, seq![m], a, b),
    ensures
        forall|a: int, b: int| on_grid(a, b) ==> #[trigger] g2.cell(a, b) == cell_after(g0, moves.push(m), a, b),
{
    lemma_cell_after_single(g1, m);
    assert(moves.push(m).drop_last() =~= moves);
    assert forall|a: int, b: int| on_grid(a, b) implies #[trigger] g2.cell(a, b) == cell_after(g0, moves.push(m), a, b) by {
        assert(g1.cell(a, b) == cell_after(g0, moves, a, b));
        assert(cell_after(g1, seq![m], a, b) == g2.cell(a, b));
    }
}

/// Over any run of placements of selectable rooms on a freshly founded base, the surface
/// row stays open, the command center stays where it was founded, and no other tile ever
/// becomes a command center.
pub proof fn lemma_run_keeps_foundation(g: Grid, moves: Seq<Placement>)
    requires
        forall|x: int, y: int| on_grid(x, y) ==> #[trigger] g.cell(x, y) == initial_room(x, y),
        forall|i: int| 0 <= i < moves.len() ==> selectable(#[trigger] moves[i].room),
    ensures
        forall|x: int| 0 <= x < GRID_WIDTH ==> #[trigger] cell_after(g, moves, x, 0) == RoomType::Empty,
        cell_after(g, moves, COMMAND_X as int, COMMAND_Y as int) == RoomType::CommandCenter,
        forall|a: int, b: int| on_grid(a, b) && !(a == COMMAND_X && b == COMMAND_Y) ==>
            #[trigger] cell_after(g, moves, a, b) != RoomType::CommandCenter,
    decreases moves.len(),
{
    if moves.len() > 0 {
        let prev = moves.drop_last();
        assert forall|i: int| 0 <= i < prev.len() implies selectable(#[trigger] prev[i].room) by {
            assert(prev[i] == moves[i]);
        }
        lemma_run_keeps_foundation(g, prev);
        assert(selectable(moves[moves.len() - 1].room));
        assert forall|x: int| 0 <= x < GRID_WIDTH implies #[trigger] cell_after(g, moves, x, 0) == RoomType::Empty by {
            assert(cell_after(g, prev, x, 0) == RoomType::Empty);
        }
        assert(cell_after(g, prev, COMMAND_X as int, COMMAND_Y as int) == RoomType::CommandCenter);
        assert forall|a: int, b: int| on_grid(a, b) && !(a == COMMAND_X && b == COMMAND_Y) implies
            #[trigger] cell_after(g, moves, a, b) != RoomType::CommandCenter by {
            assert(cell_after(g, prev, a, b) != RoomType::CommandCenter);
        }
    } else {
        assert(g.cell(COMMAND_X as int, COMMAND_Y as int) == initial_room(COMMAND_X as int, COMMAND_Y as int));
        assert forall|a: int, b: int| on_grid(a, b) && !(a == COMMAND_X && b == COMMAND_Y) implies
            #[trigger] cell_after(g, moves, a, b) != RoomType::CommandCenter by {
            assert(g.cell(a, b) == initial_room(a, b));
        }
    }
}

/// Once a tile holds barracks or a factory, it keeps that room for the rest of any run of
/// placements.
pub proof fn lemma_buildings_stay(g: Grid, moves: Seq<Placement>, k: int)
    requires
        0 <= k <= moves.len(),
    ensures
        forall|a: int, b: int| (cell_after(g, moves.take(k), a, b) == RoomType::Barracks
            || cell_after(g, moves.take(k), a, b) == RoomType::Factory) ==> #[trigger] cell_after(g, moves, a, b)
            == cell_after(g, moves.take(k), a, b),
    decreases moves.len(),
{
    if k == moves.len() {
        assert(moves.take(k) =~= moves);
    } else {
        let prev = moves.drop_last();
        assert(prev.take(k) =~= moves.take(k));
        lemma_buildings_stay(g, prev, k);
        assert forall|a: int, b: int| (cell_after(g, moves.take(k), a, b) == RoomType::Barracks
            || cell_after(g, moves.take(k), a, b) == RoomType::Factory) implies #[trigger] cell_after(g, moves, a, b)
            == cell_after(g, moves.take(k), a, b) by {
            assert(cell_after(g, prev, a, b) == cell_after(g, prev.take(k), a, b));
        }
    }
}

/// Distinct tiles have distinct row-major positions inside the grid.
proof fn lemma_tile_index_injective(a: int, b: int, x: int, y: int)
    requires
        on_grid(a, b),
        on_grid(x, y),
    ensures
        (tile_index(a, b) == tile_index(x, y)) <==> (a == x && b == y),
        0 <= tile_index(a, b) < GRID_WIDTH * GRID_HEIGHT,
{
    assert((b * 20 + a == y * 20 + x) ==> (a == x && b == y)) by (nonlinear_arith)
        requires 0 <= a < 20, 0 <= x < 20, 0 <= b < 15, 0 <= y < 15;
}

} // verus!

verus! {

/// The column at which a new invader lands on the surface, drawn at random.
pub fn invader_entry_column() -> (x: usize)
    ensures
        x < GRID_WIDTH,
{
    random_below(GRID_WIDTH)
}

/// Resources after one production cycle of `factories` factories.
pub fn collect_income(resources: usize, factories: usize) -> (r: usize)
    requires
        resources + factories * FACTORY_YIELD <= usize::MAX,
    ensures
        r == resources + factories * FACTORY_YIELD,
{
    resources + factories * FACTORY_YIELD
}

/// What a soldier does in one frame.
#[derive(Clone, Copy, Debug, PartialEq, Eq, Structural)]
pub enum SoldierOrder {
    /// Head for the first invader of the frame.
    Chase,
    /// Search for an open tile to walk to.
    Patrol,
    /// Keep the current target.
    Hold,
}

/// The order of a soldier: any invader in sight takes priority over the current target; a
/// soldier with nothing to do patrols.
pub fn soldier_order(invader_seen: bool, has_target: bool) -> (o: SoldierOrder)
    ensures
        invader_seen ==> o == SoldierOrder::Chase,
        !invader_seen && !has_target ==> o == SoldierOrder::Patrol,
        !invader_seen && has_target ==> o == SoldierOrder::Hold,
{
    if invader_seen {
        SoldierOrder::Chase
    } else if !has_target {
        SoldierOrder::Patrol
    } else {
        SoldierOrder::Hold
    }
}

/// Whether soldier `j` already appears in `pairs`.
pub open spec fn soldier_taken(pairs: Seq<(usize, usize)>, j: int) -> bool {
    exists|k: int| 0 <= k < pairs.len() && #[trigger] pairs[k].1 == j
}

/// Whether invader `i` already appears in `pairs`.
pub open spec fn invader_taken(pairs: Seq<(usize, usize)>, i: int) -> bool {
    exists|k: int| 0 <= k < pairs.len() && #[trigger] pairs[k].0 == i
}

/// The first soldier at or after `j` that is in reach (`row`) and not yet taken.
pub open spec fn first_free_from(row: Seq<bool>, pairs: Seq<(usize, usize)>, j: int) -> Option<usize>
    decreases row.len() - j,
{
    if j < 0 || j >= row.len() {
        None
    } else if row[j] && !soldier_taken(pairs, j) {
        Some(j as usize)
    } else {
        first_free_from(row, pairs, j + 1)
    }
}

/// The fights of a frame among the first `n` invaders: invaders in order, each one meets the
/// first soldier in reach that is not already fighting.
pub open spec fn fights(near: Seq<Vec<bool>>, n: int) -> Seq<(usize, usize)>
    decreases n,
{
    if n <= 0 {
        Seq::empty()
    } else {
        let before = fights(near, n - 1);
        match first_free_from(near[n - 1]@, before, 0) {
            Some(j) => before.push(((n - 1) as usize, j)),
            None => before,
        }
    }
}

/// Pairs invaders with soldiers for close combat; both members of each pair die.
///
/// `near[i][j]` says whether invader `i` is within striking distance of soldier `j`.
pub fn pair_combatants(near: &Vec<Vec<bool>>, soldiers: usize) -> (pairs: Vec<(usize, usize)>)
    requires
        forall|i: int| 0 <= i < near@.len() ==> (#[trigger] near@[i])@.len() == soldiers,
    ensures
        pairs@ == fights(near@, near@.len() as int),
        // every pair is within reach
        forall|k: int| 0 <= k < pairs@.len() ==> #[trigger] pairs@[k].0 < near@.len()
            && pairs@[k].1 < soldiers && near@[pairs@[k].0 as int]@[pairs@[k].1 as int],
        // nobody fights twice
        forall|k: int, l: int| 0 <= k < l < pairs@.len() ==> #[trigger] pairs@[k].0 < #[trigger] pairs@[l].0
            && pairs@[k].1 != pairs@[l].1,
        // an invader left standing has no free soldier in reach
        forall|i: int, j: int| 0 <= i < near@.len() && 0 <= j < soldiers && !invader_taken(pairs@, i)
            && #[trigger] near@[i]@[j] ==> soldier_taken(pairs@, j),
{
    let mut pairs: Vec<(usize, usize)> = Vec::new();
    let mut taken: Vec<bool> = Vec::new();
    let mut j: usize = 0;
    while j < soldiers
        invariant
            j <= soldiers,
            taken@.len() == j,
            forall|k: int| 0 <= k < j ==> !#[trigger] taken@[k],
        decreases soldiers - j,
    {
        taken.push(false);
        j = j + 1;
    }
    let mut i: usize = 0;
    while i < near.len()
        invariant
            i <= near@.len(),
            forall|r: int| 0 <= r < near@.len() ==> (#[trigger] near@[r])@.len() == soldiers,
            pairs@ == fights(near@, i as int),
            taken@.len() == soldiers,
            forall|k: int| 0 <= k < soldiers ==> #[trigger] taken@[k] == soldier_taken(pairs@, k),
        decreases near@.len() - i,
    {
        let row = &near[i];
        let mut j: usize = 0;
        let mut found: Option<usize> = None;
        while j < soldiers
            invariant
                row@.len() == soldiers,
                j <= soldiers,
                taken@.len() == soldiers,
                forall|k: int| 0 <= k < soldiers ==> #[trigger] taken@[k] == soldier_taken(pairs@, k),
                found.is_none() ==> first_free_from(row@, pairs@, 0) == first_free_from(row@, pairs@, j as int),
                found matches Some(f) ==> first_free_from(row@, pairs@, 0) == Some(f) && f < soldiers,
            decreases soldiers - j,
        {
            if found.is_none() {
                if row[j] && !taken[j] {
                    found = Some(j);
                }
            }
            j = j + 1;
        }
        assert(found.is_none() ==> first_free_from(row@, pairs@, soldiers as int) == None::<usize>);
        let ghost before = pairs@;
        match found {
            Some(f) => {
                pairs.push((i, f));
                taken.set(f, true);
                assert forall|k: int| 0 <= k < soldiers implies #[trigger] taken@[k] == soldier_taken(pairs@, k) by {
                    if k == f {
                        assert(pairs@[pairs@.len() - 1].1 == k);
                    } else {
                        if soldier_taken(before, k) {
                            let w = choose|w: int| 0 <= w < before.len() && #[trigger] before[w].1 == k;
                            assert(pairs@[w].1 == k);
                        }
                        if soldier_taken(pairs@, k) {
                            let w = choose|w: int| 0 <= w < pairs@.len() && #[trigger] pairs@[w].1 == k;
                            assert(before[w].1 == k);
                        }
                    }
                }
            },
            None => {},
        }
        i = i + 1;
    }
    proof {
        lemma_fights_valid(near@, near@.len() as int, soldiers);
    }
    pairs
}

/// Invaders appear in increasing order, and no soldier appears twice.
pub open spec fn nobody_twice(pairs: Seq<(usize, usize)>) -> bool {
    forall|k: int, l: int| 0 <= k < l < pairs.len() ==> #[trigger] pairs[k].0 < #[trigger] pairs[l].0
        && pairs[k].1 != pairs[l].1
}

/// The fights of a frame are within reach, nobody fights twice, and no invader is left
/// standing next to a free soldier.
pub proof fn lemma_fights_valid(near: Seq<Vec<bool>>, n: int, soldiers: usize)
    requires
        0 <= n <= near.len() <= usize::MAX,
        forall|i: int| 0 <= i < near.len() ==> (#[trigger] near[i])@.len() == soldiers,
    ensures
        forall|k: int| 0 <= k < fights(near, n).len() ==> #[trigger] fights(near, n)[k].0 < n
            && fights(near, n)[k].1 < soldiers && near[fights(near, n)[k].0 as int]@[fights(near, n)[k].1 as int],
        nobody_twice(fights(near, n)),
        forall|i: int, j: int| 0 <= i < n && 0 <= j < soldiers && !invader_taken(fights(near, n), i)
            && #[trigger] near[i]@[j] ==> soldier_taken(fights(near, n), j),
    decreases n,
{
    if n > 0 {
        lemma_fights_valid(near, n - 1, soldiers);
        let before = fights(near, n - 1);
        let row = near[n - 1]@;
        lemma_first_free_from(row, before, 0);
        let after = fights(near, n);
        match first_free_from(row, before, 0) {
            Some(f) => {
                assert(after == before.push(((n - 1) as usize, f)));
                assert forall|k: int| 0 <= k < after.len() implies #[trigger] after[k].0 < n
                    && after[k].1 < soldiers && near[after[k].0 as int]@[after[k].1 as int] by {
                    if k < before.len() {
                        assert(after[k] == before[k]);
                        assert(before[k].0 < n - 1);
                    } else {
                        assert(near[n - 1]@.len() == soldiers);
                        assert(after[k] == ((n - 1) as usize, f));
                    }
                }
                assert forall|k: int, l: int| 0 <= k < l < after.len() implies #[trigger] after[k].0
                    < #[trigger] after[l].0 && after[k].1 != after[l].1 by {
                    assert(after[k] == before[k]);
                    if l < before.len() {
                        assert(after[l] == before[l]);
                    } else {
                        assert(after[l] == ((n - 1) as usize, f));
                        assert(before[k].0 < n - 1);
                        if before[k].1 == f {
                            assert(soldier_taken(before, f as int));
                        }
                    }
                }
                assert forall|i: int, j: int| 0 <= i < n && 0 <= j < soldiers && !invader_taken(after, i)
                    && #[trigger] near[i]@[j] implies soldier_taken(after, j) by {
                    if i < n - 1 {
                        if invader_taken(before, i) {
                            let w = choose|w: int| 0 <= w < before.len() && #[trigger] before[w].0 == i;
                            assert(after[w].0 == i);
                        }
                        let w = choose|w: int| 0 <= w < before.len() && #[trigger] before[w].1 == j;
                        assert(after[w].1 == j);
                    } else {
                        assert(after[after.len() - 1].0 == i);
                    }
                }
            },
            None => {
                assert(after == before);
                assert forall|k: int| 0 <= k < after.len() implies #[trigger] after[k].0 < n
                    && after[k].1 < soldiers && near[after[k].0 as int]@[after[k].1 as int] by {
                    assert(after[k] == before[k]);
                    assert(before[k].0 < n - 1);
                }
                assert forall|k: int, l: int| 0 <= k < l < after.len() implies #[trigger] after[k].0
                    < #[trigger] after[l].0 && after[k].1 != after[l].1 by {
                    assert(after[k] == before[k]);
                    assert(after[l] == before[l]);
                    assert(before[k].0 < before[l].0);
                }
                assert forall|i: int, j: int| 0 <= i < n && 0 <= j < soldiers && !invader_taken(after, i)
                    && #[trigger] near[i]@[j] implies soldier_taken(after, j) by {
                    if i == n - 1 {
                        assert(row[j]);
                    }
                }
            },
        }
    } else {
        assert(fights(near, n).len() == 0);
    }
}

/// `first_free_from` finds the least free soldier in reach at or after `j`.
proof fn lemma_first_free_from(row: Seq<bool>, pairs: Seq<(usize, usize)>, j: int)
    requires
        0 <= j,
        row.len() <= usize::MAX,
    ensures
        first_free_from(row, pairs, j) matches Some(f) ==> j <= f < row.len() && row[f as int]
            && !soldier_taken(pairs, f as int),
        first_free_from(row, pairs, j) is None ==> forall|k: int| j <= k < row.len() && #[trigger] row[k]
            ==> soldier_taken(pairs, k),
    decreases row.len() - j,
{
    if j < row.len() {
        lemma_first_free_from(row, pairs, j + 1);
    }
}

} // verus!
