//! The world: an endless plane, cut into square chunks that come into being
//! the first time anyone looks at them.
//!
//! What a chunk holds when it is made depends on the session's seed and on
//! the chunk's coordinate, and on nothing else: not on the chunks that were
//! made before it, nor on their number. So the order in which the plane is
//! explored leaves no trace in what is found there.
//!
//! Creatures live in the chunk they stand in. A creature that walks over a
//! chunk's edge is handed to the chunk it enters. Its name stays what it
//! was, and the chunk it was born in keeps track of where it is now, so a
//! name can always be followed to its bearer.

use vstd::prelude::*;

use crate::generators::forrest;
use crate::item::Item;
use crate::level::Tile;
use crate::monster::{Kind, Monster, MonsterId};
use crate::player::PlayerInfo;
use crate::point::{floor_div, Point};
use crate::random::{Random, WORDS};

verus! {

/// The longest side a chunk can have.
pub const MAX_CHUNK_SIZE: i32 = 1024;

/// The widest a world can be.
pub const MAX_DIMENSION: i32 = 0x4000_0000;

/// One square piece of the world.
#[derive(Clone, Debug)]
pub struct Chunk {
    /// The chunk's coordinate.
    pub position: Point,
    /// The chunk's own generator.
    pub rng: Random,
    /// The terrain, row by row from the top left.
    pub tiles: Vec<Tile>,
    /// The creatures that stand in the chunk.
    pub monsters: Vec<Monster>,
    /// The items that lie in the chunk, with their positions.
    pub items: Vec<(Point, Item)>,
    /// For each creature that was born here, by its number: the coordinate
    /// of the chunk that holds it now.
    pub natives: Vec<Point>,
}

/// What a chunk holds, as plain values.
pub struct ChunkView {
    /// The chunk's coordinate: the position of any of its cells, divided by
    /// the length of a chunk's side and rounded down.
    pub position: Point,
    /// The chunk's own generator, as the layout of the chunk left it.
    pub rng: Random,
    /// The terrain, row by row from the top left.
    pub tiles: Seq<Tile>,
    /// The creatures that stand in the chunk, with their positions in the
    /// world.
    pub monsters: Seq<Monster>,
    /// The items that lie in the chunk, with their positions in the world.
    pub items: Seq<(Point, Item)>,
    /// For each creature that was born here, by its number: the coordinate
    /// of the chunk that holds it now.
    pub natives: Seq<Point>,
}

/// The store of chunks.
pub struct World {
    seed: u32,
    dimension: i32,
    chunk_size: i32,
    spawn: Point,
    chunks: Vec<Chunk>,
}

/// What a world holds, as plain values. The chunks are told apart by their
/// coordinates; the order in which they were made is not part of it.
pub struct WorldView {
    pub seed: u32,
    /// The length of the world's side. Positions from minus one half of it
    /// up to, but not including, plus one half of it are inside.
    pub dimension: i32,
    /// The length of a chunk's side.
    pub chunk_size: i32,
    /// Where the player starts.
    pub spawn: Point,
    /// The chunks that have been made, by their coordinates.
    pub chunks: Map<Point, ChunkView>,
    /// The coordinates of the chunks in the order in which they were made.
    pub order: Seq<Point>,
}

/// The coordinate of the chunk that the position lies in.
pub open spec fn chunk_coord(pos: Point, size: int) -> Point {
    Point { x: floor_div(pos.x as int, size) as i32, y: floor_div(pos.y as int, size) as i32 }
}

/// The position of the top left cell of the chunk with the given coordinate.
pub open spec fn chunk_origin(coord: Point, size: int) -> Point {
    Point { x: (coord.x * size) as i32, y: (coord.y * size) as i32 }
}

/// The stream of the generators of the chunk with the given coordinate. No
/// two chunks share a stream.
pub open spec fn chunk_stream(coord: Point) -> u64 {
    ((coord.x + 0x8000_0000) * 0x1_0000_0000 + (coord.y + 0x8000_0000)) as u64
}

/// The generator that decides what the chunk holds.
pub open spec fn chunk_rng(seed: u32, coord: Point) -> Random {
    Random::seeded_on(seed as u64, chunk_stream(coord))
}

/// The generator that decides how the chunk looks.
pub open spec fn chunk_flavor(seed: u32, coord: Point) -> Random {
    Random::seeded_on((seed + 0x1_0000_0000) as u64, chunk_stream(coord))
}

/// Where the player starts, counted in cells from the chunk's top left
/// corner; a place outside the chunk if the player starts elsewhere.
pub open spec fn local_spawn(spawn: Point, coord: Point, size: int) -> Point {
    if chunk_coord(spawn, size) == coord {
        Point {
            x: (spawn.x - chunk_origin(coord, size).x) as i32,
            y: (spawn.y - chunk_origin(coord, size).y) as i32,
        }
    } else {
        Point { x: -1i32, y: -1i32 }
    }
}

/// Whether a chunk's coordinate is one that a position inside the widest
/// world can have.
pub open spec fn coord_in_reach(coord: Point, size: int) -> bool {
    &&& -0x2000_0000 <= coord.x * size + size - 1
    &&& coord.x * size < 0x2000_0000
    &&& -0x2000_0000 <= coord.y * size + size - 1
    &&& coord.y * size < 0x2000_0000
}

/// The chunk with the given coordinate as it is when it is made: a piece of
/// forest laid out by the chunk's own two generators, its creatures named
/// after the chunk and numbered in the order they were made, and everything
/// moved from the chunk's corner to its place in the world.
#[verifier::opaque]
pub open spec fn fresh_chunk(seed: u32, size: i32, spawn: Point, coord: Point) -> ChunkView {
    let origin = chunk_origin(coord, size as int);
    let made = forrest::forest(
        chunk_rng(seed, coord),
        chunk_flavor(seed, coord),
        Point { x: size, y: size },
        local_spawn(spawn, coord, size as int),
    );
    ChunkView {
        position: coord,
        rng: made.rng,
        tiles: Seq::new(made.map.len(), |i: int| made.map[i].1),
        monsters: Seq::new(
            made.monsters.len(),
            |j: int|
                Monster {
                    id: MonsterId { chunk: coord, index: j as u32 },
                    position: origin.spec_plus(made.monsters[j].position),
                    ..made.monsters[j]
                },
        ),
        items: Seq::new(
            made.items.len(),
            |j: int| (origin.spec_plus(made.items[j].0), made.items[j].1),
        ),
        natives: Seq::new(made.monsters.len(), |j: int| coord),
    }
}

/// Whether one of the creatures bears the name.
pub open spec fn holds(monsters: Seq<Monster>, id: MonsterId) -> bool {
    exists|j: int| 0 <= j < monsters.len() && (#[trigger] monsters[j]).id == id
}

/// The place in the list of a creature that bears the name.
pub open spec fn slot(monsters: Seq<Monster>, id: MonsterId) -> int {
    choose|j: int| 0 <= j < monsters.len() && (#[trigger] monsters[j]).id == id
}

impl ChunkView {
    /// The tile at a position given in cells from the chunk's top left
    /// corner, for a chunk with sides of the given length.
    pub open spec fn tile(self, local: Point, size: int) -> Tile {
        self.tiles[local.y * size + local.x]
    }

    /// For each of the first `n` creatures of the chunk that is alive, in
    /// the order of the chunk's list: where it stands, the chunk's
    /// coordinate, and its kind.
    pub open spec fn living(self, n: nat) -> Seq<(Point, Point, Kind)>
        decreases n,
    {
        if n == 0 {
            Seq::empty()
        } else {
            let before = self.living((n - 1) as nat);
            let monster = self.monsters[n - 1];
            if monster.dead {
                before
            } else {
                before.push((monster.position, self.position, monster.kind))
            }
        }
    }
}

impl WorldView {
    /// The coordinate of the chunk that the position lies in.
    pub open spec fn coord_of(self, pos: Point) -> Point {
        chunk_coord(pos, self.chunk_size as int)
    }

    /// Whether the position is inside the world.
    pub open spec fn in_bounds(self, pos: Point) -> bool {
        let half = self.dimension / 2;
        &&& -half <= pos.x < half
        &&& -half <= pos.y < half
    }

    /// Whether the chunk with the given coordinate has been made.
    pub open spec fn has(self, coord: Point) -> bool {
        self.chunks.dom().contains(coord)
    }

    /// The chunk with the given coordinate as it is when it is made.
    pub open spec fn fresh(self, coord: Point) -> ChunkView {
        fresh_chunk(self.seed, self.chunk_size, self.spawn, coord)
    }

    /// The world without any chunk.
    pub open spec fn empty(seed: u32, dimension: i32, chunk_size: i32, spawn: Point) -> WorldView {
        WorldView { seed, dimension, chunk_size, spawn, chunks: Map::empty(), order: Seq::empty() }
    }

    /// The world after someone has looked at `pos`: the chunk around `pos`
    /// is there, made now unless it was there before. A position outside
    /// the world has no chunk, and looking at it changes nothing.
    pub open spec fn ensured(self, pos: Point) -> WorldView {
        let coord = self.coord_of(pos);
        if self.in_bounds(pos) && !self.has(coord) {
            self.with_new_chunk(coord, self.fresh(coord))
        } else {
            self
        }
    }

    /// The world with one chunk replaced.
    pub open spec fn with_chunk(self, coord: Point, chunk: ChunkView) -> WorldView {
        WorldView { chunks: self.chunks.insert(coord, chunk), ..self }
    }

    /// The world with one more chunk, the last to have been made.
    pub open spec fn with_new_chunk(self, coord: Point, chunk: ChunkView) -> WorldView {
        WorldView { chunks: self.chunks.insert(coord, chunk), order: self.order.push(coord), ..self }
    }

    /// The `i`-th chunk in the order in which the chunks were made.
    pub open spec fn nth_chunk(self, i: int) -> ChunkView {
        self.chunks[self.order[i]]
    }

    /// The living creatures of the first `n` chunks, chunk after chunk in
    /// the order in which the chunks were made.
    pub open spec fn living_in_first(self, n: nat) -> Seq<(Point, Point, Kind)>
        decreases n,
    {
        if n == 0 {
            Seq::empty()
        } else {
            self.living_in_first((n - 1) as nat) + self.nth_chunk(n - 1).living(
                self.nth_chunk(n - 1).monsters.len(),
            )
        }
    }

    /// All the living creatures of the world.
    pub open spec fn living_entries(self) -> Seq<(Point, Point, Kind)> {
        self.living_in_first(self.order.len())
    }

    /// The coordinate of the chunk that holds the creature with the given
    /// name, as the chunk of its birth has it on record.
    pub open spec fn location(self, id: MonsterId) -> Option<Point> {
        if self.has(id.chunk) && id.index < self.chunks[id.chunk].natives.len() {
            Some(self.chunks[id.chunk].natives[id.index as int])
        } else {
            None
        }
    }

    /// The creature with the given name, wherever it is now.
    pub open spec fn monster(self, id: MonsterId) -> Option<Monster> {
        match self.location(id) {
            Some(coord) => if self.has(coord) && holds(self.chunks[coord].monsters, id) {
                Some(self.chunks[coord].monsters[slot(self.chunks[coord].monsters, id)])
            } else {
                None
            },
            None => None,
        }
    }

    /// The tile at a position, if the chunk around it has been made.
    pub open spec fn tile(self, pos: Point) -> Option<Tile> {
        let coord = self.coord_of(pos);
        if self.has(coord) {
            let origin = chunk_origin(coord, self.chunk_size as int);
            Some(
                self.chunks[coord].tile(
                    Point { x: (pos.x - origin.x) as i32, y: (pos.y - origin.y) as i32 },
                    self.chunk_size as int,
                ),
            )
        } else {
            None
        }
    }

    /// The creatures of the chunk `coord` after the creature `id` has gone
    /// from the chunk `src`, where it was in place `j`, over to the chunk
    /// `dst`, as `arrived`.
    pub open spec fn monsters_after_move(
        self,
        coord: Point,
        src: Point,
        j: int,
        dst: Point,
        arrived: Monster,
    ) -> Seq<Monster> {
        let stayed = if coord == src {
            self.chunks[coord].monsters.remove(j)
        } else {
            self.chunks[coord].monsters
        };
        if coord == dst {
            stayed.push(arrived)
        } else {
            stayed
        }
    }

    /// The world after the creature with the given name has stepped to
    /// `dest`: the chunk around `dest` is there, the creature is the last in
    /// that chunk's list and gone from the list it was in, the chunk of its
    /// birth has it on record in its new chunk, and nothing else has
    /// changed. Meant for a name that has a bearer and a `dest` inside the
    /// world.
    pub open spec fn moved(self, id: MonsterId, dest: Point) -> WorldView {
        let src = self.location(id).unwrap();
        let j = slot(self.chunks[src].monsters, id);
        let dst = self.coord_of(dest);
        let arrived = Monster { position: dest, ..self.chunks[src].monsters[j] };
        let ready = self.ensured(dest);
        WorldView {
            chunks: Map::new(
                |coord: Point| ready.has(coord),
                |coord: Point|
                    ChunkView {
                        monsters: ready.monsters_after_move(coord, src, j, dst, arrived),
                        natives: if coord == id.chunk {
                            ready.chunks[coord].natives.update(id.index as int, dst)
                        } else {
                            ready.chunks[coord].natives
                        },
                        ..ready.chunks[coord]
                    },
            ),
            ..ready
        }
    }

    /// What holds of a creature that stands in the chunk `coord`: the chunk
    /// of its birth has been made and has it on record as being in `coord`,
    /// and it stands on one of the cells of `coord`.
    pub open spec fn resident_ok(self, coord: Point, monster: Monster) -> bool {
        &&& self.has(monster.id.chunk)
        &&& monster.id.index < self.chunks[monster.id.chunk].natives.len()
        &&& self.chunks[monster.id.chunk].natives[monster.id.index as int] == coord
        &&& self.coord_of(monster.position) == coord
    }

    /// What holds of the `k`-th creature born in the chunk `birth`: the
    /// chunk on record for it has been made and holds it.
    pub open spec fn native_ok(self, birth: Point, k: int) -> bool {
        let coord = self.chunks[birth].natives[k];
        &&& self.has(coord)
        &&& holds(self.chunks[coord].monsters, MonsterId { chunk: birth, index: k as u32 })
    }

    /// What holds of each chunk of a world.
    pub open spec fn chunk_ok(self, coord: Point) -> bool {
        let chunk = self.chunks[coord];
        &&& chunk.position == coord
        &&& coord_in_reach(coord, self.chunk_size as int)
        &&& chunk.tiles.len() == self.chunk_size * self.chunk_size
        &&& chunk.natives.len() <= u32::MAX
        &&& forall|j: int|
            0 <= j < chunk.monsters.len() ==> self.resident_ok(coord, #[trigger] chunk.monsters[j])
        &&& forall|i: int, j: int|
            0 <= i < j < chunk.monsters.len() ==> (#[trigger] chunk.monsters[i]).id
                != (#[trigger] chunk.monsters[j]).id
        &&& forall|k: int| 0 <= k < chunk.natives.len() ==> #[trigger] self.native_ok(coord, k)
    }

    /// What holds of every world: its measures are within their limits, and
    /// the record of where each creature is agrees with where the creatures
    /// are.
    pub open spec fn wf(self) -> bool {
        &&& 0 < self.chunk_size <= MAX_CHUNK_SIZE
        &&& 0 < self.dimension <= MAX_DIMENSION
        &&& forall|coord: Point| #[trigger] self.has(coord) ==> self.chunk_ok(coord)
        &&& self.order.no_duplicates()
        &&& forall|coord: Point| #[trigger] self.has(coord) <==> self.order.contains(coord)
    }
}

/// The chunk of a position inside the widest world is within reach, and the
/// position is one of its cells.
pub proof fn lemma_coord_of_position(pos: Point, size: int)
    requires
        0 < size <= MAX_CHUNK_SIZE,
        -0x2000_0000 <= pos.x < 0x2000_0000,
        -0x2000_0000 <= pos.y < 0x2000_0000,
    ensures
        coord_in_reach(chunk_coord(pos, size), size),
        chunk_coord(pos, size).x == floor_div(pos.x as int, size),
        chunk_coord(pos, size).y == floor_div(pos.y as int, size),
        0 <= pos.x - chunk_coord(pos, size).x * size < size,
        0 <= pos.y - chunk_coord(pos, size).y * size < size,
{
    lemma_floor_div_bounds(pos.x as int, size);
    lemma_floor_div_bounds(pos.y as int, size);
}

/// Floor division brackets the dividend, and the quotient of a small number
/// is small.
pub proof fn lemma_floor_div_bounds(a: int, size: int)
    requires
        0 < size,
        -0x2000_0000 <= a < 0x2000_0000,
    ensures
        floor_div(a, size) * size <= a < floor_div(a, size) * size + size,
        -0x2000_0000 <= floor_div(a, size) < 0x2000_0000,
{
    let q = a / size;
    vstd::arithmetic::div_mod::lemma_fundamental_div_mod(a, size);
    vstd::arithmetic::div_mod::lemma_mod_bound(a, size);
    assert(size * q == q * size) by (nonlinear_arith);
    assert(-0x2000_0000 <= q < 0x2000_0000) by (nonlinear_arith)
        requires
            q * size <= a < q * size + size,
            0 < size,
            -0x2000_0000 <= a < 0x2000_0000,
    ;
}

/// A cell of a chunk, moved from the chunk's corner to its place in the
/// world, lies in that chunk.
pub proof fn lemma_cell_in_chunk(coord: Point, size: int, local: Point)
    requires
        0 < size <= MAX_CHUNK_SIZE,
        coord_in_reach(coord, size),
        0 <= local.x < size,
        0 <= local.y < size,
    ensures
        chunk_origin(coord, size).spec_plus(local) == (Point {
            x: (coord.x * size + local.x) as i32,
            y: (coord.y * size + local.y) as i32,
        }),
        chunk_origin(coord, size).spec_plus(local).x == coord.x * size + local.x,
        chunk_origin(coord, size).spec_plus(local).y == coord.y * size + local.y,
        chunk_coord(chunk_origin(coord, size).spec_plus(local), size) == coord,
{
    vstd::arithmetic::div_mod::lemma_fundamental_div_mod_converse(
        coord.x * size + local.x,
        size,
        coord.x as int,
        local.x as int,
    );
    vstd::arithmetic::div_mod::lemma_fundamental_div_mod_converse(
        coord.y * size + local.y,
        size,
        coord.y as int,
        local.y as int,
    );
}

/// The cells of a square piece are inside the square.
pub proof fn lemma_cell_position_in_square(i: int, size: int)
    requires
        0 < size,
        0 <= i < size * size,
    ensures
        0 <= i % size < size,
        0 <= i / size < size,
        (i / size) * size + i % size == i,
{
    vstd::arithmetic::div_mod::lemma_fundamental_div_mod(i, size);
    vstd::arithmetic::div_mod::lemma_mod_bound(i, size);
    let q = i / size;
    assert(size * q == q * size) by (nonlinear_arith);
    assert(0 <= q < size) by (nonlinear_arith)
        requires
            q * size <= i < q * size + size,
            0 <= i < size * size,
            0 < size,
    ;
}

/// What a chunk is like when it is made: its terrain covers it, its
/// creatures are alive, stand inside it, and are named after it in the
/// order of their numbers, and its record has each of them at home.
pub proof fn lemma_fresh_chunk(seed: u32, size: i32, spawn: Point, coord: Point)
    requires
        0 < size <= MAX_CHUNK_SIZE,
        coord_in_reach(coord, size as int),
    ensures
        ({
            let chunk = fresh_chunk(seed, size, spawn, coord);
            &&& chunk.position == coord
            &&& chunk.tiles.len() == size * size
            &&& chunk.natives.len() == chunk.monsters.len()
            &&& chunk.monsters.len() <= size * size
            &&& chunk.items.len() <= size * size
            &&& forall|j: int|
                0 <= j < chunk.monsters.len() ==> {
                    let monster = #[trigger] chunk.monsters[j];
                    &&& monster.id == (MonsterId { chunk: coord, index: j as u32 })
                    &&& chunk_coord(monster.position, size as int) == coord
                    &&& !monster.dead
                }
            &&& forall|k: int| 0 <= k < chunk.natives.len() ==> #[trigger] chunk.natives[k] == coord
            &&& forall|j: int|
                0 <= j < chunk.items.len() ==> chunk_coord((#[trigger] chunk.items[j]).0, size as int)
                    == coord
        }),
{
    reveal(fresh_chunk);
    let chunk = fresh_chunk(seed, size, spawn, coord);
    let square = Point { x: size, y: size };
    let player = local_spawn(spawn, coord, size as int);
    let rng = chunk_rng(seed, coord);
    let flavor = chunk_flavor(seed, coord);
    let made = forrest::forest(rng, flavor, square, player);
    let count = forrest::cell_count(square);
    assert(count == size * size) by (nonlinear_arith)
        requires
            count == (if size > 0 && size > 0 {
                (size * size) as nat
            } else {
                0
            }),
            size > 0,
    ;
    forrest::lemma_terrain_cells(rng, flavor, square, player, count);
    let ground = forrest::terrain(rng, flavor, square, player, count);
    forrest::lemma_monsters_stand_on_cells(ground.rng, ground.cells, ground.cells.len());
    let beasts = forrest::monsters_among(ground.rng, ground.cells, ground.cells.len());
    forrest::lemma_items_lie_on_cells(beasts.rng, ground.cells, beasts.monsters, ground.cells.len());
    assert forall|j: int| 0 <= j < chunk.monsters.len() implies ({
        let monster = #[trigger] chunk.monsters[j];
        &&& monster.id == (MonsterId { chunk: coord, index: j as u32 })
        &&& chunk_coord(monster.position, size as int) == coord
        &&& !monster.dead
    }) by {
        let local = made.monsters[j].position;
        let i = choose|i: int| 0 <= i < count && local == (#[trigger] ground.cells[i]).0;
        assert(ground.cells[i].0 == forrest::cell_position(i, size as int));
        lemma_cell_position_in_square(i, size as int);
        lemma_cell_in_chunk(coord, size as int, local);
    }
    assert forall|j: int| 0 <= j < chunk.items.len() implies chunk_coord(
        (#[trigger] chunk.items[j]).0,
        size as int,
    ) == coord by {
        let local = made.items[j].0;
        let i = choose|i: int| 0 <= i < count && local == (#[trigger] ground.cells[i]).0;
        assert(ground.cells[i].0 == forrest::cell_position(i, size as int));
        lemma_cell_position_in_square(i, size as int);
        lemma_cell_in_chunk(coord, size as int, local);
    }
}

/// Whether `after` has all the chunks of `before`, each as it was, and the
/// same measures.
pub open spec fn extends(before: WorldView, after: WorldView) -> bool {
    &&& after.seed == before.seed
    &&& after.dimension == before.dimension
    &&& after.chunk_size == before.chunk_size
    &&& after.spawn == before.spawn
    &&& forall|coord: Point| #[trigger]
        before.has(coord) ==> after.has(coord) && after.chunks[coord] == before.chunks[coord]
}

/// A chunk that is in order stays in order when chunks are added around it.
pub proof fn lemma_kept_chunk_ok(before: WorldView, after: WorldView, coord: Point)
    requires
        before.has(coord),
        before.chunk_ok(coord),
        extends(before, after),
    ensures
        after.chunk_ok(coord),
{
    let chunk = before.chunks[coord];
    assert(after.chunks[coord] == chunk);
    assert forall|j: int| 0 <= j < chunk.monsters.len() implies after.resident_ok(
        coord,
        #[trigger] chunk.monsters[j],
    ) by {
        let monster = chunk.monsters[j];
        assert(before.resident_ok(coord, monster));
        assert(before.has(monster.id.chunk));
    }
    assert forall|k: int| 0 <= k < chunk.natives.len() implies #[trigger] after.native_ok(coord, k) by {
        assert(before.native_ok(coord, k));
        assert(before.has(chunk.natives[k]));
    }
}

/// A chunk that has just been made is in order.
pub proof fn lemma_new_chunk_ok(before: WorldView, coord: Point)
    requires
        0 < before.chunk_size <= MAX_CHUNK_SIZE,
        coord_in_reach(coord, before.chunk_size as int),
    ensures
        before.with_new_chunk(coord, before.fresh(coord)).chunk_ok(coord),
{
    let after = before.with_new_chunk(coord, before.fresh(coord));
    let chunk = before.fresh(coord);
    lemma_fresh_chunk(before.seed, before.chunk_size, before.spawn, coord);
    assert(after.chunks[coord] == chunk);
    assert(after.has(coord));
    let size = before.chunk_size as int;
    assert(size * size <= 1024 * 1024) by (nonlinear_arith)
        requires
            0 < size <= 1024,
    ;
    assert forall|i: int, j: int| 0 <= i < j < chunk.monsters.len() implies (#[trigger] chunk.monsters[i]).id
        != (#[trigger] chunk.monsters[j]).id by {
        assert(chunk.monsters[i].id.index == i);
        assert(chunk.monsters[j].id.index == j);
    }
    assert forall|j: int| 0 <= j < chunk.monsters.len() implies after.resident_ok(
        coord,
        #[trigger] chunk.monsters[j],
    ) by {
        assert(chunk.natives[j] == coord);
    }
    assert forall|k: int| 0 <= k < chunk.natives.len() implies #[trigger] after.native_ok(coord, k) by {
        assert(chunk.natives[k] == coord);
        assert(chunk.monsters[k].id == (MonsterId { chunk: coord, index: k as u32 }));
    }
}

/// Looking at a position keeps a world in order, and takes no chunk away.
pub proof fn lemma_ensured_wf(world: WorldView, pos: Point)
    requires
        world.wf(),
    ensures
        world.ensured(pos).wf(),
        world.in_bounds(pos) ==> world.ensured(pos).has(world.coord_of(pos)),
        extends(world, world.ensured(pos)),
{
    let coord = world.coord_of(pos);
    let after = world.ensured(pos);
    if world.in_bounds(pos) && !world.has(coord) {
        lemma_coord_of_position(pos, world.chunk_size as int);
        assert(extends(world, after));
        assert forall|c: Point| #[trigger] after.has(c) implies after.chunk_ok(c) by {
            if c == coord {
                lemma_new_chunk_ok(world, coord);
            } else {
                assert(world.has(c));
                lemma_kept_chunk_ok(world, after, c);
            }
        }
        lemma_order_after_push(world.order, coord);
        assert forall|c: Point| #[trigger] after.has(c) <==> after.order.contains(c) by {
            assert(world.has(c) <==> world.order.contains(c));
        }
    }
}

/// A list without repeats, with one more entry that it did not hold, is a
/// list without repeats, and holds what it held and the new entry.
pub proof fn lemma_order_after_push(order: Seq<Point>, coord: Point)
    requires
        order.no_duplicates(),
        !order.contains(coord),
    ensures
        order.push(coord).no_duplicates(),
        forall|c: Point| order.push(coord).contains(c) <==> (order.contains(c) || c == coord),
{
    let longer = order.push(coord);
    assert forall|i: int, j: int| 0 <= i < longer.len() && 0 <= j < longer.len() && i != j implies longer[i]
        != longer[j] by {
        if i < order.len() {
            assert(order.contains(longer[i]));
        }
        if j < order.len() {
            assert(order.contains(longer[j]));
        }
    }
    assert forall|c: Point| longer.contains(c) <==> (order.contains(c) || c == coord) by {
        if longer.contains(c) {
            let i = choose|i: int| 0 <= i < longer.len() && longer[i] == c;
            if i < order.len() {
                assert(order[i] == c);
            }
        }
        if order.contains(c) {
            let i = choose|i: int| 0 <= i < order.len() && order[i] == c;
            assert(longer[i] == c);
        }
        if c == coord {
            assert(longer[order.len() as int] == c);
        }
    }
}

/// The world after the positions of a path have been looked at, one after
/// the other.
pub open spec fn explored(world: WorldView, path: Seq<Point>) -> WorldView
    decreases path.len(),
{
    if path.len() == 0 {
        world
    } else {
        explored(world, path.drop_last()).ensured(path.last())
    }
}

/// Whether one of the positions of the path is inside the world and lies
/// in the chunk with the given coordinate.
pub open spec fn visits(world: WorldView, path: Seq<Point>, coord: Point) -> bool {
    exists|i: int|
        0 <= i < path.len() && world.in_bounds(#[trigger] path[i]) && world.coord_of(path[i]) == coord
}

/// However a world that starts without chunks is explored, it has the
/// chunks that the path visits and no others, and each of them is what the
/// seed and its coordinate make it: neither the order of the path, nor what
/// else is on it, makes a difference to what a chunk holds.
pub proof fn lemma_explored(
    seed: u32,
    dimension: i32,
    chunk_size: i32,
    spawn: Point,
    path: Seq<Point>,
)
    ensures
        ({
            let start = WorldView::empty(seed, dimension, chunk_size, spawn);
            let world = explored(start, path);
            &&& world.seed == seed
            &&& world.dimension == dimension
            &&& world.chunk_size == chunk_size
            &&& world.spawn == spawn
            &&& forall|coord: Point| #[trigger] world.has(coord) <==> visits(start, path, coord)
            &&& forall|coord: Point| #[trigger]
                world.has(coord) ==> world.chunks[coord] == fresh_chunk(seed, chunk_size, spawn, coord)
        }),
    decreases path.len(),
{
    let start = WorldView::empty(seed, dimension, chunk_size, spawn);
    let world = explored(start, path);
    if path.len() > 0 {
        let shorter = path.drop_last();
        let before = explored(start, shorter);
        lemma_explored(seed, dimension, chunk_size, spawn, shorter);
        let pos = path.last();
        assert forall|coord: Point| #[trigger] world.has(coord) <==> visits(start, path, coord) by {
            assert(before.has(coord) <==> visits(start, shorter, coord));
            if visits(start, shorter, coord) {
                let i = choose|i: int|
                    0 <= i < shorter.len() && start.in_bounds(#[trigger] shorter[i]) && start.coord_of(
                        shorter[i],
                    ) == coord;
                assert(path[i] == shorter[i]);
            }
            if visits(start, path, coord) {
                let i = choose|i: int|
                    0 <= i < path.len() && start.in_bounds(#[trigger] path[i]) && start.coord_of(
                        path[i],
                    ) == coord;
                if i < shorter.len() {
                    assert(shorter[i] == path[i]);
                }
            }
            if world.has(coord) && !before.has(coord) {
                assert(path[path.len() - 1] == pos);
            }
        }
        assert forall|coord: Point| #[trigger] world.has(coord) implies world.chunks[coord]
            == fresh_chunk(seed, chunk_size, spawn, coord) by {
            if before.has(coord) {
                assert(before.chunks[coord] == fresh_chunk(seed, chunk_size, spawn, coord));
            }
        }
    } else {
        assert forall|coord: Point| #[trigger] world.has(coord) <==> visits(start, path, coord) by {}
    }
}

/// Two paths that visit the same chunks lead to the same chunks, whatever
/// the order in which they visit them.
pub proof fn lemma_any_order_same_chunks(
    seed: u32,
    dimension: i32,
    chunk_size: i32,
    spawn: Point,
    one: Seq<Point>,
    other: Seq<Point>,
)
    requires
        forall|coord: Point|
            visits(WorldView::empty(seed, dimension, chunk_size, spawn), one, coord) <==> visits(
                WorldView::empty(seed, dimension, chunk_size, spawn),
                other,
                coord,
            ),
    ensures
        explored(WorldView::empty(seed, dimension, chunk_size, spawn), one).chunks == explored(
            WorldView::empty(seed, dimension, chunk_size, spawn),
            other,
        ).chunks,
{
    let start = WorldView::empty(seed, dimension, chunk_size, spawn);
    lemma_explored(seed, dimension, chunk_size, spawn, one);
    lemma_explored(seed, dimension, chunk_size, spawn, other);
    let a = explored(start, one);
    let b = explored(start, other);
    assert forall|coord: Point| a.chunks.dom().contains(coord) <==> b.chunks.dom().contains(coord) by {
        assert(a.has(coord) <==> visits(start, one, coord));
        assert(b.has(coord) <==> visits(start, other, coord));
    }
    assert forall|coord: Point| a.chunks.dom().contains(coord) implies a.chunks[coord]
        == b.chunks[coord] by {
        assert(a.has(coord));
        assert(b.has(coord));
    }
    assert(a.chunks =~= b.chunks);
}

/// The player starts on open ground. In a world that has just been made,
/// with whatever seed, there is one chunk, the one around the place where
/// the player starts, and the tile at that place is open ground that nobody
/// has seen yet.
pub proof fn lemma_spawn_is_open(seed: u32, dimension: i32, chunk_size: i32, spawn: Point)
    requires
        0 < dimension <= MAX_DIMENSION,
        0 < chunk_size <= MAX_CHUNK_SIZE,
        WorldView::empty(seed, dimension, chunk_size, spawn).in_bounds(spawn),
    ensures
        ({
            let world = WorldView::empty(seed, dimension, chunk_size, spawn).ensured(spawn);
            &&& world.order == seq![world.coord_of(spawn)]
            &&& world.tile(spawn) == Some(Tile::fresh(crate::level::TileKind::Empty))
        }),
{
    reveal(fresh_chunk);
    let start = WorldView::empty(seed, dimension, chunk_size, spawn);
    let world = start.ensured(spawn);
    let size = chunk_size as int;
    let coord = start.coord_of(spawn);
    lemma_coord_of_position(spawn, size);
    assert(world.order =~= seq![coord]);
    let square = Point { x: chunk_size, y: chunk_size };
    let player = local_spawn(spawn, coord, size);
    let count = forrest::cell_count(square);
    assert(count == size * size) by (nonlinear_arith)
        requires
            count == (if chunk_size > 0 && chunk_size > 0 {
                (chunk_size * chunk_size) as nat
            } else {
                0
            }),
            size == chunk_size,
            size > 0,
    ;
    forrest::lemma_terrain_cells(chunk_rng(seed, coord), chunk_flavor(seed, coord), square, player, count);
    forrest::lemma_cell_position(player.x as int, player.y as int, size);
    let i = player.y * size + player.x;
    assert(0 <= i < size * size) by (nonlinear_arith)
        requires
            i == player.y * size + player.x,
            0 <= player.x < size,
            0 <= player.y < size,
    ;
    assert(forrest::cell_position(i, size) == player);
}

/// The world after the creature with the given name has stepped to the
/// places of a path, one after the other.
pub open spec fn moved_along(world: WorldView, id: MonsterId, path: Seq<Point>) -> WorldView
    decreases path.len(),
{
    if path.len() == 0 {
        world
    } else {
        moved_along(world, id, path.drop_last()).moved(id, path.last())
    }
}

/// A creature keeps its name. However many steps a creature takes, and
/// however many chunks it crosses, the world stays in order, the creature's
/// name leads to the creature, and the creature is what it was, but for
/// standing where its last step took it.
pub proof fn lemma_a_creature_keeps_its_name(world: WorldView, id: MonsterId, path: Seq<Point>)
    requires
        world.wf(),
        world.monster(id).is_some(),
        forall|i: int| 0 <= i < path.len() ==> world.in_bounds(#[trigger] path[i]),
    ensures
        moved_along(world, id, path).wf(),
        moved_along(world, id, path).dimension == world.dimension,
        moved_along(world, id, path).chunk_size == world.chunk_size,
        moved_along(world, id, path).monster(id) == Some(
            if path.len() == 0 {
                world.monster(id).unwrap()
            } else {
                Monster { position: path.last(), ..world.monster(id).unwrap() }
            },
        ),
        path.len() > 0 ==> moved_along(world, id, path).location(id) == Some(
            world.coord_of(path.last()),
        ),
    decreases path.len(),
{
    if path.len() > 0 {
        let shorter = path.drop_last();
        assert forall|i: int| 0 <= i < shorter.len() implies world.in_bounds(#[trigger] shorter[i]) by {
            assert(shorter[i] == path[i]);
        }
        lemma_a_creature_keeps_its_name(world, id, shorter);
        let before = moved_along(world, id, shorter);
        assert(world.in_bounds(path[path.len() - 1]));
        lemma_move_setup(before, id, path.last());
        lemma_moved(before, id, path.last());
    }
}

/// In a list without two bearers of one name, a name's bearer is in one
/// place only.
pub proof fn lemma_slot(monsters: Seq<Monster>, id: MonsterId, j: int)
    requires
        0 <= j < monsters.len(),
        monsters[j].id == id,
        forall|a: int, b: int|
            0 <= a < b < monsters.len() ==> (#[trigger] monsters[a]).id != (#[trigger] monsters[b]).id,
    ensures
        holds(monsters, id),
        slot(monsters, id) == j,
{
    let k = slot(monsters, id);
    if k < j {
        assert(monsters[k].id != monsters[j].id);
    }
    if j < k {
        assert(monsters[j].id != monsters[k].id);
    }
}

/// In a world in order, the bearer of a name is where the record says, and
/// nowhere else.
pub proof fn lemma_bearer(world: WorldView, coord: Point, j: int)
    requires
        world.wf(),
        world.has(coord),
        0 <= j < world.chunks[coord].monsters.len(),
    ensures
        world.location(world.chunks[coord].monsters[j].id) == Some(coord),
        world.monster(world.chunks[coord].monsters[j].id) == Some(world.chunks[coord].monsters[j]),
{
    let monsters = world.chunks[coord].monsters;
    assert(world.chunk_ok(coord));
    assert(world.resident_ok(coord, monsters[j]));
    lemma_slot(monsters, monsters[j].id, j);
}

/// In a world in order, a name with a bearer leads to a chunk that has been
/// made and holds the bearer.
pub proof fn lemma_monster_found(world: WorldView, id: MonsterId)
    requires
        world.wf(),
        world.monster(id).is_some(),
    ensures
        ({
            let src = world.location(id).unwrap();
            let j = slot(world.chunks[src].monsters, id);
            &&& world.has(id.chunk)
            &&& id.index < world.chunks[id.chunk].natives.len()
            &&& world.has(src)
            &&& 0 <= j < world.chunks[src].monsters.len()
            &&& world.chunks[src].monsters[j].id == id
            &&& world.monster(id) == Some(world.chunks[src].monsters[j])
        }),
{
}

/// In a world in order, every name on record has a bearer.
pub proof fn lemma_native_found(world: WorldView, id: MonsterId)
    requires
        world.wf(),
        world.has(id.chunk),
        id.index < world.chunks[id.chunk].natives.len(),
    ensures
        world.monster(id).is_some(),
{
    assert(world.chunk_ok(id.chunk));
    assert(world.native_ok(id.chunk, id.index as int));
}

/// Where a creature of a chunk's list was in the list before a move, given
/// its place `t` after the move: places from `j` on have moved up by one in
/// the chunk the mover left.
pub open spec fn place_before_move(coord: Point, src: Point, j: int, t: int) -> int {
    if coord == src && t >= j {
        t + 1
    } else {
        t
    }
}

/// What is known when a creature is about to move.
pub proof fn lemma_move_setup(world: WorldView, id: MonsterId, dest: Point)
    requires
        world.wf(),
        world.monster(id).is_some(),
        world.in_bounds(dest),
    ensures
        ({
            let src = world.location(id).unwrap();
            let j = slot(world.chunks[src].monsters, id);
            let dst = world.coord_of(dest);
            let ready = world.ensured(dest);
            let after = world.moved(id, dest);
            &&& ready.wf()
            &&& ready.has(src)
            &&& ready.has(dst)
            &&& ready.has(id.chunk)
            &&& ready.chunks[src] == world.chunks[src]
            &&& ready.chunks[id.chunk] == world.chunks[id.chunk]
            &&& id.index < ready.chunks[id.chunk].natives.len()
            &&& ready.chunks[id.chunk].natives[id.index as int] == src
            &&& 0 <= j < ready.chunks[src].monsters.len()
            &&& ready.chunks[src].monsters[j].id == id
            &&& ready.location(id) == Some(src)
            &&& after.seed == world.seed
            &&& after.dimension == world.dimension
            &&& after.chunk_size == world.chunk_size
            &&& after.spawn == world.spawn
            &&& after.order == ready.order
            &&& forall|coord: Point| after.has(coord) == ready.has(coord)
        }),
{
    lemma_ensured_wf(world, dest);
    lemma_monster_found(world, id);
    let src = world.location(id).unwrap();
    assert(world.has(src));
    assert(world.has(id.chunk));
}

/// The creatures of a chunk after a move are the mover, if it arrived
/// here, and the creatures that were here before and are not the mover.
pub proof fn lemma_resident_after_move(
    world: WorldView,
    id: MonsterId,
    dest: Point,
    coord: Point,
    t: int,
)
    requires
        world.wf(),
        world.monster(id).is_some(),
        world.in_bounds(dest),
        world.moved(id, dest).has(coord),
        0 <= t < world.moved(id, dest).chunks[coord].monsters.len(),
    ensures
        ({
            let src = world.location(id).unwrap();
            let j = slot(world.chunks[src].monsters, id);
            let dst = world.coord_of(dest);
            let ready = world.ensured(dest);
            let after = world.moved(id, dest);
            let before = place_before_move(coord, src, j, t);
            let monster = after.chunks[coord].monsters[t];
            if coord == dst && t == after.chunks[coord].monsters.len() - 1 {
                monster == (Monster { position: dest, ..world.monster(id).unwrap() })
            } else {
                &&& 0 <= before < ready.chunks[coord].monsters.len()
                &&& monster == ready.chunks[coord].monsters[before]
                &&& monster.id != id
                &&& (coord == src ==> before != j)
            }
        }),
{
    lemma_move_setup(world, id, dest);
    let src = world.location(id).unwrap();
    let j = slot(world.chunks[src].monsters, id);
    let dst = world.coord_of(dest);
    let ready = world.ensured(dest);
    let after = world.moved(id, dest);
    let before = place_before_move(coord, src, j, t);
    if !(coord == dst && t == after.chunks[coord].monsters.len() - 1) {
        assert(0 <= before < ready.chunks[coord].monsters.len());
        assert(after.chunks[coord].monsters[t] == ready.chunks[coord].monsters[before]);
        if ready.chunks[coord].monsters[before].id == id {
            lemma_bearer(ready, coord, before);
            lemma_slot(ready.chunks[src].monsters, id, j);
        }
    }
}

/// A creature that was in a chunk before a move, and is not the mover, is
/// in it after the move.
pub proof fn lemma_stays_after_move(
    world: WorldView,
    id: MonsterId,
    dest: Point,
    coord: Point,
    w: int,
)
    requires
        world.wf(),
        world.monster(id).is_some(),
        world.in_bounds(dest),
        world.ensured(dest).has(coord),
        0 <= w < world.ensured(dest).chunks[coord].monsters.len(),
        world.ensured(dest).chunks[coord].monsters[w].id != id,
    ensures
        holds(
            world.moved(id, dest).chunks[coord].monsters,
            world.ensured(dest).chunks[coord].monsters[w].id,
        ),
        exists|t: int|
            0 <= t < world.moved(id, dest).chunks[coord].monsters.len() && #[trigger] world.moved(
                id,
                dest,
            ).chunks[coord].monsters[t] == world.ensured(dest).chunks[coord].monsters[w],
{
    lemma_move_setup(world, id, dest);
    let src = world.location(id).unwrap();
    let j = slot(world.chunks[src].monsters, id);
    let ready = world.ensured(dest);
    let after = world.moved(id, dest);
    let t = if coord == src && w > j {
        w - 1
    } else {
        w
    };
    assert(after.chunks[coord].monsters[t] == ready.chunks[coord].monsters[w]);
}

/// After a move every chunk is in order.
pub proof fn lemma_moved_chunk_ok(world: WorldView, id: MonsterId, dest: Point, coord: Point)
    requires
        world.wf(),
        world.monster(id).is_some(),
        world.in_bounds(dest),
        world.moved(id, dest).has(coord),
    ensures
        world.moved(id, dest).chunk_ok(coord),
{
    lemma_move_setup(world, id, dest);
    let src = world.location(id).unwrap();
    let j = slot(world.chunks[src].monsters, id);
    let dst = world.coord_of(dest);
    let ready = world.ensured(dest);
    let after = world.moved(id, dest);
    let chunk = after.chunks[coord];
    let was = ready.chunks[coord];
    assert(ready.chunk_ok(coord));
    assert(chunk.natives.len() == was.natives.len());
    assert forall|t: int| 0 <= t < chunk.monsters.len() implies after.resident_ok(
        coord,
        #[trigger] chunk.monsters[t],
    ) by {
        lemma_resident_after_move(world, id, dest, coord, t);
        let monster = chunk.monsters[t];
        if coord == dst && t == chunk.monsters.len() - 1 {
            assert(monster.id == id);
        } else {
            let before = place_before_move(coord, src, j, t);
            assert(ready.resident_ok(coord, was.monsters[before]));
        }
    }
    assert forall|a: int, b: int| 0 <= a < b < chunk.monsters.len() implies (#[trigger] chunk.monsters[a]).id
        != (#[trigger] chunk.monsters[b]).id by {
        lemma_resident_after_move(world, id, dest, coord, a);
        lemma_resident_after_move(world, id, dest, coord, b);
        if !(coord == dst && b == chunk.monsters.len() - 1) {
            let a0 = place_before_move(coord, src, j, a);
            let b0 = place_before_move(coord, src, j, b);
            assert(was.monsters[a0].id != was.monsters[b0].id);
        }
    }
    assert forall|k: int| 0 <= k < chunk.natives.len() implies #[trigger] after.native_ok(coord, k) by {
        if coord == id.chunk && k == id.index {
            let last = after.chunks[dst].monsters.len() - 1;
            assert(after.chunks[dst].monsters[last].id == id);
        } else {
            assert(ready.native_ok(coord, k));
            let target = was.natives[k];
            let name = MonsterId { chunk: coord, index: k as u32 };
            let w = slot(ready.chunks[target].monsters, name);
            lemma_stays_after_move(world, id, dest, target, w);
        }
    }
}

/// A move keeps a world in order. The creature that moved keeps its name
/// and everything else about it but its position, which is where it went;
/// its name leads to it as before. What any other name leads to is what it
/// led to before.
pub proof fn lemma_moved(world: WorldView, id: MonsterId, dest: Point)
    requires
        world.wf(),
        world.monster(id).is_some(),
        world.in_bounds(dest),
    ensures
        world.moved(id, dest).wf(),
        world.moved(id, dest).monster(id) == Some(
            Monster { position: dest, ..world.monster(id).unwrap() },
        ),
        world.moved(id, dest).location(id) == Some(world.coord_of(dest)),
        forall|other: MonsterId|
            other != id ==> #[trigger] world.moved(id, dest).monster(other) == world.ensured(
                dest,
            ).monster(other),
{
    lemma_move_setup(world, id, dest);
    let dst = world.coord_of(dest);
    let ready = world.ensured(dest);
    let after = world.moved(id, dest);
    assert forall|coord: Point| #[trigger] after.has(coord) implies after.chunk_ok(coord) by {
        lemma_moved_chunk_ok(world, id, dest, coord);
    }
    assert forall|coord: Point| #[trigger] after.has(coord) <==> after.order.contains(coord) by {
        assert(ready.has(coord) <==> ready.order.contains(coord));
    }
    let last = after.chunks[dst].monsters.len() - 1;
    lemma_bearer(after, dst, last);
    assert forall|other: MonsterId| other != id implies #[trigger] after.monster(other)
        == ready.monster(other) by {
        lemma_moved_other(world, id, dest, other);
    }
}

/// What a name other than the mover's leads to is the same before and
/// after a move.
pub proof fn lemma_moved_other(world: WorldView, id: MonsterId, dest: Point, other: MonsterId)
    requires
        world.wf(),
        world.monster(id).is_some(),
        world.in_bounds(dest),
        other != id,
        world.moved(id, dest).wf(),
    ensures
        world.moved(id, dest).monster(other) == world.ensured(dest).monster(other),
{
    lemma_move_setup(world, id, dest);
    let ready = world.ensured(dest);
    let after = world.moved(id, dest);
    assert(after.location(other) == ready.location(other));
    if ready.has(other.chunk) && other.index < ready.chunks[other.chunk].natives.len() {
        lemma_native_found(ready, other);
        lemma_monster_found(ready, other);
        let home = ready.location(other).unwrap();
        let w = slot(ready.chunks[home].monsters, other);
        lemma_stays_after_move(world, id, dest, home, w);
        let t = choose|t: int|
            0 <= t < after.chunks[home].monsters.len() && #[trigger] after.chunks[home].monsters[t]
                == ready.chunks[home].monsters[w];
        lemma_bearer(after, home, t);
    }
}

impl View for Chunk {
    type V = ChunkView;

    open spec fn view(&self) -> ChunkView {
        ChunkView {
            position: self.position,
            rng: self.rng,
            tiles: self.tiles@,
            monsters: self.monsters@,
            items: self.items@,
            natives: self.natives@,
        }
    }
}

/// The terrain of a list of cells.
fn tiles_of(map: &Vec<(Point, Tile)>) -> (tiles: Vec<Tile>)
    ensures
        tiles@ == Seq::new(map@.len(), |i: int| map@[i].1),
{
    let mut tiles: Vec<Tile> = Vec::new();
    let mut i: usize = 0;
    while i < map.len()
        invariant
            0 <= i <= map@.len(),
            tiles@.len() == i,
            forall|k: int| 0 <= k < i ==> tiles@[k] == (#[trigger] map@[k]).1,
        decreases map@.len() - i,
    {
        tiles.push(map[i].1);
        i = i + 1;
    }
    assert(tiles@ =~= Seq::new(map@.len(), |i: int| map@[i].1));
    tiles
}

/// Names the creatures of a new chunk after it and moves them from the
/// chunk's corner to their places in the world.
fn adopted(born: &Vec<Monster>, coord: Point, origin: Point) -> (monsters: Vec<Monster>)
    requires
        born@.len() <= u32::MAX,
    ensures
        monsters@ == Seq::new(
            born@.len(),
            |j: int|
                Monster {
                    id: MonsterId { chunk: coord, index: j as u32 },
                    position: origin.spec_plus(born@[j].position),
                    ..born@[j]
                },
        ),
{
    let mut monsters: Vec<Monster> = Vec::new();
    let mut j: usize = 0;
    while j < born.len()
        invariant
            0 <= j <= born@.len(),
            born@.len() <= u32::MAX,
            monsters@.len() == j,
            forall|k: int|
                0 <= k < j ==> monsters@[k] == (Monster {
                    id: MonsterId { chunk: coord, index: k as u32 },
                    position: origin.spec_plus((#[trigger] born@[k]).position),
                    ..born@[k]
                }),
        decreases born@.len() - j,
    {
        let monster = born[j];
        monsters.push(
            Monster {
                id: MonsterId { chunk: coord, index: j as u32 },
                kind: monster.kind,
                position: origin.plus(monster.position),
                dead: monster.dead,
                color: monster.color,
                companion_bonus: monster.companion_bonus,
            },
        );
        j = j + 1;
    }
    assert(monsters@ =~= Seq::new(
        born@.len(),
        |j: int|
            Monster {
                id: MonsterId { chunk: coord, index: j as u32 },
                position: origin.spec_plus(born@[j].position),
                ..born@[j]
            },
    ));
    monsters
}

/// Moves the items of a new chunk from the chunk's corner to their places
/// in the world.
fn placed(found: &Vec<(Point, Item)>, origin: Point) -> (items: Vec<(Point, Item)>)
    ensures
        items@ == Seq::new(found@.len(), |j: int| (origin.spec_plus(found@[j].0), found@[j].1)),
{
    let mut items: Vec<(Point, Item)> = Vec::new();
    let mut n: usize = 0;
    while n < found.len()
        invariant
            0 <= n <= found@.len(),
            items@.len() == n,
            forall|k: int|
                0 <= k < n ==> items@[k] == (origin.spec_plus((#[trigger] found@[k]).0), found@[k].1),
        decreases found@.len() - n,
    {
        items.push((origin.plus(found[n].0), found[n].1));
        n = n + 1;
    }
    assert(items@ =~= Seq::new(found@.len(), |j: int| (origin.spec_plus(found@[j].0), found@[j].1)));
    items
}

/// As many copies of a coordinate as asked for.
fn all_at(coord: Point, count: usize) -> (natives: Vec<Point>)
    ensures
        natives@ == Seq::new(count as nat, |j: int| coord),
{
    let mut natives: Vec<Point> = Vec::new();
    let mut n: usize = 0;
    while n < count
        invariant
            0 <= n <= count,
            natives@.len() == n,
            forall|k: int| 0 <= k < n ==> natives@[k] == coord,
        decreases count - n,
    {
        natives.push(coord);
        n = n + 1;
    }
    assert(natives@ =~= Seq::new(count as nat, |j: int| coord));
    natives
}

impl Chunk {
    /// Makes the chunk with the given coordinate.
    fn generate(seed: u32, size: i32, spawn: Point, coord: Point) -> (chunk: Chunk)
        requires
            0 < size <= MAX_CHUNK_SIZE,
            coord_in_reach(coord, size as int),
        ensures
            chunk@ == fresh_chunk(seed, size, spawn, coord),
    {
        let origin = Point::new(coord.x * size, coord.y * size);
        let home = spawn.div_floor(size);
        let player = if home.x == coord.x && home.y == coord.y {
            Point::new(spawn.x - origin.x, spawn.y - origin.y)
        } else {
            Point::new(-1, -1)
        };
        let column: u64 = (coord.x as i64 + 0x8000_0000i64) as u64;
        let row: u64 = (coord.y as i64 + 0x8000_0000i64) as u64;
        let stream: u64 = column * WORDS + row;
        let mut rng = Random::from_seed_and_stream(seed as u64, stream);
        let mut flavor = Random::from_seed_and_stream(seed as u64 + WORDS, stream);
        proof {
            lemma_fresh_chunk(seed, size, spawn, coord);
            reveal(fresh_chunk);
            assert(size * size <= 1024 * 1024) by (nonlinear_arith)
                requires
                    0 < size <= 1024,
            ;
        }
        let (map, born, found) = forrest::generate(&mut rng, &mut flavor, Point::new(size, size), player);
        let tiles = tiles_of(&map);
        let monsters = adopted(&born, coord, origin);
        let items = placed(&found, origin);
        let natives = all_at(coord, born.len());
        Chunk { position: coord, rng, tiles, monsters, items, natives }
    }

    /// The chunk's coordinate.
    pub fn position(&self) -> (coord: Point)
        ensures
            coord == self@.position,
    {
        self.position
    }

    /// The chunk's terrain, row by row from the top left.
    pub fn tiles(&self) -> (tiles: &[Tile])
        ensures
            tiles@ == self@.tiles,
    {
        self.tiles.as_slice()
    }

    /// The creatures that stand in the chunk.
    pub fn monsters(&self) -> (monsters: &[Monster])
        ensures
            monsters@ == self@.monsters,
    {
        self.monsters.as_slice()
    }

    /// The items that lie in the chunk, with their positions.
    pub fn items(&self) -> (items: &[(Point, Item)])
        ensures
            items@ == self@.items,
    {
        self.items.as_slice()
    }
}

/// Whether one of the chunks of the list has the coordinate.
pub open spec fn listed(chunks: Seq<Chunk>, coord: Point) -> bool {
    exists|i: int| 0 <= i < chunks.len() && (#[trigger] chunks[i]).position == coord
}

/// The place in the list of a chunk with the coordinate.
pub open spec fn place_of(chunks: Seq<Chunk>, coord: Point) -> int {
    choose|i: int| 0 <= i < chunks.len() && (#[trigger] chunks[i]).position == coord
}

/// Whether no two chunks of the list have the same coordinate.
pub open spec fn distinct_positions(chunks: Seq<Chunk>) -> bool {
    forall|i: int, j: int|
        0 <= i < j < chunks.len() ==> (#[trigger] chunks[i]).position != (#[trigger] chunks[j]).position
}

/// The world with the given measures that holds the chunks of the list,
/// made in the order of the list.
pub open spec fn world_of(
    seed: u32,
    dimension: i32,
    chunk_size: i32,
    spawn: Point,
    chunks: Seq<Chunk>,
) -> WorldView {
    WorldView {
        seed,
        dimension,
        chunk_size,
        spawn,
        chunks: Map::new(
            |coord: Point| listed(chunks, coord),
            |coord: Point| chunks[place_of(chunks, coord)]@,
        ),
        order: Seq::new(chunks.len(), |i: int| chunks[i].position),
    }
}

/// Whether a world can be put together from the measures and the chunks:
/// no two chunks have the same coordinate, and the world is in order.
pub open spec fn restorable(
    seed: u32,
    dimension: i32,
    chunk_size: i32,
    spawn: Point,
    chunks: Seq<Chunk>,
) -> bool {
    &&& distinct_positions(chunks)
    &&& world_of(seed, dimension, chunk_size, spawn, chunks).wf()
}

impl World {
    /// Whether a chunk with the given coordinate is in the store.
    spec fn stores(&self, coord: Point) -> bool {
        listed(self.chunks@, coord)
    }

    /// Where in the store the chunk with the given coordinate is.
    spec fn stored_at(&self, coord: Point) -> int {
        place_of(self.chunks@, coord)
    }

    /// No two chunks of the store have the same coordinate.
    spec fn distinct(&self) -> bool {
        distinct_positions(self.chunks@)
    }

    /// Whether the store is in order: every chunk is stored once, and the
    /// world it holds is well formed.
    pub closed spec fn wf(&self) -> bool {
        &&& self.distinct()
        &&& self@.wf()
    }

    /// What a store in order holds is a world in order.
    pub proof fn lemma_wf(&self)
        requires
            self.wf(),
        ensures
            self@.wf(),
    {
    }

    proof fn lemma_place(&self, i: int)
        requires
            self.distinct(),
            0 <= i < self.chunks@.len(),
        ensures
            self.stores(self.chunks@[i].position),
            self.stored_at(self.chunks@[i].position) == i,
            self@.has(self.chunks@[i].position),
            self@.chunks[self.chunks@[i].position] == self.chunks@[i]@,
            self@.order.len() == self.chunks@.len(),
            self@.order[i] == self.chunks@[i].position,
            self@.nth_chunk(i) == self.chunks@[i]@,
            forall|j: int|
                0 <= j < self.chunks@.len() && self.chunks@[j].position == self.chunks@[i].position
                    ==> j == i,
    {
        let coord = self.chunks@[i].position;
        let k = self.stored_at(coord);
        assert(0 <= k < self.chunks@.len() && self.chunks@[k].position == coord);
        if k < i {
            assert(self.chunks@[k].position != self.chunks@[i].position);
        }
        if i < k {
            assert(self.chunks@[i].position != self.chunks@[k].position);
        }
        assert forall|j: int|
            0 <= j < self.chunks@.len() && self.chunks@[j].position == coord implies j == i by {
            if j < i {
                assert(self.chunks@[j].position != self.chunks@[i].position);
            }
            if i < j {
                assert(self.chunks@[i].position != self.chunks@[j].position);
            }
        }
    }

    /// Storing one more chunk, with a coordinate that no stored chunk has,
    /// adds that chunk to the world and leaves the others as they were.
    proof fn lemma_after_push(before: World, after: World, coord: Point)
        requires
            before.distinct(),
            !before.stores(coord),
            after.chunks@.len() == before.chunks@.len() + 1,
            forall|i: int| 0 <= i < before.chunks@.len() ==> after.chunks@[i] == before.chunks@[i],
            after.chunks@[before.chunks@.len() as int].position == coord,
            after.seed == before.seed,
            after.dimension == before.dimension,
            after.chunk_size == before.chunk_size,
            after.spawn == before.spawn,
        ensures
            after.distinct(),
            after@ == before@.with_new_chunk(coord, after.chunks@[before.chunks@.len() as int]@),
    {
        let n = before.chunks@.len() as int;
        assert forall|i: int, j: int| 0 <= i < j < after.chunks@.len() implies (
        #[trigger] after.chunks@[i]).position != (#[trigger] after.chunks@[j]).position by {
            if j < n {
                assert(before.chunks@[i].position != before.chunks@[j].position);
            } else {
                assert(before.chunks@[i].position != coord);
            }
        }
        let goal = before@.with_new_chunk(coord, after.chunks@[n]@);
        assert(after@.order =~= goal.order);
        assert forall|c: Point| after@.chunks.dom().contains(c) <==> goal.chunks.dom().contains(
            c,
        ) by {
            if after.stores(c) {
                let i = after.stored_at(c);
                if i < n {
                    assert(before.chunks@[i].position == c);
                }
            }
            if before.stores(c) {
                let i = before.stored_at(c);
                assert(after.chunks@[i].position == c);
            }
            if c == coord {
                assert(after.chunks@[n].position == c);
            }
        }
        assert forall|c: Point| after@.chunks.dom().contains(c) implies after@.chunks[c]
            == goal.chunks[c] by {
            let i = after.stored_at(c);
            after.lemma_place(i);
            if i < n {
                before.lemma_place(i);
            }
        }
        assert(after@.chunks =~= goal.chunks);
    }

    /// Changing what one stored chunk holds, but not its coordinate,
    /// replaces that chunk of the world and leaves the others as they were.
    proof fn lemma_after_update(before: World, after: World, i: int)
        requires
            before.distinct(),
            0 <= i < before.chunks@.len(),
            after.chunks@.len() == before.chunks@.len(),
            forall|j: int|
                0 <= j < before.chunks@.len() && j != i ==> after.chunks@[j] == before.chunks@[j],
            after.chunks@[i].position == before.chunks@[i].position,
            after.seed == before.seed,
            after.dimension == before.dimension,
            after.chunk_size == before.chunk_size,
            after.spawn == before.spawn,
        ensures
            after.distinct(),
            after@ == before@.with_chunk(before.chunks@[i].position, after.chunks@[i]@),
    {
        assert forall|j: int| 0 <= j < after.chunks@.len() implies (#[trigger] after.chunks@[j]).position
            == before.chunks@[j].position by {}
        assert forall|a: int, b: int| 0 <= a < b < after.chunks@.len() implies (
        #[trigger] after.chunks@[a]).position != (#[trigger] after.chunks@[b]).position by {
            assert(before.chunks@[a].position != before.chunks@[b].position);
        }
        let coord = before.chunks@[i].position;
        let goal = before@.with_chunk(coord, after.chunks@[i]@);
        assert(after@.order =~= goal.order);
        assert forall|c: Point| after@.chunks.dom().contains(c) <==> goal.chunks.dom().contains(
            c,
        ) by {
            if after.stores(c) {
                let k = after.stored_at(c);
                assert(before.chunks@[k].position == c);
            }
            if before.stores(c) {
                let k = before.stored_at(c);
                assert(after.chunks@[k].position == c);
            }
            if c == coord {
                assert(after.chunks@[i].position == c);
            }
        }
        assert forall|c: Point| after@.chunks.dom().contains(c) implies after@.chunks[c]
            == goal.chunks[c] by {
            let k = after.stored_at(c);
            after.lemma_place(k);
            before.lemma_place(k);
        }
        assert(after@.chunks =~= goal.chunks);
    }

    /// Finds the place of the chunk with the given coordinate in the store.
    fn find(&self, coord: Point) -> (place: Option<usize>)
        ensures
            match place {
                Some(i) => i < self.chunks@.len() && self.chunks@[i as int].position == coord,
                None => !self.stores(coord),
            },
            place.is_some() == self@.has(coord),
    {
        let mut i: usize = 0;
        while i < self.chunks.len()
            invariant
                0 <= i <= self.chunks@.len(),
                forall|k: int| 0 <= k < i ==> (#[trigger] self.chunks@[k]).position != coord,
            decreases self.chunks@.len() - i,
        {
            if self.chunks[i].position.x == coord.x && self.chunks[i].position.y == coord.y {
                return Some(i);
            }
            i = i + 1;
        }
        None
    }

    /// The place in the store of a chunk that is known to be there.
    fn place(&self, coord: Point) -> (place: usize)
        requires
            self.distinct(),
            self@.has(coord),
        ensures
            place < self.chunks@.len(),
            self.chunks@[place as int].position == coord,
            self.chunks@[place as int]@ == self@.chunks[coord],
            self.stored_at(coord) == place,
    {
        match self.find(coord) {
            Some(place) => {
                proof {
                    self.lemma_place(place as int);
                }
                place
            },
            None => vstd::pervasive::unreached(),
        }
    }

    /// A world with the given measures in which the chunk around the
    /// player's starting place has been made, and no other.
    pub fn new(seed: u32, dimension: i32, chunk_size: i32, player_info: PlayerInfo) -> (world: World)
        requires
            0 < dimension <= MAX_DIMENSION,
            0 < chunk_size <= MAX_CHUNK_SIZE,
        ensures
            world.wf(),
            world@ == WorldView::empty(seed, dimension, chunk_size, player_info.pos).ensured(
                player_info.pos,
            ),
    {
        let mut world = World { seed, dimension, chunk_size, spawn: player_info.pos, chunks: Vec::new() };
        assert(world@.chunks =~= Map::<Point, ChunkView>::empty());
        assert(world@.order =~= Seq::<Point>::empty());
        world.ensure_chunk_at_pos(player_info.pos);
        world
    }

    /// The chunks of the store, in the order they were made.
    pub closed spec fn parts(&self) -> Seq<Chunk> {
        self.chunks@
    }

    /// A store holds the world that its measures and its chunks make, and a
    /// world can be put together from the measures and the chunks of any
    /// store that is in order: taking a world apart and putting it together
    /// again gives the world back, chunk for chunk.
    pub proof fn lemma_parts(&self)
        ensures
            self@ == world_of(self@.seed, self@.dimension, self@.chunk_size, self@.spawn, self.parts()),
            self.wf() ==> restorable(
                self@.seed,
                self@.dimension,
                self@.chunk_size,
                self@.spawn,
                self.parts(),
            ),
            self.parts().len() == self@.order.len(),
            forall|i: int|
                0 <= i < self.parts().len() ==> (#[trigger] self.parts()[i]).position == self@.order[i],
            self.wf() ==> forall|i: int|
                0 <= i < self.parts().len() ==> (#[trigger] self.parts()[i])@ == self@.nth_chunk(i),
    {
        if self.wf() {
            assert forall|i: int| 0 <= i < self.parts().len() implies (#[trigger] self.parts()[i])@
                == self@.nth_chunk(i) by {
                self.lemma_place(i);
            }
        }
    }

    /// Tells whether no two chunks of the store have the same coordinate.
    fn check_positions(&self) -> (ok: bool)
        ensures
            ok == self.distinct(),
    {
        let mut i: usize = 0;
        while i < self.chunks.len()
            invariant
                0 <= i <= self.chunks@.len(),
                forall|a: int, b: int|
                    0 <= a < b < self.chunks@.len() && a < i ==> (#[trigger] self.chunks@[a]).position
                        != (#[trigger] self.chunks@[b]).position,
            decreases self.chunks@.len() - i,
        {
            let mut j: usize = i + 1;
            while j < self.chunks.len()
                invariant
                    i < j <= self.chunks@.len(),
                    forall|b: int|
                        i < b < j ==> self.chunks@[i as int].position != (
                        #[trigger] self.chunks@[b]).position,
                decreases self.chunks@.len() - j,
            {
                if self.chunks[i].position.x == self.chunks[j].position.x
                    && self.chunks[i].position.y == self.chunks[j].position.y {
                    return false;
                }
                j = j + 1;
            }
            i = i + 1;
        }
        true
    }

    /// Tells whether the `j`-th creature of the `i`-th chunk is where the
    /// records have it.
    fn check_resident(&self, i: usize, j: usize) -> (ok: bool)
        requires
            self.distinct(),
            0 < self.chunk_size,
            i < self.chunks@.len(),
            j < self.chunks@[i as int].monsters@.len(),
        ensures
            ok == self@.resident_ok(
                self.chunks@[i as int].position,
                self.chunks@[i as int].monsters@[j as int],
            ),
    {
        let coord = self.chunks[i].position;
        let monster = self.chunks[i].monsters[j];
        let birth = match self.find(monster.id.chunk) {
            Some(birth) => birth,
            None => {
                return false;
            },
        };
        proof {
            self.lemma_place(birth as int);
        }
        if monster.id.index as usize >= self.chunks[birth].natives.len() {
            return false;
        }
        let home = self.chunks[birth].natives[monster.id.index as usize];
        let stands_in = monster.position.div_floor(self.chunk_size);
        home.x == coord.x && home.y == coord.y && stands_in.x == coord.x && stands_in.y == coord.y
    }

    /// Tells whether the `k`-th creature born in the `i`-th chunk is in the
    /// chunk that the record has it in.
    fn check_native(&self, i: usize, k: usize) -> (ok: bool)
        requires
            self.distinct(),
            i < self.chunks@.len(),
            k < self.chunks@[i as int].natives@.len(),
            k <= u32::MAX,
        ensures
            ok == self@.native_ok(self.chunks@[i as int].position, k as int),
    {
        proof {
            self.lemma_place(i as int);
        }
        let coord = self.chunks[i].position;
        let home = match self.find(self.chunks[i].natives[k]) {
            Some(home) => home,
            None => {
                return false;
            },
        };
        proof {
            self.lemma_place(home as int);
        }
        World::find_in(&self.chunks[home].monsters, MonsterId { chunk: coord, index: k as u32 }).is_some()
    }

    /// Tells whether no two creatures of the list bear the same name.
    fn check_names(monsters: &Vec<Monster>) -> (ok: bool)
        ensures
            ok == (forall|a: int, b: int|
                0 <= a < b < monsters@.len() ==> (#[trigger] monsters@[a]).id != (
                #[trigger] monsters@[b]).id),
    {
        let mut a: usize = 0;
        while a < monsters.len()
            invariant
                0 <= a <= monsters@.len(),
                forall|x: int, y: int|
                    0 <= x < y < monsters@.len() && x < a ==> (#[trigger] monsters@[x]).id != (
                    #[trigger] monsters@[y]).id,
            decreases monsters@.len() - a,
        {
            let mut b: usize = a + 1;
            while b < monsters.len()
                invariant
                    a < b <= monsters@.len(),
                    forall|y: int| a < y < b ==> monsters@[a as int].id != (#[trigger] monsters@[y]).id,
                decreases monsters@.len() - b,
            {
                let one = monsters[a].id;
                let other = monsters[b].id;
                if one.chunk.x == other.chunk.x && one.chunk.y == other.chunk.y && one.index
                    == other.index {
                    return false;
                }
                b = b + 1;
            }
            a = a + 1;
        }
        true
    }

    /// Tells whether the `i`-th chunk of the store is in order.
    fn check_chunk(&self, i: usize) -> (ok: bool)
        requires
            self.distinct(),
            0 < self.chunk_size <= MAX_CHUNK_SIZE,
            i < self.chunks@.len(),
        ensures
            ok == self@.chunk_ok(self.chunks@[i as int].position),
    {
        proof {
            self.lemma_place(i as int);
        }
        let coord = self.chunks[i].position;
        let size = self.chunk_size as i64;
        proof {
            let (x, y, n) = (coord.x as int, coord.y as int, size as int);
            assert(-0x8000_0000 * 1024 <= x * n <= 0x8000_0000 * 1024) by (nonlinear_arith)
                requires
                    -0x8000_0000 <= x < 0x8000_0000,
                    0 < n <= 1024,
            ;
            assert(-0x8000_0000 * 1024 <= y * n <= 0x8000_0000 * 1024) by (nonlinear_arith)
                requires
                    -0x8000_0000 <= y < 0x8000_0000,
                    0 < n <= 1024,
            ;
        }
        let left = coord.x as i64 * size;
        let top = coord.y as i64 * size;
        if left + size - 1 < -0x2000_0000 || left >= 0x2000_0000 || top + size - 1 < -0x2000_0000
            || top >= 0x2000_0000 {
            return false;
        }
        assert(size * size <= 1024 * 1024) by (nonlinear_arith)
            requires
                0 < size <= 1024,
        ;
        if self.chunks[i].tiles.len() != (size * size) as usize {
            return false;
        }
        if self.chunks[i].natives.len() > 0xffff_ffff {
            return false;
        }
        if !World::check_names(&self.chunks[i].monsters) {
            return false;
        }
        let mut j: usize = 0;
        while j < self.chunks[i].monsters.len()
            invariant
                self.distinct(),
                0 < self.chunk_size,
                i < self.chunks@.len(),
                coord == self.chunks@[i as int].position,
                0 <= j <= self.chunks@[i as int].monsters@.len(),
                forall|x: int|
                    0 <= x < j ==> self@.resident_ok(coord, #[trigger] self.chunks@[i as int].monsters@[x]),
            decreases self.chunks@[i as int].monsters@.len() - j,
        {
            if !self.check_resident(i, j) {
                return false;
            }
            j = j + 1;
        }
        let mut k: usize = 0;
        while k < self.chunks[i].natives.len()
            invariant
                self.distinct(),
                i < self.chunks@.len(),
                coord == self.chunks@[i as int].position,
                self.chunks@[i as int].natives@.len() <= u32::MAX,
                0 <= k <= self.chunks@[i as int].natives@.len(),
                forall|x: int| 0 <= x < k ==> #[trigger] self@.native_ok(coord, x),
            decreases self.chunks@[i as int].natives@.len() - k,
        {
            if !self.check_native(i, k) {
                return false;
            }
            k = k + 1;
        }
        true
    }

    /// Tells whether the store is in order.
    fn check(&self) -> (ok: bool)
        ensures
            ok == self.wf(),
    {
        if self.chunk_size <= 0 || self.chunk_size > MAX_CHUNK_SIZE || self.dimension <= 0
            || self.dimension > MAX_DIMENSION {
            return false;
        }
        if !self.check_positions() {
            return false;
        }
        let mut i: usize = 0;
        while i < self.chunks.len()
            invariant
                self.distinct(),
                0 < self.chunk_size <= MAX_CHUNK_SIZE,
                0 <= i <= self.chunks@.len(),
                forall|x: int|
                    0 <= x < i ==> self@.chunk_ok((#[trigger] self.chunks@[x]).position),
            decreases self.chunks@.len() - i,
        {
            if !self.check_chunk(i) {
                proof {
                    self.lemma_place(i as int);
                }
                return false;
            }
            i = i + 1;
        }
        proof {
            assert forall|coord: Point| #[trigger] self@.has(coord) implies self@.chunk_ok(coord) by {
                let x = self.stored_at(coord);
                assert(self.chunks@[x].position == coord);
            }
            assert forall|a: int, b: int|
                0 <= a < self@.order.len() && 0 <= b < self@.order.len() && a != b implies self@.order[a]
                != self@.order[b] by {
                if a < b {
                    assert(self.chunks@[a].position != self.chunks@[b].position);
                } else {
                    assert(self.chunks@[b].position != self.chunks@[a].position);
                }
            }
            assert forall|coord: Point| #[trigger] self@.has(coord) <==> self@.order.contains(coord) by {
                if self@.has(coord) {
                    let x = self.stored_at(coord);
                    assert(self@.order[x] == coord);
                }
                if self@.order.contains(coord) {
                    let x = choose|x: int| 0 <= x < self@.order.len() && self@.order[x] == coord;
                    assert(self.chunks@[x].position == coord);
                }
            }
        }
        true
    }

    /// Takes the world apart: hands out its chunks, in the order they were
    /// made. The measures are to be asked for beforehand.
    pub fn into_chunks(self) -> (chunks: Vec<Chunk>)
        ensures
            chunks@ == self.parts(),
    {
        self.chunks
    }

    /// Puts a world together from its measures and its chunks, such as
    /// they come out of a save file. There is no world if the pieces do not
    /// fit: if two chunks have the same coordinate, or the chunks' records
    /// of where the creatures are do not agree with where they are.
    pub fn restore(
        seed: u32,
        dimension: i32,
        chunk_size: i32,
        spawn: Point,
        chunks: Vec<Chunk>,
    ) -> (world: Option<World>)
        ensures
            match world {
                Some(world) => {
                    &&& world.wf()
                    &&& world@ == world_of(seed, dimension, chunk_size, spawn, chunks@)
                    &&& world.parts() == chunks@
                },
                None => !restorable(seed, dimension, chunk_size, spawn, chunks@),
            },
    {
        let world = World { seed, dimension, chunk_size, spawn, chunks };
        if world.check() {
            Some(world)
        } else {
            None
        }
    }

    /// The session's seed.
    pub fn seed(&self) -> (seed: u32)
        ensures
            seed == self@.seed,
    {
        self.seed
    }

    /// The length of a chunk's side.
    pub fn chunk_size(&self) -> (size: i32)
        ensures
            size == self@.chunk_size,
    {
        self.chunk_size
    }

    /// The length of the world's side.
    pub fn dimension(&self) -> (dimension: i32)
        ensures
            dimension == self@.dimension,
    {
        self.dimension
    }

    /// Where the player starts.
    pub fn spawn(&self) -> (spawn: Point)
        ensures
            spawn == self@.spawn,
    {
        self.spawn
    }

    /// Whether the position is inside the world.
    pub fn within_bounds(&self, pos: Point) -> (inside: bool)
        requires
            self.wf(),
        ensures
            inside == self@.in_bounds(pos),
    {
        let half = self.dimension / 2;
        -half <= pos.x && pos.x < half && -half <= pos.y && pos.y < half
    }

    /// The coordinate of the chunk that the position lies in.
    pub fn chunk_pos_from_world_pos(&self, pos: Point) -> (coord: Point)
        requires
            self.wf(),
        ensures
            coord == self@.coord_of(pos),
    {
        pos.div_floor(self.chunk_size)
    }

    /// Makes the chunk around the position, unless it has been made before
    /// or the position is outside the world.
    pub fn ensure_chunk_at_pos(&mut self, pos: Point)
        requires
            old(self).wf(),
        ensures
            final(self).wf(),
            final(self)@ == old(self)@.ensured(pos),
    {
        proof {
            lemma_ensured_wf(self@, pos);
        }
        if !self.within_bounds(pos) {
            return;
        }
        let coord = pos.div_floor(self.chunk_size);
        match self.find(coord) {
            Some(_) => {},
            None => {
                proof {
                    lemma_coord_of_position(pos, self.chunk_size as int);
                }
                let chunk = Chunk::generate(self.seed, self.chunk_size, self.spawn, coord);
                self.chunks.push(chunk);
                proof {
                    World::lemma_after_push(*old(self), *self, coord);
                }
            },
        }
    }

    /// The chunk with the given coordinate, if it has been made.
    pub fn chunk(&self, coord: Point) -> (chunk: Option<&Chunk>)
        requires
            self.wf(),
        ensures
            match chunk {
                Some(chunk) => self@.has(coord) && chunk@ == self@.chunks[coord],
                None => !self@.has(coord),
            },
    {
        match self.find(coord) {
            Some(i) => {
                proof {
                    self.lemma_place(i as int);
                }
                Some(&self.chunks[i])
            },
            None => None,
        }
    }

    /// The chunk around the position, made now if it was not there before.
    /// There is none for a position outside the world.
    pub fn chunk_at(&mut self, pos: Point) -> (chunk: Option<&Chunk>)
        requires
            old(self).wf(),
        ensures
            final(self).wf(),
            final(self)@ == old(self)@.ensured(pos),
            chunk.is_some() == old(self)@.in_bounds(pos),
            match chunk {
                Some(chunk) => chunk@ == final(self)@.chunks[old(self)@.coord_of(pos)],
                None => true,
            },
    {
        proof {
            lemma_ensured_wf(self@, pos);
        }
        let inside = self.within_bounds(pos);
        self.ensure_chunk_at_pos(pos);
        if inside {
            self.chunk(pos.div_floor(self.chunk_size))
        } else {
            None
        }
    }

    /// The tile at the position, if the chunk around it has been made.
    pub fn tile(&self, pos: Point) -> (tile: Option<Tile>)
        requires
            self.wf(),
        ensures
            tile == self@.tile(pos),
    {
        let size = self.chunk_size;
        let coord = pos.div_floor(size);
        match self.find(coord) {
            Some(i) => {
                proof {
                    self.lemma_place(i as int);
                    assert(self@.chunk_ok(coord));
                    assert(size * size <= 1024 * 1024) by (nonlinear_arith)
                        requires
                            0 < size <= 1024,
                    ;
                }
                let x: i32 = pos.x - coord.x * size;
                let y: i32 = pos.y - coord.y * size;
                assert(0 <= y * size + x < size * size) by (nonlinear_arith)
                    requires
                        0 <= x < size,
                        0 <= y < size,
                ;
                let index: usize = (y * size + x) as usize;
                Some(self.chunks[i].tiles[index])
            },
            None => None,
        }
    }

    /// The tile at the position, with the chunk around it made now if it
    /// was not there before. There is none outside the world.
    pub fn tile_at(&mut self, pos: Point) -> (tile: Option<Tile>)
        requires
            old(self).wf(),
        ensures
            final(self).wf(),
            final(self)@ == old(self)@.ensured(pos),
            tile.is_some() == old(self)@.in_bounds(pos),
            tile.is_some() ==> tile == final(self)@.tile(pos),
    {
        proof {
            lemma_ensured_wf(self@, pos);
        }
        let inside = self.within_bounds(pos);
        self.ensure_chunk_at_pos(pos);
        if inside {
            self.tile(pos)
        } else {
            None
        }
    }

    /// The creatures that stand in the chunk with the given coordinate, if
    /// it has been made.
    pub fn monsters_in_chunk(&self, coord: Point) -> (monsters: Option<&[Monster]>)
        requires
            self.wf(),
        ensures
            match monsters {
                Some(monsters) => self@.has(coord) && monsters@ == self@.chunks[coord].monsters,
                None => !self@.has(coord),
            },
    {
        match self.chunk(coord) {
            Some(chunk) => Some(chunk.monsters()),
            None => None,
        }
    }

    /// Finds the bearer of a name in a list of creatures.
    fn find_in(monsters: &Vec<Monster>, id: MonsterId) -> (place: Option<usize>)
        ensures
            match place {
                Some(j) => j < monsters@.len() && monsters@[j as int].id == id,
                None => !holds(monsters@, id),
            },
    {
        let mut j: usize = 0;
        while j < monsters.len()
            invariant
                0 <= j <= monsters@.len(),
                forall|k: int| 0 <= k < j ==> (#[trigger] monsters@[k]).id != id,
            decreases monsters@.len() - j,
        {
            let found = monsters[j].id;
            if found.chunk.x == id.chunk.x && found.chunk.y == id.chunk.y && found.index == id.index {
                return Some(j);
            }
            j = j + 1;
        }
        None
    }

    /// Follows a name to the place of the chunk that holds its bearer, and
    /// to the bearer's place in that chunk's list.
    fn locate(&self, id: MonsterId) -> (found: Option<(usize, usize)>)
        requires
            self.wf(),
        ensures
            found.is_some() == self@.monster(id).is_some(),
            match found {
                Some((i, j)) => {
                    &&& i < self.chunks@.len()
                    &&& self@.location(id) == Some(self.chunks@[i as int].position)
                    &&& j < self.chunks@[i as int].monsters@.len()
                    &&& j == slot(self@.chunks[self.chunks@[i as int].position].monsters, id)
                    &&& self.chunks@[i as int].monsters@[j as int].id == id
                    &&& self@.monster(id) == Some(self.chunks@[i as int].monsters@[j as int])
                },
                None => true,
            },
    {
        let birth = match self.find(id.chunk) {
            Some(birth) => birth,
            None => {
                return None;
            },
        };
        proof {
            self.lemma_place(birth as int);
        }
        if id.index as usize >= self.chunks[birth].natives.len() {
            return None;
        }
        let home = self.chunks[birth].natives[id.index as usize];
        let i = match self.find(home) {
            Some(i) => i,
            None => {
                return None;
            },
        };
        proof {
            self.lemma_place(i as int);
            assert(self@.chunk_ok(home));
        }
        match World::find_in(&self.chunks[i].monsters, id) {
            Some(j) => {
                proof {
                    lemma_slot(self.chunks@[i as int].monsters@, id, j as int);
                }
                Some((i, j))
            },
            None => None,
        }
    }

    /// The creature with the given name, wherever it is now.
    pub fn monster(&self, id: MonsterId) -> (monster: Option<&Monster>)
        requires
            self.wf(),
        ensures
            match monster {
                Some(monster) => self@.monster(id) == Some(*monster),
                None => self@.monster(id).is_none(),
            },
    {
        match self.locate(id) {
            Some((i, j)) => Some(&self.chunks[i].monsters[j]),
            None => None,
        }
    }

    /// Moves the creature with the given name to `dest`, handing it over to
    /// the chunk around `dest`, which is made first if need be. Nothing
    /// happens, and the answer is `false`, if the name has no bearer or
    /// `dest` is outside the world.
    pub fn move_monster(&mut self, id: MonsterId, dest: Point) -> (moved: bool)
        requires
            old(self).wf(),
        ensures
            final(self).wf(),
            moved == (old(self)@.monster(id).is_some() && old(self)@.in_bounds(dest)),
            moved ==> final(self)@ == old(self)@.moved(id, dest),
            !moved ==> final(self)@ == old(self)@,
    {
        if !self.within_bounds(dest) {
            return false;
        }
        let (_, j) = match self.locate(id) {
            Some(found) => found,
            None => {
                return false;
            },
        };
        proof {
            lemma_move_setup(self@, id, dest);
        }
        self.ensure_chunk_at_pos(dest);
        let ghost ready = *self;
        let birth = self.place(id.chunk);
        let from = self.place(self.chunks[birth].natives[id.index as usize]);
        let monster = self.chunks[from].monsters.remove(j);
        let ghost left = *self;
        proof {
            World::lemma_after_update(ready, left, from as int);
        }
        let home = dest.div_floor(self.chunk_size);
        let to = self.place(home);
        self.chunks[to].monsters.push(
            Monster {
                id: monster.id,
                kind: monster.kind,
                position: dest,
                dead: monster.dead,
                color: monster.color,
                companion_bonus: monster.companion_bonus,
            },
        );
        let ghost arrived = *self;
        proof {
            World::lemma_after_update(left, arrived, to as int);
        }
        let birth = self.place(id.chunk);
        self.chunks[birth].natives.set(id.index as usize, home);
        proof {
            World::lemma_after_update(arrived, *self, birth as int);
            assert(self@.chunks =~= old(self)@.moved(id, dest).chunks);
            lemma_moved(old(self)@, id, dest);
        }
        true
    }

    /// The `place`-th chunk in the order in which the chunks were made.
    pub fn nth(&self, place: usize) -> (chunk: &Chunk)
        requires
            self.wf(),
            place < self@.order.len(),
        ensures
            chunk@ == self@.nth_chunk(place as int),
    {
        proof {
            self.lemma_place(place as int);
        }
        &self.chunks[place]
    }

    /// The number of chunks that have been made.
    pub fn chunk_count(&self) -> (count: usize)
        ensures
            count == self@.order.len(),
    {
        self.chunks.len()
    }

    /// The coordinates of all the chunks that have been made, each once, in
    /// the order in which the chunks were made.
    pub fn positions_of_all_chunks(&self) -> (positions: Vec<Point>)
        ensures
            positions@ == self@.order,
    {
        let mut positions: Vec<Point> = Vec::new();
        let mut i: usize = 0;
        while i < self.chunks.len()
            invariant
                0 <= i <= self.chunks@.len(),
                positions@.len() == i,
                forall|k: int| 0 <= k < i ==> positions@[k] == (#[trigger] self.chunks@[k]).position,
            decreases self.chunks@.len() - i,
        {
            positions.push(self.chunks[i].position);
            i = i + 1;
        }
        assert(positions@ =~= self@.order);
        positions
    }
}

impl View for World {
    type V = WorldView;

    closed spec fn view(&self) -> WorldView {
        world_of(self.seed, self.dimension, self.chunk_size, self.spawn, self.chunks@)
    }
}

} // verus!
