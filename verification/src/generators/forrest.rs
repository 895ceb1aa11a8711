//! The forest: open ground, trees, creatures and things to pick up.
//!
//! A piece of forest is laid out in three passes over its cells, row by row
//! from the top left: terrain first, then creatures, then items. Every pass
//! draws from the generator it is handed in the order of the cells, so what
//! comes out is a function of the generators' states on entry. The colour of
//! a tree is drawn from a second generator: how the forest looks takes
//! nothing away from the draws that decide what it holds.
//!
//! The order of the draws is part of the replay format.

use vstd::prelude::*;

use crate::color;
use crate::color::Color;
use crate::formula;
use crate::item;
use crate::item::Item;
use crate::level::{Tile, TileKind};
use crate::monster::{CompanionBonus, Kind, Monster};
use crate::player::Modifier;
use crate::point::Point;
use crate::random::{
    lemma_total_weight_monotone, lemma_total_weight_take, total_weight, weights_of, Random,
};

verus! {

/// What a generator hands back: the cells with their terrain, the
/// creatures, and the items with their places. All positions count cells
/// from the top left corner of the piece.
pub type GeneratedWorld = (Vec<(Point, Tile)>, Vec<Monster>, Vec<(Point, Item)>);

/// The weight of open ground in the draw of a cell's terrain.
pub const EMPTY_WEIGHT: u32 = 610;

/// The weight of a tree in the draw of a cell's terrain.
pub const TREE_WEIGHT: u32 = 390;

/// The weight of all the hostile kinds together in the draw of what comes
/// to stand on an open cell; no creature weighs the rest of a thousand.
pub const MONSTER_CHANCE: u32 = 30;

/// The number of hostile kinds, which share `MONSTER_CHANCE` evenly.
pub const MONSTER_COUNT: u32 = 5;

/// The weight of a friendly character, on the same scale.
pub const NPC_WEIGHT: u32 = 2;

/// The terrain kinds with their weights.
pub open spec fn terrain_table() -> Seq<(u32, TileKind)> {
    seq![(610u32, TileKind::Empty), (390u32, TileKind::Tree)]
}

/// The colours a tree can have.
pub open spec fn tree_colors() -> Seq<Color> {
    seq![color::spec_tree_1(), color::spec_tree_2(), color::spec_tree_3()]
}

/// What can come to stand on an open cell, with weights.
pub open spec fn monster_table() -> Seq<(u32, Option<Kind>)> {
    seq![
        (970u32, None),
        (6u32, Some(Kind::Anxiety)),
        (6u32, Some(Kind::Depression)),
        (6u32, Some(Kind::Hunger)),
        (6u32, Some(Kind::Shadows)),
        (6u32, Some(Kind::Voices)),
        (2u32, Some(Kind::Npc)),
    ]
}

/// What can come to lie on an open cell, with weights.
pub open spec fn item_table() -> Seq<(u32, Option<item::Kind>)> {
    seq![
        (1000u32, None),
        (8u32, Some(item::Kind::Dose)),
        (3u32, Some(item::Kind::StrongDose)),
        (2u32, Some(item::Kind::CardinalDose)),
        (2u32, Some(item::Kind::DiagonalDose)),
        (5u32, Some(item::Kind::Food)),
    ]
}

/// The number of cells of a piece of the given size: none unless both sides
/// are positive.
pub open spec fn cell_count(size: Point) -> nat {
    if size.x > 0 && size.y > 0 {
        (size.x * size.y) as nat
    } else {
        0
    }
}

/// The position of the `n`-th cell of a piece `width` cells wide, counting
/// row by row from the top left.
pub open spec fn cell_position(n: int, width: int) -> Point {
    Point { x: (n % width) as i32, y: (n / width) as i32 }
}

/// One cell of terrain and the two generators after it was made.
pub struct TerrainCell {
    pub tile: Tile,
    pub rng: Random,
    pub flavor: Random,
}

/// The terrain of the cell at `pos`. The cell the player starts on is open
/// ground and costs no draw. Any other cell costs one draw of `rng`, and a
/// tree costs one draw of `flavor` for its colour.
pub open spec fn terrain_cell(rng: Random, flavor: Random, pos: Point, player: Point) -> TerrainCell {
    let kind = if pos == player {
        TileKind::Empty
    } else {
        terrain_table()[rng.next_weighted_index(weights_of(terrain_table()))].1
    };
    let rng_after = if pos == player {
        rng
    } else {
        rng.advanced()
    };
    match kind {
        TileKind::Tree => TerrainCell {
            tile: Tile {
                kind: TileKind::Tree,
                fg_color: tree_colors()[flavor.next_index(3)],
                explored: false,
                visible: false,
            },
            rng: rng_after,
            flavor: flavor.advanced(),
        },
        TileKind::Empty => TerrainCell {
            tile: Tile::fresh(TileKind::Empty),
            rng: rng_after,
            flavor,
        },
    }
}

/// The first cells of a piece of terrain and the two generators after them.
pub struct Terrain {
    pub cells: Seq<(Point, Tile)>,
    pub rng: Random,
    pub flavor: Random,
}

/// The first `n` cells of the piece of the given size that the terrain pass
/// makes from the two generators.
pub open spec fn terrain(rng: Random, flavor: Random, size: Point, player: Point, n: nat) -> Terrain
    decreases n,
{
    if n == 0 {
        Terrain { cells: Seq::empty(), rng, flavor }
    } else {
        let before = terrain(rng, flavor, size, player, (n - 1) as nat);
        let pos = cell_position(n - 1, size.x as int);
        let cell = terrain_cell(before.rng, before.flavor, pos, player);
        Terrain { cells: before.cells.push((pos, cell.tile)), rng: cell.rng, flavor: cell.flavor }
    }
}

/// What the creature pass decides for one cell, and the generator after it.
pub struct MonsterCell {
    pub monster: Option<Monster>,
    pub rng: Random,
}

/// The creature that comes to stand on a cell, if any. A tree costs no draw.
/// Open ground costs one draw for the kind, and a friendly character one
/// more for what it gives; its colour goes with that.
pub open spec fn monster_cell(rng: Random, pos: Point, tile: Tile) -> MonsterCell {
    if tile.kind != TileKind::Empty {
        MonsterCell { monster: None, rng }
    } else {
        let drawn = monster_table()[rng.next_weighted_index(weights_of(monster_table()))].1;
        let after = rng.advanced();
        match drawn {
            None => MonsterCell { monster: None, rng: after },
            Some(kind) => if kind == Kind::Npc {
                let bonus = CompanionBonus::nth(after.next_in_range(0, 2));
                MonsterCell {
                    monster: Some(
                        Monster {
                            companion_bonus: Some(bonus),
                            color: bonus.spec_color(),
                            ..Monster::fresh(kind, pos)
                        },
                    ),
                    rng: after.advanced(),
                }
            } else {
                MonsterCell { monster: Some(Monster::fresh(kind, pos)), rng: after }
            },
        }
    }
}

/// The creatures of the first cells of a map and the generator after them.
pub struct Monsters {
    pub monsters: Seq<Monster>,
    pub rng: Random,
}

/// The creatures that the creature pass puts on the first `n` cells of `map`.
pub open spec fn monsters_among(rng: Random, map: Seq<(Point, Tile)>, n: nat) -> Monsters
    decreases n,
{
    if n == 0 {
        Monsters { monsters: Seq::empty(), rng }
    } else {
        let before = monsters_among(rng, map, (n - 1) as nat);
        let cell = monster_cell(before.rng, map[n - 1].0, map[n - 1].1);
        Monsters {
            monsters: match cell.monster {
                Some(monster) => before.monsters.push(monster),
                None => before.monsters,
            },
            rng: cell.rng,
        }
    }
}

/// One new item and the generator after it was made.
pub struct NewItem {
    pub item: Item,
    pub rng: Random,
}

/// A new item of the given kind. A dose is as strong as doses of its kind
/// usually are, plus or minus what one draw within the kind's variance says.
/// Food is always the same and costs no draw.
pub open spec fn new_item_spec(kind: item::Kind, rng: Random) -> NewItem {
    let usual = formula::spec_prefab(kind);
    match usual.modifier {
        Modifier::Intoxication { state_of_mind, tolerance_increase } => {
            let range = formula::spec_mind_variance(kind);
            NewItem {
                item: Item {
                    modifier: Modifier::Intoxication {
                        state_of_mind: (state_of_mind + rng.next_in_range(range.0, range.1)) as i32,
                        tolerance_increase,
                    },
                    ..usual
                },
                rng: rng.advanced(),
            }
        },
        _ => NewItem { item: usual, rng },
    }
}

/// Whether one of the creatures stands at `pos`.
pub open spec fn occupied(monsters: Seq<Monster>, pos: Point) -> bool {
    exists|i: int| 0 <= i < monsters.len() && (#[trigger] monsters[i]).position == pos
}

/// What the item pass decides for one cell, and the generator after it.
pub struct ItemCell {
    pub item: Option<(Point, Item)>,
    pub rng: Random,
}

/// The item that comes to lie on a cell, if any. A tree, and a cell with a
/// creature on it, get nothing and cost no draw. Any other cell costs one
/// draw for the kind, and what `new_item_spec` takes for the item.
pub open spec fn item_cell(rng: Random, pos: Point, tile: Tile, monsters: Seq<Monster>) -> ItemCell {
    if tile.kind != TileKind::Empty || occupied(monsters, pos) {
        ItemCell { item: None, rng }
    } else {
        let drawn = item_table()[rng.next_weighted_index(weights_of(item_table()))].1;
        let after = rng.advanced();
        match drawn {
            None => ItemCell { item: None, rng: after },
            Some(kind) => {
                let made = new_item_spec(kind, after);
                ItemCell { item: Some((pos, made.item)), rng: made.rng }
            },
        }
    }
}

/// The items of the first cells of a map and the generator after them.
pub struct Items {
    pub items: Seq<(Point, Item)>,
    pub rng: Random,
}

/// The items that the item pass puts on the first `n` cells of `map`.
pub open spec fn items_among(
    rng: Random,
    map: Seq<(Point, Tile)>,
    monsters: Seq<Monster>,
    n: nat,
) -> Items
    decreases n,
{
    if n == 0 {
        Items { items: Seq::empty(), rng }
    } else {
        let before = items_among(rng, map, monsters, (n - 1) as nat);
        let cell = item_cell(before.rng, map[n - 1].0, map[n - 1].1, monsters);
        Items {
            items: match cell.item {
                Some(entry) => before.items.push(entry),
                None => before.items,
            },
            rng: cell.rng,
        }
    }
}

/// A whole piece of forest and the two generators after it was made.
pub struct Forest {
    pub map: Seq<(Point, Tile)>,
    pub monsters: Seq<Monster>,
    pub items: Seq<(Point, Item)>,
    pub rng: Random,
    pub flavor: Random,
}

/// The piece of forest of the given size that the three passes make, one
/// after the other, from the two generators.
pub open spec fn forest(rng: Random, flavor: Random, size: Point, player: Point) -> Forest {
    let ground = terrain(rng, flavor, size, player, cell_count(size));
    let beasts = monsters_among(ground.rng, ground.cells, ground.cells.len());
    let things = items_among(beasts.rng, ground.cells, beasts.monsters, ground.cells.len());
    Forest {
        map: ground.cells,
        monsters: beasts.monsters,
        items: things.items,
        rng: things.rng,
        flavor: ground.flavor,
    }
}

/// The weights of the terrain kinds add up to a thousand.
pub proof fn lemma_terrain_table()
    ensures
        total_weight(weights_of(terrain_table())) == 1000,
        weights_of(terrain_table()).len() == 2,
{
    let w = weights_of(terrain_table());
    lemma_total_weight_take(w, 0);
    lemma_total_weight_take(w, 1);
    lemma_total_weight_monotone(w, 0, 2);
    assert(w.take(0) =~= Seq::<u32>::empty());
}

/// The weights of the creature pass add up to a thousand and two.
pub proof fn lemma_monster_table()
    ensures
        total_weight(weights_of(monster_table())) == 1002,
        weights_of(monster_table()).len() == 7,
{
    let w = weights_of(monster_table());
    lemma_total_weight_take(w, 0);
    lemma_total_weight_take(w, 1);
    lemma_total_weight_take(w, 2);
    lemma_total_weight_take(w, 3);
    lemma_total_weight_take(w, 4);
    lemma_total_weight_take(w, 5);
    lemma_total_weight_take(w, 6);
    lemma_total_weight_monotone(w, 0, 7);
    assert(w.take(0) =~= Seq::<u32>::empty());
}

/// The weights of the item pass add up to a thousand and twenty.
pub proof fn lemma_item_table()
    ensures
        total_weight(weights_of(item_table())) == 1020,
        weights_of(item_table()).len() == 6,
{
    let w = weights_of(item_table());
    lemma_total_weight_take(w, 0);
    lemma_total_weight_take(w, 1);
    lemma_total_weight_take(w, 2);
    lemma_total_weight_take(w, 3);
    lemma_total_weight_take(w, 4);
    lemma_total_weight_take(w, 5);
    lemma_total_weight_monotone(w, 0, 6);
    assert(w.take(0) =~= Seq::<u32>::empty());
}

/// The cell in column `x` of row `y` is cell number `y * width + x`.
pub proof fn lemma_cell_position(x: int, y: int, width: int)
    requires
        0 <= x < width,
        0 <= y,
    ensures
        0 <= y * width + x,
        (y * width + x) % width == x,
        (y * width + x) / width == y,
{
    assert(0 <= y * width) by (nonlinear_arith)
        requires
            0 <= y,
            0 < width,
    ;
    vstd::arithmetic::div_mod::lemma_fundamental_div_mod_converse(y * width + x, width, y, x);
}

/// A piece of terrain grows cell by cell: it has as many cells as were asked
/// for, each at its place in the rows, and asking for more leaves the first
/// ones as they were. The cell the player starts on is open ground.
pub proof fn lemma_terrain_cells(rng: Random, flavor: Random, size: Point, player: Point, n: nat)
    ensures
        terrain(rng, flavor, size, player, n).cells.len() == n,
        forall|i: int|
            0 <= i < n ==> (#[trigger] terrain(rng, flavor, size, player, n).cells[i]).0
                == cell_position(i, size.x as int),
        forall|i: int|
            0 <= i < n && cell_position(i, size.x as int) == player ==> (#[trigger] terrain(
                rng,
                flavor,
                size,
                player,
                n,
            ).cells[i]).1 == Tile::fresh(TileKind::Empty),
        forall|i: int, m: nat|
            0 <= i < m <= n ==> terrain(rng, flavor, size, player, n).cells[i] == (#[trigger] terrain(
                rng,
                flavor,
                size,
                player,
                m,
            ).cells[i]),
    decreases n,
{
    if n > 0 {
        lemma_terrain_cells(rng, flavor, size, player, (n - 1) as nat);
        let before = terrain(rng, flavor, size, player, (n - 1) as nat);
        let now = terrain(rng, flavor, size, player, n);
        assert forall|i: int, m: nat| 0 <= i < m <= n implies now.cells[i] == (#[trigger] terrain(
            rng,
            flavor,
            size,
            player,
            m,
        ).cells[i]) by {
            if m < n {
                assert(before.cells[i] == terrain(rng, flavor, size, player, m).cells[i]);
            }
        }
    }
}

/// Every creature of the creature pass stands on one of the cells it was
/// handed, is alive and has no name yet; there are no more creatures than
/// cells.
pub proof fn lemma_monsters_stand_on_cells(rng: Random, map: Seq<(Point, Tile)>, n: nat)
    requires
        n <= map.len(),
    ensures
        monsters_among(rng, map, n).monsters.len() <= n,
        forall|j: int|
            0 <= j < monsters_among(rng, map, n).monsters.len() ==> {
                let monster = #[trigger] monsters_among(rng, map, n).monsters[j];
                &&& exists|i: int| 0 <= i < n && monster.position == (#[trigger] map[i]).0
                &&& !monster.dead
                &&& monster.id == crate::monster::MonsterId::unassigned()
            },
    decreases n,
{
    if n > 0 {
        lemma_monsters_stand_on_cells(rng, map, (n - 1) as nat);
        let before = monsters_among(rng, map, (n - 1) as nat);
        let now = monsters_among(rng, map, n);
        let cell = monster_cell(before.rng, map[n - 1].0, map[n - 1].1);
        assert forall|j: int| 0 <= j < now.monsters.len() implies ({
            let monster = #[trigger] now.monsters[j];
            &&& exists|i: int| 0 <= i < n && monster.position == (#[trigger] map[i]).0
            &&& !monster.dead
            &&& monster.id == crate::monster::MonsterId::unassigned()
        }) by {
            let monster = now.monsters[j];
            if j < before.monsters.len() {
                assert(monster == before.monsters[j]);
                let i = choose|i: int| 0 <= i < n - 1 && monster.position == (#[trigger] map[i]).0;
                assert(0 <= i < n && monster.position == map[i].0);
            } else {
                assert(cell.monster == Some(monster));
                assert(monster.position == map[n - 1].0);
            }
        }
    }
}

/// Every item of the item pass lies on one of the cells it was handed;
/// there are no more items than cells.
pub proof fn lemma_items_lie_on_cells(
    rng: Random,
    map: Seq<(Point, Tile)>,
    monsters: Seq<Monster>,
    n: nat,
)
    requires
        n <= map.len(),
    ensures
        items_among(rng, map, monsters, n).items.len() <= n,
        forall|j: int|
            0 <= j < items_among(rng, map, monsters, n).items.len() ==> exists|i: int|
                0 <= i < n && (#[trigger] items_among(rng, map, monsters, n).items[j]).0
                    == (#[trigger] map[i]).0,
    decreases n,
{
    if n > 0 {
        lemma_items_lie_on_cells(rng, map, monsters, (n - 1) as nat);
        let before = items_among(rng, map, monsters, (n - 1) as nat);
        let now = items_among(rng, map, monsters, n);
        let cell = item_cell(before.rng, map[n - 1].0, map[n - 1].1, monsters);
        assert forall|j: int| 0 <= j < now.items.len() implies exists|i: int|
            0 <= i < n && (#[trigger] now.items[j]).0 == (#[trigger] map[i]).0 by {
            let entry = now.items[j];
            if j < before.items.len() {
                assert(entry == before.items[j]);
                let i = choose|i: int| 0 <= i < n - 1 && entry.0 == (#[trigger] map[i]).0;
                assert(0 <= i < n && entry.0 == map[i].0);
            } else {
                assert(cell.item == Some(entry));
                assert(entry.0 == map[n - 1].0);
            }
        }
    }
}

/// Lays out the terrain of a piece `map_size` cells wide and high, row by
/// row. The cell at `player_pos` is open ground whatever the draw would
/// have said.
pub fn generate_map(
    rng: &mut Random,
    throwavay_rng: &mut Random,
    map_size: Point,
    player_pos: Point,
) -> (result: Vec<(Point, Tile)>)
    ensures
        ({
            let made = terrain(
                *old(rng),
                *old(throwavay_rng),
                map_size,
                player_pos,
                cell_count(map_size),
            );
            &&& result@ == made.cells
            &&& *final(rng) == made.rng
            &&& *final(throwavay_rng) == made.flavor
        }),
        result@.len() == cell_count(map_size),
{
    let mut result: Vec<(Point, Tile)> = Vec::new();
    proof {
        lemma_terrain_cells(*old(rng), *old(throwavay_rng), map_size, player_pos, cell_count(map_size));
    }
    if map_size.x <= 0 || map_size.y <= 0 {
        return result;
    }
    let weights: [(u32, TileKind); 2] = [
        (EMPTY_WEIGHT, TileKind::Empty),
        (TREE_WEIGHT, TileKind::Tree),
    ];
    let options: [Color; 3] = [color::tree_1(), color::tree_2(), color::tree_3()];
    proof {
        lemma_terrain_table();
        assert(weights@ =~= terrain_table());
        assert(options@ =~= tree_colors());
    }
    let ghost width = map_size.x as int;
    let mut y: i32 = 0;
    while y < map_size.y
        invariant
            0 <= y <= map_size.y,
            0 < map_size.x,
            width == map_size.x,
            weights@ == terrain_table(),
            options@ == tree_colors(),
            total_weight(weights_of(terrain_table())) == 1000,
            0 <= y * width,
            ({
                let made = terrain(
                    *old(rng),
                    *old(throwavay_rng),
                    map_size,
                    player_pos,
                    (y * width) as nat,
                );
                &&& result@ == made.cells
                &&& *rng == made.rng
                &&& *throwavay_rng == made.flavor
            }),
        decreases map_size.y - y,
    {
        let mut x: i32 = 0;
        while x < map_size.x
            invariant
                0 <= y < map_size.y,
                0 <= x <= map_size.x,
                width == map_size.x,
                weights@ == terrain_table(),
                options@ == tree_colors(),
                total_weight(weights_of(terrain_table())) == 1000,
                0 <= y * width,
                ({
                    let made = terrain(
                        *old(rng),
                        *old(throwavay_rng),
                        map_size,
                        player_pos,
                        (y * width + x) as nat,
                    );
                    &&& result@ == made.cells
                    &&& *rng == made.rng
                    &&& *throwavay_rng == made.flavor
                }),
            decreases map_size.x - x,
        {
            let ghost n = y * width + x;
            proof {
                lemma_cell_position(x as int, y as int, width);
                assert(cell_position(n, width) == Point { x, y });
            }
            let ghost before = terrain(*old(rng), *old(throwavay_rng), map_size, player_pos, n as nat);
            let kind = if player_pos.x == x && player_pos.y == y {
                TileKind::Empty
            } else {
                rng.weighted_choice(&weights)
            };
            let mut tile = Tile::new(kind);
            if kind == TileKind::Tree {
                match throwavay_rng.pick(&options) {
                    Some(color) => {
                        tile.fg_color = *color;
                    },
                    None => {},
                }
            }
            result.push((Point::new(x, y), tile));
            proof {
                let cell = terrain_cell(before.rng, before.flavor, Point { x, y }, player_pos);
                assert(tile == cell.tile);
                assert(*rng == cell.rng);
                assert(*throwavay_rng == cell.flavor);
                assert(terrain(*old(rng), *old(throwavay_rng), map_size, player_pos, (n + 1) as nat).cells
                    == before.cells.push((Point { x, y }, cell.tile)));
            }
            x = x + 1;
        }
        proof {
            assert((y + 1) * width == y * width + width) by (nonlinear_arith);
        }
        y = y + 1;
    }
    proof {
        assert(y * width == map_size.x * map_size.y) by (nonlinear_arith)
            requires
                y == map_size.y,
                width == map_size.x,
        ;
    }
    result
}

/// Puts creatures on the open cells of a map. In the draw for a cell, no
/// creature weighs 970, each of the five hostile kinds 6, and a friendly
/// character 2.
pub fn generate_monsters(rng: &mut Random, map: &[(Point, Tile)]) -> (result: Vec<Monster>)
    ensures
        ({
            let made = monsters_among(*old(rng), map@, map@.len());
            &&& result@ == made.monsters
            &&& *final(rng) == made.rng
        }),
{
    let each: u32 = MONSTER_CHANCE / MONSTER_COUNT;
    let weights: [(u32, Option<Kind>); 7] = [
        (1000 - MONSTER_CHANCE, None),
        (each, Some(Kind::Anxiety)),
        (each, Some(Kind::Depression)),
        (each, Some(Kind::Hunger)),
        (each, Some(Kind::Shadows)),
        (each, Some(Kind::Voices)),
        (NPC_WEIGHT, Some(Kind::Npc)),
    ];
    proof {
        lemma_monster_table();
        assert(weights@ =~= monster_table());
    }
    let mut result: Vec<Monster> = Vec::new();
    let mut n: usize = 0;
    while n < map.len()
        invariant
            0 <= n <= map@.len(),
            weights@ == monster_table(),
            total_weight(weights_of(monster_table())) == 1002,
            ({
                let made = monsters_among(*old(rng), map@, n as nat);
                &&& result@ == made.monsters
                &&& *rng == made.rng
            }),
        decreases map@.len() - n,
    {
        let ghost before = monsters_among(*old(rng), map@, n as nat);
        let pos = map[n].0;
        let tile = map[n].1;
        if tile.kind == TileKind::Empty {
            match rng.weighted_choice(&weights) {
                Some(kind) => {
                    let mut monster = Monster::new(kind, pos);
                    if kind == Kind::Npc {
                        let bonus = match rng.range_inclusive(0, 2) {
                            0 => CompanionBonus::DoubleWillGrowth,
                            1 => CompanionBonus::HalveExhaustion,
                            _ => CompanionBonus::ExtraActionPoint,
                        };
                        monster.companion_bonus = Some(bonus);
                        monster.color = bonus.color();
                    }
                    result.push(monster);
                },
                None => {},
            }
        }
        proof {
            let cell = monster_cell(before.rng, pos, tile);
            assert(*rng == cell.rng);
            assert(result@ == match cell.monster {
                Some(monster) => before.monsters.push(monster),
                None => before.monsters,
            });
        }
        n = n + 1;
    }
    result
}

/// Makes one item of the given kind. No two doses are quite alike: each is
/// a little stronger or weaker than its kind usually is.
pub fn new_item(kind: item::Kind, rng: &mut Random) -> (result: Item)
    ensures
        result == new_item_spec(kind, *old(rng)).item,
        *final(rng) == new_item_spec(kind, *old(rng)).rng,
        result.kind == kind,
{
    let usual = formula::prefab(kind);
    match usual.modifier {
        Modifier::Intoxication { state_of_mind, tolerance_increase } => {
            let off = formula::mind_variance(kind).random(rng);
            Item {
                kind: usual.kind,
                graphic: usual.graphic,
                modifier: Modifier::Intoxication {
                    state_of_mind: state_of_mind + off,
                    tolerance_increase,
                },
                irresistible: usual.irresistible,
            }
        },
        _ => usual,
    }
}

/// Tells whether one of the creatures stands at `pos`.
pub fn is_occupied(monsters: &[Monster], pos: Point) -> (yes: bool)
    ensures
        yes == occupied(monsters@, pos),
{
    let mut i: usize = 0;
    while i < monsters.len()
        invariant
            0 <= i <= monsters@.len(),
            forall|j: int| 0 <= j < i ==> (#[trigger] monsters@[j]).position != pos,
        decreases monsters@.len() - i,
    {
        if monsters[i].position.x == pos.x && monsters[i].position.y == pos.y {
            return true;
        }
        i = i + 1;
    }
    false
}

/// Puts items on the open cells of a map that no creature stands on. In
/// the draw for a cell, no item weighs 1000, and the five kinds of item
/// weigh 20 between them.
pub fn generate_items(rng: &mut Random, map: &[(Point, Tile)], monsters: &[Monster]) -> (result: Vec<
    (Point, Item),
>)
    ensures
        ({
            let made = items_among(*old(rng), map@, monsters@, map@.len());
            &&& result@ == made.items
            &&& *final(rng) == made.rng
        }),
{
    let weights: [(u32, Option<item::Kind>); 6] = [
        (1000, None),
        (8, Some(item::Kind::Dose)),
        (3, Some(item::Kind::StrongDose)),
        (2, Some(item::Kind::CardinalDose)),
        (2, Some(item::Kind::DiagonalDose)),
        (5, Some(item::Kind::Food)),
    ];
    proof {
        lemma_item_table();
        assert(weights@ =~= item_table());
    }
    let mut result: Vec<(Point, Item)> = Vec::new();
    let mut n: usize = 0;
    while n < map.len()
        invariant
            0 <= n <= map@.len(),
            weights@ == item_table(),
            total_weight(weights_of(item_table())) == 1020,
            ({
                let made = items_among(*old(rng), map@, monsters@, n as nat);
                &&& result@ == made.items
                &&& *rng == made.rng
            }),
        decreases map@.len() - n,
    {
        let ghost before = items_among(*old(rng), map@, monsters@, n as nat);
        let pos = map[n].0;
        let tile = map[n].1;
        match tile.kind {
            TileKind::Tree => {
                // Nothing lies under a tree.
            },
            TileKind::Empty => {
                if !is_occupied(monsters, pos) {
                    match rng.weighted_choice(&weights) {
                        Some(kind) => {
                            let item = new_item(kind, rng);
                            result.push((pos, item));
                        },
                        None => {},
                    }
                }
            },
        }
        proof {
            let cell = item_cell(before.rng, pos, tile, monsters@);
            assert(*rng == cell.rng);
            assert(result@ == match cell.item {
                Some(entry) => before.items.push(entry),
                None => before.items,
            });
        }
        n = n + 1;
    }
    result
}

/// Lays out a piece of forest: terrain, then creatures, then items.
pub fn generate(rng: &mut Random, throwavay_rng: &mut Random, size: Point, player: Point) -> (result:
    GeneratedWorld)
    ensures
        ({
            let made = forest(*old(rng), *old(throwavay_rng), size, player);
            &&& result.0@ == made.map
            &&& result.1@ == made.monsters
            &&& result.2@ == made.items
            &&& *final(rng) == made.rng
            &&& *final(throwavay_rng) == made.flavor
        }),
{
    let map = generate_map(rng, throwavay_rng, size, player);
    let monsters = generate_monsters(rng, map.as_slice());
    let items = generate_items(rng, map.as_slice(), monsters.as_slice());
    (map, monsters, items)
}

} // verus!
