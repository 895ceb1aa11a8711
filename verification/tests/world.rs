use dose_response::item;
use dose_response::level::TileKind;
use dose_response::level::TileKind::{Empty, Tree};
use dose_response::monster::{CompanionBonus, Kind, Monster, MonsterId};
use dose_response::player::PlayerInfo;
use dose_response::point::Point;
use dose_response::world::World;

const SEED: u32 = 518_723_646;
const WORLD_SIZE: i32 = 1_073_741_824;

fn fresh() -> World {
    World::new(SEED, WORLD_SIZE, 32, PlayerInfo { pos: Point::zero() })
}

fn snapshot_of(world: &World, coord: Point) -> (Vec<TileKind>, Vec<Monster>, Vec<(Point, item::Kind)>) {
    let chunk = world.chunk(coord).unwrap();
    (
        chunk.tiles().iter().map(|t| t.kind).collect(),
        chunk.monsters().to_vec(),
        chunk.items().iter().map(|(pos, item)| (*pos, item.kind)).collect(),
    )
}

#[test]
fn a_new_world_has_the_chunk_the_player_starts_in_and_no_other() {
    let world = fresh();
    assert_eq!(world.positions_of_all_chunks(), vec![Point::zero()]);
    assert_eq!(world.chunk_count(), 1);
    assert_eq!(world.tile(Point::zero()).map(|t| t.kind), Some(TileKind::Empty));
    assert_eq!(world.seed(), SEED);
    assert_eq!(world.chunk_size(), 32);
}

#[test]
fn the_spawn_is_open_ground_in_every_world() {
    for seed in 0..60 {
        for spawn in [Point::zero(), Point::new(17, -40), Point::new(-1, -1), Point::new(31, 32)] {
            let world = World::new(seed, WORLD_SIZE, 32, PlayerInfo { pos: spawn });
            assert_eq!(world.chunk_count(), 1);
            assert_eq!(world.tile(spawn).map(|t| t.kind), Some(TileKind::Empty));
        }
    }
}

#[test]
fn the_first_chunk_of_a_seed_holds_what_the_seed_says() {
    let world = fresh();
    let chunk = world.chunk(Point::zero()).unwrap();
    assert_eq!(chunk.position(), Point::zero());
    assert_eq!(chunk.tiles().len(), 32 * 32);
    assert_eq!(chunk.tiles().iter().filter(|t| t.kind == TileKind::Tree).count(), 417);
    let row: Vec<TileKind> = chunk.tiles()[..8].iter().map(|t| t.kind).collect();
    assert_eq!(row, vec![Empty, Empty, Empty, Empty, Empty, Tree, Empty, Empty]);

    let monsters: Vec<(Point, Kind)> = chunk.monsters().iter().map(|m| (m.position, m.kind)).collect();
    assert_eq!(monsters.len(), 15);
    assert_eq!(monsters[0], (Point::new(9, 3), Kind::Shadows));
    assert_eq!(monsters[1], (Point::new(30, 3), Kind::Depression));
    assert_eq!(monsters[5], (Point::new(3, 12), Kind::Npc));
    assert_eq!(chunk.monsters()[5].companion_bonus, Some(CompanionBonus::ExtraActionPoint));
    assert_eq!(monsters[14], (Point::new(30, 29), Kind::Anxiety));
    for (index, monster) in chunk.monsters().iter().enumerate() {
        assert_eq!(monster.id, MonsterId { chunk: Point::zero(), index: index as u32 });
        assert!(!monster.dead);
    }

    let items: Vec<(Point, item::Kind)> = chunk.items().iter().map(|(p, i)| (*p, i.kind)).collect();
    assert_eq!(items.len(), 13);
    assert_eq!(items[0], (Point::new(17, 3), item::Kind::DiagonalDose));
    assert_eq!(items[2], (Point::new(19, 11), item::Kind::Food));
    assert_eq!(items[8], (Point::new(9, 19), item::Kind::StrongDose));
}

#[test]
fn chunks_lie_where_their_coordinates_say() {
    let mut world = fresh();
    assert_eq!(world.chunk_pos_from_world_pos(Point::new(0, 0)), Point::new(0, 0));
    assert_eq!(world.chunk_pos_from_world_pos(Point::new(31, 31)), Point::new(0, 0));
    assert_eq!(world.chunk_pos_from_world_pos(Point::new(32, 31)), Point::new(1, 0));
    assert_eq!(world.chunk_pos_from_world_pos(Point::new(-1, 0)), Point::new(-1, 0));
    assert_eq!(world.chunk_pos_from_world_pos(Point::new(-32, -33)), Point::new(-1, -2));

    let chunk = world.chunk_at(Point::new(-5, 70)).unwrap();
    assert_eq!(chunk.position(), Point::new(-1, 2));
    for monster in chunk.monsters() {
        assert!((-32..0).contains(&monster.position.x));
        assert!((64..96).contains(&monster.position.y));
        assert_eq!(monster.id.chunk, Point::new(-1, 2));
    }
    for (pos, _) in chunk.items() {
        assert!((-32..0).contains(&pos.x));
        assert!((64..96).contains(&pos.y));
    }
}

#[test]
fn the_neighbouring_chunk_holds_what_the_seed_says() {
    let mut world = fresh();
    let chunk = world.chunk_at(Point::new(-1, 0)).unwrap();
    assert_eq!(chunk.tiles().iter().filter(|t| t.kind == TileKind::Tree).count(), 379);
    assert_eq!(chunk.monsters().len(), 26);
    assert_eq!(chunk.items().len(), 19);
    assert_eq!(chunk.monsters()[0].position, Point::new(-8, 0));
    assert_eq!(chunk.monsters()[0].kind, Kind::Hunger);
    assert_eq!(chunk.monsters()[23].position, Point::new(-15, 30));
    assert_eq!(chunk.monsters()[23].kind, Kind::Npc);
    assert_eq!(chunk.monsters()[23].companion_bonus, Some(CompanionBonus::DoubleWillGrowth));
    assert_eq!(world.positions_of_all_chunks(), vec![Point::zero(), Point::new(-1, 0)]);
}

#[test]
fn looking_twice_makes_a_chunk_once() {
    let mut world = fresh();
    world.ensure_chunk_at_pos(Point::new(40, 40));
    let first = snapshot_of(&world, Point::new(1, 1));
    world.ensure_chunk_at_pos(Point::new(40, 40));
    world.ensure_chunk_at_pos(Point::new(63, 32));
    assert_eq!(world.chunk_count(), 2);
    assert_eq!(snapshot_of(&world, Point::new(1, 1)), first);
}

#[test]
fn the_order_of_exploring_makes_no_difference_to_what_is_found() {
    let places = [
        Point::new(0, 0),
        Point::new(40, 0),
        Point::new(-1, -1),
        Point::new(100, -70),
        Point::new(-33, 64),
        Point::new(0, 32),
    ];
    let mut forward = fresh();
    for &place in &places {
        forward.ensure_chunk_at_pos(place);
    }
    let mut backward = fresh();
    for &place in places.iter().rev() {
        backward.ensure_chunk_at_pos(place);
    }
    let mut alone = fresh();
    alone.ensure_chunk_at_pos(places[3]);

    assert_eq!(forward.chunk_count(), 6);
    assert_eq!(backward.chunk_count(), 6);
    assert_eq!(alone.chunk_count(), 2);
    assert_ne!(forward.positions_of_all_chunks(), backward.positions_of_all_chunks());
    for &place in &places {
        let coord = forward.chunk_pos_from_world_pos(place);
        assert_eq!(snapshot_of(&forward, coord), snapshot_of(&backward, coord));
    }
    let coord = alone.chunk_pos_from_world_pos(places[3]);
    assert_eq!(snapshot_of(&alone, coord), snapshot_of(&forward, coord));
}

#[test]
fn another_seed_makes_another_world() {
    let one = fresh();
    let other = World::new(SEED + 1, WORLD_SIZE, 32, PlayerInfo { pos: Point::zero() });
    assert_ne!(snapshot_of(&one, Point::zero()), snapshot_of(&other, Point::zero()));
}

#[test]
fn there_is_nothing_outside_the_world() {
    let mut world = World::new(SEED, 128, 32, PlayerInfo { pos: Point::zero() });
    assert!(world.within_bounds(Point::new(63, -64)));
    assert!(!world.within_bounds(Point::new(64, 0)));
    assert!(!world.within_bounds(Point::new(0, -65)));
    assert!(world.chunk_at(Point::new(64, 0)).is_none());
    assert_eq!(world.tile_at(Point::new(0, 64)), None);
    assert_eq!(world.tile_at(Point::new(i32::MAX, i32::MIN)), None);
    world.ensure_chunk_at_pos(Point::new(-65, 0));
    assert_eq!(world.chunk_count(), 1);
    assert!(world.tile_at(Point::new(63, 63)).is_some());
    assert!(world.tile_at(Point::new(-64, -64)).is_some());
    assert_eq!(world.chunk_count(), 3);
}

#[test]
fn a_world_whose_spawn_is_outside_has_no_chunk() {
    let world = World::new(SEED, 64, 32, PlayerInfo { pos: Point::new(500, 500) });
    assert_eq!(world.chunk_count(), 0);
    assert!(world.positions_of_all_chunks().is_empty());
    assert_eq!(world.tile(Point::new(500, 500)), None);
}

#[test]
fn tiles_are_found_where_they_were_laid() {
    let mut world = fresh();
    let row: Vec<TileKind> = (-8..12).map(|x| world.tile_at(Point::new(x, 0)).unwrap().kind).collect();
    assert_eq!(
        row,
        vec![
            Empty, Empty, Tree, Empty, Empty, Empty, Tree, Empty, Empty, Empty, Empty, Empty, Empty, Tree,
            Empty, Empty, Tree, Empty, Empty, Tree
        ]
    );
    let column: Vec<TileKind> = (-8..12).map(|y| world.tile_at(Point::new(0, y)).unwrap().kind).collect();
    assert_eq!(
        column,
        vec![
            Empty, Empty, Empty, Tree, Tree, Empty, Tree, Empty, Empty, Empty, Empty, Tree, Empty, Empty,
            Tree, Tree, Empty, Empty, Tree, Tree
        ]
    );
    assert_eq!(world.tile(Point::new(1, 1)).unwrap().kind, Tree);
    assert_eq!(world.tile(Point::new(1, 1)).unwrap().fg_color, dose_response::color::tree_3());
    assert_eq!(world.tile(Point::new(200, 200)), None);
    assert_eq!(world.chunk_count(), 3);
}

#[test]
fn a_name_leads_to_its_bearer() {
    let world = fresh();
    let id = MonsterId { chunk: Point::zero(), index: 4 };
    let monster = world.monster(id).unwrap();
    assert_eq!(monster.id, id);
    assert_eq!(monster.position, Point::new(7, 8));
    assert_eq!(monster.kind, Kind::Hunger);

    assert_eq!(world.monster(MonsterId { chunk: Point::zero(), index: 15 }), None);
    assert_eq!(world.monster(MonsterId { chunk: Point::new(1, 0), index: 0 }), None);
    assert_eq!(world.monsters_in_chunk(Point::zero()).unwrap().len(), 15);
    assert!(world.monsters_in_chunk(Point::new(1, 0)).is_none());
}

#[test]
fn a_creature_keeps_its_name_when_it_changes_chunks() {
    let mut world = fresh();
    let id = MonsterId { chunk: Point::zero(), index: 0 };
    let before = *world.monster(id).unwrap();
    let others: Vec<Monster> = world.monsters_in_chunk(Point::zero()).unwrap()[1..].to_vec();

    assert!(world.move_monster(id, Point::new(-1, 3)));
    assert_eq!(world.positions_of_all_chunks(), vec![Point::zero(), Point::new(-1, 0)]);
    let moved = *world.monster(id).unwrap();
    assert_eq!(moved, Monster { position: Point::new(-1, 3), ..before });
    assert_eq!(world.monsters_in_chunk(Point::zero()).unwrap(), &others[..]);
    let west = world.monsters_in_chunk(Point::new(-1, 0)).unwrap();
    assert_eq!(west.len(), 27);
    assert_eq!(west[26], moved);

    assert!(world.move_monster(id, Point::new(40, -3)));
    assert_eq!(world.monster(id), Some(&Monster { position: Point::new(40, -3), ..before }));
    assert_eq!(world.monsters_in_chunk(Point::new(-1, 0)).unwrap().len(), 26);
    assert_eq!(world.monsters_in_chunk(Point::new(1, -1)).unwrap().last(), world.monster(id));

    assert!(world.move_monster(id, before.position));
    assert_eq!(world.monster(id), Some(&before));
    assert_eq!(world.monsters_in_chunk(Point::zero()).unwrap().len(), 15);
    assert_eq!(world.monsters_in_chunk(Point::zero()).unwrap().last(), Some(&before));
    assert_eq!(world.chunk_count(), 3);

    for other in &others {
        assert_eq!(world.monster(other.id), Some(other));
    }
}

#[test]
fn a_creature_that_moves_within_its_chunk_stays_in_it() {
    let mut world = fresh();
    let id = MonsterId { chunk: Point::zero(), index: 3 };
    let before = *world.monster(id).unwrap();
    assert!(world.move_monster(id, Point::new(30, 7)));
    assert_eq!(world.chunk_count(), 1);
    assert_eq!(world.monsters_in_chunk(Point::zero()).unwrap().len(), 15);
    assert_eq!(world.monster(id), Some(&Monster { position: Point::new(30, 7), ..before }));
}

#[test]
fn natives_of_two_chunks_can_trade_places() {
    let mut world = fresh();
    world.ensure_chunk_at_pos(Point::new(-1, 0));
    let east = MonsterId { chunk: Point::zero(), index: 2 };
    let west = MonsterId { chunk: Point::new(-1, 0), index: 0 };
    let east_pos = world.monster(east).unwrap().position;
    let west_pos = world.monster(west).unwrap().position;
    assert_eq!((east_pos, west_pos), (Point::new(0, 5), Point::new(-8, 0)));

    assert!(world.move_monster(east, west_pos));
    assert!(world.move_monster(west, east_pos));
    assert_eq!(world.monster(east).unwrap().position, west_pos);
    assert_eq!(world.monster(west).unwrap().position, east_pos);
    assert_eq!(world.monster(east).unwrap().kind, Kind::Shadows);
    assert_eq!(world.monster(west).unwrap().kind, Kind::Hunger);
    assert!(world.monsters_in_chunk(Point::zero()).unwrap().iter().any(|m| m.id == west));
    assert!(world.monsters_in_chunk(Point::new(-1, 0)).unwrap().iter().any(|m| m.id == east));
    assert_eq!(world.monsters_in_chunk(Point::zero()).unwrap().len(), 15);
    assert_eq!(world.monsters_in_chunk(Point::new(-1, 0)).unwrap().len(), 26);
}

#[test]
fn nobody_moves_out_of_the_world_and_nobody_moves_who_is_not_there() {
    let mut world = World::new(SEED, 64, 32, PlayerInfo { pos: Point::zero() });
    let id = MonsterId { chunk: Point::zero(), index: 0 };
    let before = *world.monster(id).unwrap();
    assert!(!world.move_monster(id, Point::new(32, 0)));
    assert_eq!(world.monster(id), Some(&before));
    assert_eq!(world.chunk_count(), 1);

    assert!(!world.move_monster(MonsterId { chunk: Point::zero(), index: 99 }, Point::new(1, 1)));
    assert!(!world.move_monster(MonsterId { chunk: Point::new(-1, -1), index: 0 }, Point::new(-1, -1)));
    assert_eq!(world.chunk_count(), 1);
}

#[test]
fn many_moves_leave_every_name_leading_to_its_bearer() {
    let mut world = fresh();
    world.ensure_chunk_at_pos(Point::new(-1, -1));
    world.ensure_chunk_at_pos(Point::new(32, 0));
    let mut names: Vec<MonsterId> = Vec::new();
    for coord in world.positions_of_all_chunks() {
        names.extend(world.monsters_in_chunk(coord).unwrap().iter().map(|m| m.id));
    }
    let total = names.len();
    let mut rng = dose_response::random::Random::from_seed(1);
    for round in 0..400 {
        let id = names[round % total];
        let dest = Point::new(rng.range_inclusive(-80, 80), rng.range_inclusive(-80, 80));
        let kind = world.monster(id).unwrap().kind;
        assert!(world.move_monster(id, dest));
        let monster = world.monster(id).unwrap();
        assert_eq!((monster.id, monster.position, monster.kind), (id, dest, kind));
    }
    let mut found = 0;
    for coord in world.positions_of_all_chunks() {
        for monster in world.monsters_in_chunk(coord).unwrap() {
            assert_eq!(world.chunk_pos_from_world_pos(monster.position), coord);
            assert_eq!(world.monster(monster.id), Some(monster));
            found += 1;
        }
    }
    assert!(found >= total);
    for id in names {
        assert!(world.monster(id).is_some());
    }
}

#[test]
fn the_chunks_are_listed_in_the_order_they_were_made() {
    let mut world = fresh();
    world.ensure_chunk_at_pos(Point::new(100, 100));
    world.ensure_chunk_at_pos(Point::new(-100, 100));
    world.ensure_chunk_at_pos(Point::new(100, 100));
    assert_eq!(
        world.positions_of_all_chunks(),
        vec![Point::zero(), Point::new(3, 3), Point::new(-4, 3)]
    );
    assert_eq!(world.nth(0).position(), Point::zero());
    assert_eq!(world.nth(2).position(), Point::new(-4, 3));
}

#[test]
fn chunks_of_other_sizes_work_the_same() {
    let mut world = World::new(7, 1000, 5, PlayerInfo { pos: Point::new(12, -3) });
    assert_eq!(world.positions_of_all_chunks(), vec![Point::new(2, -1)]);
    assert_eq!(world.chunk(Point::new(2, -1)).unwrap().tiles().len(), 25);
    assert_eq!(world.tile(Point::new(12, -3)).unwrap().kind, TileKind::Empty);
    assert!(world.tile_at(Point::new(-1, -1)).is_some());
    assert_eq!(world.chunk_count(), 2);
}

fn taken_apart(world: World) -> (u32, i32, i32, Point, Vec<dose_response::world::Chunk>) {
    (world.seed(), world.dimension(), world.chunk_size(), world.spawn(), world.into_chunks())
}

fn explored_and_stirred() -> World {
    let mut world = fresh();
    world.ensure_chunk_at_pos(Point::new(-1, 0));
    world.ensure_chunk_at_pos(Point::new(40, 40));
    world.move_monster(MonsterId { chunk: Point::zero(), index: 0 }, Point::new(-3, 3));
    world.move_monster(MonsterId { chunk: Point::new(-1, 0), index: 2 }, Point::new(50, 50));
    world.move_monster(MonsterId { chunk: Point::new(1, 1), index: 1 }, Point::new(1, 1));
    world
}

#[test]
fn a_world_taken_apart_and_put_together_is_the_same_world() {
    let before = explored_and_stirred();
    let (seed, dimension, chunk_size, spawn, chunks) = taken_apart(explored_and_stirred());
    assert_eq!((seed, dimension, chunk_size, spawn), (SEED, WORLD_SIZE, 32, Point::zero()));
    assert_eq!(chunks.len(), 3);

    let restored = World::restore(seed, dimension, chunk_size, spawn, chunks).unwrap();
    assert_eq!(restored.positions_of_all_chunks(), before.positions_of_all_chunks());
    for coord in before.positions_of_all_chunks() {
        let then = before.chunk(coord).unwrap();
        let now = restored.chunk(coord).unwrap();
        assert_eq!(now.position(), then.position());
        assert_eq!(now.tiles(), then.tiles());
        assert_eq!(now.monsters(), then.monsters());
        assert_eq!(now.items(), then.items());
        assert_eq!(now.natives, then.natives);
        assert_eq!(now.rng, then.rng);
        for monster in then.monsters() {
            assert_eq!(restored.monster(monster.id), Some(monster));
        }
    }
    assert_eq!(restored.tile(Point::new(1, 1)), before.tile(Point::new(1, 1)));

    let mut restored = restored;
    let mut before = before;
    for place in [Point::new(-40, -40), Point::new(5, 5), Point::new(70, 0)] {
        assert_eq!(restored.tile_at(place), before.tile_at(place));
    }
    let id = MonsterId { chunk: Point::zero(), index: 0 };
    assert!(restored.move_monster(id, Point::new(71, 1)));
    assert!(before.move_monster(id, Point::new(71, 1)));
    assert_eq!(restored.monster(id), before.monster(id));
    assert_eq!(restored.positions_of_all_chunks(), before.positions_of_all_chunks());
}

#[test]
fn a_world_without_chunks_can_be_put_together() {
    let world = World::restore(1, 64, 32, Point::zero(), Vec::new()).unwrap();
    assert_eq!(world.chunk_count(), 0);
    assert_eq!((world.seed(), world.dimension(), world.chunk_size(), world.spawn()), (1, 64, 32, Point::zero()));
}

#[test]
fn pieces_that_do_not_fit_make_no_world() {
    let parts = || taken_apart(explored_and_stirred());
    let restore = |seed, dimension, chunk_size, spawn, chunks| {
        World::restore(seed, dimension, chunk_size, spawn, chunks).is_some()
    };
    let (seed, dimension, chunk_size, spawn, chunks) = parts();
    assert!(restore(seed, dimension, chunk_size, spawn, chunks));

    let (seed, _, chunk_size, spawn, chunks) = parts();
    assert!(!restore(seed, 0, chunk_size, spawn, chunks));
    let (seed, _, chunk_size, spawn, chunks) = parts();
    assert!(!restore(seed, -5, chunk_size, spawn, chunks));
    let (seed, _, chunk_size, spawn, chunks) = parts();
    assert!(!restore(seed, 1_073_741_825, chunk_size, spawn, chunks));
    let (seed, dimension, _, spawn, chunks) = parts();
    assert!(!restore(seed, dimension, 16, spawn, chunks));
    let (seed, dimension, _, spawn, _) = parts();
    assert!(!restore(seed, dimension, 0, spawn, Vec::new()));
    let (seed, dimension, _, spawn, _) = parts();
    assert!(!restore(seed, dimension, 1025, spawn, Vec::new()));

    // Two chunks with one coordinate.
    let (seed, dimension, chunk_size, spawn, mut chunks) = parts();
    let twin = chunks[2].clone();
    chunks.push(twin);
    assert!(!restore(seed, dimension, chunk_size, spawn, chunks));

    // Terrain that does not cover the chunk.
    let (seed, dimension, chunk_size, spawn, mut chunks) = parts();
    chunks[1].tiles.pop();
    assert!(!restore(seed, dimension, chunk_size, spawn, chunks));

    // A chunk too far out.
    let (seed, dimension, chunk_size, spawn, mut chunks) = taken_apart(fresh());
    assert!(restore(seed, dimension, chunk_size, spawn, chunks.clone()));
    chunks[0].position = Point::new(20_000_000, 0);
    for monster in chunks[0].monsters.iter_mut() {
        monster.id.chunk = Point::new(20_000_000, 0);
        monster.position = monster.position.plus(Point::new(640_000_000, 0));
    }
    for home in chunks[0].natives.iter_mut() {
        *home = Point::new(20_000_000, 0);
    }
    assert!(!restore(seed, dimension, chunk_size, spawn, chunks));

    // A creature that stands outside the chunk that holds it.
    let (seed, dimension, chunk_size, spawn, mut chunks) = parts();
    chunks[0].monsters[0].position = Point::new(32, 0);
    assert!(!restore(seed, dimension, chunk_size, spawn, chunks));

    // A creature whose chunk of birth is missing.
    let (seed, dimension, chunk_size, spawn, mut chunks) = parts();
    chunks[0].monsters[0].id.chunk = Point::new(9, 9);
    assert!(!restore(seed, dimension, chunk_size, spawn, chunks));

    // A creature with a number that its chunk of birth does not know.
    let (seed, dimension, chunk_size, spawn, mut chunks) = parts();
    chunks[0].monsters[0].id.index = 1000;
    assert!(!restore(seed, dimension, chunk_size, spawn, chunks));

    // Two creatures with one name.
    let (seed, dimension, chunk_size, spawn, mut chunks) = parts();
    chunks[0].monsters[1].id = chunks[0].monsters[0].id;
    assert!(!restore(seed, dimension, chunk_size, spawn, chunks));

    // A creature that is gone.
    let (seed, dimension, chunk_size, spawn, mut chunks) = parts();
    chunks[0].monsters.remove(3);
    assert!(!restore(seed, dimension, chunk_size, spawn, chunks));

    // A record that has a creature in the wrong chunk.
    let (seed, dimension, chunk_size, spawn, mut chunks) = parts();
    chunks[0].natives[5] = Point::new(-1, 0);
    assert!(!restore(seed, dimension, chunk_size, spawn, chunks));

    // A record of a creature that never was.
    let (seed, dimension, chunk_size, spawn, mut chunks) = parts();
    chunks[0].natives.push(Point::zero());
    assert!(!restore(seed, dimension, chunk_size, spawn, chunks));

    // A chunk that is missing while a creature of another was born in it.
    let (seed, dimension, chunk_size, spawn, mut chunks) = parts();
    chunks.remove(1);
    assert!(!restore(seed, dimension, chunk_size, spawn, chunks));
}

#[test]
fn what_lies_and_grows_in_a_chunk_is_not_held_against_it() {
    let (seed, dimension, chunk_size, spawn, mut chunks) = taken_apart(explored_and_stirred());
    chunks[0].items.clear();
    chunks[1].tiles[5].explored = true;
    chunks[2].monsters[0].dead = true;
    chunks[2].rng = dose_response::random::Random::from_seed(1);
    let world = World::restore(seed, dimension, chunk_size, spawn, chunks).unwrap();
    assert!(world.chunk(Point::zero()).unwrap().items().is_empty());
    assert!(world.chunk(Point::new(-1, 0)).unwrap().tiles()[5].explored);
    assert!(world.chunk(Point::new(1, 1)).unwrap().monsters()[0].dead);
}
