//! Why a snapshot can be trusted to say the same of the same world.
//!
//! The chunks of a world are kept in the order in which they were made, and
//! that order depends on how the world was explored. A snapshot must not:
//! two sessions that have the same chunks are in the same state, whichever
//! chunk came first. That is what the order of a snapshot's entries is for,
//! and here it is shown to do its work.

use vstd::prelude::*;
use vstd::seq_lib::lemma_multiset_commutative;

use crate::point::Point;
use crate::state::{entry_le, in_order, lemma_in_order, sorted, Entry, StateView};
use crate::world::{chunk_coord, ChunkView, WorldView};

verus! {

/// The living creatures of a chunk.
pub open spec fn living_of(chunk: ChunkView) -> Seq<Entry> {
    chunk.living(chunk.monsters.len())
}

/// The living creatures of the chunks with the given coordinates, chunk
/// after chunk.
pub open spec fn living_along(chunks: Map<Point, ChunkView>, order: Seq<Point>) -> Seq<Entry>
    decreases order.len(),
{
    if order.len() == 0 {
        Seq::empty()
    } else {
        living_along(chunks, order.drop_last()) + living_of(chunks[order.last()])
    }
}

/// Whether the order of a snapshot tells any two different entries of the
/// list apart.
pub open spec fn told_apart(entries: Seq<Entry>) -> bool {
    forall|i: int, j: int|
        0 <= i < entries.len() && 0 <= j < entries.len() && entry_le(entries[i], entries[j])
            && entry_le(entries[j], entries[i]) ==> entries[i] == entries[j]
}

/// Whether every entry of the list names the chunk that its position lies
/// in.
pub open spec fn at_home(entries: Seq<Entry>, size: int) -> bool {
    forall|i: int| 0 <= i < entries.len() ==> (#[trigger] entries[i]).1 == chunk_coord(entries[i].0, size)
}

/// The living creatures of a world are those of its chunks, taken in the
/// order in which the chunks were made.
pub proof fn lemma_living_in_first(world: WorldView, n: nat)
    requires
        n <= world.order.len(),
    ensures
        world.living_in_first(n) == living_along(world.chunks, world.order.take(n as int)),
    decreases n,
{
    if n > 0 {
        lemma_living_in_first(world, (n - 1) as nat);
        assert(world.order.take(n as int).drop_last() =~= world.order.take(n - 1));
    }
}

/// In a world in order, every living creature is listed with the chunk it
/// stands in.
pub proof fn lemma_living_at_home(world: WorldView, order: Seq<Point>)
    requires
        world.wf(),
        forall|i: int| 0 <= i < order.len() ==> world.has(#[trigger] order[i]),
    ensures
        at_home(living_along(world.chunks, order), world.chunk_size as int),
    decreases order.len(),
{
    if order.len() > 0 {
        let shorter = order.drop_last();
        assert forall|i: int| 0 <= i < shorter.len() implies world.has(#[trigger] shorter[i]) by {
            assert(shorter[i] == order[i]);
        }
        lemma_living_at_home(world, shorter);
        let coord = order.last();
        assert(world.has(order[order.len() - 1]));
        assert(world.chunk_ok(coord));
        let chunk = world.chunks[coord];
        lemma_chunk_living_at_home(world, coord, chunk.monsters.len());
    }
}

/// In a world in order, every living creature of a chunk is listed with
/// that chunk, which is the chunk it stands in.
pub proof fn lemma_chunk_living_at_home(world: WorldView, coord: Point, n: nat)
    requires
        world.wf(),
        world.has(coord),
        n <= world.chunks[coord].monsters.len(),
    ensures
        at_home(world.chunks[coord].living(n), world.chunk_size as int),
    decreases n,
{
    if n > 0 {
        lemma_chunk_living_at_home(world, coord, (n - 1) as nat);
        assert(world.chunk_ok(coord));
        let chunk = world.chunks[coord];
        assert(world.resident_ok(coord, chunk.monsters[n - 1]));
    }
}

/// Entries that name the chunks they stand in are told apart by the order
/// of a snapshot.
pub proof fn lemma_at_home_told_apart(entries: Seq<Entry>, size: int)
    requires
        at_home(entries, size),
    ensures
        told_apart(entries),
{
}

/// Leaving a chunk out of the list takes its living creatures, and no
/// others, out of what is listed.
pub proof fn lemma_living_without(chunks: Map<Point, ChunkView>, order: Seq<Point>, j: int)
    requires
        0 <= j < order.len(),
    ensures
        living_along(chunks, order).to_multiset() == living_along(
            chunks,
            order.remove(j),
        ).to_multiset().add(living_of(chunks[order[j]]).to_multiset()),
    decreases order.len(),
{
    let shorter = order.drop_last();
    let last = order.last();
    lemma_multiset_commutative(living_along(chunks, shorter), living_of(chunks[last]));
    if j == order.len() - 1 {
        assert(order.remove(j) =~= shorter);
    } else {
        let without = order.remove(j);
        assert(without.drop_last() =~= shorter.remove(j));
        assert(without.last() == last);
        lemma_living_without(chunks, shorter, j);
        lemma_multiset_commutative(living_along(chunks, shorter.remove(j)), living_of(chunks[last]));
        assert(living_along(chunks, order).to_multiset() =~= living_along(
            chunks,
            without,
        ).to_multiset().add(living_of(chunks[order[j]]).to_multiset()));
    }
}

/// The same chunks, listed in whatever order, have the same living
/// creatures, each as often in the one list as in the other.
pub proof fn lemma_living_any_order(chunks: Map<Point, ChunkView>, one: Seq<Point>, other: Seq<Point>)
    requires
        one.no_duplicates(),
        other.no_duplicates(),
        forall|coord: Point| one.contains(coord) <==> other.contains(coord),
    ensures
        living_along(chunks, one).to_multiset() == living_along(chunks, other).to_multiset(),
        one.len() == other.len(),
    decreases one.len(),
{
    if one.len() == 0 {
        if other.len() > 0 {
            assert(other.contains(other[0]));
        }
    } else {
        let last = one.last();
        assert(one.contains(one[one.len() - 1]));
        let j = choose|j: int| 0 <= j < other.len() && other[j] == last;
        let shorter = one.drop_last();
        let without = other.remove(j);
        assert forall|coord: Point| shorter.contains(coord) <==> without.contains(coord) by {
            if shorter.contains(coord) {
                let i = choose|i: int| 0 <= i < shorter.len() && shorter[i] == coord;
                assert(one[i] == coord);
                assert(one.contains(coord));
                let k = choose|k: int| 0 <= k < other.len() && other[k] == coord;
                assert(k != j);
                if k < j {
                    assert(without[k] == coord);
                } else {
                    assert(without[k - 1] == coord);
                }
            }
            if without.contains(coord) {
                let k = choose|k: int| 0 <= k < without.len() && without[k] == coord;
                let at = if k < j {
                    k
                } else {
                    k + 1
                };
                assert(other[at] == coord);
                assert(other.contains(coord));
                let i = choose|i: int| 0 <= i < one.len() && one[i] == coord;
                assert(i != one.len() - 1);
                assert(shorter[i] == coord);
            }
        }
        assert forall|a: int, b: int| 0 <= a < without.len() && 0 <= b < without.len() && a != b implies without[a]
            != without[b] by {
            let a0 = if a < j {
                a
            } else {
                a + 1
            };
            let b0 = if b < j {
                b
            } else {
                b + 1
            };
            assert(other[a0] != other[b0]);
        }
        lemma_living_any_order(chunks, shorter, without);
        lemma_living_without(chunks, other, j);
        lemma_multiset_commutative(living_along(chunks, shorter), living_of(chunks[last]));
    }
}

/// Two lists in the order of a snapshot that hold the same entries, each as
/// often in the one as in the other, are the same list, if the order tells
/// the entries apart.
pub proof fn lemma_one_order(one: Seq<Entry>, other: Seq<Entry>)
    requires
        sorted(one),
        sorted(other),
        told_apart(one),
        one.to_multiset() == other.to_multiset(),
    ensures
        one == other,
    decreases one.len(),
{
    broadcast use vstd::seq_lib::group_to_multiset_ensures;

    vstd::seq_lib::to_multiset_len(one);
    vstd::seq_lib::to_multiset_len(other);
    assert(one.len() == other.len());
    if one.len() > 0 {
        let x = one[0];
        let y = other[0];
        assert(other.contains(y));
        assert(one.to_multiset().count(y) > 0);
        assert(one.contains(y));
        let i = choose|i: int| 0 <= i < one.len() && one[i] == y;
        assert(one.contains(x));
        assert(other.to_multiset().count(x) > 0);
        assert(other.contains(x));
        let k = choose|k: int| 0 <= k < other.len() && other[k] == x;
        assert(entry_le(x, y)) by {
            if i > 0 {
                assert(entry_le(one[0], one[i]));
            }
        }
        assert(entry_le(y, x)) by {
            if k > 0 {
                assert(entry_le(other[0], other[k]));
            }
        }
        assert(one[0] == one[i]);
        assert(x == y);
        let rest_one = one.remove(0);
        let rest_other = other.remove(0);
        assert(rest_one.to_multiset() == rest_other.to_multiset());
        assert forall|a: int, b: int| 0 <= a < b < rest_one.len() implies entry_le(
            rest_one[a],
            rest_one[b],
        ) by {
            assert(entry_le(one[a + 1], one[b + 1]));
        }
        assert forall|a: int, b: int| 0 <= a < b < rest_other.len() implies entry_le(
            rest_other[a],
            rest_other[b],
        ) by {
            assert(entry_le(other[a + 1], other[b + 1]));
        }
        assert forall|a: int, b: int|
            0 <= a < rest_one.len() && 0 <= b < rest_one.len() && entry_le(rest_one[a], rest_one[b])
                && entry_le(rest_one[b], rest_one[a]) implies rest_one[a] == rest_one[b] by {
            assert(rest_one[a] == one[a + 1]);
            assert(rest_one[b] == one[b + 1]);
        }
        lemma_one_order(rest_one, rest_other);
        assert(one =~= seq![x] + rest_one);
        assert(other =~= seq![y] + rest_other);
    }
}

/// What is told apart in a list is told apart in any list of the same
/// entries.
pub proof fn lemma_told_apart_any_order(one: Seq<Entry>, other: Seq<Entry>)
    requires
        told_apart(one),
        one.to_multiset() == other.to_multiset(),
    ensures
        told_apart(other),
{
    broadcast use vstd::seq_lib::group_to_multiset_ensures;

    assert forall|i: int, j: int|
        0 <= i < other.len() && 0 <= j < other.len() && entry_le(other[i], other[j]) && entry_le(
            other[j],
            other[i],
        ) implies other[i] == other[j] by {
        assert(other.contains(other[i]));
        assert(other.contains(other[j]));
        assert(one.to_multiset().count(other[i]) > 0);
        assert(one.to_multiset().count(other[j]) > 0);
        assert(one.contains(other[i]));
        assert(one.contains(other[j]));
        let a = choose|a: int| 0 <= a < one.len() && one[a] == other[i];
        let b = choose|b: int| 0 <= b < one.len() && one[b] == other[j];
        assert(one[a] == one[b]);
    }
}

/// Two worlds in order that hold the same chunks
/// list the same living creatures in their snapshots, in the same order,
/// and count the same number of chunks, whatever the order in which their
/// chunks were made.
pub proof fn lemma_snapshot_is_canonical(one: WorldView, other: WorldView)
    requires
        one.wf(),
        other.wf(),
        one.chunks == other.chunks,
        one.chunk_size == other.chunk_size,
    ensures
        in_order(one.living_entries()) == in_order(other.living_entries()),
        one.order.len() == other.order.len(),
{
    let size = one.chunk_size as int;
    lemma_living_in_first(one, one.order.len());
    lemma_living_in_first(other, other.order.len());
    assert(one.order.take(one.order.len() as int) =~= one.order);
    assert(other.order.take(other.order.len() as int) =~= other.order);
    assert forall|coord: Point| one.order.contains(coord) <==> other.order.contains(coord) by {
        assert(one.has(coord) <==> one.order.contains(coord));
        assert(other.has(coord) <==> other.order.contains(coord));
    }
    lemma_living_any_order(one.chunks, one.order, other.order);
    assert forall|i: int| 0 <= i < one.order.len() implies one.has(#[trigger] one.order[i]) by {
        assert(one.order.contains(one.order[i]));
    }
    lemma_living_at_home(one, one.order);
    let first = one.living_entries();
    let second = other.living_entries();
    lemma_at_home_told_apart(first, size);
    lemma_in_order(first);
    lemma_in_order(second);
    lemma_told_apart_any_order(first, in_order(first));
    lemma_one_order(in_order(first), in_order(second));
}

/// Two states in order that agree on the turn, on where the player stands
/// and on the chunks of their worlds have the same snapshot.
pub proof fn lemma_same_chunks_same_snapshot(one: StateView, other: StateView)
    requires
        one.wf(),
        other.wf(),
        one.turn == other.turn,
        one.player.pos == other.player.pos,
        one.world.chunks == other.world.chunks,
    ensures
        one.verification() == other.verification(),
{
    reveal(StateView::verification);
    lemma_snapshot_is_canonical(one.world, other.world);
}

} // verus!
