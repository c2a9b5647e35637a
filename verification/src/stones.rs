//! Stones, board snapshots and the difference between two snapshots.

use goban::pieces::goban::Goban;
use std::collections::HashSet;
use vstd::prelude::*;

verus! {

broadcast use vstd::std_specs::hash::group_hash_axioms;

/// The side that owns a stone or holds the turn.
#[derive(Clone, Copy, Debug, PartialEq, Eq, Hash)]
pub enum Color {
    Black,
    White,
}

/// One placed piece: zero-based coordinates and its owner.
#[derive(Clone, Copy, Debug, PartialEq, Eq, Hash)]
pub struct Stone {
    pub coordinates: (u8, u8),
    pub color: Color,
}

/// Whether some stone of `board` stands on `at`.
pub open spec fn occupied(board: Seq<Stone>, at: (u8, u8)) -> bool {
    exists|i: int| 0 <= i < board.len() && (#[trigger] board[i]).coordinates == at
}

/// The stones of `after` that stand where `before` has none, in the order of `after`.
pub open spec fn new_stones(before: Seq<Stone>, after: Seq<Stone>) -> Seq<Stone> {
    after.filter(|s: Stone| !occupied(before, s.coordinates))
}

/// The key of a coordinate pair: one number for each pair.
pub open spec fn slot(at: (u8, u8)) -> int {
    at.0 * 256 + at.1
}

proof fn lemma_filter_step<A>(s: Seq<A>, i: int, p: spec_fn(A) -> bool)
    requires
        0 <= i < s.len(),
    ensures
        s.take(i + 1).filter(p) == if p(s[i]) {
            s.take(i).filter(p).push(s[i])
        } else {
            s.take(i).filter(p)
        },
{
    reveal(Seq::filter);
    assert(s.take(i + 1).drop_last() =~= s.take(i));
}

fn slot_of(at: (u8, u8)) -> (k: u64)
    ensures
        k == slot(at),
{
    let row: u64 = at.0 as u64;
    let col: u64 = at.1 as u64;
    row * 256 + col
}

/// Every stone of `after` whose coordinates carry no stone in `before`.
///
/// The points of `before` go into a set once; each stone of `after` then
/// costs one lookup.
pub fn difference(before: &Vec<Stone>, after: &Vec<Stone>) -> (added: Vec<Stone>)
    ensures
        added@ == new_stones(before@, after@),
{
    let mut taken: HashSet<u64> = HashSet::new();
    let mut i: usize = 0;
    while i < before.len()
        invariant
            i <= before.len(),
            forall|at: (u8, u8)|
                #[trigger] taken@.contains(slot(at) as u64) <==> occupied(
                    before@.take(i as int),
                    at,
                ),
        decreases before.len() - i,
    {
        let stone = before[i];
        let key = slot_of(stone.coordinates);
        let ghost earlier = taken@;
        let _ = taken.insert(key);
        proof {
            let prev = before@.take(i as int);
            let next = before@.take(i + 1);
            assert(taken@ == earlier.insert(key));
            assert forall|at: (u8, u8)| #[trigger]
                taken@.contains(slot(at) as u64) <==> occupied(next, at) by {
                if occupied(next, at) {
                    let j = choose|j: int|
                        0 <= j < next.len() && (#[trigger] next[j]).coordinates == at;
                    if j < i {
                        assert(prev[j].coordinates == at);
                        assert(earlier.contains(slot(at) as u64));
                    }
                }
                if earlier.contains(slot(at) as u64) {
                    let j = choose|j: int|
                        0 <= j < prev.len() && (#[trigger] prev[j]).coordinates == at;
                    assert(next[j].coordinates == at);
                }
                if slot(at) as u64 == key {
                    assert(at == stone.coordinates);
                    assert(next[i as int].coordinates == at);
                }
            }
        }
        i = i + 1;
    }
    assert(before@.take(before.len() as int) =~= before@);
    let mut added: Vec<Stone> = Vec::new();
    let mut n: usize = 0;
    let ghost fresh = |s: Stone| !occupied(before@, s.coordinates);
    proof {
        reveal(Seq::filter);
        assert(after@.take(0).filter(fresh) =~= Seq::<Stone>::empty());
    }
    while n < after.len()
        invariant
            n <= after.len(),
            fresh == |s: Stone| !occupied(before@, s.coordinates),
            forall|at: (u8, u8)|
                #[trigger] taken@.contains(slot(at) as u64) <==> occupied(before@, at),
            added@ == after@.take(n as int).filter(fresh),
        decreases after.len() - n,
    {
        let stone = after[n];
        let key = slot_of(stone.coordinates);
        proof {
            lemma_filter_step(after@, n as int, fresh);
            assert(taken@.contains(slot(stone.coordinates) as u64) <==> occupied(
                before@,
                stone.coordinates,
            ));
        }
        if !taken.contains(&key) {
            added.push(stone);
        }
        n = n + 1;
    }
    assert(after@.take(after.len() as int) =~= after@);
    added
}

/// A stone is in the difference exactly when it is in `after` and its point
/// is free in `before`.
pub proof fn lemma_difference_members(before: Seq<Stone>, after: Seq<Stone>, stone: Stone)
    ensures
        new_stones(before, after).contains(stone) <==> after.contains(stone) && !occupied(
            before,
            stone.coordinates,
        ),
{
    let fresh = |s: Stone| !occupied(before, s.coordinates);
    let d = new_stones(before, after);
    if d.contains(stone) {
        let i = choose|i: int| 0 <= i < d.len() && d[i] == stone;
        after.lemma_filter_pred(fresh, i);
        after.lemma_filter_contains_rev(fresh, stone);
    }
    if after.contains(stone) && !occupied(before, stone.coordinates) {
        let i = choose|i: int| 0 <= i < after.len() && after[i] == stone;
        after.lemma_filter_contains(fresh, i);
    }
}

/// The difference of a board with itself is empty.
pub proof fn lemma_difference_self(board: Seq<Stone>)
    ensures
        new_stones(board, board) == Seq::<Stone>::empty(),
{
    let fresh = |s: Stone| !occupied(board, s.coordinates);
    let d = board.filter(fresh);
    if d.len() > 0 {
        board.lemma_filter_pred(fresh, 0);
        assert(d.contains(d[0]));
        board.lemma_filter_contains_rev(fresh, d[0]);
        let i = choose|i: int| 0 <= i < board.len() && board[i] == d[0];
        assert(board[i].coordinates == d[0].coordinates);
        assert(false);
    }
    assert(d =~= Seq::<Stone>::empty());
}

/// Against the empty board the difference is the whole of `after`.
pub proof fn lemma_difference_from_empty(after: Seq<Stone>)
    ensures
        new_stones(Seq::<Stone>::empty(), after) == after,
    decreases after.len(),
{
    let fresh = |s: Stone| !occupied(Seq::<Stone>::empty(), s.coordinates);
    reveal(Seq::filter);
    if after.len() > 0 {
        lemma_difference_from_empty(after.drop_last());
        assert(fresh(after.last()));
        assert(after.drop_last().push(after.last()) =~= after);
    }
}

/// What a board of the rules engine holds: its stones, row by row.
pub uninterp spec fn board_stones(board: Goban) -> Seq<Stone>;

#[verifier::external_type_specification]
#[verifier::external_body]
pub struct ExGoban(Goban);

/// `Goban::get_stones`, collected: the stones that the board holds, each with
/// its coordinates and colour, in the order in which the board hands them out.
#[verifier::external_body]
pub(crate) fn stones_of(board: &Goban) -> (stones: Vec<Stone>)
    ensures
        stones@ == board_stones(*board),
{
    board.get_stones().map(|s| Stone {
        coordinates: s.coord,
        color: match s.color {
            goban::pieces::stones::Color::Black => Color::Black,
            goban::pieces::stones::Color::White => Color::White,
        },
    }).collect()
}

/// The stones of `after` on points where `before` has none.
pub fn goban_difference(before: &Goban, after: &Goban) -> (added: Vec<Stone>)
    ensures
        added@ == new_stones(board_stones(*before), board_stones(*after)),
{
    let earlier = stones_of(before);
    let later = stones_of(after);
    difference(&earlier, &later)
}

} // verus!
