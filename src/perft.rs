//! Exhaustive counting of the legal move tree.
use vstd::prelude::*;
use crate::board::{Board, MoveInfo};

verus! {

/// Adds the size of the tree below the board after a move, `d` plies deep.
pub open spec fn add_subtree(b: Board, d: nat) -> spec_fn(int, MoveInfo) -> int
    decreases d, 1nat,
{
    |acc: int, m: MoveInfo| acc + tree_count(b.applied(m), d)
}

/// The number of leaves of the legal move tree of `b`, `d` plies deep: one at
/// depth 0, else the sum over the legal moves of the trees below them.
pub open spec fn tree_count(b: Board, d: nat) -> int
    decreases d, 0nat,
{
    if d == 0 {
        1
    } else {
        b.legal_moves().fold(0int, add_subtree(b, (d - 1) as nat))
    }
}

/// `x` capped at `u64::MAX`.
pub open spec fn capped(x: int) -> int {
    if x >= u64::MAX { u64::MAX as int } else { x }
}

/// Counts the positions `depth` plies below `board`, capped at `u64::MAX`,
/// playing and taking back every legal move on the board itself, which it
/// leaves as it found it.
pub fn perft(board: &mut Board, depth: u32) -> (nodes: u64)
    requires
        old(board).wf(),
    ensures
        *final(board) == *old(board),
        nodes == capped(tree_count(*old(board), depth as nat)),
    decreases depth, 1nat,
{
    if depth == 0 {
        return 1;
    }
    let (_, nodes) = divide(board, depth);
    nodes
}

/// For each legal move of `board`, the number of positions `depth - 1` plies
/// below it, capped at `u64::MAX`; and their total, capped likewise. Each
/// legal move is listed once. The board is left as it was found.
pub fn divide(board: &mut Board, depth: u32) -> (r: (Vec<(MoveInfo, u64)>, u64))
    requires
        old(board).wf(),
        depth >= 1,
    ensures
        *final(board) == *old(board),
        r.1 == capped(tree_count(*old(board), depth as nat)),
        r.0@.len() == old(board).legal_moves().len(),
        forall|i: int|
            0 <= i < r.0@.len() ==> old(board).produces((#[trigger] r.0@[i]).0) && r.0@[i].1 == capped(
                tree_count(old(board).applied(r.0@[i].0), (depth - 1) as nat),
            ),
        forall|m: MoveInfo| old(board).produces(m) ==> exists|i: int| 0 <= i < r.0@.len() && (#[trigger] r.0@[i]).0 == m,
        forall|i: int, j: int| 0 <= i < j < r.0@.len() ==> (#[trigger] r.0@[i]).0 != (#[trigger] r.0@[j]).0,
    decreases depth, 0nat,
{
    let moves = board.generateMoves();
    let ghost start = *board;
    let ghost f = add_subtree(start, (depth - 1) as nat);
    let mut counts: Vec<(MoveInfo, u64)> = Vec::new();
    let mut nodes: u64 = 0;
    let ghost mut acc: int = 0;
    let mut i: usize = 0;
    proof {
        assert(moves@.subrange(0, 0).to_set() =~= Set::empty());
        vstd::set::fold::lemma_fold_empty(0int, f);
    }
    while i < moves.len()
        invariant
            *board == start,
            start.wf(),
            depth >= 1,
            f == add_subtree(start, (depth - 1) as nat),
            i <= moves@.len(),
            forall|j: int| 0 <= j < moves@.len() ==> start.produces(#[trigger] moves@[j]),
            forall|j: int| 0 <= j < moves@.len() ==> (#[trigger] moves@[j]).on_board(),
            moves@.no_duplicates(),
            acc == moves@.subrange(0, i as int).to_set().fold(0int, f),
            acc >= 0,
            nodes == capped(acc),
            counts@.len() == i,
            forall|j: int|
                0 <= j < i ==> (#[trigger] counts@[j]).0 == moves@[j] && counts@[j].1 == capped(
                    tree_count(start.applied(moves@[j]), (depth - 1) as nat),
                ),
        decreases moves.len() - i,
    {
        let mv = moves[i];
        proof {
            start.lemma_keeps_wf(mv);
            start.lemma_generated_round_trip(mv);
        }
        board.applyMove(mv);
        let below = perft(board, depth - 1);
        board.undoMove(mv);
        proof {
            let done = moves@.subrange(0, i as int);
            assert(moves@.subrange(0, i + 1).to_set() =~= done.to_set().insert(mv)) by {
                let next = moves@.subrange(0, i + 1);
                assert(next =~= done.push(mv));
                assert forall|x: MoveInfo| next.contains(x) == (done.contains(x) || x == mv) by {
                    if next.contains(x) {
                        let j = choose|j: int| 0 <= j < next.len() && next[j] == x;
                        if j < done.len() {
                            assert(done[j] == x);
                        }
                    }
                    if done.contains(x) {
                        let j = choose|j: int| 0 <= j < done.len() && done[j] == x;
                        assert(next[j] == x);
                    }
                    if x == mv {
                        assert(next[i as int] == x);
                    }
                }
            }
            assert(!done.to_set().contains(mv)) by {
                if done.to_set().contains(mv) {
                    let j = choose|j: int| 0 <= j < done.len() && done[j] == mv;
                    assert(moves@[j] == moves@[i as int]);
                }
            }
            vstd::seq_lib::seq_to_set_is_finite(done);
            assert(vstd::set::fold::is_fun_commutative(f));
            vstd::set::fold::lemma_fold_insert(done.to_set(), 0int, f, mv);
            acc = acc + tree_count(start.applied(mv), (depth - 1) as nat);
        }
        nodes = nodes.saturating_add(below);
        counts.push((mv, below));
        i = i + 1;
    }
    proof {
        assert(moves@.subrange(0, moves@.len() as int) =~= moves@);
        assert(moves@.to_set() =~= start.legal_moves());
        assert forall|m: MoveInfo| start.produces(m) implies exists|i: int| 0 <= i < counts@.len() && (#[trigger] counts@[i]).0 == m by {
            let j = choose|j: int| 0 <= j < moves@.len() && moves@[j] == m;
            assert(counts@[j].0 == m);
        }
    }
    (counts, nodes)
}


} // verus!
