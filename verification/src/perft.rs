//! Perft: counting the leaves of the legal move tree to a fixed depth.
use vstd::prelude::*;
use crate::chessboard::Chessboard;
use crate::moves::ChessMove;

verus! {

/// The result of a perft run: the depth searched and the number of leaf positions.
#[derive(Clone, Copy, Debug, PartialEq, Eq)]
pub struct PerftRes {
    pub depth: usize,
    pub nodes: u64,
}

/// Counts the leaves of the legal move tree of `pos` to `depth` plies, saturating at `u64::MAX`.
fn do_perft(depth: usize, pos: Chessboard) -> (r: u64)
    requires
        depth >= 1,
        pos.castling.wf(),
        pos.ep_square.is_some() ==> pos.ep_square.unwrap().wf(),
    ensures
        depth == 1 ==> ((r == 0) == !crate::make_move::spec_has_legal_move(pos)),
        !crate::make_move::spec_has_legal_move(pos) ==> r == 0,
    decreases depth,
{
    let moves = pos.pseudolegal_moves();
    let mut nodes: u64 = 0;
    let mut i: usize = 0;
    while i < moves.len()
        invariant
            depth >= 1,
            i <= moves@.len(),
            pos.castling.wf(),
            pos.ep_square.is_some() ==> pos.ep_square.unwrap().wf(),
            forall|m: ChessMove| #[trigger] moves@.contains(m) <==> crate::movegen::spec_generated(pos, m, false),
            depth == 1 ==> ((nodes == 0) == (forall|j: int| 0 <= j < i ==> #[trigger] crate::make_move::spec_make_move(pos, moves@[j]) is None)),
            !crate::make_move::spec_has_legal_move(pos) ==> nodes == 0,
        decreases moves@.len() - i,
    {
        proof {
            assert(moves@.contains(moves@[i as int]));
        }
        if let Some(new_pos) = pos.make_move(moves[i]) {
            proof {
                assert(crate::movegen::spec_generated(pos, moves@[i as int], false)
                    && crate::make_move::spec_make_move(pos, moves@[i as int]).is_some());
            }
            if depth == 1 {
                nodes = nodes.saturating_add(1);
            } else {
                nodes = nodes.saturating_add(do_perft(depth - 1, new_pos));
            }
        }
        i = i + 1;
    }
    proof {
        if depth == 1 {
            if crate::make_move::spec_has_legal_move(pos) {
                let m = choose|m: ChessMove| #[trigger] crate::movegen::spec_generated(pos, m, false)
                    && crate::make_move::spec_make_move(pos, m).is_some();
                assert(moves@.contains(m));
                let j = choose|j: int| 0 <= j < moves@.len() && moves@[j] == m;
                assert(crate::make_move::spec_make_move(pos, moves@[j]) is Some);
            } else {
                assert forall|j: int| 0 <= j < moves@.len() implies #[trigger] crate::make_move::spec_make_move(pos, moves@[j]) is None by {
                    assert(moves@.contains(moves@[j]));
                }
            }
        }
    }
    nodes
}

/// Counts the leaves of the legal move tree of `pos` to `depth` plies: 1 at depth 0, the number of
/// legal moves at depth 1, and none at any positive depth where no move is legal.
pub fn perft(depth: usize, pos: Chessboard) -> (r: PerftRes)
    requires
        pos.castling.wf(),
        pos.ep_square.is_some() ==> pos.ep_square.unwrap().wf(),
    ensures
        r.depth == depth,
        depth == 0 ==> r.nodes == 1,
        depth == 1 ==> ((r.nodes == 0) == !crate::make_move::spec_has_legal_move(pos)),
        depth >= 1 && !crate::make_move::spec_has_legal_move(pos) ==> r.nodes == 0,
{
    let nodes = if depth == 0 {
        1
    } else {
        do_perft(depth, pos)
    };
    PerftRes { depth, nodes }
}

} // verus!
