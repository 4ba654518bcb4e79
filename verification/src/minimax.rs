//! What the search computes: within its window, the negamax score of a
//! position is its minimax value, and cutting off moves loses nothing.

use vstd::prelude::*;
use crate::board_elements::ChessMove;
use crate::move_generation::MATED;
use crate::position::{lemma_board_score_bounds, Position};
use crate::search::{higher, lemma_ordered_holds, lemma_ordered_members, LOWEST};

verus! {

/// Whether a score `found` within the window from `alpha` to `beta` tells
/// the value `exact` as far as such a score can: inside the window it is
/// the value; at or below `alpha` it is an upper bound of the value; at or
/// above `beta` it is a lower bound of the value.
pub open spec fn tells(found: int, exact: int, alpha: int, beta: int) -> bool {
    &&& found <= alpha ==> exact <= found
    &&& found >= beta ==> exact >= found
    &&& alpha < found < beta ==> exact == found
}

impl Position {
    /// The minimax value of the position for the side to move, `depth`
    /// plies deep: mate or draw without a legal move, the evaluation at
    /// depth zero, and otherwise the best of the negated values of the
    /// positions after the legal moves.
    pub open spec fn minimax(self, depth: nat) -> int
        decreases depth, 1nat, 0nat,
    {
        if self.legal_moves().len() == 0 {
            self.terminal_eval()
        } else if depth == 0 {
            self.pov_eval()
        } else {
            self.best_from(self.ordered_moves(), 0, depth)
        }
    }

    /// The best of the negated minimax values of the positions after the
    /// moves from the `index`-th on, moves that leave the mover's king
    /// attacked apart; the lowest score where there is no such move.
    pub open spec fn best_from(self, moves: Seq<ChessMove>, index: nat, depth: nat) -> int
        decreases depth, 0nat, moves.len() - index,
    {
        if index >= moves.len() || depth == 0 {
            LOWEST as int
        } else {
            let child = self.apply_move(moves[index as int]);
            let rest = self.best_from(moves, index + 1, depth);
            if !child.is_valid() {
                rest
            } else {
                higher(-child.minimax((depth - 1) as nat), rest)
            }
        }
    }

    /// The first of the moves from the `index`-th on whose position
    /// afterwards has the negated minimax value `value`.
    pub open spec fn first_with_value(
        self,
        moves: Seq<ChessMove>,
        index: nat,
        depth: nat,
        value: int,
    ) -> Option<ChessMove>
        decreases moves.len() - index,
    {
        if index >= moves.len() || depth == 0 {
            None
        } else {
            let child = self.apply_move(moves[index as int]);
            if child.is_valid() && -child.minimax((depth - 1) as nat) == value {
                Some(moves[index as int])
            } else {
                self.first_with_value(moves, index + 1, depth, value)
            }
        }
    }

    /// Whether each of the given moves may be made.
    pub open spec fn permits_each(self, moves: Seq<ChessMove>) -> bool {
        forall|k: int| 0 <= k < moves.len() ==> self.permits(#[trigger] moves[k])
    }

    /// The moves in the order of the search may be made, in a position
    /// that a legal move has led to.
    pub proof fn lemma_ordered_moves_permitted(self)
        requires
            self.wf(),
            self.is_valid(),
        ensures
            self.permits_each(self.ordered_moves()),
    {
        let pseudo = self.pseudo_moves();
        let ordered = self.ordered_moves();
        lemma_ordered_members(self.board, pseudo, pseudo.len());
        assert forall|k: int| 0 <= k < ordered.len() implies self.permits(
            #[trigger] ordered[k],
        ) by {
            let j = choose|j: int| 0 <= j < pseudo.len() && ordered[k] == pseudo[j];
            self.lemma_pseudo_move_permitted(j);
        }
    }

    /// A minimax value is the score of a mate, the negation of one, or
    /// lies between the two.
    pub proof fn lemma_minimax_bounds(self, depth: nat)
        requires
            self.wf(),
            self.is_valid(),
        ensures
            MATED <= self.minimax(depth) <= -MATED || self.minimax(depth) == LOWEST,
        decreases depth, 1nat, 0nat,
    {
        lemma_board_score_bounds(self.board, 64);
        if self.legal_moves().len() != 0 && depth > 0 {
            self.lemma_ordered_moves_permitted();
            self.lemma_best_from_bounds(self.ordered_moves(), 0, depth);
        }
    }

    proof fn lemma_best_from_bounds(self, moves: Seq<ChessMove>, index: nat, depth: nat)
        requires
            self.wf(),
            self.permits_each(moves),
        ensures
            MATED <= self.best_from(moves, index, depth) <= -MATED || self.best_from(
                moves,
                index,
                depth,
            ) == LOWEST,
        decreases depth, 0nat, moves.len() - index,
    {
        if index < moves.len() && depth > 0 {
            let child = self.apply_move(moves[index as int]);
            self.lemma_best_from_bounds(moves, index + 1, depth);
            if child.is_valid() {
                self.lemma_apply_move_wf(moves[index as int]);
                child.lemma_minimax_bounds((depth - 1) as nat);
                child.lemma_minimax_above_lowest((depth - 1) as nat);
            }
        }
    }

    /// The minimax value of a position is never the lowest score: a
    /// position with a legal move has a move to try.
    pub proof fn lemma_minimax_above_lowest(self, depth: nat)
        requires
            self.wf(),
            self.is_valid(),
        ensures
            self.minimax(depth) >= MATED,
        decreases depth, 1nat, 0nat,
    {
        lemma_board_score_bounds(self.board, 64);
        if self.legal_moves().len() != 0 && depth > 0 {
            self.lemma_ordered_moves_permitted();
            self.lemma_best_from_bounds(self.ordered_moves(), 0, depth);
            self.lemma_some_move_is_valid();
            let ordered = self.ordered_moves();
            let k = choose|k: int|
                0 <= k < ordered.len() && self.apply_move(#[trigger] ordered[k]).is_valid();
            self.lemma_best_from_reaches(ordered, 0, depth, k);
            let child = self.apply_move(ordered[k]);
            self.lemma_apply_move_wf(ordered[k]);
            child.lemma_minimax_bounds((depth - 1) as nat);
            child.lemma_minimax_above_lowest((depth - 1) as nat);
        }
    }

    /// Where there is a legal move, one of the moves in the order of the
    /// search leaves the mover's king out of attack.
    proof fn lemma_some_move_is_valid(self)
        requires
            self.legal_moves().len() != 0,
        ensures
            exists|k: int|
                0 <= k < self.ordered_moves().len() && self.apply_move(
                    #[trigger] self.ordered_moves()[k],
                ).is_valid(),
    {
        let pseudo = self.pseudo_moves();
        self.lemma_legal_among(pseudo, pseudo.len());
        let j = choose|j: int|
            0 <= j < pseudo.len() && self.apply_move(#[trigger] pseudo[j]).is_valid();
        lemma_ordered_holds(self.board, pseudo, pseudo.len(), j);
        let ordered = self.ordered_moves();
        let k = choose|k: int| 0 <= k < ordered.len() && #[trigger] ordered[k] == pseudo[j];
        assert(self.apply_move(ordered[k]).is_valid());
    }

    /// Where some of the first `n` moves are legal, one of them leaves
    /// the mover's king out of attack.
    proof fn lemma_legal_among(self, moves: Seq<ChessMove>, n: nat)
        requires
            n <= moves.len(),
            self.legal_among(moves, n).len() != 0,
        ensures
            exists|j: int| 0 <= j < n && self.apply_move(#[trigger] moves[j]).is_valid(),
        decreases n,
    {
        if n > 0 {
            if !self.apply_move(moves[n - 1]).is_valid() {
                self.lemma_legal_among(moves, (n - 1) as nat);
            }
        }
    }

    /// The best from `index` on is at least what the `k`-th move is
    /// worth, where that move comes at or after `index` and leaves the
    /// mover's king out of attack.
    proof fn lemma_best_from_reaches(self, moves: Seq<ChessMove>, index: nat, depth: nat, k: int)
        requires
            index <= k < moves.len(),
            depth > 0,
            self.apply_move(moves[k]).is_valid(),
        ensures
            self.best_from(moves, index, depth) >= -self.apply_move(moves[k]).minimax(
                (depth - 1) as nat,
            ),
        decreases moves.len() - index,
    {
        if index < k {
            self.lemma_best_from_reaches(moves, index + 1, depth, k);
        }
    }

    /// Alpha-beta pruning loses nothing: the negamax score of a position
    /// within a window tells its minimax value. Inside the window the
    /// score is the value; a score at or below the window is an upper
    /// bound of it, and a score at or above the window a lower bound.
    pub proof fn lemma_negamax_tells_minimax(self, depth: nat, alpha: int, beta: int)
        requires
            self.wf(),
            self.is_valid(),
            LOWEST <= alpha < beta <= -LOWEST,
        ensures
            tells(self.negamax(depth, alpha, beta), self.minimax(depth), alpha, beta),
        decreases depth, 1nat, 0nat,
    {
        if self.legal_moves().len() != 0 && depth > 0 {
            self.lemma_ordered_moves_permitted();
            self.lemma_negamax_from_tells(
                self.ordered_moves(),
                0,
                depth,
                alpha,
                alpha,
                beta,
                LOWEST as int,
                LOWEST as int,
            );
        }
    }

    /// The same of the search of one position from its `index`-th move
    /// on: `seen` is the best of what the moves before are worth, and
    /// `best` tells it.
    proof fn lemma_negamax_from_tells(
        self,
        moves: Seq<ChessMove>,
        index: nat,
        depth: nat,
        first_alpha: int,
        alpha: int,
        beta: int,
        best: int,
        seen: int,
    )
        requires
            self.wf(),
            self.permits_each(moves),
            depth > 0,
            LOWEST <= first_alpha,
            alpha == higher(first_alpha, best),
            alpha < beta <= -LOWEST,
            LOWEST <= best,
            LOWEST <= seen,
            tells(best, seen, first_alpha, beta),
        ensures
            tells(
                self.negamax_from(moves, index, depth, alpha, beta, best),
                higher(seen, self.best_from(moves, index, depth)),
                first_alpha,
                beta,
            ),
        decreases depth, 0nat, moves.len() - index,
    {
        if index < moves.len() {
            let mov = moves[index as int];
            let child = self.apply_move(mov);
            if !child.is_valid() {
                self.lemma_negamax_from_tells(
                    moves,
                    index + 1,
                    depth,
                    first_alpha,
                    alpha,
                    beta,
                    best,
                    seen,
                );
            } else {
                self.lemma_apply_move_wf(mov);
                child.lemma_negamax_tells_minimax((depth - 1) as nat, -beta, -alpha);
                child.lemma_minimax_above_lowest((depth - 1) as nat);
                child.lemma_minimax_bounds((depth - 1) as nat);
                let eval = -child.negamax((depth - 1) as nat, -beta, -alpha);
                let exact = -child.minimax((depth - 1) as nat);
                let next_alpha = higher(alpha, eval);
                let next_best = higher(best, eval);
                let next_seen = higher(seen, exact);
                let rest = self.best_from(moves, index + 1, depth);
                assert(tells(next_best, next_seen, first_alpha, beta));
                assert(higher(seen, self.best_from(moves, index, depth)) == higher(
                    next_seen,
                    rest,
                ));
                if next_alpha >= beta {
                } else {
                    self.lemma_negamax_from_tells(
                        moves,
                        index + 1,
                        depth,
                        first_alpha,
                        next_alpha,
                        beta,
                        next_best,
                        next_seen,
                    );
                }
            }
        }
    }
}

impl Position {
    /// The best from `index` on is never below the lowest score.
    proof fn lemma_best_from_floor(self, moves: Seq<ChessMove>, index: nat, depth: nat)
        ensures
            self.best_from(moves, index, depth) >= LOWEST,
        decreases moves.len() - index,
    {
        if index < moves.len() && depth > 0 {
            self.lemma_best_from_floor(moves, index + 1, depth);
        }
    }

    /// The search of the first ply from its `index`-th move on, with
    /// `best` the best of what the moves before are worth and the first
    /// move that is worth it.
    proof fn lemma_search_from(
        self,
        moves: Seq<ChessMove>,
        index: nat,
        depth: nat,
        best: (int, Option<ChessMove>),
    )
        requires
            self.wf(),
            self.permits_each(moves),
            depth > 0,
            MATED <= best.0 <= -MATED || best.0 == LOWEST,
        ensures
            self.search_from(moves, index, depth, best.0, best).0 == higher(
                best.0,
                self.best_from(moves, index, depth),
            ),
            self.search_from(moves, index, depth, best.0, best).1 == (if self.best_from(
                moves,
                index,
                depth,
            ) > best.0 {
                self.first_with_value(moves, index, depth, self.best_from(moves, index, depth))
            } else {
                best.1
            }),
        decreases moves.len() - index,
    {
        if index < moves.len() {
            let mov = moves[index as int];
            let child = self.apply_move(mov);
            let rest = self.best_from(moves, index + 1, depth);
            self.lemma_best_from_floor(moves, index + 1, depth);
            if !child.is_valid() {
                self.lemma_search_from(moves, index + 1, depth, best);
            } else {
                self.lemma_apply_move_wf(mov);
                child.lemma_negamax_tells_minimax((depth - 1) as nat, LOWEST as int, -best.0);
                child.lemma_minimax_above_lowest((depth - 1) as nat);
                child.lemma_minimax_bounds((depth - 1) as nat);
                let eval = -child.negamax((depth - 1) as nat, LOWEST as int, -best.0);
                let exact = -child.minimax((depth - 1) as nat);
                if eval > best.0 {
                    assert(exact == eval);
                    let next = (eval, Some(mov));
                    assert(higher(best.0, eval) == eval);
                    self.lemma_search_from(moves, index + 1, depth, next);
                } else {
                    assert(exact <= best.0);
                    assert(higher(best.0, eval) == best.0);
                    self.lemma_search_from(moves, index + 1, depth, best);
                }
            }
        }
    }

    /// What the search returns: the best of what the legal moves are
    /// worth, each move worth the negated minimax value of the position
    /// after it one ply less deep, and the first of the moves in the
    /// order of the search that is worth it. With a legal move that score
    /// is the minimax value of the position; without one the search
    /// returns the lowest score and no move.
    pub proof fn lemma_search_finds_best(self, depth: nat)
        requires
            self.wf(),
            self.is_valid(),
            depth > 0,
        ensures
            self.search(depth).0 == self.best_from(self.ordered_moves(), 0, depth),
            self.search(depth).1 == (if self.search(depth).0 > LOWEST {
                self.first_with_value(self.ordered_moves(), 0, depth, self.search(depth).0)
            } else {
                None
            }),
            self.legal_moves().len() != 0 ==> self.search(depth).0 == self.minimax(depth),
    {
        self.lemma_ordered_moves_permitted();
        self.lemma_best_from_floor(self.ordered_moves(), 0, depth);
        self.lemma_search_from(self.ordered_moves(), 0, depth, (LOWEST as int, None));
    }
}

impl Position {
    /// A move of the list that leaves the mover's king out of attack is
    /// among the legal moves of the list, and the legal moves of the list
    /// are such moves.
    pub proof fn lemma_legal_among_holds(self, moves: Seq<ChessMove>, n: nat)
        requires
            n <= moves.len(),
        ensures
            forall|j: int|
                0 <= j < n && self.apply_move(#[trigger] moves[j]).is_valid()
                    ==> self.legal_among(moves, n).contains(moves[j]),
            forall|k: int|
                0 <= k < self.legal_among(moves, n).len() ==> self.apply_move(
                    #[trigger] self.legal_among(moves, n)[k],
                ).is_valid(),
        decreases n,
    {
        if n > 0 {
            self.lemma_legal_among_holds(moves, (n - 1) as nat);
            let rest = self.legal_among(moves, (n - 1) as nat);
            let all = self.legal_among(moves, n);
            assert forall|j: int|
                0 <= j < n && self.apply_move(#[trigger] moves[j]).is_valid() implies all.contains(
                moves[j],
            ) by {
                if j < n - 1 {
                    let k = choose|k: int| 0 <= k < rest.len() && rest[k] == moves[j];
                    assert(all[k] == moves[j]);
                } else {
                    assert(all[all.len() - 1] == moves[j]);
                }
            }
        }
    }

    /// Where the best from `index` on is above the lowest score, one of
    /// the moves from `index` on is worth it, and the first such move
    /// leaves the mover's king out of attack.
    proof fn lemma_best_is_reached(self, moves: Seq<ChessMove>, index: nat, depth: nat)
        requires
            depth > 0,
            self.best_from(moves, index, depth) > LOWEST,
        ensures
            self.first_with_value(moves, index, depth, self.best_from(moves, index, depth))
                is Some,
            exists|k: int|
                index <= k < moves.len() && #[trigger] moves[k] == self.first_with_value(
                    moves,
                    index,
                    depth,
                    self.best_from(moves, index, depth),
                )->Some_0 && self.apply_move(moves[k]).is_valid(),
        decreases moves.len() - index,
    {
        let best = self.best_from(moves, index, depth);
        let mov = moves[index as int];
        let child = self.apply_move(mov);
        let rest = self.best_from(moves, index + 1, depth);
        if child.is_valid() && -child.minimax((depth - 1) as nat) == best {
            assert(moves[index as int] == mov);
        } else {
            self.lemma_best_from_floor(moves, index + 1, depth);
            assert(best == rest);
            self.lemma_best_is_reached(moves, index + 1, depth);
            let found = self.first_with_value(moves, index + 1, depth, rest)->Some_0;
            let k = choose|k: int|
                index + 1 <= k < moves.len() && #[trigger] moves[k] == found && self.apply_move(
                    moves[k],
                ).is_valid();
            assert(index <= k < moves.len());
        }
    }

    /// Where no move of the list leaves the mover's king out of attack,
    /// the best is the lowest score.
    proof fn lemma_best_without_moves(self, moves: Seq<ChessMove>, index: nat, depth: nat)
        requires
            forall|k: int|
                0 <= k < moves.len() ==> !self.apply_move(#[trigger] moves[k]).is_valid(),
        ensures
            self.best_from(moves, index, depth) == LOWEST,
        decreases moves.len() - index,
    {
        if index < moves.len() && depth > 0 {
            self.lemma_best_without_moves(moves, index + 1, depth);
        }
    }

    /// The search returns a move exactly where there is a legal move, and
    /// the move that it returns is a legal move.
    pub proof fn lemma_search_finds_move(self, depth: nat)
        requires
            self.wf(),
            self.is_valid(),
            depth > 0,
        ensures
            self.search(depth).1 is Some <==> self.legal_moves().len() != 0,
            self.search(depth).1 is Some ==> self.legal_moves().contains(
                self.search(depth).1->Some_0,
            ),
    {
        let pseudo = self.pseudo_moves();
        let ordered = self.ordered_moves();
        self.lemma_search_finds_best(depth);
        self.lemma_legal_among_holds(pseudo, pseudo.len());
        lemma_ordered_members(self.board, pseudo, pseudo.len());
        if self.legal_moves().len() != 0 {
            self.lemma_minimax_above_lowest(depth);
            self.lemma_best_is_reached(ordered, 0, depth);
        } else {
            assert forall|k: int| 0 <= k < ordered.len() implies !self.apply_move(
                #[trigger] ordered[k],
            ).is_valid() by {
                let j = choose|j: int| 0 <= j < pseudo.len() && ordered[k] == pseudo[j];
                if self.apply_move(pseudo[j]).is_valid() {
                    assert(self.legal_moves().contains(pseudo[j]));
                }
            }
            self.lemma_best_without_moves(ordered, 0, depth);
        }
        if self.search(depth).1 is Some {
            let found = self.search(depth).1->Some_0;
            self.lemma_best_is_reached(ordered, 0, depth);
            let k = choose|k: int|
                0 <= k < ordered.len() && #[trigger] ordered[k] == found && self.apply_move(
                    ordered[k],
                ).is_valid();
            let j = choose|j: int| 0 <= j < pseudo.len() && ordered[k] == pseudo[j];
            assert(self.apply_move(pseudo[j]).is_valid());
        }
    }
}

} // verus!
