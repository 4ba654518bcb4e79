//! Negamax search with alpha-beta pruning over the moves of the generator.

use vstd::prelude::*;
use crate::board_elements::{ChessMove, Square};
use crate::board_state::BoardState;
use crate::minimax::tells;
use crate::move_generation::{generate_pseudo_moves_for_player, legal_moves_in_place};
use crate::move_scoring::{move_score, spec_move_score};
use crate::position::{lemma_board_score_bounds, Position, seen_by};

verus! {

/// The list with `mov` put in behind every move that scores at least as
/// much as it does.
pub open spec fn insert_by_score(board: Seq<Square>, sorted: Seq<ChessMove>, mov: ChessMove) -> Seq<
    ChessMove,
>
    decreases sorted.len(),
{
    if sorted.len() == 0 {
        seq![mov]
    } else if spec_move_score(board, sorted.last()) >= spec_move_score(board, mov) {
        sorted.push(mov)
    } else {
        insert_by_score(board, sorted.drop_last(), mov).push(sorted.last())
    }
}

/// The first `n` moves in the order in which they are searched: by
/// descending score, moves of equal score in the order in which they
/// stand in the list.
pub open spec fn ordered_by_score(board: Seq<Square>, moves: Seq<ChessMove>, n: nat) -> Seq<
    ChessMove,
>
    decreases n,
{
    if n == 0 {
        Seq::empty()
    } else {
        insert_by_score(board, ordered_by_score(board, moves, (n - 1) as nat), moves[n - 1])
    }
}

/// The greater of two scores.
pub open spec fn higher(a: int, b: int) -> int {
    if a >= b {
        a
    } else {
        b
    }
}

/// The starting value of a best score: below every score of a position.
pub const LOWEST: i32 = -2147483647;

impl Position {
    /// The moves of the side to move in the order in which they are
    /// searched.
    pub open spec fn ordered_moves(self) -> Seq<ChessMove> {
        ordered_by_score(self.board, self.pseudo_moves(), self.pseudo_moves().len())
    }

    /// The evaluation as the side to move sees it.
    pub open spec fn pov_eval(self) -> int {
        seen_by(self.to_move, self.eval as int)
    }

    /// The negamax score of the position for the side to move, searched
    /// `depth` plies deep within the window from `alpha` to `beta`.
    ///
    /// A position without a legal move scores as mate or as a draw. At
    /// depth zero the score is the evaluation. Otherwise the legal moves
    /// are searched in order; each scores the negation of what the
    /// position after it scores for the other side, one ply less deep and
    /// within the negated window.
    pub open spec fn negamax(self, depth: nat, alpha: int, beta: int) -> int
        decreases depth, 1nat, 0nat,
    {
        if self.legal_moves().len() == 0 {
            self.terminal_eval()
        } else if depth == 0 {
            self.pov_eval()
        } else {
            self.negamax_from(self.ordered_moves(), 0, depth, alpha, beta, LOWEST as int)
        }
    }

    /// The score that the search of the moves from the `index`-th on
    /// arrives at, with `best` the best score so far and `alpha` the lower
    /// end of the window so far: a move after which the mover's king is
    /// attacked is passed over; any other move raises `best` and `alpha`
    /// to its score where that is higher; once `alpha` has reached `beta`
    /// the rest of the moves is cut off.
    pub open spec fn negamax_from(
        self,
        moves: Seq<ChessMove>,
        index: nat,
        depth: nat,
        alpha: int,
        beta: int,
        best: int,
    ) -> int
        decreases depth, 0nat, moves.len() - index,
    {
        if index >= moves.len() || depth == 0 {
            best
        } else {
            let child = self.apply_move(moves[index as int]);
            if !child.is_valid() {
                self.negamax_from(moves, index + 1, depth, alpha, beta, best)
            } else {
                let eval = -child.negamax((depth - 1) as nat, -beta, -alpha);
                let alpha = higher(alpha, eval);
                let best = higher(best, eval);
                if alpha >= beta {
                    best
                } else {
                    self.negamax_from(moves, index + 1, depth, alpha, beta, best)
                }
            }
        }
    }

    /// The best score and the move that first reached it, as the search
    /// of the first ply arrives at them from the `index`-th move on. The
    /// window is open towards the top, so that no move is cut off.
    pub open spec fn search_from(
        self,
        moves: Seq<ChessMove>,
        index: nat,
        depth: nat,
        alpha: int,
        best: (int, Option<ChessMove>),
    ) -> (int, Option<ChessMove>)
        decreases moves.len() - index,
    {
        if index >= moves.len() || depth == 0 {
            best
        } else {
            let child = self.apply_move(moves[index as int]);
            if !child.is_valid() {
                self.search_from(moves, index + 1, depth, alpha, best)
            } else {
                let eval = -child.negamax((depth - 1) as nat, LOWEST as int, -alpha);
                let best = if eval > best.0 {
                    (eval, Some(moves[index as int]))
                } else {
                    best
                };
                self.search_from(moves, index + 1, depth, higher(alpha, eval), best)
            }
        }
    }

    /// The score of the position for the side to move, `depth` plies
    /// deep, and the first of the moves that lead to it. Without a legal
    /// move there is no move, and the score is the lowest.
    pub open spec fn search(self, depth: nat) -> (int, Option<ChessMove>) {
        self.search_from(self.ordered_moves(), 0, depth, LOWEST as int, (LOWEST as int, None))
    }
}

/// Every move of the ordered list is a move of the list that was ordered.
pub proof fn lemma_ordered_members(board: Seq<Square>, moves: Seq<ChessMove>, n: nat)
    requires
        n <= moves.len(),
    ensures
        ordered_by_score(board, moves, n).len() == n,
        forall|k: int|
            0 <= k < n ==> exists|j: int|
                0 <= j < n && #[trigger] ordered_by_score(board, moves, n)[k] == moves[j],
    decreases n,
{
    if n > 0 {
        lemma_ordered_members(board, moves, (n - 1) as nat);
        let rest = ordered_by_score(board, moves, (n - 1) as nat);
        lemma_insert_members(board, rest, moves[n - 1]);
        let all = ordered_by_score(board, moves, n);
        assert forall|k: int| 0 <= k < n implies exists|j: int|
            0 <= j < n && #[trigger] all[k] == moves[j] by {
            if all[k] == moves[n - 1] {
            } else {
                let i = choose|i: int| 0 <= i < rest.len() && all[k] == rest[i];
                let j = choose|j: int| 0 <= j < n - 1 && rest[i] == moves[j];
                assert(all[k] == moves[j]);
            }
        }
    }
}

/// Every one of the first `n` moves of the list is in the ordered list.
pub proof fn lemma_ordered_holds(board: Seq<Square>, moves: Seq<ChessMove>, n: nat, j: int)
    requires
        0 <= j < n <= moves.len(),
    ensures
        exists|k: int|
            0 <= k < ordered_by_score(board, moves, n).len() && #[trigger] ordered_by_score(
                board,
                moves,
                n,
            )[k] == moves[j],
    decreases n,
{
    let rest = ordered_by_score(board, moves, (n - 1) as nat);
    let all = ordered_by_score(board, moves, n);
    lemma_insert_holds(board, rest, moves[n - 1]);
    if j < n - 1 {
        lemma_ordered_holds(board, moves, (n - 1) as nat, j);
        let i = choose|i: int| 0 <= i < rest.len() && #[trigger] rest[i] == moves[j];
        let k = choose|k: int| 0 <= k < all.len() && #[trigger] all[k] == rest[i];
        assert(all[k] == moves[j]);
    }
}

/// Putting a move in keeps every move of the list, and the move is in the
/// list afterwards.
pub proof fn lemma_insert_holds(board: Seq<Square>, sorted: Seq<ChessMove>, mov: ChessMove)
    ensures
        exists|k: int|
            0 <= k < insert_by_score(board, sorted, mov).len() && #[trigger] insert_by_score(
                board,
                sorted,
                mov,
            )[k] == mov,
        forall|i: int|
            0 <= i < sorted.len() ==> exists|k: int|
                0 <= k < insert_by_score(board, sorted, mov).len() && #[trigger] insert_by_score(
                    board,
                    sorted,
                    mov,
                )[k] == #[trigger] sorted[i],
    decreases sorted.len(),
{
    let all = insert_by_score(board, sorted, mov);
    if sorted.len() == 0 {
        assert(all[0] == mov);
    } else if spec_move_score(board, sorted.last()) >= spec_move_score(board, mov) {
        assert(all[sorted.len() as int] == mov);
        assert forall|i: int| 0 <= i < sorted.len() implies exists|k: int|
            0 <= k < all.len() && #[trigger] all[k] == #[trigger] sorted[i] by {
            assert(all[i] == sorted[i]);
        }
    } else {
        let front = sorted.drop_last();
        let inner = insert_by_score(board, front, mov);
        lemma_insert_holds(board, front, mov);
        lemma_insert_members(board, front, mov);
        let at = choose|k: int| 0 <= k < inner.len() && #[trigger] inner[k] == mov;
        assert(all[at] == mov);
        assert forall|i: int| 0 <= i < sorted.len() implies exists|k: int|
            0 <= k < all.len() && #[trigger] all[k] == #[trigger] sorted[i] by {
            if i < sorted.len() - 1 {
                assert(front[i] == sorted[i]);
                let k = choose|k: int| 0 <= k < inner.len() && #[trigger] inner[k] == front[i];
                assert(all[k] == sorted[i]);
            } else {
                assert(all[all.len() - 1] == sorted[i]);
            }
        }
    }
}

/// Putting a move in adds that move and nothing else.
pub proof fn lemma_insert_members(board: Seq<Square>, sorted: Seq<ChessMove>, mov: ChessMove)
    ensures
        insert_by_score(board, sorted, mov).len() == sorted.len() + 1,
        forall|k: int|
            0 <= k < sorted.len() + 1 ==> {
                let m = #[trigger] insert_by_score(board, sorted, mov)[k];
                m == mov || exists|i: int| 0 <= i < sorted.len() && m == sorted[i]
            },
    decreases sorted.len(),
{
    if sorted.len() > 0 && spec_move_score(board, sorted.last()) < spec_move_score(board, mov) {
        lemma_insert_members(board, sorted.drop_last(), mov);
        let inner = insert_by_score(board, sorted.drop_last(), mov);
        let all = inner.push(sorted.last());
        assert forall|k: int| 0 <= k < sorted.len() + 1 implies {
            let m = #[trigger] all[k];
            m == mov || exists|i: int| 0 <= i < sorted.len() && m == sorted[i]
        } by {
            let m = all[k];
            if k < inner.len() {
                assert(m == inner[k]);
                if m != mov {
                    let i = choose|i: int| 0 <= i < sorted.len() - 1 && m == sorted.drop_last()[i];
                    assert(m == sorted[i]);
                }
            } else {
                assert(m == sorted[sorted.len() - 1]);
            }
        }
    } else if sorted.len() > 0 {
        let all = sorted.push(mov);
        assert forall|k: int| 0 <= k < sorted.len() + 1 implies {
            let m = #[trigger] all[k];
            m == mov || exists|i: int| 0 <= i < sorted.len() && m == sorted[i]
        } by {
            if k < sorted.len() {
                assert(all[k] == sorted[k]);
            }
        }
    }
}

/// Whether no move of the list scores less than a move behind it.
pub open spec fn descending(board: Seq<Square>, moves: Seq<ChessMove>) -> bool {
    forall|i: int, j: int|
        0 <= i < j < moves.len() ==> spec_move_score(board, #[trigger] moves[i])
            >= spec_move_score(board, #[trigger] moves[j])
}

/// Putting a move into a descending list leaves it descending, and adds
/// that move to what the list holds.
pub proof fn lemma_insert_descending(board: Seq<Square>, sorted: Seq<ChessMove>, mov: ChessMove)
    requires
        descending(board, sorted),
    ensures
        descending(board, insert_by_score(board, sorted, mov)),
        insert_by_score(board, sorted, mov).to_multiset() == sorted.to_multiset().insert(mov),
    decreases sorted.len(),
{
    broadcast use vstd::seq_lib::group_to_multiset_ensures;

    let all = insert_by_score(board, sorted, mov);
    if sorted.len() == 0 {
        assert(all =~= Seq::<ChessMove>::empty().push(mov));
        assert(sorted =~= Seq::<ChessMove>::empty());
    } else if spec_move_score(board, sorted.last()) >= spec_move_score(board, mov) {
        assert forall|i: int, j: int| 0 <= i < j < all.len() implies spec_move_score(
            board,
            #[trigger] all[i],
        ) >= spec_move_score(board, #[trigger] all[j]) by {
            if j == sorted.len() {
                if i < sorted.len() - 1 {
                    assert(spec_move_score(board, sorted[i]) >= spec_move_score(
                        board,
                        sorted[sorted.len() - 1],
                    ));
                }
            }
        }
    } else {
        let front = sorted.drop_last();
        assert(descending(board, front)) by {
            assert forall|i: int, j: int| 0 <= i < j < front.len() implies spec_move_score(
                board,
                #[trigger] front[i],
            ) >= spec_move_score(board, #[trigger] front[j]) by {
                assert(front[i] == sorted[i] && front[j] == sorted[j]);
            }
        }
        lemma_insert_descending(board, front, mov);
        lemma_insert_members(board, front, mov);
        let inner = insert_by_score(board, front, mov);
        assert forall|i: int, j: int| 0 <= i < j < all.len() implies spec_move_score(
            board,
            #[trigger] all[i],
        ) >= spec_move_score(board, #[trigger] all[j]) by {
            if j == all.len() - 1 {
                assert(all[i] == inner[i]);
                if inner[i] != mov {
                    let k = choose|k: int| 0 <= k < front.len() && inner[i] == front[k];
                    assert(spec_move_score(board, sorted[k]) >= spec_move_score(
                        board,
                        sorted[sorted.len() - 1],
                    ));
                }
            } else {
                assert(all[i] == inner[i] && all[j] == inner[j]);
            }
        }
        assert(sorted =~= front.push(sorted.last()));
    }
}

/// The moves in the order in which they are searched are the moves of the
/// generator, each as often as the generator produced it, and none of them
/// scores less than a move behind it.
pub proof fn lemma_ordered_descending(board: Seq<Square>, moves: Seq<ChessMove>, n: nat)
    requires
        n <= moves.len(),
    ensures
        descending(board, ordered_by_score(board, moves, n)),
        ordered_by_score(board, moves, n).to_multiset() == moves.take(n as int).to_multiset(),
    decreases n,
{
    broadcast use vstd::seq_lib::group_to_multiset_ensures;

    if n > 0 {
        lemma_ordered_descending(board, moves, (n - 1) as nat);
        lemma_insert_descending(
            board,
            ordered_by_score(board, moves, (n - 1) as nat),
            moves[n - 1],
        );
        assert(moves.take(n as int) =~= moves.take(n - 1).push(moves[n - 1]));
    } else {
        assert(moves.take(0) =~= Seq::<ChessMove>::empty());
    }
}

/// Putting a move in behind the moves that score at least as much is
/// putting it in at the place behind the last of them.
proof fn lemma_insert_at(board: Seq<Square>, sorted: Seq<ChessMove>, mov: ChessMove, at: int)
    requires
        0 <= at <= sorted.len(),
        at > 0 ==> spec_move_score(board, sorted[at - 1]) >= spec_move_score(board, mov),
        forall|i: int|
            at <= i < sorted.len() ==> spec_move_score(board, #[trigger] sorted[i])
                < spec_move_score(board, mov),
    ensures
        insert_by_score(board, sorted, mov) == sorted.insert(at, mov),
    decreases sorted.len(),
{
    if sorted.len() == 0 {
        assert(sorted.insert(at, mov) =~= seq![mov]);
    } else if at == sorted.len() {
        assert(sorted.insert(at, mov) =~= sorted.push(mov));
    } else {
        lemma_insert_at(board, sorted.drop_last(), mov, at);
        assert(sorted.insert(at, mov) =~= sorted.drop_last().insert(at, mov).push(sorted.last()));
    }
}

/// Orders the moves for the search: by descending score, moves of equal
/// score in the order in which they came.
pub fn order_moves(board_state: &BoardState, moves: Vec<ChessMove>) -> (r: Vec<ChessMove>)
    requires
        board_state@.wf(),
        forall|k: int|
            0 <= k < moves@.len() ==> (#[trigger] moves@[k]).start.on_board()
                && moves@[k].dest.on_board() && board_state@.square(moves@[k].start) is Full,
    ensures
        r@ == ordered_by_score(board_state@.board, moves@, moves@.len()),
{
    let ghost board = board_state@.board;
    let mut sorted: Vec<ChessMove> = Vec::new();
    let mut scores: Vec<i32> = Vec::new();
    let mut index: usize = 0;
    while index < moves.len()
        invariant
            index <= moves.len(),
            board == board_state@.board,
            board_state@.wf(),
            forall|k: int|
                0 <= k < moves@.len() ==> (#[trigger] moves@[k]).start.on_board()
                    && moves@[k].dest.on_board() && board_state@.square(moves@[k].start) is Full,
            sorted@ == ordered_by_score(board, moves@, index as nat),
            scores@.len() == sorted@.len(),
            forall|k: int|
                0 <= k < sorted@.len() ==> #[trigger] scores@[k] == spec_move_score(
                    board,
                    sorted@[k],
                ),
        decreases moves.len() - index,
    {
        let mov = moves[index];
        let score = move_score(board_state, mov);
        let mut at: usize = sorted.len();
        while at > 0 && scores[at - 1] < score
            invariant
                at <= sorted@.len(),
                scores@.len() == sorted@.len(),
                forall|k: int|
                    0 <= k < sorted@.len() ==> #[trigger] scores@[k] == spec_move_score(
                        board,
                        sorted@[k],
                    ),
                forall|i: int|
                    at <= i < sorted@.len() ==> spec_move_score(board, #[trigger] sorted@[i])
                        < score,
            decreases at,
        {
            at -= 1;
        }
        proof {
            assert(at > 0 ==> scores@[at - 1] == spec_move_score(board, sorted@[at - 1]));
            lemma_insert_at(board, sorted@, mov, at as int);
        }
        sorted.insert(at, mov);
        scores.insert(at, score);
        index += 1;
    }
    sorted
}

/// The moves of the side to move in the order in which they are searched.
fn ordered_moves(board_state: &BoardState) -> (r: Vec<ChessMove>)
    requires
        board_state@.wf(),
        board_state@.is_valid(),
    ensures
        r@ == board_state@.ordered_moves(),
        forall|k: int| 0 <= k < r@.len() ==> board_state@.permits(#[trigger] r@[k]),
{
    let available_pseudo_moves = generate_pseudo_moves_for_player(board_state);
    proof {
        assert forall|k: int| 0 <= k < available_pseudo_moves@.len() implies board_state@.permits(
            #[trigger] available_pseudo_moves@[k],
        ) by {
            board_state@.lemma_pseudo_move_permitted(k);
        }
    }
    let ordered = order_moves(board_state, available_pseudo_moves);
    proof {
        lemma_ordered_members(
            board_state@.board,
            available_pseudo_moves@,
            available_pseudo_moves@.len(),
        );
        assert forall|k: int| 0 <= k < ordered@.len() implies board_state@.permits(
            #[trigger] ordered@[k],
        ) by {
            let j = choose|j: int|
                0 <= j < available_pseudo_moves@.len() && ordered@[k] == available_pseudo_moves@[j];
            assert(board_state@.permits(available_pseudo_moves@[j]));
        }
    }
    ordered
}

/// The negamax score of the position for the side to move, searched
/// `depth` plies deep within the window from `alpha` to `beta`.
///
/// The search works on the one position that it is given: it makes a
/// move, searches the position after it, and takes the move back before
/// it looks at the score, so that the position is the same afterwards as
/// before whichever way the search of a move ends.
#[verifier::rlimit(40)]
pub fn negamax_in_place(board_state: &mut BoardState, depth: u8, alpha: i32, beta: i32) -> (r: i32)
    requires
        old(board_state).wf(),
        old(board_state)@.is_valid(),
        alpha >= LOWEST,
        beta >= LOWEST,
    ensures
        r == old(board_state)@.negamax(depth as nat, alpha as int, beta as int),
        r >= LOWEST,
        final(board_state)@ == old(board_state)@,
        final(board_state).history() == old(board_state).history(),
    decreases depth,
{
    let ghost start = board_state@;
    let ghost past = board_state.history();
    let legal_moves = legal_moves_in_place(board_state);
    if legal_moves.len() == 0 {
        return board_state.terminal_eval();
    }
    proof {
        lemma_board_score_bounds(start.board, 64);
    }
    if depth == 0 {
        return board_state.pov_eval();
    }
    let mut best_eval: i32 = -i32::MAX;
    let mut alpha: i32 = alpha;
    let ghost first_alpha = alpha;
    let available_moves = ordered_moves(board_state);
    let ghost whole = start.negamax(depth as nat, first_alpha as int, beta as int);
    let mut index: usize = 0;
    while index < available_moves.len()
        invariant_except_break
            whole == start.negamax_from(
                available_moves@,
                index as nat,
                depth as nat,
                alpha as int,
                beta as int,
                best_eval as int,
            ),
        invariant
            index <= available_moves.len(),
            depth > 0,
            board_state@ == start,
            board_state.history() == past,
            board_state.wf(),
            start.is_valid(),
            available_moves@ == start.ordered_moves(),
            forall|k: int|
                0 <= k < available_moves@.len() ==> start.permits(#[trigger] available_moves@[k]),
            alpha >= LOWEST,
            beta >= LOWEST,
            best_eval >= LOWEST,
        ensures
            best_eval == whole,
        decreases available_moves.len() - index,
    {
        let mov = available_moves[index];
        board_state.make_move(mov);
        if !board_state.is_valid_move() {
            board_state.unmake_move();
            proof {
                assert(board_state.history() =~= past);
            }
            index += 1;
            continue ;
        }
        let eval = -negamax_in_place(board_state, depth - 1, -beta, -alpha);
        board_state.unmake_move();
        proof {
            assert(board_state.history() =~= past);
        }
        if eval > alpha {
            alpha = eval;
        }
        if eval > best_eval {
            best_eval = eval;
        }
        if alpha >= beta {
            break ;
        }
        index += 1;
    }
    best_eval
}

/// The negamax score of the position for the side to move, searched
/// `depth` plies deep within the window from `alpha` to `beta`. Within a
/// window that is not empty the score tells the minimax value of the
/// position.
pub fn negamax(board_state: &BoardState, depth: u8, alpha: i32, beta: i32) -> (r: i32)
    requires
        board_state@.wf(),
        board_state@.is_valid(),
        alpha >= LOWEST,
        beta >= LOWEST,
    ensures
        r == board_state@.negamax(depth as nat, alpha as int, beta as int),
        r >= LOWEST,
        alpha < beta ==> tells(
            r as int,
            board_state@.minimax(depth as nat),
            alpha as int,
            beta as int,
        ),
{
    proof {
        if alpha < beta {
            board_state@.lemma_negamax_tells_minimax(depth as nat, alpha as int, beta as int);
        }
    }
    let mut scratch = board_state.scratch();
    negamax_in_place(&mut scratch, depth, alpha, beta)
}

/// Searches the position `depth` plies deep. Returns the minimax value
/// of the position for the side to move and the first of the moves, in
/// the order of the search, that lead to it; without a legal move, the
/// lowest score and no move.
pub fn search(board_state: &BoardState, depth: u8) -> (r: (i32, Option<ChessMove>))
    requires
        board_state@.wf(),
        board_state@.is_valid(),
        depth >= 1,
    ensures
        r.0 == board_state@.search(depth as nat).0,
        r.1 == board_state@.search(depth as nat).1,
        r.0 == board_state@.best_from(board_state@.ordered_moves(), 0, depth as nat),
        board_state@.legal_moves().len() != 0 ==> r.0 == board_state@.minimax(depth as nat),
        r.1 == (if r.0 > LOWEST {
            board_state@.first_with_value(
                board_state@.ordered_moves(),
                0,
                depth as nat,
                r.0 as int,
            )
        } else {
            None
        }),
        r.1 is Some <==> board_state@.legal_moves().len() != 0,
        r.1 is Some ==> board_state@.legal_moves().contains(r.1->Some_0),
{
    proof {
        board_state@.lemma_search_finds_best(depth as nat);
        board_state@.lemma_search_finds_move(depth as nat);
    }
    let mut copy_board = board_state.scratch();
    let ghost start = copy_board@;
    let ghost past = copy_board.history();
    let mut alpha: i32 = -i32::MAX;
    let beta: i32 = i32::MAX;
    let mut best_eval: i32 = -i32::MAX;
    let mut best_move: Option<ChessMove> = None;
    let possible_moves = ordered_moves(board_state);
    let ghost whole = start.search(depth as nat);
    let mut index: usize = 0;
    while index < possible_moves.len()
        invariant
            index <= possible_moves.len(),
            depth >= 1,
            beta == i32::MAX,
            copy_board@ == start,
            copy_board.history() == past,
            copy_board.wf(),
            start.is_valid(),
            possible_moves@ == start.ordered_moves(),
            forall|k: int|
                0 <= k < possible_moves@.len() ==> start.permits(#[trigger] possible_moves@[k]),
            alpha >= LOWEST,
            best_eval >= LOWEST,
            whole == start.search_from(
                possible_moves@,
                index as nat,
                depth as nat,
                alpha as int,
                (best_eval as int, best_move),
            ),
        decreases possible_moves.len() - index,
    {
        let mov = possible_moves[index];
        copy_board.make_move(mov);
        if !copy_board.is_valid_move() {
            copy_board.unmake_move();
            proof {
                assert(copy_board.history() =~= past);
            }
            index += 1;
            continue ;
        }
        let eval = -negamax_in_place(&mut copy_board, depth - 1, -beta, -alpha);
        if eval > best_eval {
            best_eval = eval;
            best_move = copy_board.last_move;
        }
        copy_board.unmake_move();
        proof {
            assert(copy_board.history() =~= past);
        }
        if eval > alpha {
            alpha = eval;
        }
        index += 1;
    }
    (best_eval, best_move)
}

} // verus!
