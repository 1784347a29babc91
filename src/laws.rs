//! Properties that hold across moves and requests, proved over the
//! models that the engine's and the bridge's contracts speak of.
use vstd::prelude::*;
use crate::channel::{after_request, replay, reply_to, Reply, ServerMessage};
use crate::dot::{
    in_bounds, lemma_count_filled_bound, lemma_count_filled_update,
    lemma_slot_in_bounds, slot, Dot, TilePos,
};
use crate::game::{after_move, move_outcome, GameModel, MoveError};
use crate::handler::ApiDot;

verus! {

/// Distinct cells of the grid are stored at distinct places.
pub proof fn lemma_slot_injective(n: nat, x1: int, y1: int, x2: int, y2: int)
    requires
        in_bounds(n, x1, y1),
        in_bounds(n, x2, y2),
        slot(n, x1, y1) == slot(n, x2, y2),
    ensures
        x1 == x2,
        y1 == y2,
{
    assert(x1 == x2 && y1 == y2) by (nonlinear_arith)
        requires
            0 <= x1 < n,
            0 <= y1 < n,
            0 <= x2 < n,
            0 <= y2 < n,
            x1 * n + y1 == x2 * n + y2,
    ;
}

/// A move keeps a well-formed game well formed. An accepted move adds
/// exactly one mark; a refused one adds none; the count never exceeds the
/// number of cells.
pub proof fn lemma_move_fills_one_cell(g: GameModel, pos: TilePos)
    requires
        g.wf(),
    ensures
        after_move(g, pos).wf(),
        move_outcome(g, pos) is Ok ==> after_move(g, pos).filled() == g.filled() + 1,
        move_outcome(g, pos) is Err ==> after_move(g, pos) == g,
        after_move(g, pos).filled() <= g.n * g.n,
{
    if move_outcome(g, pos) is Ok {
        let i = slot(g.n, pos.x as int, pos.y as int);
        lemma_slot_in_bounds(g.n, pos.x as int, pos.y as int);
        lemma_count_filled_update(g.cells, i, Dot { color: g.color, pos });
    }
    lemma_count_filled_bound(after_move(g, pos).cells);
}

/// A request keeps a well-formed game well formed, and adds one mark
/// exactly when its reply is `DotPlaced`.
pub proof fn lemma_request_fills(g: GameModel, msg: ServerMessage)
    requires
        g.wf(),
    ensures
        after_request(g, msg).wf(),
        after_request(g, msg).filled() == g.filled() + if reply_to(g, msg) is DotPlaced {
            1nat
        } else {
            0nat
        },
{
    if let ServerMessage::PlaceDot(dot) = msg {
        lemma_move_fills_one_cell(g, TilePos { x: dot.tilemap_pos.0, y: dot.tilemap_pos.1 });
    }
}

/// How many requests of `msgs`, handled in order from `g`, placed a mark.
pub open spec fn accepted(g: GameModel, msgs: Seq<ServerMessage>) -> nat
    decreases msgs.len(),
{
    if msgs.len() == 0 {
        0
    } else {
        accepted(g, msgs.drop_last()) + if reply_to(replay(g, msgs.drop_last()), msgs.last())
            is DotPlaced {
            1nat
        } else {
            0nat
        }
    }
}

/// Over any sequence of requests the number of marks grows by one for
/// each accepted move and by nothing else, and never exceeds `n * n`.
pub proof fn lemma_fill_monotonic(g: GameModel, msgs: Seq<ServerMessage>)
    requires
        g.wf(),
    ensures
        replay(g, msgs).wf(),
        replay(g, msgs).n == g.n,
        replay(g, msgs).filled() == g.filled() + accepted(g, msgs),
        replay(g, msgs).filled() <= g.n * g.n,
    decreases msgs.len(),
{
    if msgs.len() > 0 {
        lemma_fill_monotonic(g, msgs.drop_last());
        lemma_request_fills(replay(g, msgs.drop_last()), msgs.last());
    }
    lemma_count_filled_bound(replay(g, msgs).cells);
}

/// After an accepted move the other player is to move, unless the move
/// won: then the mover stays recorded and the game is over.
pub proof fn lemma_alternation(g: GameModel, pos: TilePos)
    requires
        g.wf(),
        move_outcome(g, pos) is Ok,
    ensures
        after_move(g, pos).open ==> after_move(g, pos).color == g.color.other_spec(),
        !after_move(g, pos).open ==> after_move(g, pos).color == g.color,
{
}

/// Reading the state changes nothing: two reads in a row give equal
/// replies.
pub proof fn lemma_get_state_idempotent(g: GameModel)
    ensures
        after_request(g, ServerMessage::GetState) == g,
        reply_to(after_request(g, ServerMessage::GetState), ServerMessage::GetState) == reply_to(
            g,
            ServerMessage::GetState,
        ),
{
}

/// A move request that is accepted shows up in the next read: its cell
/// holds the mover's mark, every other cell is as it was, and the board
/// has one mark more.
pub proof fn lemma_round_trip(g: GameModel, dot: ApiDot)
    requires
        g.wf(),
        reply_to(g, ServerMessage::PlaceDot(dot)) is DotPlaced,
    ensures
        ({
            let p = TilePos { x: dot.tilemap_pos.0, y: dot.tilemap_pos.1 };
            let g1 = after_request(g, ServerMessage::PlaceDot(dot));
            &&& reply_to(g1, ServerMessage::GetState) == Reply::State(g1)
            &&& g1.cell(p.x as int, p.y as int) == Some(Dot { color: dot.color, pos: p })
            &&& forall|x: int, y: int|
                in_bounds(g.n, x, y) && !(x == p.x && y == p.y) ==> #[trigger] g1.cell(x, y)
                    == g.cell(x, y)
            &&& g1.filled() == g.filled() + 1
        }),
{
    let p = TilePos { x: dot.tilemap_pos.0, y: dot.tilemap_pos.1 };
    let g1 = after_request(g, ServerMessage::PlaceDot(dot));
    lemma_move_fills_one_cell(g, p);
    lemma_slot_in_bounds(g.n, p.x as int, p.y as int);
    assert forall|x: int, y: int|
        in_bounds(g.n, x, y) && !(x == p.x && y == p.y) implies #[trigger] g1.cell(x, y) == g.cell(
        x,
        y,
    ) by {
        lemma_slot_in_bounds(g.n, x, y);
        if slot(g.n, x, y) == slot(g.n, p.x as int, p.y as int) {
            lemma_slot_injective(g.n, x, y, p.x as int, p.y as int);
        }
    }
}

/// Once the game is over every move request is refused with
/// `GameClosed` and leaves the game as it is.
pub proof fn lemma_closed_game_rejects(g: GameModel, dot: ApiDot)
    requires
        !g.open,
    ensures
        reply_to(g, ServerMessage::PlaceDot(dot)) == Reply::InvalidMove(MoveError::GameClosed),
        after_request(g, ServerMessage::PlaceDot(dot)) == g,
{
}

/// Once the game is over no sequence of requests changes it.
pub proof fn lemma_closed_game_stays(g: GameModel, msgs: Seq<ServerMessage>)
    requires
        !g.open,
    ensures
        replay(g, msgs) == g,
    decreases msgs.len(),
{
    if msgs.len() > 0 {
        lemma_closed_game_stays(g, msgs.drop_last());
    }
}

} // verus!
