//! The bridge between the engine and concurrent callers: a queue of
//! requests in, a queue of replies out, one reply per request, in order.
use vstd::prelude::*;
use crate::dot::TilePos;
use crate::game::{after_move, move_outcome, spawn_dot, Game, GameModel, MoveError};
use crate::handler::ApiDot;

verus! {

#[verifier::external_type_specification]
#[verifier::external_body]
#[verifier::reject_recursive_types(T)]
pub struct ExSender<T>(flume::Sender<T>);

#[verifier::external_type_specification]
#[verifier::external_body]
#[verifier::reject_recursive_types(T)]
pub struct ExReceiver<T>(flume::Receiver<T>);

/// Relies on flume::Receiver::len: the number of messages waiting. Other
/// threads may add to the queue at any time, so nothing is claimed of it.
#[verifier::external_body]
fn pending_len<T>(rx: &flume::Receiver<T>) -> (r: usize) {
    rx.len()
}

/// Relies on flume::Receiver::try_recv: the oldest waiting message, if
/// any, without blocking.
#[verifier::external_body]
fn try_recv<T>(rx: &flume::Receiver<T>) -> (r: Option<T>) {
    rx.try_recv().ok()
}

/// Relies on flume::Sender::try_send: queues `msg`; false where the
/// receiving side is gone (or a bounded queue is full).
#[verifier::external_body]
fn try_send<T>(tx: &flume::Sender<T>, msg: T) -> (r: bool) {
    tx.try_send(msg).is_ok()
}

/// A reply from the engine to a caller.
pub enum BevyMessage {
    /// A copy of the game, detached from the engine's own.
    State(Game),
    DotPlaced,
    InvalidMove(MoveError),
}

/// A request from a caller to the engine.
#[derive(Clone, Copy, Debug)]
pub enum ServerMessage {
    GetState,
    PlaceDot(ApiDot),
}

/// One end of the queue pair: sends `T`, receives `L`.
#[verifier::reject_recursive_types(T)]
#[verifier::reject_recursive_types(L)]
pub struct ChannelManager<T, L> {
    pub tx: flume::Sender<T>,
    pub rx: flume::Receiver<L>,
}

/// What a reply says.
pub enum Reply {
    State(GameModel),
    DotPlaced,
    InvalidMove(MoveError),
}

impl View for BevyMessage {
    type V = Reply;

    open spec fn view(&self) -> Reply {
        match self {
            BevyMessage::State(g) => Reply::State(g@),
            BevyMessage::DotPlaced => Reply::DotPlaced,
            BevyMessage::InvalidMove(e) => Reply::InvalidMove(*e),
        }
    }
}

/// What a move request returns: refused once the game is over, or when
/// its mark is not that of the player to move; otherwise what the move
/// itself returns.
pub open spec fn place_outcome(g: GameModel, dot: ApiDot) -> Result<(), MoveError> {
    if !g.open {
        Err(MoveError::GameClosed)
    } else if dot.color != g.color {
        Err(MoveError::NotYourTurn)
    } else {
        move_outcome(g, TilePos { x: dot.tilemap_pos.0, y: dot.tilemap_pos.1 })
    }
}

/// The reply to `msg` from a game in state `g`.
pub open spec fn reply_to(g: GameModel, msg: ServerMessage) -> Reply {
    match msg {
        ServerMessage::GetState => Reply::State(g),
        ServerMessage::PlaceDot(dot) => match place_outcome(g, dot) {
            Ok(_) => Reply::DotPlaced,
            Err(e) => Reply::InvalidMove(e),
        },
    }
}

/// The game once `msg` is handled.
pub open spec fn after_request(g: GameModel, msg: ServerMessage) -> GameModel {
    match msg {
        ServerMessage::GetState => g,
        ServerMessage::PlaceDot(dot) => if place_outcome(g, dot) is Ok {
            after_move(g, TilePos { x: dot.tilemap_pos.0, y: dot.tilemap_pos.1 })
        } else {
            g
        },
    }
}

/// The game once every request of `msgs` is handled, in order.
pub open spec fn replay(g: GameModel, msgs: Seq<ServerMessage>) -> GameModel
    decreases msgs.len(),
{
    if msgs.len() == 0 {
        g
    } else {
        after_request(replay(g, msgs.drop_last()), msgs.last())
    }
}

/// Handles one request: reads or moves, and builds the one reply to it.
pub fn handle_message(game: &mut Game, msg: ServerMessage) -> (reply: BevyMessage)
    requires
        old(game).wf(),
    ensures
        final(game).wf(),
        final(game)@ == after_request(old(game)@, msg),
        reply@ == reply_to(old(game)@, msg),
{
    match msg {
        ServerMessage::GetState => BevyMessage::State(game.snapshot()),
        ServerMessage::PlaceDot(dot) => {
            if !game.open {
                return BevyMessage::InvalidMove(MoveError::GameClosed);
            }
            if dot.color != game.dot_color {
                return BevyMessage::InvalidMove(MoveError::NotYourTurn);
            }
            match spawn_dot(game, dot.get_tilepos()) {
                Ok(()) => BevyMessage::DotPlaced,
                Err(e) => BevyMessage::InvalidMove(e),
            }
        },
    }
}

/// One tick of the engine: handles, in arrival order, the requests that
/// were waiting when it started, and sends each reply before taking the
/// next request. Stops early where a reply cannot be sent. Returns the
/// requests handled; the game is then what they make of it, in order.
pub fn handle_bevy_channel(chan: &ChannelManager<BevyMessage, ServerMessage>, game: &mut Game) -> (handled: Vec<ServerMessage>)
    requires
        old(game).wf(),
    ensures
        final(game).wf(),
        final(game)@ == replay(old(game)@, handled@),
{
    let ghost start = game@;
    let pending = pending_len(&chan.rx);
    let mut handled: Vec<ServerMessage> = Vec::new();
    let mut live = true;
    let mut i: usize = 0;
    while live && i < pending
        invariant
            game.wf(),
            game@ == replay(start, handled@),
            i <= pending,
        decreases pending - i,
    {
        match try_recv(&chan.rx) {
            Some(msg) => {
                let ghost prev = handled@;
                let reply = handle_message(game, msg);
                handled.push(msg);
                assert(handled@.drop_last() =~= prev);
                live = try_send(&chan.tx, reply);
            },
            None => {
                live = false;
            },
        }
        i = i + 1;
    }
    handled
}

} // verus!
