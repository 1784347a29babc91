use kaing::channel::{handle_bevy_channel, handle_message, BevyMessage, ChannelManager, ServerMessage};
use kaing::dot::{Dot, DotColor, PlacementError, TilePos};
use kaing::game::{Game, GameState, MoveError};
use kaing::handler::{reply_status, ApiDot, BridgeError};

fn place(color: DotColor, x: u32, y: u32) -> ServerMessage {
    ServerMessage::PlaceDot(ApiDot { color, tilemap_pos: (x, y) })
}

fn state_of(reply: BevyMessage) -> Game {
    match reply {
        BevyMessage::State(g) => g,
        _ => panic!("expected a state"),
    }
}

#[test]
fn get_tilepos_reads_the_pair() {
    let d = ApiDot { color: DotColor::RED, tilemap_pos: (3, 7) };
    assert_eq!(d.get_tilepos(), TilePos { x: 3, y: 7 });
}

#[test]
fn placed_dot_shows_in_next_state() {
    let mut g = Game::new(5, 3);
    let r = handle_message(&mut g, place(DotColor::BLUE, 2, 3));
    assert!(matches!(r, BevyMessage::DotPlaced));
    let s = state_of(handle_message(&mut g, ServerMessage::GetState));
    assert_eq!(s.dot_storage.filled(), 1);
    for x in 0..5 {
        for y in 0..5 {
            if (x, y) == (2, 3) {
                assert_eq!(
                    *s.dot_storage.get(x, y),
                    Some(Dot { color: DotColor::BLUE, pos: TilePos { x: 2, y: 3 } })
                );
            } else {
                assert!(s.dot_storage.get(x, y).is_none());
            }
        }
    }
}

#[test]
fn two_reads_give_equal_states() {
    let mut g = Game::new(4, 3);
    handle_message(&mut g, place(DotColor::BLUE, 1, 1));
    let a = state_of(handle_message(&mut g, ServerMessage::GetState));
    let b = state_of(handle_message(&mut g, ServerMessage::GetState));
    assert_eq!(a.dot_color, b.dot_color);
    assert_eq!(a.open, b.open);
    assert_eq!(a.dot_storage.filled(), b.dot_storage.filled());
    for x in 0..4 {
        for y in 0..4 {
            assert_eq!(a.dot_storage.get(x, y), b.dot_storage.get(x, y));
        }
    }
}

#[test]
fn wrong_mark_is_not_your_turn() {
    let mut g = Game::new(5, 3);
    assert!(matches!(handle_message(&mut g, place(DotColor::BLUE, 0, 0)), BevyMessage::DotPlaced));
    let r = handle_message(&mut g, place(DotColor::BLUE, 0, 1));
    assert!(matches!(r, BevyMessage::InvalidMove(MoveError::NotYourTurn)));
    let r = handle_message(&mut g, place(DotColor::RED, 0, 0));
    assert!(matches!(
        r,
        BevyMessage::InvalidMove(MoveError::Placement(PlacementError::CellOccupied))
    ));
    assert_eq!(g.dot_color, DotColor::RED);
    assert_eq!(g.dot_storage.filled(), 1);
    let r = handle_message(&mut g, place(DotColor::RED, 5, 0));
    assert!(matches!(
        r,
        BevyMessage::InvalidMove(MoveError::Placement(PlacementError::OutOfBounds))
    ));
}

#[test]
fn finished_game_answers_game_closed() {
    let mut g = Game::new(3, 1);
    assert!(matches!(handle_message(&mut g, place(DotColor::BLUE, 0, 0)), BevyMessage::DotPlaced));
    assert_eq!(g.state(), GameState::GameOver);
    for (c, x, y) in [(DotColor::BLUE, 1, 1), (DotColor::RED, 2, 2), (DotColor::RED, 0, 0)] {
        let r = handle_message(&mut g, place(c, x, y));
        assert!(matches!(r, BevyMessage::InvalidMove(MoveError::GameClosed)));
    }
    assert_eq!(g.dot_storage.filled(), 1);
}

#[test]
fn tick_answers_each_request_in_order() {
    let (to_engine, from_callers) = flume::unbounded::<ServerMessage>();
    let (to_callers, from_engine) = flume::unbounded::<BevyMessage>();
    let chan = ChannelManager { tx: to_callers, rx: from_callers };
    let mut g = Game::new(5, 3);
    to_engine.send(place(DotColor::BLUE, 0, 0)).unwrap();
    to_engine.send(place(DotColor::BLUE, 1, 0)).unwrap();
    to_engine.send(ServerMessage::GetState).unwrap();
    to_engine.send(place(DotColor::RED, 1, 0)).unwrap();
    let handled = handle_bevy_channel(&chan, &mut g);
    assert_eq!(handled.len(), 4);
    assert!(matches!(from_engine.try_recv().unwrap(), BevyMessage::DotPlaced));
    assert!(matches!(
        from_engine.try_recv().unwrap(),
        BevyMessage::InvalidMove(MoveError::NotYourTurn)
    ));
    let s = state_of(from_engine.try_recv().unwrap());
    assert_eq!(s.dot_storage.filled(), 1);
    assert_eq!(s.dot_color, DotColor::RED);
    assert!(matches!(from_engine.try_recv().unwrap(), BevyMessage::DotPlaced));
    assert!(from_engine.try_recv().is_err());
    assert_eq!(g.dot_storage.filled(), 2);
    assert_eq!(g.dot_color, DotColor::BLUE);
}

#[test]
fn tick_with_nothing_waiting_does_nothing() {
    let (_to_engine, from_callers) = flume::unbounded::<ServerMessage>();
    let (to_callers, from_engine) = flume::unbounded::<BevyMessage>();
    let chan = ChannelManager { tx: to_callers, rx: from_callers };
    let mut g = Game::new(3, 3);
    let handled = handle_bevy_channel(&chan, &mut g);
    assert!(handled.is_empty());
    assert!(from_engine.try_recv().is_err());
    assert_eq!(g.dot_storage.filled(), 0);
}

#[test]
fn tick_stops_when_replies_cannot_be_sent() {
    let (to_engine, from_callers) = flume::unbounded::<ServerMessage>();
    let (to_callers, from_engine) = flume::unbounded::<BevyMessage>();
    drop(from_engine);
    let chan = ChannelManager { tx: to_callers, rx: from_callers };
    let mut g = Game::new(3, 3);
    to_engine.send(place(DotColor::BLUE, 0, 0)).unwrap();
    to_engine.send(place(DotColor::RED, 1, 1)).unwrap();
    let handled = handle_bevy_channel(&chan, &mut g);
    assert_eq!(handled.len(), 1);
    assert_eq!(g.dot_storage.filled(), 1);
    assert_eq!(from_callers_len(&chan), 1);
}

fn from_callers_len(chan: &ChannelManager<BevyMessage, ServerMessage>) -> usize {
    chan.rx.len()
}

#[test]
fn statuses_follow_the_outcome() {
    let g = Game::new(2, 2);
    assert_eq!(reply_status(&Ok(BevyMessage::State(g))), 200);
    assert_eq!(reply_status(&Ok(BevyMessage::DotPlaced)), 200);
    assert_eq!(reply_status(&Ok(BevyMessage::InvalidMove(MoveError::GameClosed))), 400);
    assert_eq!(reply_status(&Err(BridgeError::ChannelUnavailable)), 503);
    assert_eq!(reply_status(&Err(BridgeError::RequestTimeout)), 504);
}
