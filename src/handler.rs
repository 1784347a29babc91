//! What the remote interface exchanges with the engine, and how its
//! replies map to status codes.
use vstd::prelude::*;
use crate::channel::BevyMessage;
use crate::dot::{DotColor, TilePos};

verus! {

/// A move submitted from outside: the mover's mark and the cell.
#[derive(Clone, Copy, Debug)]
pub struct ApiDot {
    pub color: DotColor,
    pub tilemap_pos: (u32, u32),
}

impl ApiDot {
    /// The cell of the move.
    pub fn get_tilepos(&self) -> (r: TilePos)
        ensures
            r == (TilePos { x: self.tilemap_pos.0, y: self.tilemap_pos.1 }),
    {
        let (x, y) = self.tilemap_pos;
        TilePos { x, y }
    }
}

/// How a round trip through the bridge failed, apart from the game's own
/// refusals.
#[derive(Clone, Copy, Debug, PartialEq, Eq, Structural)]
pub enum BridgeError {
    /// No reply came within the caller's bound.
    RequestTimeout,
    /// The engine or the bridge has shut down.
    ChannelUnavailable,
}

pub const STATUS_OK: u16 = 200;

pub const STATUS_BAD_REQUEST: u16 = 400;

pub const STATUS_SERVICE_UNAVAILABLE: u16 = 503;

pub const STATUS_GATEWAY_TIMEOUT: u16 = 504;

/// The status code of a round trip's outcome: a placed mark or a state
/// is 200, a refused move 400, a closed channel 503, a timeout 504.
pub fn reply_status(outcome: &Result<BevyMessage, BridgeError>) -> (r: u16)
    ensures
        r == match outcome {
            Ok(BevyMessage::State(_)) => STATUS_OK,
            Ok(BevyMessage::DotPlaced) => STATUS_OK,
            Ok(BevyMessage::InvalidMove(_)) => STATUS_BAD_REQUEST,
            Err(BridgeError::ChannelUnavailable) => STATUS_SERVICE_UNAVAILABLE,
            Err(BridgeError::RequestTimeout) => STATUS_GATEWAY_TIMEOUT,
        },
{
    match outcome {
        Ok(BevyMessage::State(_)) => STATUS_OK,
        Ok(BevyMessage::DotPlaced) => STATUS_OK,
        Ok(BevyMessage::InvalidMove(_)) => STATUS_BAD_REQUEST,
        Err(BridgeError::ChannelUnavailable) => STATUS_SERVICE_UNAVAILABLE,
        Err(BridgeError::RequestTimeout) => STATUS_GATEWAY_TIMEOUT,
    }
}

} // verus!
