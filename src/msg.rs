use crate::board::{Card, Color, Shape};
use vstd::prelude::*;

verus! {

/// Payload of the initialization action.
#[derive(Clone, Copy, Debug, PartialEq, Eq, Structural)]
pub struct InitMsg {
    pub entropy: u64,
}

/// The state-changing actions.
#[derive(Debug, PartialEq, Eq)]
pub enum HandleMsg {
    StartMatch { entropy: u64, rows: u32, cols: u32 },
    RevealCard { entropy: u64, match_id: String, pos: (u32, u32) },
}

/// The read-only queries; an address is given in canonical form.
#[derive(Clone, Debug, PartialEq, Eq)]
pub enum QueryMsg {
    GetPlayer { address: Vec<u8> },
    GetCard { match_id: String, row: u32, col: u32 },
    GetMatch { match_id: String },
}

#[derive(Clone, Debug, PartialEq, Eq)]
pub struct PlayerResponse {
    pub matches: Vec<String>,
}

#[derive(Debug, PartialEq, Eq)]
pub struct CardResponse {
    pub shape: Shape,
    pub color: Color,
    pub pos: (u32, u32),
}

#[derive(Debug, PartialEq, Eq)]
pub struct MatchResponse {
    pub size: (u32, u32),
    pub attempts: u32,
    pub cards: Vec<Vec<Option<CardResponse>>>,
}

/// What a caller is shown of a card at a position.
pub open spec fn card_response(c: Card, pos: (u32, u32)) -> CardResponse {
    CardResponse { shape: c.shape, color: c.color, pos }
}

} // verus!
