use crate::board::{in_bounds, GameError, Match};
use crate::game::Player;
use crate::msg::{card_response, CardResponse, MatchResponse, PlayerResponse};
use vstd::prelude::*;

verus! {

/// What a match shows of the cell at `(row, col)`: the card once it is
/// revealed, nothing before.
pub open spec fn visible_cell(m: Match, row: int, col: int) -> Option<CardResponse> {
    if m.cell(row, col).is_revealed {
        Some(card_response(m.cell(row, col), (row as u32, col as u32)))
    } else {
        None
    }
}

/// The matches a player has started, oldest first.
pub fn query_player(player: Player) -> (r: PlayerResponse)
    ensures
        r.matches == player.matches,
{
    PlayerResponse { matches: player.matches }
}

/// The card at `(row, col)`, only where it has been revealed.
pub fn query_card(game_match: &Match, row: u32, col: u32) -> (r: Result<CardResponse, GameError>)
    requires
        game_match.shaped(),
    ensures
        !in_bounds(game_match.size, row as int, col as int) ==> r == Err::<CardResponse, GameError>(
            GameError::NotFound,
        ),
        in_bounds(game_match.size, row as int, col as int) ==> r == match visible_cell(
            *game_match,
            row as int,
            col as int,
        ) {
            Some(c) => Ok::<CardResponse, GameError>(c),
            None => Err(GameError::Unauthorized),
        },
{
    let card = game_match.card_at(row as usize, col as usize)?;
    if !card.is_revealed {
        return Err(GameError::Unauthorized);
    }
    Ok(CardResponse { shape: card.shape, color: card.color, pos: (row, col) })
}

/// The dimensions, the attempt count and every cell as shown to anyone: hidden
/// cards appear as `None`.
pub fn query_match(game_match: &Match) -> (r: MatchResponse)
    requires
        game_match.shaped(),
    ensures
        r.size == game_match.size,
        r.attempts == game_match.attempts,
        r.cards@.len() == game_match.size.0,
        forall|i: int| 0 <= i < game_match.size.0 ==> (#[trigger] r.cards@[i])@.len() == game_match.size.1,
        forall|i: int, j: int|
            in_bounds(game_match.size, i, j) ==> #[trigger] r.cards@[i]@[j] == visible_cell(
                *game_match,
                i,
                j,
            ),
{
    let mut cards: Vec<Vec<Option<CardResponse>>> = Vec::new();
    let rows: u32 = game_match.size.0;
    let cols: u32 = game_match.size.1;
    let mut row: u32 = 0;
    while row < rows
        invariant
            game_match.shaped(),
            rows == game_match.size.0,
            cols == game_match.size.1,
            row <= rows,
            cards@.len() == row,
            forall|i: int| 0 <= i < row ==> (#[trigger] cards@[i])@.len() == cols,
            forall|i: int, j: int|
                0 <= i < row && 0 <= j < cols ==> #[trigger] cards@[i]@[j] == visible_cell(
                    *game_match,
                    i,
                    j,
                ),
        decreases rows - row,
    {
        let mut line: Vec<Option<CardResponse>> = Vec::new();
        let mut col: u32 = 0;
        while col < cols
            invariant
                game_match.shaped(),
                rows == game_match.size.0,
                cols == game_match.size.1,
                row < rows,
                col <= cols,
                line@.len() == col,
                forall|j: int| 0 <= j < col ==> #[trigger] line@[j] == visible_cell(*game_match, row as int, j),
            decreases cols - col,
        {
            let card = game_match.cards[row as usize][col as usize];
            let shown = if card.is_revealed {
                Some(CardResponse { shape: card.shape, color: card.color, pos: (row, col) })
            } else {
                None
            };
            line.push(shown);
            col += 1;
        }
        cards.push(line);
        row += 1;
    }
    MatchResponse { size: game_match.size, attempts: game_match.attempts, cards }
}

} // verus!
