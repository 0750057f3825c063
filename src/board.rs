use vstd::prelude::*;

verus! {

/// Number of distinct shapes, and of distinct colors.
pub const SYMBOLS: u32 = 9;

#[derive(Clone, Copy, Debug, PartialEq, Eq, Structural)]
pub enum Shape {
    Triangle,
    Square,
    Circle,
    Diamond,
    Trapezoid,
    Oval,
    Pentagon,
    Hexagon,
    Octagon,
}

/// The shape with the given index; indices from 8 up all give the last shape.
pub open spec fn shape_of_index(i: u32) -> Shape {
    if i == 0 {
        Shape::Triangle
    } else if i == 1 {
        Shape::Square
    } else if i == 2 {
        Shape::Circle
    } else if i == 3 {
        Shape::Diamond
    } else if i == 4 {
        Shape::Trapezoid
    } else if i == 5 {
        Shape::Oval
    } else if i == 6 {
        Shape::Pentagon
    } else if i == 7 {
        Shape::Hexagon
    } else {
        Shape::Octagon
    }
}

impl Shape {
    pub fn from_index(i: u32) -> (r: Shape)
        ensures
            r == shape_of_index(i),
    {
        match i {
            0 => Shape::Triangle,
            1 => Shape::Square,
            2 => Shape::Circle,
            3 => Shape::Diamond,
            4 => Shape::Trapezoid,
            5 => Shape::Oval,
            6 => Shape::Pentagon,
            7 => Shape::Hexagon,
            _ => Shape::Octagon,
        }
    }
}

#[derive(Clone, Copy, Debug, PartialEq, Eq, Structural)]
pub enum Color {
    Red,
    Blue,
    Yellow,
    Purple,
    Green,
    Orange,
    Brown,
    Gray,
    Black,
}

/// The color with the given index; indices from 8 up all give the last color.
pub open spec fn color_of_index(i: u32) -> Color {
    if i == 0 {
        Color::Red
    } else if i == 1 {
        Color::Blue
    } else if i == 2 {
        Color::Yellow
    } else if i == 3 {
        Color::Purple
    } else if i == 4 {
        Color::Green
    } else if i == 5 {
        Color::Orange
    } else if i == 6 {
        Color::Brown
    } else if i == 7 {
        Color::Gray
    } else {
        Color::Black
    }
}

impl Color {
    pub fn from_index(i: u32) -> (r: Color)
        ensures
            r == color_of_index(i),
    {
        match i {
            0 => Color::Red,
            1 => Color::Blue,
            2 => Color::Yellow,
            3 => Color::Purple,
            4 => Color::Green,
            5 => Color::Orange,
            6 => Color::Brown,
            7 => Color::Gray,
            _ => Color::Black,
        }
    }
}

#[derive(Clone, Copy, Debug, PartialEq, Eq, Structural)]
pub struct Card {
    pub shape: Shape,
    pub color: Color,
    pub is_revealed: bool,
}

/// Two cards show the same face when shape and color agree.
pub open spec fn same_face(a: Card, b: Card) -> bool {
    a.shape == b.shape && a.color == b.color
}

/// The same card with its `is_revealed` flag set.
pub open spec fn revealed_card(c: Card) -> Card {
    Card { shape: c.shape, color: c.color, is_revealed: true }
}

/// Failures of an action or a query.
#[derive(Clone, Copy, Debug, PartialEq, Eq, Structural)]
pub enum GameError {
    /// Unknown match, or a position outside the board.
    NotFound,
    /// The caller does not own the match, or the card queried is still hidden.
    Unauthorized,
    /// The card at the position was revealed earlier.
    AlreadyRevealed,
    /// The board dimensions are zero or give an odd number of cells.
    Malformed,
}

/// The rows of a board, each as a sequence of cards.
pub open spec fn grid(cards: Seq<Vec<Card>>) -> Seq<Seq<Card>> {
    cards.map_values(|row: Vec<Card>| row@)
}

/// The cells of a board in row-major order.
pub open spec fn flatten_rows(g: Seq<Seq<Card>>) -> Seq<Card>
    decreases g.len(),
{
    if g.len() == 0 {
        Seq::empty()
    } else {
        flatten_rows(g.drop_last()) + g.last()
    }
}

/// The board with the card at `(row, col)` revealed.
pub open spec fn reveal_cell(g: Seq<Seq<Card>>, row: int, col: int) -> Seq<Seq<Card>> {
    g.update(row, g[row].update(col, revealed_card(g[row][col])))
}

pub open spec fn in_bounds(size: (u32, u32), row: int, col: int) -> bool {
    0 <= row < size.0 && 0 <= col < size.1
}

#[derive(Debug, PartialEq, Eq)]
pub struct Match {
    /// Canonical address of the owner.
    pub player: Vec<u8>,
    /// Rows and columns of the board.
    pub size: (u32, u32),
    pub cards: Vec<Vec<Card>>,
    /// Position of the first card of a pending pair of reveals.
    pub last_reveal: Option<(u32, u32)>,
    /// Number of reveal pairs that did not match.
    pub attempts: u32,
}

impl Match {
    /// The card at `(row, col)`.
    pub open spec fn cell(&self, row: int, col: int) -> Card {
        self.cards@[row]@[col]
    }

    /// The board has `size.0` rows of `size.1` cards each.
    pub open spec fn shaped(&self) -> bool {
        &&& self.cards@.len() == self.size.0
        &&& forall|r: int| 0 <= r < self.cards@.len() ==> (#[trigger] self.cards@[r])@.len() == self.size.1
    }

    /// Well-formed: shaped, and a pending reveal points at a hidden card on the board.
    pub open spec fn wf(&self) -> bool {
        &&& self.shaped()
        &&& self.last_reveal.is_some() ==> {
            let q = self.last_reveal.unwrap();
            &&& in_bounds(self.size, q.0 as int, q.1 as int)
            &&& !self.cell(q.0 as int, q.1 as int).is_revealed
        }
    }

    /// Whether the record is well-formed; a record read back from storage is
    /// checked with this before the game acts on it.
    pub fn is_well_formed(&self) -> (r: bool)
        ensures
            r == self.wf(),
    {
        if self.cards.len() != self.size.0 as usize {
            return false;
        }
        let mut i: usize = 0;
        while i < self.cards.len()
            invariant
                self.cards@.len() == self.size.0,
                i <= self.cards@.len(),
                forall|r: int| 0 <= r < i ==> (#[trigger] self.cards@[r])@.len() == self.size.1,
            decreases self.cards@.len() - i,
        {
            if self.cards[i].len() != self.size.1 as usize {
                return false;
            }
            i += 1;
        }
        match self.last_reveal {
            Some(q) => {
                if q.0 >= self.size.0 || q.1 >= self.size.1 {
                    return false;
                }
                !self.cards[q.0 as usize][q.1 as usize].is_revealed
            },
            None => true,
        }
    }

    pub fn out_of_bounds(&self, row: usize, col: usize) -> (r: Result<(), GameError>)
        ensures
            r == if in_bounds(self.size, row as int, col as int) {
                Ok::<(), GameError>(())
            } else {
                Err(GameError::NotFound)
            },
    {
        if row >= self.size.0 as usize || col >= self.size.1 as usize {
            Err(GameError::NotFound)
        } else {
            Ok(())
        }
    }

    pub fn card_at(&self, row: usize, col: usize) -> (r: Result<Card, GameError>)
        requires
            self.shaped(),
        ensures
            r == if in_bounds(self.size, row as int, col as int) {
                Ok::<Card, GameError>(self.cell(row as int, col as int))
            } else {
                Err(GameError::NotFound)
            },
    {
        self.out_of_bounds(row, col)?;
        Ok(self.cards[row][col])
    }

    pub fn does_match(&self, first_pos: (usize, usize), second_pos: (usize, usize)) -> (r: Result<
        bool,
        GameError,
    >)
        requires
            self.shaped(),
        ensures
            r == if in_bounds(self.size, first_pos.0 as int, first_pos.1 as int) && in_bounds(
                self.size,
                second_pos.0 as int,
                second_pos.1 as int,
            ) {
                Ok::<bool, GameError>(
                    same_face(
                        self.cell(first_pos.0 as int, first_pos.1 as int),
                        self.cell(second_pos.0 as int, second_pos.1 as int),
                    ),
                )
            } else {
                Err(GameError::NotFound)
            },
    {
        let first_card = self.card_at(first_pos.0, first_pos.1)?;
        let second_card = self.card_at(second_pos.0, second_pos.1)?;
        Ok(first_card.shape == second_card.shape && first_card.color == second_card.color)
    }

    pub fn reveal_at(&mut self, row: usize, col: usize) -> (r: Result<(), GameError>)
        requires
            old(self).shaped(),
        ensures
            final(self).shaped(),
            final(self).player == old(self).player,
            final(self).size == old(self).size,
            final(self).last_reveal == old(self).last_reveal,
            final(self).attempts == old(self).attempts,
            in_bounds(old(self).size, row as int, col as int) ==> r == Ok::<(), GameError>(())
                && grid(final(self).cards@) == reveal_cell(grid(old(self).cards@), row as int, col as int),
            !in_bounds(old(self).size, row as int, col as int) ==> r == Err::<(), GameError>(
                GameError::NotFound,
            ) && *final(self) == *old(self),
    {
        self.out_of_bounds(row, col)?;
        self.cards[row][col].is_revealed = true;
        assert(grid(self.cards@) =~= reveal_cell(grid(old(self).cards@), row as int, col as int));
        Ok(())
    }
}

} // verus!
