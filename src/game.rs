use crate::board::{
    flatten_rows, grid, in_bounds, same_face, reveal_cell, Card, Color, GameError, Match, Shape,
    SYMBOLS,
};
use crate::entropy::Random;
use crate::msg::{card_response, CardResponse};
use crate::generator::{
    draw_below, draw_id_bytes, format_simple, generator_from_seed, shuffle_cards, simple_hex,
};
use rand_chacha::ChaCha20Rng;
use vstd::prelude::*;

verus! {

/// Lays a row-major list of cards out as `rows` rows of `cols` cards.
pub fn into_grid(flat: &Vec<Card>, rows: u32, cols: u32) -> (g: Vec<Vec<Card>>)
    requires
        flat@.len() == rows as int * cols as int,
    ensures
        g@.len() == rows,
        forall|r: int| 0 <= r < rows ==> (#[trigger] g@[r])@.len() == cols,
        forall|r: int, c: int|
            0 <= r < rows && 0 <= c < cols ==> #[trigger] g@[r]@[c] == flat@[r * cols + c],
        flatten_rows(grid(g@)) == flat@,
{
    let mut g: Vec<Vec<Card>> = Vec::new();
    let len: usize = flat.len();
    let mut idx: usize = 0;
    let mut r: u32 = 0;
    while r < rows
        invariant
            r <= rows,
            len == flat@.len(),
            flat@.len() == rows as int * cols as int,
            idx == r as int * cols as int,
            idx <= flat@.len(),
            g@.len() == r,
            forall|i: int| 0 <= i < r ==> (#[trigger] g@[i])@.len() == cols,
            forall|i: int, c: int|
                0 <= i < r && 0 <= c < cols ==> #[trigger] g@[i]@[c] == flat@[i * cols + c],
            flatten_rows(grid(g@)) == flat@.subrange(0, idx as int),
        decreases rows - r,
    {
        assert(r as int * cols as int + cols as int <= rows as int * cols as int) by (nonlinear_arith)
            requires
                r < rows,
        ;
        let start: usize = idx;
        let mut row: Vec<Card> = Vec::new();
        let mut c: u32 = 0;
        while c < cols
            invariant
                c <= cols,
                start == r as int * cols as int,
                len == flat@.len(),
                start + cols <= flat@.len(),
                idx == start + c,
                row@ == flat@.subrange(start as int, idx as int),
            decreases cols - c,
        {
            row.push(flat[idx]);
            idx += 1;
            c += 1;
            assert(row@ =~= flat@.subrange(start as int, idx as int));
        }
        let ghost before = g@;
        g.push(row);
        proof {
            assert(grid(g@).drop_last() =~= grid(before));
            assert(flat@.subrange(0, start as int) + flat@.subrange(start as int, idx as int)
                =~= flat@.subrange(0, idx as int));
            assert forall|i: int, c: int| 0 <= i < r + 1 && 0 <= c < cols implies #[trigger] g@[i]@[c]
                == flat@[i * cols + c] by {
                if i == r {
                    assert(g@[i]@ == flat@.subrange(start as int, idx as int));
                }
            }
        }
        r += 1;
        assert(idx == r as int * cols as int) by (nonlinear_arith)
            requires
                idx == start + cols,
                start == (r - 1) as int * cols as int,
        ;
    }
    assert(flat@.subrange(0, idx as int) =~= flat@);
    g
}

/// Draws `n` hidden cards, each with a shape and then a color from the generator.
fn draw_pairs(rng: &mut ChaCha20Rng, n: usize) -> (cards: Vec<Card>)
    ensures
        cards@.len() == n,
        forall|i: int| 0 <= i < n ==> !(#[trigger] cards@[i]).is_revealed,
{
    let mut cards: Vec<Card> = Vec::new();
    let mut i: usize = 0;
    while i < n
        invariant
            i <= n,
            cards@.len() == i,
            forall|j: int| 0 <= j < i ==> !(#[trigger] cards@[j]).is_revealed,
        decreases n - i,
    {
        let shape = Shape::from_index(draw_below(rng, SYMBOLS));
        let color = Color::from_index(draw_below(rng, SYMBOLS));
        cards.push(Card { shape, color, is_revealed: false });
        i += 1;
    }
    cards
}

/// The list followed by a second copy of itself.
pub fn doubled(cards: &Vec<Card>) -> (r: Vec<Card>)
    requires
        2 * cards@.len() <= usize::MAX,
    ensures
        r@ == cards@ + cards@,
{
    let mut r: Vec<Card> = Vec::new();
    let mut round: usize = 0;
    while round < 2
        invariant
            round <= 2,
            round == 0 ==> r@ == Seq::<Card>::empty(),
            round == 1 ==> r@ == cards@,
            round == 2 ==> r@ == cards@ + cards@,
        decreases 2 - round,
    {
        let ghost base = r@;
        let mut i: usize = 0;
        while i < cards.len()
            invariant
                i <= cards@.len(),
                r@ == base + cards@.subrange(0, i as int),
            decreases cards@.len() - i,
        {
            r.push(cards[i]);
            i += 1;
            assert(r@ =~= base + cards@.subrange(0, i as int));
        }
        assert(cards@.subrange(0, i as int) =~= cards@);
        assert(round == 0 ==> base + cards@ =~= cards@);
        round += 1;
    }
    r
}

proof fn lemma_permutation_hidden(a: Seq<Card>, b: Seq<Card>)
    requires
        a.to_multiset() == b.to_multiset(),
        forall|i: int| 0 <= i < b.len() ==> !(#[trigger] b[i]).is_revealed,
    ensures
        forall|i: int| 0 <= i < a.len() ==> !(#[trigger] a[i]).is_revealed,
{
    broadcast use vstd::seq_lib::to_multiset_contains;

    assert forall|i: int| 0 <= i < a.len() implies !(#[trigger] a[i]).is_revealed by {
        let x = a[i];
        assert(a.contains(x));
        assert(b.to_multiset().count(x) > 0);
        let k = choose|k: int| 0 <= k < b.len() && b[k] == x;
    }
}

proof fn lemma_grid_hidden(g: Seq<Vec<Card>>, flat: Seq<Card>, rows: u32, cols: u32)
    requires
        flat.len() == rows as int * cols as int,
        forall|i: int| 0 <= i < flat.len() ==> !(#[trigger] flat[i]).is_revealed,
        forall|r: int, c: int|
            0 <= r < rows && 0 <= c < cols ==> #[trigger] g[r]@[c] == flat[r * cols + c],
    ensures
        forall|r: int, c: int| 0 <= r < rows && 0 <= c < cols ==> !(#[trigger] g[r]@[c]).is_revealed,
{
    assert forall|r: int, c: int| 0 <= r < rows && 0 <= c < cols implies !(#[trigger] g[r]@[c]).is_revealed by {
        assert(0 <= r * cols + c < rows * cols) by (nonlinear_arith)
            requires
                0 <= r < rows,
                0 <= c < cols,
        ;
        assert(g[r]@[c] == flat[r * cols + c]);
    }
}

/// The dimensions cannot carry a board of pairs: no cells, or an odd number of them.
pub open spec fn malformed(rows: u32, cols: u32) -> bool {
    rows as int * cols as int == 0 || (rows as int * cols as int) % 2 == 1
}

/// Starts a match for `owner` from the accumulator's current seed: draws
/// `rows * cols / 2` cards, lays out each twice in shuffled order, and names
/// the match with 16 more bytes from the same generator.
pub fn try_start_match(random: &Random, owner: Vec<u8>, rows: u32, cols: u32) -> (r: Result<
    (String, Match),
    GameError,
>)
    requires
        rows as int * cols as int <= usize::MAX,
    ensures
        r is Err <==> malformed(rows, cols),
        r is Err ==> r->Err_0 == GameError::Malformed,
        r is Ok ==> {
            let (id, m) = r->Ok_0;
            &&& m.wf()
            &&& m.player@ == owner@
            &&& m.size == (rows, cols)
            &&& m.last_reveal.is_none()
            &&& m.attempts == 0
            &&& (exists|b: Seq<u8>| b.len() == 16 && id@ == simple_hex(b))
            &&& forall|i: int, j: int| in_bounds(m.size, i, j) ==> !(#[trigger] m.cell(i, j)).is_revealed
            &&& exists|pairs: Seq<Card>|
                pairs.len() == rows as int * cols as int / 2
                && flatten_rows(grid(m.cards@)).to_multiset() == (pairs + pairs).to_multiset()
        },
{
    if rows == 0 || cols == 0 {
        assert(rows as int * cols as int == 0);
        return Err(GameError::Malformed);
    }
    assert(rows as int * cols as int <= u32::MAX as int * u32::MAX as int) by (nonlinear_arith)
        requires
            rows <= u32::MAX,
            cols <= u32::MAX,
    ;
    assert(rows as int * cols as int > 0) by (nonlinear_arith)
        requires
            rows > 0,
            cols > 0,
    ;
    let cells: u64 = rows as u64 * cols as u64;
    if cells % 2 == 1 {
        return Err(GameError::Malformed);
    }
    let n: usize = (cells / 2) as usize;
    let mut rng = generator_from_seed(random.seed);
    let pairs = draw_pairs(&mut rng, n);
    let mut flat = doubled(&pairs);
    let ghost unshuffled = flat@;
    shuffle_cards(&mut rng, &mut flat);
    let cards = into_grid(&flat, rows, cols);
    let id_bytes = draw_id_bytes(&mut rng);
    let match_id = format_simple(id_bytes);
    let m = Match { player: owner, size: (rows, cols), cards, last_reveal: None, attempts: 0 };
    proof {
        lemma_permutation_hidden(flat@, unshuffled);
        lemma_grid_hidden(m.cards@, flat@, rows, cols);
        assert(id_bytes@.len() == 16);
    }
    Ok((match_id, m))
}

/// Whether two byte strings are equal.
pub fn same_bytes(a: &[u8], b: &[u8]) -> (r: bool)
    ensures
        r == (a@ == b@),
{
    if a.len() != b.len() {
        return false;
    }
    let mut i: usize = 0;
    while i < a.len()
        invariant
            a@.len() == b@.len(),
            i <= a@.len(),
            a@.subrange(0, i as int) == b@.subrange(0, i as int),
        decreases a@.len() - i,
    {
        if a[i] != b[i] {
            assert(a@[i as int] != b@[i as int]);
            return false;
        }
        i += 1;
        assert(a@.subrange(0, i as int) =~= a@.subrange(0, i - 1) + seq![a@[i - 1]]);
        assert(b@.subrange(0, i as int) =~= b@.subrange(0, i - 1) + seq![b@[i - 1]]);
    }
    assert(a@ =~= a@.subrange(0, i as int));
    assert(b@ =~= b@.subrange(0, i as int));
    true
}

/// The attempt counter after one more mismatch; it stays at the top of its range.
pub open spec fn next_attempts(attempts: u32) -> u32 {
    if attempts == u32::MAX {
        attempts
    } else {
        (attempts + 1) as u32
    }
}

/// The error, if any, with which a reveal by `sender` at `pos` is refused.
pub open spec fn reveal_refusal(m: Match, sender: Seq<u8>, pos: (u32, u32)) -> Option<GameError> {
    if sender != m.player@ {
        Some(GameError::Unauthorized)
    } else if !in_bounds(m.size, pos.0 as int, pos.1 as int) {
        Some(GameError::NotFound)
    } else if m.cell(pos.0 as int, pos.1 as int).is_revealed {
        Some(GameError::AlreadyRevealed)
    } else {
        None
    }
}

/// The match after an accepted reveal at `pos`, given as its board, pending
/// position and attempt count.
pub open spec fn after_reveal(m: Match, pos: (u32, u32)) -> (Seq<Seq<Card>>, Option<(u32, u32)>, u32) {
    match m.last_reveal {
        None => (grid(m.cards@), Some(pos), m.attempts),
        Some(q) => {
            let p = m.cell(pos.0 as int, pos.1 as int);
            if same_face(p, m.cell(q.0 as int, q.1 as int)) {
                (
                    reveal_cell(
                        reveal_cell(grid(m.cards@), pos.0 as int, pos.1 as int),
                        q.0 as int,
                        q.1 as int,
                    ),
                    None,
                    m.attempts,
                )
            } else {
                (grid(m.cards@), None, next_attempts(m.attempts))
            }
        },
    }
}

/// One reveal by `sender` at `pos`. The first card of a pair only becomes
/// pending; the second is compared with it: a match reveals both for good, a
/// mismatch counts one more attempt. Either way the caller is shown the card.
pub fn try_reveal_card(game_match: &mut Match, sender: &[u8], pos: (u32, u32)) -> (r: Result<
    CardResponse,
    GameError,
>)
    requires
        old(game_match).wf(),
    ensures
        final(game_match).wf(),
        reveal_refusal(*old(game_match), sender@, pos) is Some ==> r == Err::<CardResponse, GameError>(
            reveal_refusal(*old(game_match), sender@, pos)->Some_0,
        ) && *final(game_match) == *old(game_match),
        reveal_refusal(*old(game_match), sender@, pos) is None ==> {
            &&& r == Ok::<CardResponse, GameError>(
                card_response(old(game_match).cell(pos.0 as int, pos.1 as int), pos),
            )
            &&& final(game_match).player == old(game_match).player
            &&& final(game_match).size == old(game_match).size
            &&& (grid(final(game_match).cards@), final(game_match).last_reveal, final(game_match).attempts)
                == after_reveal(*old(game_match), pos)
        },
{
    if !same_bytes(sender, game_match.player.as_slice()) {
        return Err(GameError::Unauthorized);
    }
    let card = game_match.card_at(pos.0 as usize, pos.1 as usize)?;
    if card.is_revealed {
        return Err(GameError::AlreadyRevealed);
    }
    match game_match.last_reveal {
        Some(last_pos) => {
            let p = (pos.0 as usize, pos.1 as usize);
            let q = (last_pos.0 as usize, last_pos.1 as usize);
            let hit = game_match.does_match(p, q)?;
            if hit {
                game_match.reveal_at(p.0, p.1)?;
                game_match.reveal_at(q.0, q.1)?;
            } else {
                game_match.attempts = if game_match.attempts == u32::MAX {
                    game_match.attempts
                } else {
                    game_match.attempts + 1
                };
            }
            game_match.last_reveal = None;
        },
        None => {
            game_match.last_reveal = Some(pos);
        },
    }
    Ok(CardResponse { shape: card.shape, color: card.color, pos })
}

/// A player and the identifiers of their matches, oldest first.
#[derive(Clone, Debug, PartialEq, Eq)]
pub struct Player {
    /// Canonical address of the player.
    pub address: Vec<u8>,
    pub matches: Vec<String>,
}

/// The player's record after a new match: the identifier appended to an
/// existing record, or a new record holding only it.
pub fn record_match(player: Option<Player>, address: Vec<u8>, match_id: String) -> (r: Player)
    ensures
        player is Some ==> r.address == player->Some_0.address && r.matches@ == player->Some_0.matches@.push(
            match_id,
        ),
        player is None ==> r.address == address && r.matches@ == seq![match_id],
{
    match player {
        Some(mut p) => {
            p.matches.push(match_id);
            p
        },
        None => {
            let mut matches: Vec<String> = Vec::new();
            matches.push(match_id);
            assert(matches@ =~= seq![match_id]);
            Player { address, matches }
        },
    }
}

} // verus!
