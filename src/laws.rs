use crate::board::{flatten_rows, grid, in_bounds, same_face, Card, GameError, Match};
use crate::game::{after_reveal, reveal_refusal};
use crate::query::visible_cell;
use vstd::prelude::*;

verus! {

/// A board laid out from a permutation of a drawn list of cards taken twice
/// holds every card value exactly twice as often as it was drawn; where no
/// value was drawn twice, every drawn value fills exactly two cells.
pub proof fn lemma_each_card_twice(pairs: Seq<Card>, g: Seq<Seq<Card>>)
    requires
        flatten_rows(g).to_multiset() == (pairs + pairs).to_multiset(),
    ensures
        forall|c: Card| #[trigger] flatten_rows(g).to_multiset().count(c) == 2 * pairs.to_multiset().count(c),
        pairs.no_duplicates() ==> forall|c: Card| #[trigger]
            pairs.contains(c) ==> flatten_rows(g).to_multiset().count(c) == 2,
{
    broadcast use vstd::multiset::group_multiset_axioms;
    broadcast use vstd::seq_lib::to_multiset_contains;

    vstd::seq_lib::lemma_multiset_commutative(pairs, pairs);
    if pairs.no_duplicates() {
        pairs.lemma_multiset_has_no_duplicates();
    }
}

/// A reveal by anyone but the owner is refused as unauthorized, and a refused
/// reveal leaves the match as it was (see `try_reveal_card`).
pub proof fn lemma_stranger_refused(m: Match, sender: Seq<u8>, pos: (u32, u32))
    requires
        sender != m.player@,
    ensures
        reveal_refusal(m, sender, pos) == Some(GameError::Unauthorized),
{
}

/// Once revealed, a card stays revealed through any accepted reveal, and every
/// further reveal of it by the owner is refused as already revealed.
pub proof fn lemma_revealed_stays(m: Match, sender: Seq<u8>, pos: (u32, u32), row: int, col: int)
    requires
        m.wf(),
        in_bounds(m.size, row, col),
        m.cell(row, col).is_revealed,
    ensures
        reveal_refusal(m, sender, pos) is None ==> after_reveal(m, pos).0[row][col].is_revealed,
        sender == m.player@ ==> reveal_refusal(m, sender, (row as u32, col as u32)) == Some(
            GameError::AlreadyRevealed,
        ),
{
}

/// A second reveal whose card differs from the pending one leaves both hidden,
/// counts one more attempt and clears the pending reveal.
pub proof fn lemma_mismatch(m: Match, sender: Seq<u8>, pos: (u32, u32))
    requires
        m.wf(),
        m.last_reveal is Some,
        reveal_refusal(m, sender, pos) is None,
        !same_face(
            m.cell(pos.0 as int, pos.1 as int),
            m.cell(m.last_reveal->Some_0.0 as int, m.last_reveal->Some_0.1 as int),
        ),
        m.attempts < u32::MAX,
    ensures
        ({
            let (g, pending, attempts) = after_reveal(m, pos);
            let q = m.last_reveal->Some_0;
            &&& g == grid(m.cards@)
            &&& !g[pos.0 as int][pos.1 as int].is_revealed
            &&& !g[q.0 as int][q.1 as int].is_revealed
            &&& pending is None
            &&& attempts == m.attempts + 1
        }),
{
}

/// A second reveal whose card matches the pending one reveals both, keeps the
/// attempt count and clears the pending reveal.
pub proof fn lemma_match(m: Match, sender: Seq<u8>, pos: (u32, u32))
    requires
        m.wf(),
        m.last_reveal is Some,
        reveal_refusal(m, sender, pos) is None,
        same_face(
            m.cell(pos.0 as int, pos.1 as int),
            m.cell(m.last_reveal->Some_0.0 as int, m.last_reveal->Some_0.1 as int),
        ),
    ensures
        ({
            let (g, pending, attempts) = after_reveal(m, pos);
            let q = m.last_reveal->Some_0;
            &&& g[pos.0 as int][pos.1 as int].is_revealed
            &&& g[q.0 as int][q.1 as int].is_revealed
            &&& pending is None
            &&& attempts == m.attempts
        }),
{
}

/// A hidden card shows neither shape nor color to queries.
pub proof fn lemma_hidden_not_shown(m: Match, row: int, col: int)
    requires
        !m.cell(row, col).is_revealed,
    ensures
        visible_cell(m, row, col) is None,
{
}

/// Replaying a reveal on a match in the same state gives the same outcome:
/// whether and how it is refused, the card shown, and the next board, pending
/// reveal and attempt count depend on that state, the sender and the position alone.
pub proof fn lemma_reveal_replays(a: Match, b: Match, sender: Seq<u8>, pos: (u32, u32))
    requires
        a.wf(),
        b.wf(),
        a.player@ == b.player@,
        a.size == b.size,
        grid(a.cards@) == grid(b.cards@),
        a.last_reveal == b.last_reveal,
        a.attempts == b.attempts,
    ensures
        reveal_refusal(a, sender, pos) == reveal_refusal(b, sender, pos),
        reveal_refusal(a, sender, pos) is None ==> a.cell(pos.0 as int, pos.1 as int) == b.cell(
            pos.0 as int,
            pos.1 as int,
        ),
        reveal_refusal(a, sender, pos) is None ==> after_reveal(a, pos) == after_reveal(b, pos),
{
    assert forall|r: int, c: int| in_bounds(a.size, r, c) implies a.cell(r, c) == b.cell(r, c) by {
        assert(grid(a.cards@)[r] == a.cards@[r]@);
        assert(grid(b.cards@)[r] == b.cards@[r]@);
    }
}

} // verus!
