use memory_match::board::{Card, Color, GameError, Match, Shape};
use memory_match::entropy::Random;
use memory_match::game::{
    doubled, into_grid, record_match, same_bytes, try_reveal_card, try_start_match, Player,
};
use memory_match::msg::CardResponse;
use memory_match::query::{query_card, query_match, query_player};
use rand::Rng;

const HEIGHT: u64 = 12_345;

fn canonical(name: &str) -> Vec<u8> {
    let mut out = name.as_bytes().to_vec();
    out.resize(20, 0);
    out
}

fn initialized(entropy: u64) -> Random {
    let mut random = Random::empty();
    random.input_entropy(entropy, b"creator", HEIGHT);
    random
}

fn started(random: &mut Random, entropy: u64, rows: u32, cols: u32) -> (String, Match) {
    random.input_entropy(entropy, b"player", HEIGHT);
    try_start_match(random, canonical("player"), rows, cols).unwrap()
}

fn reveal_as(
    random: &mut Random,
    m: &mut Match,
    who: &str,
    entropy: u64,
    pos: (u32, u32),
) -> Result<CardResponse, GameError> {
    random.input_entropy(entropy, who.as_bytes(), HEIGHT);
    try_reveal_card(m, &canonical(who), pos)
}

fn cells(m: &Match) -> Vec<Card> {
    m.cards.iter().flat_map(|row| row.iter().copied()).collect()
}

#[test]
fn initialization() {
    let mut rng = rand::thread_rng();
    let random = initialized(rng.gen());
    assert_eq!(random.counter, 1);
}

#[test]
fn start_match() {
    let mut rng = rand::thread_rng();
    let mut random = initialized(rng.gen());
    let (match_id, m) = started(&mut random, rng.gen(), 4, 4);

    let player = record_match(None, canonical("player"), match_id.clone());
    let res = query_player(player);
    assert_eq!(res.matches, vec![match_id.clone()]);

    let res = query_match(&m);
    assert_eq!(res.size, (4, 4));
    assert_eq!(res.attempts, 0);
    let hidden: Vec<Vec<Option<CardResponse>>> =
        std::iter::repeat_with(|| std::iter::repeat_with(|| None).take(4).collect()).take(4).collect();
    assert_eq!(res.cards, hidden);
}

#[test]
fn reveal_card() {
    let mut random = initialized(100);
    let (_match_id, mut m) = started(&mut random, 200, 4, 4);

    let res = reveal_as(&mut random, &mut m, "wrong_player", 300, (2, 2));
    match res {
        Err(GameError::Unauthorized) => {}
        _ => panic!("Must return unauthorized error"),
    }

    let card = reveal_as(&mut random, &mut m, "player", 300, (2, 2)).unwrap();
    assert_eq!(card.shape, Shape::Pentagon);
    assert_eq!(card.color, Color::Red);
    assert_eq!(card.pos, (2, 2));
}

#[test]
fn reveal_card_miss() {
    let mut random = initialized(100);
    let (_match_id, mut m) = started(&mut random, 200, 4, 4);

    let card = reveal_as(&mut random, &mut m, "player", 300, (2, 2)).unwrap();
    let card2 = reveal_as(&mut random, &mut m, "player", 400, (1, 1)).unwrap();
    assert!(!(card.shape == card2.shape && card.color == card2.color), "Cards must not match.");

    match query_card(&m, 2, 2) {
        Err(GameError::Unauthorized) => {}
        _ => panic!("Must return unauthorized error"),
    }
    match query_card(&m, 1, 1) {
        Err(GameError::Unauthorized) => {}
        _ => panic!("Must return unauthorized error"),
    }

    let res = query_match(&m);
    assert_eq!(res.attempts, 1);
}

#[test]
fn reveal_card_hit() {
    let mut random = initialized(100);
    let (_match_id, mut m) = started(&mut random, 200, 4, 4);

    let card = reveal_as(&mut random, &mut m, "player", 300, (2, 2)).unwrap();
    let card2 = reveal_as(&mut random, &mut m, "player", 400, (3, 0)).unwrap();
    assert!(card.shape == card2.shape && card.color == card2.color, "Cards must match.");

    let card = query_card(&m, 2, 2).unwrap();
    assert_eq!(card.shape, Shape::Pentagon);
    assert_eq!(card.color, Color::Red);
    assert_eq!(card.pos, (2, 2));

    let card = query_card(&m, 3, 0).unwrap();
    assert_eq!(card.shape, Shape::Pentagon);
    assert_eq!(card.color, Color::Red);
    assert_eq!(card.pos, (3, 0));

    let res = query_match(&m);
    assert_eq!(res.attempts, 0);
}

#[test]
fn seed_is_digest_of_inputs() {
    let random = initialized(100);
    assert_eq!(
        random.seed,
        [
            236, 219, 113, 238, 59, 216, 208, 20, 141, 236, 32, 31, 69, 191, 105, 66, 73, 145,
            244, 35, 84, 74, 6, 181, 104, 8, 12, 80, 166, 27, 218, 183
        ]
    );
    assert_eq!(random.counter, 1);
}

#[test]
fn empty_accumulator() {
    let random = Random::empty();
    assert_eq!(random.seed, [0u8; 32]);
    assert_eq!(random.counter, 0);
}

#[test]
fn counter_wraps() {
    let mut random = Random { seed: [7u8; 32], counter: u32::MAX };
    random.input_entropy(1, b"player", 2);
    assert_eq!(random.counter, 0);
    assert_ne!(random.seed, [7u8; 32]);
}

#[test]
fn every_input_changes_the_seed() {
    let base = initialized(100);
    let mut a = base;
    a.input_entropy(1, b"player", 5);
    let mut b = base;
    b.input_entropy(2, b"player", 5);
    let mut c = base;
    c.input_entropy(1, b"playes", 5);
    let mut d = base;
    d.input_entropy(1, b"player", 6);
    assert_ne!(a.seed, b.seed);
    assert_ne!(a.seed, c.seed);
    assert_ne!(a.seed, d.seed);
}

#[test]
fn same_history_same_match() {
    let mut r1 = initialized(100);
    let mut r2 = initialized(100);
    let (id1, m1) = started(&mut r1, 200, 4, 4);
    let (id2, m2) = started(&mut r2, 200, 4, 4);
    assert_eq!(r1, r2);
    assert_eq!(id1, id2);
    assert_eq!(m1, m2);
}

#[test]
fn match_id_is_lowercase_hex() {
    let mut random = initialized(100);
    let (id, _) = started(&mut random, 200, 4, 4);
    assert_eq!(id.len(), 32);
    assert!(id.chars().all(|c| c.is_ascii_digit() || ('a'..='f').contains(&c)));
}

#[test]
fn every_card_appears_in_pairs() {
    let mut random = initialized(100);
    let (_, m) = started(&mut random, 200, 4, 4);
    let all = cells(&m);
    assert_eq!(all.len(), 16);
    for c in &all {
        assert!(!c.is_revealed);
        let n = all.iter().filter(|d| *d == c).count();
        assert!(n % 2 == 0 && n >= 2);
    }
}

#[test]
fn board_shape_follows_dimensions() {
    let mut random = initialized(9);
    let (_, m) = started(&mut random, 10, 3, 6);
    assert_eq!(m.size, (3, 6));
    assert_eq!(m.cards.len(), 3);
    assert!(m.cards.iter().all(|row| row.len() == 6));
    assert_eq!(m.last_reveal, None);
    assert_eq!(m.attempts, 0);
    assert_eq!(m.player, canonical("player"));
}

#[test]
fn malformed_dimensions() {
    let random = initialized(1);
    for (rows, cols) in [(3, 3), (0, 4), (4, 0), (0, 0), (1, 1), (5, 7)] {
        assert_eq!(
            try_start_match(&random, canonical("player"), rows, cols).err(),
            Some(GameError::Malformed)
        );
    }
    assert!(try_start_match(&random, canonical("player"), 1, 2).is_ok());
}

#[test]
fn reveal_out_of_bounds() {
    let mut random = initialized(100);
    let (_, mut m) = started(&mut random, 200, 4, 4);
    assert_eq!(try_reveal_card(&mut m, &canonical("player"), (4, 0)), Err(GameError::NotFound));
    assert_eq!(try_reveal_card(&mut m, &canonical("player"), (0, 4)), Err(GameError::NotFound));
    assert_eq!(m.last_reveal, None);
}

#[test]
fn first_reveal_only_pends() {
    let mut random = initialized(100);
    let (_, mut m) = started(&mut random, 200, 4, 4);
    let card = try_reveal_card(&mut m, &canonical("player"), (2, 2)).unwrap();
    assert_eq!(card.pos, (2, 2));
    assert_eq!(m.last_reveal, Some((2, 2)));
    assert!(!m.cards[2][2].is_revealed);
    assert_eq!(query_card(&m, 2, 2), Err(GameError::Unauthorized));
}

#[test]
fn revealed_card_cannot_be_revealed_again() {
    let mut random = initialized(100);
    let (_, mut m) = started(&mut random, 200, 4, 4);
    let owner = canonical("player");
    try_reveal_card(&mut m, &owner, (2, 2)).unwrap();
    try_reveal_card(&mut m, &owner, (3, 0)).unwrap();
    assert_eq!(try_reveal_card(&mut m, &owner, (2, 2)), Err(GameError::AlreadyRevealed));
    assert_eq!(try_reveal_card(&mut m, &owner, (3, 0)), Err(GameError::AlreadyRevealed));
    assert_eq!(m.attempts, 0);
    assert_eq!(m.last_reveal, None);
}

#[test]
fn stranger_leaves_match_unchanged() {
    let mut random = initialized(100);
    let (_, mut m) = started(&mut random, 200, 4, 4);
    try_reveal_card(&mut m, &canonical("player"), (2, 2)).unwrap();
    let before = format!("{:?}", m);
    assert_eq!(try_reveal_card(&mut m, &canonical("wrong_player"), (1, 1)), Err(GameError::Unauthorized));
    assert_eq!(format!("{:?}", m), before);
}

#[test]
fn scenario_mismatch_counts_attempt() {
    let mut random = initialized(100);
    let (_, mut m) = started(&mut random, 200, 4, 4);
    let res = query_match(&m);
    assert_eq!(res.cards.iter().flatten().count(), 16);
    assert!(res.cards.iter().flatten().all(|c| c.is_none()));
    reveal_as(&mut random, &mut m, "player", 300, (2, 2)).unwrap();
    reveal_as(&mut random, &mut m, "player", 400, (1, 1)).unwrap();
    assert_eq!(m.attempts, 1);
    assert_eq!(m.last_reveal, None);
    assert!(!m.cards[2][2].is_revealed && !m.cards[1][1].is_revealed);
    assert_eq!(query_card(&m, 2, 2), Err(GameError::Unauthorized));
    assert_eq!(query_card(&m, 1, 1), Err(GameError::Unauthorized));
}

#[test]
fn query_match_shows_only_revealed() {
    let mut random = initialized(100);
    let (_, mut m) = started(&mut random, 200, 4, 4);
    let owner = canonical("player");
    try_reveal_card(&mut m, &owner, (2, 2)).unwrap();
    try_reveal_card(&mut m, &owner, (3, 0)).unwrap();
    let res = query_match(&m);
    let shown = CardResponse { shape: Shape::Pentagon, color: Color::Red, pos: (2, 2) };
    assert_eq!(res.cards[2][2], Some(shown));
    assert_eq!(res.cards[3][0], Some(CardResponse { shape: Shape::Pentagon, color: Color::Red, pos: (3, 0) }));
    assert_eq!(res.cards.iter().flatten().filter(|c| c.is_some()).count(), 2);
    assert_eq!(query_card(&m, 9, 9), Err(GameError::NotFound));
}

#[test]
fn record_match_appends() {
    let p = record_match(None, vec![1, 2], "a".to_string());
    assert_eq!(p, Player { address: vec![1, 2], matches: vec!["a".to_string()] });
    let p = record_match(Some(p), vec![9], "b".to_string());
    assert_eq!(p.address, vec![1, 2]);
    assert_eq!(query_player(p).matches, vec!["a".to_string(), "b".to_string()]);
}

#[test]
fn grid_is_row_major() {
    let c = |i: u32| Card { shape: Shape::from_index(i), color: Color::from_index(8 - i), is_revealed: false };
    let flat: Vec<Card> = (0..6).map(c).collect();
    let g = into_grid(&flat, 2, 3);
    assert_eq!(g, vec![vec![c(0), c(1), c(2)], vec![c(3), c(4), c(5)]]);
    let d = doubled(&vec![c(1), c(2)]);
    assert_eq!(d, vec![c(1), c(2), c(1), c(2)]);
}

#[test]
fn symbols_by_index() {
    assert_eq!(Shape::from_index(0), Shape::Triangle);
    assert_eq!(Shape::from_index(6), Shape::Pentagon);
    assert_eq!(Shape::from_index(8), Shape::Octagon);
    assert_eq!(Shape::from_index(40), Shape::Octagon);
    assert_eq!(Color::from_index(0), Color::Red);
    assert_eq!(Color::from_index(4), Color::Green);
    assert_eq!(Color::from_index(8), Color::Black);
}

#[test]
fn bytes_compare() {
    assert!(same_bytes(b"abc", b"abc"));
    assert!(!same_bytes(b"abc", b"abd"));
    assert!(!same_bytes(b"abc", b"ab"));
    assert!(same_bytes(b"", b""));
}
