use tetris::bag::BagRandomizer;
use tetris::tetromino::TetrominoType;

fn kind_index(t: TetrominoType) -> usize {
    match t {
        TetrominoType::I => 0,
        TetrominoType::O => 1,
        TetrominoType::T => 2,
        TetrominoType::S => 3,
        TetrominoType::Z => 4,
        TetrominoType::J => 5,
        TetrominoType::L => 6,
    }
}

#[test]
fn seven_draws_from_fresh_bag_hold_each_kind_once() {
    // A fresh bag is full, so the first seven draws empty it exactly.
    for _ in 0..20 {
        let mut bag = BagRandomizer::new();
        let mut counts = [0usize; 7];
        for _ in 0..7 {
            counts[kind_index(bag.next())] += 1;
        }
        assert_eq!(counts, [1, 1, 1, 1, 1, 1, 1]);
    }
}

#[test]
fn every_aligned_run_of_seven_draws_is_fair() {
    // After each group of seven the bag is empty and refills, so each
    // aligned group again holds every kind exactly once.
    let mut bag = BagRandomizer::new();
    for _ in 0..10 {
        let mut counts = [0usize; 7];
        for _ in 0..7 {
            counts[kind_index(bag.next())] += 1;
        }
        assert_eq!(counts, [1, 1, 1, 1, 1, 1, 1]);
    }
}

#[test]
fn peek_previews_the_next_draw() {
    let mut bag = BagRandomizer::new();
    for _ in 0..21 {
        let peeked = bag.peek();
        assert_eq!(bag.next(), peeked);
    }
}

#[test]
fn drought_is_bounded_by_twelve() {
    // Between two occurrences of one kind at most 12 other draws fit:
    // first of one bag, last of the next.
    let mut bag = BagRandomizer::new();
    let mut last_seen = [0usize; 7];
    for draw in 1..=700usize {
        let k = kind_index(bag.next());
        if last_seen[k] != 0 {
            assert!(draw - last_seen[k] <= 13);
        }
        last_seen[k] = draw;
    }
}
