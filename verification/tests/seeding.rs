use game_of_life::rng::{Xorshift64Star, MULTIPLIER, SEED_OFFSET};
use game_of_life::Universe;

#[test]
fn generator_constants() {
    assert_eq!(SEED_OFFSET, 11400714819323198485);
    assert_eq!(MULTIPLIER, 0x2545F4914F6CDD1D);
}

#[test]
fn generator_draws_the_known_numbers() {
    let mut g = Xorshift64Star::new(12345);
    assert_eq!(g.next_u64(), 0x9bcf3602d406b81d);
    assert_eq!(g.next_u64(), 0x2c76eb176a5eba0f);
    assert_eq!(g.next_u64(), 0x9c0d113432ece87a);
    assert_eq!(g.next_u64(), 0x905b71986ff5f12e);
}

#[test]
fn generator_from_seed_zero() {
    let mut g = Xorshift64Star::new(0);
    assert_eq!(g.next_u64(), 0x0d83b3e29a21487a);
    assert_eq!(g.next_u64(), 0x54c44c79f1fe9d67);
    assert_eq!(g.next_u64(), 0xa845f342007a0e78);
    assert_eq!(g.next_u64(), 0x7d6e0b878a794779);
}

#[test]
fn generator_seed_wraps_around() {
    let mut g = Xorshift64Star::new(u64::MAX);
    assert_eq!(g.next_u64(), 0x102aceb9af8e2597);
    assert_eq!(g.next_u64(), 0x24b89d23169e484a);
    assert_eq!(g.next_u64(), 0xb584971aa4ad2dcf);
    assert_eq!(g.next_u64(), 0x1df7614b6cba8edc);
}

#[test]
fn random_fills_row_by_row_from_the_low_bits() {
    let u = Universe::random(8, 4, 12345);
    assert_eq!(u.width(), 8);
    assert_eq!(u.height(), 4);
    assert_eq!(
        u.get_cells(),
        vec![
            1, 1, 0, 0, 0, 0, 0, 1, 1, 1, 0, 0, 0, 0, 1, 0, 1, 0, 1, 1, 1, 1, 1, 0, 0, 1, 0, 1, 0,
            0, 1, 1
        ]
    );
    assert_eq!(u.as_string(), "██.....█\n██....█.\n█.█████.\n.█.█..██\n");
}

#[test]
fn random_with_other_seeds() {
    assert_eq!(
        Universe::random(5, 3, 0).get_cells(),
        vec![0, 1, 0, 1, 1, 0, 1, 0, 0, 1, 0, 1, 0, 1, 1]
    );
    assert_eq!(
        Universe::random(5, 3, 1).get_cells(),
        vec![1, 0, 0, 1, 0, 0, 0, 1, 1, 0, 1, 0, 0, 1, 0]
    );
    assert_eq!(Universe::random(3, 2, u64::MAX).get_cells(), vec![1, 0, 1, 0, 1, 1]);
}

#[test]
fn random_matches_the_generator() {
    let u = Universe::random(9, 7, 2024);
    let mut g = Xorshift64Star::new(2024);
    let cells = u.get_cells();
    assert_eq!(cells.len(), 63);
    for r in 0..7u32 {
        for c in 0..9u32 {
            let bit: u8 = (g.next_u64() & 1) as u8;
            assert_eq!(cells[(r * 9 + c) as usize], bit);
            assert_eq!(u.get(r, c), bit);
        }
    }
}

#[test]
fn same_seed_gives_the_same_universe() {
    let a = Universe::random(16, 9, 42);
    let b = Universe::random(16, 9, 42);
    assert_eq!(a, b);
    assert_eq!(a.get_cells(), b.get_cells());
    assert_eq!(a.as_string(), b.as_string());
}

#[test]
fn different_seeds_give_different_universes() {
    let a = Universe::random(16, 9, 42);
    let b = Universe::random(16, 9, 43);
    assert_ne!(a.get_cells(), b.get_cells());
    assert_ne!(Universe::random(5, 3, 0), Universe::random(5, 3, 1));
}

#[test]
fn cells_depend_on_the_seed_and_the_count_only() {
    let wide = Universe::random(12, 2, 7);
    let tall = Universe::random(2, 12, 7);
    assert_eq!(wide.get_cells(), tall.get_cells());
    let small = Universe::random(3, 4, 7);
    assert_eq!(small.get_cells(), wide.get_cells()[..12].to_vec());
}

#[test]
fn seeded_universe_after_one_generation() {
    let mut u = Universe::random(8, 4, 12345);
    u.tick();
    assert_eq!(u.as_string(), "........\n...██.█.\n...██...\n...█....\n");
}
