//! The catalogue of seed patterns: each a fixed list of (column, row)
//! offsets from an anchor.
use vstd::prelude::*;

use crate::random::{nth_state, Rng};

verus! {

/// A named seed pattern.
#[derive(Clone, Copy, PartialEq, Eq, Structural, Debug)]
pub enum Pattern {
    /// A five-by-five flower.
    Flower,
    /// The glider, a spaceship of period 4.
    Glider,
    /// The pulsar, an oscillator of period 3.
    Pulsar,
    /// The pentadecathlon, an oscillator of period 15.
    Pentadecathlon,
    /// The blinker, an oscillator of period 2.
    Blinker,
    /// The block, a still life.
    Block,
    /// The beehive, a still life.
    Beehive,
    /// The loaf, a still life.
    Loaf,
    /// The boat, a still life.
    Boat,
    /// The tub, a still life.
    Tub,
    /// The toad, an oscillator of period 2.
    Toad,
    /// The beacon, an oscillator of period 2.
    Beacon,
    /// The lightweight spaceship.
    LightweightSpaceship,
    /// The middleweight spaceship.
    MiddleweightSpaceship,
    /// The heavyweight spaceship.
    HeavyweightSpaceship,
    /// A heart shape.
    Heart,
    /// A star shape.
    Star,
    /// The R-pentomino, a small seed of long growth.
    RPentomino,
    /// Gosper's glider gun, which emits a glider every 30 generations.
    GosperGliderGun,
}

/// The offsets `(dx, dy)` of each pattern's live cells.
pub open spec fn offsets_of(p: Pattern) -> Seq<(usize, usize)> {
    match p {
        Pattern::Flower => seq![
            (0usize, 0usize), (0, 4), (1, 1), (1, 3), (2, 2), (3, 1), (3, 3), (4, 0), (4, 4),
            (1, 2), (2, 1), (2, 3), (3, 2),
        ],
        Pattern::Glider => seq![
            (1usize, 0usize), (2, 1), (0, 2), (1, 2), (2, 2),
        ],
        Pattern::Pulsar => seq![
            (2usize, 0usize), (3, 0), (4, 0), (8, 0), (9, 0), (10, 0), (0, 2), (5, 2), (7, 2),
            (12, 2), (0, 3), (5, 3), (7, 3), (12, 3), (0, 4), (5, 4), (7, 4), (12, 4), (2, 5),
            (3, 5), (4, 5), (8, 5), (9, 5), (10, 5), (2, 7), (3, 7), (4, 7), (8, 7), (9, 7),
            (10, 7), (0, 8), (5, 8), (7, 8), (12, 8), (0, 9), (5, 9), (7, 9), (12, 9), (0, 10),
            (5, 10), (7, 10), (12, 10), (2, 12), (3, 12), (4, 12), (8, 12), (9, 12), (10, 12),
        ],
        Pattern::Pentadecathlon => seq![
            (0usize, 0usize), (0, 1), (0, 2), (0, 3), (0, 4), (0, 5), (0, 6), (0, 7), (0, 8),
            (0, 9), (1, 0), (1, 9), (2, 0), (2, 1), (2, 2), (2, 3), (2, 4), (2, 5), (2, 6),
            (2, 7), (2, 8), (2, 9),
        ],
        Pattern::Blinker => seq![
            (0usize, 0usize), (1, 0), (2, 0),
        ],
        Pattern::Block => seq![
            (0usize, 0usize), (0, 1), (1, 0), (1, 1),
        ],
        Pattern::Beehive => seq![
            (1usize, 0usize), (2, 0), (0, 1), (3, 1), (1, 2), (2, 2),
        ],
        Pattern::Loaf => seq![
            (1usize, 0usize), (2, 0), (0, 1), (3, 1), (1, 2), (3, 2), (2, 3),
        ],
        Pattern::Boat => seq![
            (0usize, 0usize), (1, 0), (0, 1), (2, 1), (1, 2),
        ],
        Pattern::Tub => seq![
            (1usize, 0usize), (0, 1), (2, 1), (1, 2),
        ],
        Pattern::Toad => seq![
            (1usize, 0usize), (2, 0), (3, 0), (0, 1), (1, 1), (2, 1),
        ],
        Pattern::Beacon => seq![
            (0usize, 0usize), (1, 0), (0, 1), (3, 2), (2, 3), (3, 3),
        ],
        Pattern::LightweightSpaceship => seq![
            (1usize, 0usize), (4, 0), (0, 1), (0, 2), (4, 2), (0, 3), (1, 3), (2, 3), (3, 3),
        ],
        Pattern::MiddleweightSpaceship => seq![
            (2usize, 0usize), (4, 0), (1, 1), (5, 1), (0, 2), (0, 3), (5, 3), (0, 4), (1, 4),
            (2, 4), (3, 4), (4, 4),
        ],
        Pattern::HeavyweightSpaceship => seq![
            (2usize, 0usize), (3, 0), (5, 0), (6, 0), (1, 1), (6, 1), (0, 2), (0, 3), (6, 3),
            (0, 4), (1, 4), (2, 4), (3, 4), (4, 4), (5, 4),
        ],
        Pattern::Heart => seq![
            (1usize, 0usize), (3, 0), (0, 1), (1, 1), (2, 1), (3, 1), (4, 1), (0, 2), (1, 2),
            (2, 2), (3, 2), (4, 2), (1, 3), (2, 3), (3, 3), (2, 4),
        ],
        Pattern::Star => seq![
            (2usize, 0usize), (1, 1), (2, 1), (3, 1), (0, 2), (1, 2), (2, 2), (3, 2), (4, 2),
            (1, 3), (2, 3), (3, 3), (2, 4),
        ],
        Pattern::RPentomino => seq![
            (1usize, 0usize), (2, 0), (0, 1), (1, 1), (1, 2),
        ],
        Pattern::GosperGliderGun => seq![
            (24usize, 0usize), (22, 1), (24, 1), (12, 2), (13, 2), (20, 2), (21, 2), (34, 2),
            (35, 2), (11, 3), (15, 3), (20, 3), (21, 3), (34, 3), (35, 3), (0, 4), (1, 4),
            (10, 4), (16, 4), (20, 4), (21, 4), (0, 5), (1, 5), (10, 5), (14, 5), (16, 5),
            (17, 5), (22, 5), (24, 5), (10, 6), (16, 6), (24, 6), (11, 7), (15, 7), (12, 8),
            (13, 8),
        ],
    }
}

/// Number of patterns in the catalogue.
pub const PATTERN_COUNT: usize = 19;

/// The catalogue in order.
pub open spec fn catalogue() -> Seq<Pattern> {
    seq![
        Pattern::Flower,
        Pattern::Glider,
        Pattern::Pulsar,
        Pattern::Pentadecathlon,
        Pattern::Blinker,
        Pattern::Block,
        Pattern::Beehive,
        Pattern::Loaf,
        Pattern::Boat,
        Pattern::Tub,
        Pattern::Toad,
        Pattern::Beacon,
        Pattern::LightweightSpaceship,
        Pattern::MiddleweightSpaceship,
        Pattern::HeavyweightSpaceship,
        Pattern::Heart,
        Pattern::Star,
        Pattern::RPentomino,
        Pattern::GosperGliderGun,
    ]
}

/// Entry `i` of the catalogue, for `i < PATTERN_COUNT`.
pub open spec fn pattern_at(i: nat) -> Pattern {
    catalogue()[i as int]
}

/// The entry of a random scene drawn from state `s`: a pattern from the next
/// state, then a column and a row from the two after it.
pub open spec fn random_entry(s: u64, width: nat, height: nat) -> (Pattern, usize, usize) {
    (
        pattern_at(((nth_state(s, 1) as int) % (PATTERN_COUNT as int)) as nat),
        ((nth_state(s, 2) as int) % (width as int)) as usize,
        ((nth_state(s, 3) as int) % (height as int)) as usize,
    )
}

impl Pattern {
    /// Entry `i` of the catalogue.
    pub fn from_index(i: usize) -> (r: Pattern)
        requires
            i < PATTERN_COUNT,
        ensures
            r == pattern_at(i as nat),
    {
        match i {
        0 => Pattern::Flower,
        1 => Pattern::Glider,
        2 => Pattern::Pulsar,
        3 => Pattern::Pentadecathlon,
        4 => Pattern::Blinker,
        5 => Pattern::Block,
        6 => Pattern::Beehive,
        7 => Pattern::Loaf,
        8 => Pattern::Boat,
        9 => Pattern::Tub,
        10 => Pattern::Toad,
        11 => Pattern::Beacon,
        12 => Pattern::LightweightSpaceship,
        13 => Pattern::MiddleweightSpaceship,
        14 => Pattern::HeavyweightSpaceship,
        15 => Pattern::Heart,
        16 => Pattern::Star,
        17 => Pattern::RPentomino,
            _ => Pattern::GosperGliderGun,
        }
    }
}

/// `count` patterns picked uniformly from the catalogue, each at an anchor
/// picked uniformly from a `width` x `height` grid, three draws of `rng` per
/// pattern.
pub fn random_scene(rng: &mut Rng, count: usize, width: usize, height: usize) -> (r: Vec<
    (Pattern, usize, usize),
>)
    requires
        width >= 1,
        height >= 1,
    ensures
        r@.len() == count,
        forall|i: int|
            0 <= i < count ==> #[trigger] r@[i] == random_entry(
                nth_state(old(rng).state(), (3 * i) as nat),
                width as nat,
                height as nat,
            ),
        final(rng).state() == nth_state(old(rng).state(), (3 * count) as nat),
{
    let ghost s = rng.state();
    let mut out: Vec<(Pattern, usize, usize)> = Vec::new();
    let mut i: usize = 0;
    while i < count
        invariant
            i <= count,
            width >= 1,
            height >= 1,
            rng.state() == nth_state(s, (3 * i) as nat),
            out@.len() == i,
            forall|j: int|
                0 <= j < i ==> #[trigger] out@[j] == random_entry(
                    nth_state(s, (3 * j) as nat),
                    width as nat,
                    height as nat,
                ),
        decreases count - i,
    {
        let ghost base = rng.state();
        let a = rng.next_u64();
        let b = rng.next_u64();
        let c = rng.next_u64();
        let p = Pattern::from_index((a % (PATTERN_COUNT as u64)) as usize);
        out.push((p, (b % (width as u64)) as usize, (c % (height as u64)) as usize));
        proof {
            lemma_nth_state_add(s, (3 * i) as nat, 3);
            reveal_with_fuel(nth_state, 4);
            assert(nth_state(base, 1) == a);
            assert(nth_state(base, 2) == b);
            assert(nth_state(base, 3) == c);
        }
        i = i + 1;
    }
    out
}

/// Stepping `n` then `m` times is stepping `n + m` times.
proof fn lemma_nth_state_add(s: u64, n: nat, m: nat)
    ensures
        nth_state(nth_state(s, n), m) == nth_state(s, n + m),
    decreases m,
{
    if m > 0 {
        lemma_nth_state_add(s, n, (m - 1) as nat);
    }
}

impl Pattern {
    /// The offsets `(dx, dy)` of the pattern's live cells.
    pub fn offsets(self) -> (r: Vec<(usize, usize)>)
        ensures
            r@ == offsets_of(self),
    {
        match self {
            Pattern::Flower => {
                let v = vec![
                    (0usize, 0usize), (0, 4), (1, 1), (1, 3), (2, 2), (3, 1), (3, 3), (4, 0),
                    (4, 4), (1, 2), (2, 1), (2, 3), (3, 2),
                ];
                assert(v@ =~= offsets_of(self));
                v
            },
            Pattern::Glider => {
                let v = vec![
                    (1usize, 0usize), (2, 1), (0, 2), (1, 2), (2, 2),
                ];
                assert(v@ =~= offsets_of(self));
                v
            },
            Pattern::Pulsar => {
                let v = vec![
                    (2usize, 0usize), (3, 0), (4, 0), (8, 0), (9, 0), (10, 0), (0, 2), (5, 2),
                    (7, 2), (12, 2), (0, 3), (5, 3), (7, 3), (12, 3), (0, 4), (5, 4), (7, 4),
                    (12, 4), (2, 5), (3, 5), (4, 5), (8, 5), (9, 5), (10, 5), (2, 7), (3, 7),
                    (4, 7), (8, 7), (9, 7), (10, 7), (0, 8), (5, 8), (7, 8), (12, 8), (0, 9),
                    (5, 9), (7, 9), (12, 9), (0, 10), (5, 10), (7, 10), (12, 10), (2, 12),
                    (3, 12), (4, 12), (8, 12), (9, 12), (10, 12),
                ];
                assert(v@ =~= offsets_of(self));
                v
            },
            Pattern::Pentadecathlon => {
                let v = vec![
                    (0usize, 0usize), (0, 1), (0, 2), (0, 3), (0, 4), (0, 5), (0, 6), (0, 7),
                    (0, 8), (0, 9), (1, 0), (1, 9), (2, 0), (2, 1), (2, 2), (2, 3), (2, 4),
                    (2, 5), (2, 6), (2, 7), (2, 8), (2, 9),
                ];
                assert(v@ =~= offsets_of(self));
                v
            },
            Pattern::Blinker => {
                let v = vec![
                    (0usize, 0usize), (1, 0), (2, 0),
                ];
                assert(v@ =~= offsets_of(self));
                v
            },
            Pattern::Block => {
                let v = vec![
                    (0usize, 0usize), (0, 1), (1, 0), (1, 1),
                ];
                assert(v@ =~= offsets_of(self));
                v
            },
            Pattern::Beehive => {
                let v = vec![
                    (1usize, 0usize), (2, 0), (0, 1), (3, 1), (1, 2), (2, 2),
                ];
                assert(v@ =~= offsets_of(self));
                v
            },
            Pattern::Loaf => {
                let v = vec![
                    (1usize, 0usize), (2, 0), (0, 1), (3, 1), (1, 2), (3, 2), (2, 3),
                ];
                assert(v@ =~= offsets_of(self));
                v
            },
            Pattern::Boat => {
                let v = vec![
                    (0usize, 0usize), (1, 0), (0, 1), (2, 1), (1, 2),
                ];
                assert(v@ =~= offsets_of(self));
                v
            },
            Pattern::Tub => {
                let v = vec![
                    (1usize, 0usize), (0, 1), (2, 1), (1, 2),
                ];
                assert(v@ =~= offsets_of(self));
                v
            },
            Pattern::Toad => {
                let v = vec![
                    (1usize, 0usize), (2, 0), (3, 0), (0, 1), (1, 1), (2, 1),
                ];
                assert(v@ =~= offsets_of(self));
                v
            },
            Pattern::Beacon => {
                let v = vec![
                    (0usize, 0usize), (1, 0), (0, 1), (3, 2), (2, 3), (3, 3),
                ];
                assert(v@ =~= offsets_of(self));
                v
            },
            Pattern::LightweightSpaceship => {
                let v = vec![
                    (1usize, 0usize), (4, 0), (0, 1), (0, 2), (4, 2), (0, 3), (1, 3), (2, 3),
                    (3, 3),
                ];
                assert(v@ =~= offsets_of(self));
                v
            },
            Pattern::MiddleweightSpaceship => {
                let v = vec![
                    (2usize, 0usize), (4, 0), (1, 1), (5, 1), (0, 2), (0, 3), (5, 3), (0, 4),
                    (1, 4), (2, 4), (3, 4), (4, 4),
                ];
                assert(v@ =~= offsets_of(self));
                v
            },
            Pattern::HeavyweightSpaceship => {
                let v = vec![
                    (2usize, 0usize), (3, 0), (5, 0), (6, 0), (1, 1), (6, 1), (0, 2), (0, 3),
                    (6, 3), (0, 4), (1, 4), (2, 4), (3, 4), (4, 4), (5, 4),
                ];
                assert(v@ =~= offsets_of(self));
                v
            },
            Pattern::Heart => {
                let v = vec![
                    (1usize, 0usize), (3, 0), (0, 1), (1, 1), (2, 1), (3, 1), (4, 1), (0, 2),
                    (1, 2), (2, 2), (3, 2), (4, 2), (1, 3), (2, 3), (3, 3), (2, 4),
                ];
                assert(v@ =~= offsets_of(self));
                v
            },
            Pattern::Star => {
                let v = vec![
                    (2usize, 0usize), (1, 1), (2, 1), (3, 1), (0, 2), (1, 2), (2, 2), (3, 2),
                    (4, 2), (1, 3), (2, 3), (3, 3), (2, 4),
                ];
                assert(v@ =~= offsets_of(self));
                v
            },
            Pattern::RPentomino => {
                let v = vec![
                    (1usize, 0usize), (2, 0), (0, 1), (1, 1), (1, 2),
                ];
                assert(v@ =~= offsets_of(self));
                v
            },
            Pattern::GosperGliderGun => {
                let v = vec![
                    (24usize, 0usize), (22, 1), (24, 1), (12, 2), (13, 2), (20, 2), (21, 2),
                    (34, 2), (35, 2), (11, 3), (15, 3), (20, 3), (21, 3), (34, 3), (35, 3),
                    (0, 4), (1, 4), (10, 4), (16, 4), (20, 4), (21, 4), (0, 5), (1, 5),
                    (10, 5), (14, 5), (16, 5), (17, 5), (22, 5), (24, 5), (10, 6), (16, 6),
                    (24, 6), (11, 7), (15, 7), (12, 8), (13, 8),
                ];
                assert(v@ =~= offsets_of(self));
                v
            },
        }
    }
}

} // verus!
