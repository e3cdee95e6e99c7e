use vstd::prelude::*;

verus! {

/// A kanji proficiency level of the Kanji Kentei exam, from the easiest
/// (`Ten`) to the most advanced (`One`).
#[derive(Clone, Copy, Debug, PartialEq, Eq, Structural, Hash)]
pub enum Level {
    Ten,
    Nine,
    Eight,
    Seven,
    Six,
    Five,
    Four,
    Three,
    PreTwo,
    Two,
    PreOne,
    One,
}

/// Number of distinct levels.
pub const LEVEL_COUNT: u8 = 12;

impl Level {
    /// Position of the level in the easiest-to-hardest order.
    pub open spec fn spec_rank(self) -> u8 {
        match self {
            Level::Ten => 0,
            Level::Nine => 1,
            Level::Eight => 2,
            Level::Seven => 3,
            Level::Six => 4,
            Level::Five => 5,
            Level::Four => 6,
            Level::Three => 7,
            Level::PreTwo => 8,
            Level::Two => 9,
            Level::PreOne => 10,
            Level::One => 11,
        }
    }

    pub fn rank(self) -> (r: u8)
        ensures
            r == self.spec_rank(),
            r < LEVEL_COUNT,
    {
        match self {
            Level::Ten => 0,
            Level::Nine => 1,
            Level::Eight => 2,
            Level::Seven => 3,
            Level::Six => 4,
            Level::Five => 5,
            Level::Four => 6,
            Level::Three => 7,
            Level::PreTwo => 8,
            Level::Two => 9,
            Level::PreOne => 10,
            Level::One => 11,
        }
    }

    /// The level at position `r`, for `r` below `LEVEL_COUNT`.
    pub open spec fn at_rank(r: u8) -> Level {
        match r {
            0 => Level::Ten,
            1 => Level::Nine,
            2 => Level::Eight,
            3 => Level::Seven,
            4 => Level::Six,
            5 => Level::Five,
            6 => Level::Four,
            7 => Level::Three,
            8 => Level::PreTwo,
            9 => Level::Two,
            10 => Level::PreOne,
            _ => Level::One,
        }
    }

    /// The level at position `r`, if there is one.
    pub fn from_rank(r: u8) -> (l: Option<Level>)
        ensures
            r < LEVEL_COUNT <==> l is Some,
            l matches Some(lv) ==> lv.spec_rank() == r && lv == Level::at_rank(r),
    {
        match r {
            0 => Some(Level::Ten),
            1 => Some(Level::Nine),
            2 => Some(Level::Eight),
            3 => Some(Level::Seven),
            4 => Some(Level::Six),
            5 => Some(Level::Five),
            6 => Some(Level::Four),
            7 => Some(Level::Three),
            8 => Some(Level::PreTwo),
            9 => Some(Level::Two),
            10 => Some(Level::PreOne),
            11 => Some(Level::One),
            _ => None,
        }
    }

    /// Every level, easiest first.
    pub fn all() -> (v: Vec<Level>)
        ensures
            v.len() == LEVEL_COUNT,
            forall|i: int| 0 <= i < v.len() ==> (#[trigger] v[i]).spec_rank() == i,
    {
        vec![
            Level::Ten,
            Level::Nine,
            Level::Eight,
            Level::Seven,
            Level::Six,
            Level::Five,
            Level::Four,
            Level::Three,
            Level::PreTwo,
            Level::Two,
            Level::PreOne,
            Level::One,
        ]
    }
}

/// Which side of the selected level a kanji's level must fall on.
#[derive(Clone, Copy, Debug, PartialEq, Eq, Structural, Hash)]
pub enum Direction {
    /// Kanji up to and including the selected level.
    AtMost,
    /// Kanji of the selected level or harder.
    AtLeast,
}

/// Whether a kanji of level `kanji_level` is allowed at `selected` under `dir`.
pub open spec fn admits(kanji_level: Level, selected: Level, dir: Direction) -> bool {
    match dir {
        Direction::AtMost => kanji_level.spec_rank() <= selected.spec_rank(),
        Direction::AtLeast => kanji_level.spec_rank() >= selected.spec_rank(),
    }
}

pub fn level_admits(kanji_level: Level, selected: Level, dir: Direction) -> (r: bool)
    ensures
        r == admits(kanji_level, selected, dir),
{
    match dir {
        Direction::AtMost => kanji_level.rank() <= selected.rank(),
        Direction::AtLeast => kanji_level.rank() >= selected.rank(),
    }
}

} // verus!
