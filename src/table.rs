use std::collections::HashMap;
use vstd::prelude::*;

use crate::level::{Level, LEVEL_COUNT};

verus! {

broadcast use vstd::std_specs::hash::group_hash_axioms;

/// Whether `c` lies in one of the Unicode blocks that hold kanji: the CJK
/// Unified Ideographs, their compatibility block, and extensions A to G.
pub open spec fn in_kanji_block(c: char) -> bool {
    let u = c as u32;
    (0x4e00 <= u <= 0x9ffc) || (0xf900 <= u <= 0xfaff) || (0x3400 <= u <= 0x4dbf) || (0x20000
        <= u <= 0x2a6dd) || (0x2a700 <= u <= 0x2b734) || (0x2b740 <= u <= 0x2b81d) || (0x2b820
        <= u <= 0x2cea1) || (0x2ceb0 <= u <= 0x2ebe0) || (0x30000 <= u <= 0x3134a)
}

/// Relies on kanji::is_kanji, a test of the code point against the ranges
/// that `in_kanji_block` lists.
pub assume_specification[ kanji::is_kanji ](c: char) -> (r: bool)
    ensures
        r == in_kanji_block(c),
;

/// The exam level that the kanji crate's lists give `c`, as the position of
/// the `kanji::Level` variant (`Ten` first, `One` last), or `None` for a
/// character the lists do not hold.
pub uninterp spec fn exam_level(c: char) -> Option<u8>;

/// Relies on kanji::level_table: each kanji of the exam lists once, with its
/// level given as the position of the `kanji::Level` variant (twelve in all).
/// The map's keys are `Kanji` values, which `Kanji::new` only builds for
/// characters that pass `kanji::is_kanji`, and which differ when their
/// characters differ.
#[verifier::external_body]
fn exam_levels() -> (r: Vec<(char, u8)>)
    ensures
        forall|i: int|
            0 <= i < r.len() ==> (#[trigger] r[i]).1 < LEVEL_COUNT && in_kanji_block(r[i].0)
                && exam_level(r[i].0) == Some(r[i].1),
        forall|c: char| #[trigger] exam_level(c) is Some ==> exists|i: int| 0 <= i < r.len() && r[i].0 == c,
        forall|i: int, j: int| 0 <= i < r.len() && 0 <= j < r.len() && i != j ==> r[i].0 != r[j].0,
{
    kanji::level_table().into_iter().map(|(k, l)| (k.get(), l as u8)).collect()
}

/// The classification of kanji by level: a map from a kanji's code point to
/// its level. A character absent from the map has no level.
pub struct LevelTable {
    pub map: HashMap<u32, Level>,
}

impl View for LevelTable {
    type V = Map<u32, Level>;

    open spec fn view(&self) -> Map<u32, Level> {
        self.map@
    }
}

/// The code point under which `c` is classified.
pub open spec fn key_of(c: char) -> u32 {
    c as u32
}

/// Distinct characters have distinct keys.
pub proof fn lemma_key_of_injective(a: char, b: char)
    ensures
        key_of(a) == key_of(b) ==> a == b,
{
    vstd::utf8::char_u32_cast(a, key_of(a));
    vstd::utf8::char_u32_cast(b, key_of(b));
}

impl LevelTable {
    /// A table that classifies nothing.
    pub fn new() -> (t: LevelTable)
        ensures
            t@ == Map::<u32, Level>::empty(),
    {
        LevelTable { map: HashMap::new() }
    }

    /// Classify `c` as `level`, replacing any earlier level of `c`.
    pub fn insert(&mut self, c: char, level: Level)
        ensures
            final(self)@ == old(self)@.insert(key_of(c), level),
    {
        self.map.insert(c as u32, level);
    }

    /// The level of `c`, if the table classifies it.
    pub fn level_of(&self, c: char) -> (r: Option<Level>)
        ensures
            r == (if self@.contains_key(key_of(c)) {
                Some(self@[key_of(c)])
            } else {
                None
            }),
    {
        match self.map.get(&(c as u32)) {
            Some(l) => Some(*l),
            None => None,
        }
    }

    /// The level of `c` if `c` is a kanji that the table classifies.
    pub fn kanji_level(&self, c: char) -> (r: Option<Level>)
        ensures
            r == (if in_kanji_block(c) && self@.contains_key(key_of(c)) {
                Some(self@[key_of(c)])
            } else {
                None
            }),
    {
        if kanji::is_kanji(c) {
            self.level_of(c)
        } else {
            None
        }
    }
}

/// The table that classifies each character of `pairs` by the level at its
/// position, later pairs replacing earlier ones; pairs whose position is not
/// a level are left out.
pub open spec fn pairs_map(pairs: Seq<(char, u8)>) -> Map<u32, Level>
    decreases pairs.len(),
{
    if pairs.len() == 0 {
        Map::empty()
    } else {
        let m = pairs_map(pairs.drop_last());
        let (c, r) = pairs.last();
        if r < LEVEL_COUNT {
            m.insert(key_of(c), Level::at_rank(r))
        } else {
            m
        }
    }
}

/// The table of `pairs`: each character classified by the level at its
/// position.
pub fn table_from_pairs(pairs: &Vec<(char, u8)>) -> (t: LevelTable)
    ensures
        t@ == pairs_map(pairs@),
{
    let mut t = LevelTable::new();
    for i in 0..pairs.len()
        invariant
            t@ == pairs_map(pairs@.take(i as int)),
    {
        assert(pairs@.take(i + 1).drop_last() == pairs@.take(i as int));
        let (c, r) = pairs[i];
        match Level::from_rank(r) {
            Some(l) => {
                t.insert(c, l);
            },
            None => {},
        }
    }
    assert(pairs@.take(pairs.len() as int) == pairs@);
    t
}

proof fn lemma_pairs_map(pairs: Seq<(char, u8)>)
    ensures
        forall|k: u32|
            #[trigger] pairs_map(pairs).contains_key(k) <==> exists|i: int|
                0 <= i < pairs.len() && key_of(pairs[i].0) == k && pairs[i].1 < LEVEL_COUNT,
        (forall|i: int, j: int|
            0 <= i < pairs.len() && 0 <= j < pairs.len() && i != j ==> pairs[i].0 != pairs[j].0)
            ==> forall|i: int|
            0 <= i < pairs.len() && (#[trigger] pairs[i]).1 < LEVEL_COUNT ==> pairs_map(pairs)[key_of(
                pairs[i].0,
            )] == Level::at_rank(pairs[i].1),
    decreases pairs.len(),
{
    if pairs.len() > 0 {
        let init = pairs.drop_last();
        lemma_pairs_map(init);
        let n = pairs.len() - 1;
        assert forall|k: u32| #[trigger] pairs_map(pairs).contains_key(k) implies exists|i: int|
            0 <= i < pairs.len() && key_of(pairs[i].0) == k && pairs[i].1 < LEVEL_COUNT by {
            if !pairs_map(init).contains_key(k) {
                assert(key_of(pairs[n].0) == k && pairs[n].1 < LEVEL_COUNT);
            } else {
                let i = choose|i: int|
                    0 <= i < init.len() && key_of(init[i].0) == k && init[i].1 < LEVEL_COUNT;
                assert(pairs[i] == init[i]);
            }
        }
        assert forall|k: u32|
            (exists|i: int|
                0 <= i < pairs.len() && key_of(pairs[i].0) == k && pairs[i].1
                    < LEVEL_COUNT) implies #[trigger] pairs_map(pairs).contains_key(k) by {
            let i = choose|i: int|
                0 <= i < pairs.len() && key_of(pairs[i].0) == k && pairs[i].1 < LEVEL_COUNT;
            if i < n {
                assert(init[i] == pairs[i]);
            }
        }
        if forall|i: int, j: int|
            0 <= i < pairs.len() && 0 <= j < pairs.len() && i != j ==> pairs[i].0 != pairs[j].0 {
            assert forall|i: int|
                0 <= i < pairs.len() && (#[trigger] pairs[i]).1 < LEVEL_COUNT implies pairs_map(
                pairs,
            )[key_of(pairs[i].0)] == Level::at_rank(pairs[i].1) by {
                if i < n {
                    assert(init[i] == pairs[i]);
                    assert(pairs[i].0 != pairs[n].0);
                    lemma_key_of_injective(pairs[i].0, pairs[n].0);
                    assert(key_of(pairs[i].0) != key_of(pairs[n].0));
                }
            }
        }
    }
}

/// Whether every key of `t` is the code point of a kanji.
pub open spec fn only_kanji(t: Map<u32, Level>) -> bool {
    forall|k: u32| #[trigger] t.contains_key(k) ==> exists|c: char| key_of(c) == k && in_kanji_block(c)
}

/// The exam table of the kanji crate, keyed by code point.
pub fn build_table() -> (t: LevelTable)
    ensures
        only_kanji(t@),
        forall|c: char| #[trigger] t@.contains_key(key_of(c)) <==> exam_level(c) is Some,
        forall|c: char|
            #[trigger] exam_level(c) is Some ==> t@[key_of(c)].spec_rank() == exam_level(c)->0,
{
    let pairs = exam_levels();
    let t = table_from_pairs(&pairs);
    proof {
        let p = pairs@;
        lemma_pairs_map(p);
        assert forall|k: u32| #[trigger] t@.contains_key(k) implies exists|c: char|
            key_of(c) == k && in_kanji_block(c) by {
            let i = choose|i: int| 0 <= i < p.len() && key_of(p[i].0) == k && p[i].1 < LEVEL_COUNT;
            assert(in_kanji_block(p[i].0));
        }
        assert forall|c: char| #[trigger] t@.contains_key(key_of(c)) <==> exam_level(c) is Some by {
            if exam_level(c) is Some {
                let i = choose|i: int| 0 <= i < p.len() && p[i].0 == c;
                assert(p[i].1 < LEVEL_COUNT);
            }
            if t@.contains_key(key_of(c)) {
                let i = choose|i: int|
                    0 <= i < p.len() && key_of(p[i].0) == key_of(c) && p[i].1 < LEVEL_COUNT;
                lemma_key_of_injective(p[i].0, c);
            }
        }
        assert forall|c: char| #[trigger] exam_level(c) is Some implies t@[key_of(c)].spec_rank()
            == exam_level(c)->0 by {
            let i = choose|i: int| 0 <= i < p.len() && p[i].0 == c;
            assert(p[i].1 < LEVEL_COUNT);
        }
    }
    t
}

} // verus!
