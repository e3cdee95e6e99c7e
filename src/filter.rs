use vstd::prelude::*;

use crate::level::{admits, level_admits, Direction, Level};
use crate::sentances::{views, Sentance, SentanceView};
use crate::table::{in_kanji_block, key_of, LevelTable};

verus! {

broadcast use vstd::string::group_string_axioms;

/// Whether the character at `i` of `text` is a kanji that `table` classifies.
pub open spec fn classified(text: Seq<char>, table: Map<u32, Level>, i: int) -> bool {
    in_kanji_block(text[i]) && table.contains_key(key_of(text[i]))
}

/// Whether a Japanese text may be shown at `level` under `dir`: every kanji
/// of it that the table classifies has a level that `dir` admits. Kanji that
/// the table does not know, and all other characters, are not considered.
pub open spec fn passes(text: Seq<char>, table: Map<u32, Level>, level: Level, dir: Direction) -> bool {
    forall|i: int|
        0 <= i < text.len() && #[trigger] classified(text, table, i) ==> admits(
            table[key_of(text[i])],
            level,
            dir,
        )
}

/// The sentence pairs of `corpus` that pass, in their order in `corpus`.
pub open spec fn filter_spec(
    corpus: Seq<SentanceView>,
    table: Map<u32, Level>,
    level: Level,
    dir: Direction,
) -> Seq<SentanceView>
    decreases corpus.len(),
{
    if corpus.len() == 0 {
        Seq::<SentanceView>::empty()
    } else {
        let rest = filter_spec(corpus.drop_last(), table, level, dir);
        if passes(corpus.last().jp, table, level, dir) {
            rest.push(corpus.last())
        } else {
            rest
        }
    }
}

/// Whether the Japanese side of `s` may be shown at `level` under `dir`.
pub fn sentance_passes(s: &Sentance, table: &LevelTable, level: Level, dir: Direction) -> (r: bool)
    ensures
        r == passes(s.jp@, table@, level, dir),
{
    let mut ok = true;
    for c in it: s.jp.as_str().chars()
        invariant
            it.seq() == s.jp@,
            ok == (forall|i: int|
                0 <= i < it.index() && #[trigger] classified(s.jp@, table@, i) ==> admits(
                    table@[key_of(s.jp@[i])],
                    level,
                    dir,
                )),
    {
        let ghost idx = it.index();
        assert(c == s.jp@[idx]);
        let ghost before = ok;
        let lv = table.kanji_level(c);
        match lv {
            Some(l) => {
                ok = ok && level_admits(l, level, dir);
            },
            None => {},
        }
        proof {
            if classified(s.jp@, table@, idx) {
                assert(lv == Some(table@[key_of(s.jp@[idx])]));
            } else {
                assert(lv is None);
            }
            if !ok && before {
                assert(classified(s.jp@, table@, idx));
            }
        }
        assert(ok == (forall|i: int|
            0 <= i < idx + 1 && #[trigger] classified(s.jp@, table@, i) ==> admits(
                table@[key_of(s.jp@[i])],
                level,
                dir,
            )));
    }
    ok
}

/// The sentence pairs of `corpus` that may be shown at `level` under `dir`,
/// in corpus order.
pub fn filter(corpus: &Vec<Sentance>, table: &LevelTable, level: Level, dir: Direction) -> (r: Vec<
    Sentance,
>)
    ensures
        views(r@) == filter_spec(views(corpus@), table@, level, dir),
{
    let mut out: Vec<Sentance> = Vec::new();
    for i in 0..corpus.len()
        invariant
            views(out@) == filter_spec(views(corpus@.take(i as int)), table@, level, dir),
    {
        let ghost prefix = views(corpus@.take(i + 1));
        assert(prefix.drop_last() =~= views(corpus@.take(i as int)));
        assert(prefix.last() == corpus@[i as int]@);
        if sentance_passes(&corpus[i], table, level, dir) {
            let s = corpus[i].duplicate();
            let ghost prev = out@;
            out.push(s);
            assert(views(out@) =~= views(prev).push(corpus@[i as int]@));
        }
    }
    assert(corpus@.take(corpus.len() as int) =~= corpus@);
    out
}

/// A text without kanji passes at every level and in both directions.
pub proof fn lemma_kanji_free_passes(text: Seq<char>, table: Map<u32, Level>, level: Level, dir: Direction)
    requires
        forall|i: int| 0 <= i < text.len() ==> !in_kanji_block(#[trigger] text[i]),
    ensures
        passes(text, table, level, dir),
{
}

/// Inserting a character that is not a classified kanji (kana, punctuation,
/// Latin text, a kanji the table does not know) anywhere in a text does not
/// change whether it passes.
pub proof fn lemma_unclassified_insert(
    a: Seq<char>,
    b: Seq<char>,
    x: char,
    table: Map<u32, Level>,
    level: Level,
    dir: Direction,
)
    requires
        !(in_kanji_block(x) && table.contains_key(key_of(x))),
    ensures
        passes(a + seq![x] + b, table, level, dir) == passes(a + b, table, level, dir),
{
    let long = a + seq![x] + b;
    let short = a + b;
    assert forall|i: int| 0 <= i < short.len() implies #[trigger] short[i] == long[if i < a.len() {
        i
    } else {
        i + 1
    }] by {}
    if passes(long, table, level, dir) {
        assert forall|i: int|
            0 <= i < short.len() && #[trigger] classified(short, table, i) implies admits(
            table[key_of(short[i])],
            level,
            dir,
        ) by {
            let j = if i < a.len() {
                i
            } else {
                i + 1
            };
            assert(short[i] == long[j]);
            assert(classified(long, table, j));
        }
    }
    if passes(short, table, level, dir) {
        assert forall|j: int|
            0 <= j < long.len() && #[trigger] classified(long, table, j) implies admits(
            table[key_of(long[j])],
            level,
            dir,
        ) by {
            assert(j != a.len());
            let i = if j < a.len() {
                j
            } else {
                j - 1
            };
            assert(short[i] == long[j]);
            assert(classified(short, table, i));
        }
    }
}

/// A pair is in the filtered sequence exactly when it is in the corpus and
/// passes.
pub proof fn lemma_filter_members(
    corpus: Seq<SentanceView>,
    table: Map<u32, Level>,
    level: Level,
    dir: Direction,
    x: SentanceView,
)
    ensures
        filter_spec(corpus, table, level, dir).contains(x) <==> (corpus.contains(x) && passes(
            x.jp,
            table,
            level,
            dir,
        )),
    decreases corpus.len(),
{
    if corpus.len() > 0 {
        let init = corpus.drop_last();
        lemma_filter_members(init, table, level, dir, x);
        let rest = filter_spec(init, table, level, dir);
        assert(corpus =~= init.push(corpus.last()));
        assert(corpus.contains(x) <==> (init.contains(x) || x == corpus.last())) by {
            if corpus.contains(x) {
                let k = choose|k: int| 0 <= k < corpus.len() && corpus[k] == x;
                if k < init.len() {
                    assert(init[k] == x);
                }
            }
            if init.contains(x) {
                let k = choose|k: int| 0 <= k < init.len() && init[k] == x;
                assert(corpus[k] == x);
            }
            if x == corpus.last() {
                assert(corpus[corpus.len() - 1] == x);
            }
        }
        if passes(corpus.last().jp, table, level, dir) {
            assert(rest.push(corpus.last()).contains(x) <==> (rest.contains(x) || x
                == corpus.last())) by {
                let p = rest.push(corpus.last());
                if p.contains(x) {
                    let k = choose|k: int| 0 <= k < p.len() && p[k] == x;
                    if k < rest.len() {
                        assert(rest[k] == x);
                    }
                }
                if rest.contains(x) {
                    let k = choose|k: int| 0 <= k < rest.len() && rest[k] == x;
                    assert(p[k] == x);
                }
                if x == corpus.last() {
                    assert(p[p.len() - 1] == x);
                }
            }
        }
    }
}

/// Whether a text that passes at `lower` under `dir` also passes at `upper`:
/// `upper` is at least as permissive as `lower`.
pub open spec fn loosens(lower: Level, upper: Level, dir: Direction) -> bool {
    match dir {
        Direction::AtMost => lower.spec_rank() <= upper.spec_rank(),
        Direction::AtLeast => upper.spec_rank() <= lower.spec_rank(),
    }
}

/// Raising the ceiling (`AtMost`), or lowering the floor (`AtLeast`), never
/// removes a sentence pair from the filtered sequence.
pub proof fn lemma_filter_monotone(
    corpus: Seq<SentanceView>,
    table: Map<u32, Level>,
    dir: Direction,
    l1: Level,
    l2: Level,
)
    requires
        loosens(l1, l2, dir),
    ensures
        forall|i: int|
            0 <= i < filter_spec(corpus, table, l1, dir).len() ==> filter_spec(
                corpus,
                table,
                l2,
                dir,
            ).contains(#[trigger] filter_spec(corpus, table, l1, dir)[i]),
{
    let f1 = filter_spec(corpus, table, l1, dir);
    assert forall|i: int| 0 <= i < f1.len() implies filter_spec(corpus, table, l2, dir).contains(
        #[trigger] f1[i],
    ) by {
        let x = f1[i];
        assert(f1.contains(x));
        lemma_filter_members(corpus, table, l1, dir, x);
        lemma_filter_members(corpus, table, l2, dir, x);
        assert(passes(x.jp, table, l2, dir)) by {
            assert forall|j: int|
                0 <= j < x.jp.len() && #[trigger] classified(x.jp, table, j) implies admits(
                table[key_of(x.jp[j])],
                l2,
                dir,
            ) by {
                assert(admits(table[key_of(x.jp[j])], l1, dir));
            }
        }
    }
}

/// Filtering the same corpus with the same table, level and direction gives
/// the same pairs in the same order.
pub proof fn lemma_filter_deterministic(
    corpus: Seq<SentanceView>,
    table: Map<u32, Level>,
    level: Level,
    dir: Direction,
    a: Seq<SentanceView>,
    b: Seq<SentanceView>,
)
    requires
        a == filter_spec(corpus, table, level, dir),
        b == filter_spec(corpus, table, level, dir),
    ensures
        a == b,
{
}

} // verus!
