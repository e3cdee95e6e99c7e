use japanese_sentances::filter::{filter, sentance_passes};
use japanese_sentances::level::{level_admits, Direction, Level};
use japanese_sentances::sentances::{parse_sentances, split_chars, LoadError, Sentance};
use japanese_sentances::session::{
    pick_index, select_random, JapaneseSentanceApp, JapaneseSentanceAppMessage, SelectError,
};
use japanese_sentances::table::{build_table, table_from_pairs, LevelTable};

fn pair(jp: &str, en: &str) -> Sentance {
    Sentance { en: en.to_string(), jp: jp.to_string() }
}

fn texts(v: &[Sentance]) -> Vec<(String, String)> {
    v.iter().map(|s| (s.jp.clone(), s.en.clone())).collect()
}

fn tier(n: u8) -> Level {
    Level::from_rank(n).unwrap()
}

fn cat_table() -> LevelTable {
    let mut t = LevelTable::new();
    t.insert('猫', tier(5));
    t
}

#[test]
fn kanji_sentence_above_ceiling_is_dropped() {
    let corpus = vec![pair("猫", "cat"), pair("いぬ", "dog")];
    let out = filter(&corpus, &cat_table(), tier(3), Direction::AtMost);
    assert_eq!(texts(&out), vec![("いぬ".to_string(), "dog".to_string())]);
}

#[test]
fn kanji_sentence_within_ceiling_is_kept() {
    let corpus = vec![pair("猫", "cat"), pair("いぬ", "dog")];
    let out = filter(&corpus, &cat_table(), tier(5), Direction::AtMost);
    assert_eq!(out.len(), 2);
    assert_eq!(out[0].jp, "猫");
}

#[test]
fn at_least_keeps_harder_kanji_only() {
    let corpus = vec![pair("猫", "cat"), pair("いぬ", "dog")];
    let t = cat_table();
    assert_eq!(filter(&corpus, &t, tier(5), Direction::AtLeast).len(), 2);
    assert_eq!(filter(&corpus, &t, tier(6), Direction::AtLeast).len(), 1);
}

#[test]
fn kanji_free_text_passes_everywhere() {
    let s = pair("いぬ と ねこ, abc!", "dog and cat");
    let t = build_table();
    for r in 0..12u8 {
        assert!(sentance_passes(&s, &t, tier(r), Direction::AtMost));
        assert!(sentance_passes(&s, &t, tier(r), Direction::AtLeast));
    }
}

#[test]
fn unknown_kanji_does_not_block() {
    let s = pair("犬", "dog");
    assert!(sentance_passes(&s, &LevelTable::new(), Level::Ten, Direction::AtMost));
}

#[test]
fn raising_ceiling_keeps_sentences() {
    let mut t = LevelTable::new();
    t.insert('猫', tier(5));
    t.insert('犬', tier(2));
    let corpus = vec![pair("猫", "cat"), pair("犬", "dog"), pair("ねこ", "cat")];
    let mut prev = 0;
    for r in 0..12u8 {
        let now = filter(&corpus, &t, tier(r), Direction::AtMost).len();
        assert!(now >= prev);
        prev = now;
    }
    assert_eq!(filter(&corpus, &t, tier(2), Direction::AtMost).len(), 2);
    assert_eq!(filter(&corpus, &t, tier(2), Direction::AtLeast).len(), 3);
    assert_eq!(filter(&corpus, &t, tier(6), Direction::AtLeast).len(), 1);
}

#[test]
fn filter_twice_is_identical() {
    let corpus = vec![pair("猫", "cat"), pair("いぬ", "dog"), pair("猫と犬", "cat and dog")];
    let t = cat_table();
    let a = filter(&corpus, &t, tier(4), Direction::AtMost);
    let b = filter(&corpus, &t, tier(4), Direction::AtMost);
    assert_eq!(texts(&a), texts(&b));
}

#[test]
fn short_second_line_is_malformed() {
    let r = parse_sentances("1\t猫\t2\tcat\n3\tいぬ");
    assert_eq!(r.unwrap_err(), LoadError::MalformedRecord(1));
}

#[test]
fn parse_takes_fields_one_and_three() {
    let r = parse_sentances("1\t猫です。\t2\tIt is a cat.\textra\r\n3\tいぬ\t4\tdog\n").unwrap();
    assert_eq!(
        texts(&r),
        vec![
            ("猫です。".to_string(), "It is a cat.".to_string()),
            ("いぬ".to_string(), "dog".to_string()),
        ]
    );
}

#[test]
fn parse_empty_text_is_empty() {
    assert_eq!(parse_sentances("").unwrap().len(), 0);
}

#[test]
fn parse_blank_line_is_malformed() {
    assert_eq!(
        parse_sentances("1\ta\t2\tb\n\n").unwrap_err(),
        LoadError::MalformedRecord(1)
    );
}

#[test]
fn split_keeps_empty_parts() {
    let cs: Vec<char> = "a\t\tb\t".chars().collect();
    let parts = split_chars(&cs, '\t');
    assert_eq!(parts, vec![vec!['a'], vec![], vec!['b'], vec![]]);
}

#[test]
fn pick_index_wraps_roll() {
    assert_eq!(pick_index(3, 7), Ok(1));
    assert_eq!(pick_index(0, 7), Err(SelectError::EmptyWorkingSet));
}

#[test]
fn select_random_stays_in_range() {
    for _ in 0..100 {
        assert!(select_random(5).unwrap() < 5);
    }
    assert_eq!(select_random(0), Err(SelectError::EmptyWorkingSet));
}

#[test]
fn reveal_then_next() {
    let corpus = vec![pair("猫", "cat"), pair("いぬ", "dog"), pair("ねこ", "cat")];
    let mut app = JapaneseSentanceApp::new(cat_table(), corpus, tier(5), Direction::AtMost);
    assert!(!app.is_revealed());
    let before = app.current;
    assert_eq!(app.on_primary_action(), Ok(()));
    assert!(app.is_revealed());
    assert_eq!(app.current, before);
    assert_eq!(app.on_primary_action(), Ok(()));
    assert!(!app.is_revealed());
    assert!(app.current < app.filtered_sentances.len());
}

#[test]
fn empty_working_set_refuses_next() {
    let corpus = vec![pair("猫", "cat")];
    let mut app = JapaneseSentanceApp::new(cat_table(), corpus, tier(3), Direction::AtMost);
    assert!(app.current_sentance().is_none());
    assert_eq!(app.on_primary_action(), Ok(()));
    assert_eq!(app.on_primary_action(), Err(SelectError::EmptyWorkingSet));
    assert!(app.current_sentance().is_none());
}

#[test]
fn level_change_refilters_and_hides() {
    let corpus = vec![pair("猫", "cat"), pair("いぬ", "dog")];
    let mut app = JapaneseSentanceApp::new(cat_table(), corpus, tier(3), Direction::AtMost);
    assert_eq!(app.filtered_sentances.len(), 1);
    assert_eq!(app.current_sentance().unwrap().en, "dog");
    app.on_primary_action().unwrap();
    assert_eq!(app.update(JapaneseSentanceAppMessage::PickedLevel(tier(5))), Ok(()));
    assert_eq!(app.filtered_sentances.len(), 2);
    assert!(!app.is_revealed());
    assert_eq!(app.filtered_sentances.len(), 2);
    assert!(app.current < 2);
    for _ in 0..20 {
        app.update(JapaneseSentanceAppMessage::RevealOrNext).unwrap();
        assert!(app.current < app.filtered_sentances.len());
    }
}

#[test]
fn exam_table_classifies_kanji() {
    let t = build_table();
    assert_eq!(t.kanji_level('一'), Some(Level::Ten));
    assert_eq!(t.kanji_level('a'), None);
    assert_eq!(t.kanji_level('ね'), None);
    assert!(t.map.len() > 2000);
}

#[test]
fn ranks_and_directions() {
    assert_eq!(Level::One.rank(), 11);
    assert_eq!(Level::from_rank(12), None);
    assert_eq!(Level::all().len(), 12);
    assert!(level_admits(Level::Five, Level::Three, Direction::AtMost));
    assert!(!level_admits(Level::Five, Level::Three, Direction::AtLeast));
}

#[test]
fn picking_a_level_with_no_sentences_fails() {
    let corpus = vec![pair("猫", "cat")];
    let mut app = JapaneseSentanceApp::new(cat_table(), corpus, tier(5), Direction::AtMost);
    assert!(app.current_sentance().is_some());
    assert_eq!(
        app.update(JapaneseSentanceAppMessage::PickedLevel(tier(3))),
        Err(SelectError::EmptyWorkingSet)
    );
    assert!(app.current_sentance().is_none());
    assert_eq!(app.set_level(tier(5), Direction::AtMost), Ok(()));
    assert_eq!(app.current_sentance().unwrap().en, "cat");
}

#[test]
fn apply_filter_keeps_reveal_flag() {
    let corpus = vec![pair("猫", "cat"), pair("いぬ", "dog")];
    let mut app = JapaneseSentanceApp::new(cat_table(), corpus, tier(5), Direction::AtMost);
    app.on_primary_action().unwrap();
    assert!(app.is_revealed());
    assert_eq!(app.apply_filter(), Ok(()));
    assert!(app.is_revealed());
    assert_eq!(app.set_level(tier(5), Direction::AtMost), Ok(()));
    assert!(!app.is_revealed());
}

#[test]
fn next_takes_the_drawn_index() {
    let corpus = vec![pair("猫", "cat"), pair("いぬ", "dog"), pair("ねこ", "cat")];
    let mut app = JapaneseSentanceApp::new(cat_table(), corpus, tier(5), Direction::AtMost);
    assert_eq!(app.on_primary_action_with(9), Ok(()));
    assert!(app.is_revealed());
    assert_eq!(app.on_primary_action_with(4), Ok(()));
    assert!(!app.is_revealed());
    assert_eq!(app.current, 1);
    assert_eq!(app.current_sentance().unwrap().en, "dog");
}

#[test]
fn table_from_pairs_keeps_last_and_skips_bad_levels() {
    let t = table_from_pairs(&vec![('猫', 5), ('犬', 20), ('猫', 7)]);
    assert_eq!(t.level_of('猫'), Some(Level::Three));
    assert_eq!(t.level_of('犬'), None);
    assert_eq!(t.map.len(), 1);
}

#[test]
fn exam_table_levels() {
    let t = build_table();
    assert_eq!(t.kanji_level('右'), Some(Level::Ten));
    assert_eq!(t.kanji_level('猫'), Some(Level::PreTwo));
}

#[test]
fn bare_cr_at_end_is_kept() {
    let r = parse_sentances("1\ta\t2\tb\r\n3\tc\t4\td\r").unwrap();
    assert_eq!(r[0].en, "b");
    assert_eq!(r[1].en, "d\r");
}

#[test]
fn cloned_pair_has_same_text() {
    let s = pair("猫", "cat");
    let c = s.clone();
    assert_eq!((c.jp, c.en), (s.jp, s.en));
}
