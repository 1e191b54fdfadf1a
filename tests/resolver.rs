use dict_to_mozc::{adjust_cost, id_expr, read_id_def, search_key, IdDefError, TextIdMap};
use hashbrown::DefaultHashBuilder;
use indexmap::IndexMap;

fn table(entries: &[(&str, i32)]) -> TextIdMap {
    let mut m: TextIdMap = IndexMap::with_hasher(DefaultHashBuilder::default());
    for (k, v) in entries {
        m.insert(k.to_string(), *v);
    }
    m
}

fn empty_map() -> TextIdMap {
    IndexMap::with_hasher(DefaultHashBuilder::default())
}

fn rows(rs: &[&[&str]]) -> Vec<Vec<String>> {
    rs.iter().map(|r| r.iter().map(|f| f.to_string()).collect()).collect()
}

#[test]
fn adjust_cost_branches() {
    assert_eq!(adjust_cost(-1), 8000);
    assert_eq!(adjust_cost(i32::MIN), 8000);
    assert_eq!(adjust_cost(0), 6000);
    assert_eq!(adjust_cost(9), 6000);
    assert_eq!(adjust_cost(10), 6001);
    assert_eq!(adjust_cost(5000), 6500);
    assert_eq!(adjust_cost(10000), 7000);
    assert_eq!(adjust_cost(10001), 10000);
    assert_eq!(adjust_cost(i32::MAX), 10000);
}

#[test]
fn single_generic_noun_table() {
    let mut t = table(&[("名詞,一般,*,*,*,*,*", 1763)]);
    let mut memo = empty_map();
    assert_eq!(id_expr("名詞,一般,*,*,*,*,*", &mut t, &mut memo, 1763), 1763);
    assert_eq!(t.len(), 1);
    assert_eq!(id_expr("助詞,格助詞,*,*,*,*,*", &mut t, &mut memo, 1763), 1763);
    assert_eq!(t.len(), 2);
    assert_eq!(t.get("助詞,格助詞,*,*,*,*,*"), Some(&1763));
}

#[test]
fn loader_finds_default_noun() {
    let r = read_id_def(&rows(&[&["1763", "名詞,一般,*,*,*,*,*"]])).unwrap();
    assert_eq!(r.1, 1763);
    assert_eq!(r.0.len(), 1);
    assert_eq!(r.0.get_index(0), Some((&"名詞,普通名詞,一般,*,*,*,*".to_string(), &1763)));
}

#[test]
fn loader_without_generic_noun_keeps_minus_one() {
    let r = read_id_def(&rows(&[&["5", "助詞,格助詞,*,*,*,*,*"]])).unwrap();
    assert_eq!(r.1, -1);
}

#[test]
fn loader_rewrites_legacy_spellings() {
    let r = read_id_def(&rows(&[
        &["1", "動詞,自立,*,*,五段・カ行イ音便,基本形,*"],
        &["2", "名詞,サ変接続,*,*,*,*,*"],
    ]))
    .unwrap();
    assert_eq!(
        r.0.get_index(0),
        Some((&"動詞,自立,*,*,五段,カ行,イ音便基本形,*".to_string(), &1))
    );
    assert_eq!(r.0.get_index(1), Some((&"名詞,普通名詞,サ変,可能*,*,*,*".to_string(), &2)));
}

#[test]
fn loader_rewrites_inside_longer_labels() {
    let r = read_id_def(&rows(&[&["3", "名詞,固有名詞,一般,*,*,*,*"]])).unwrap();
    assert_eq!(r.0.get_index(0), Some((&"名詞,固有名詞,普通名詞,一般,*,*,*".to_string(), &3)));
    assert_eq!(r.1, -1);
}

#[test]
fn loader_rejects_bad_rows() {
    assert_eq!(
        read_id_def(&rows(&[&["1", "名詞,一般,*,*,*,*,*"], &["x", "名詞,*,*,*,*,*,*"]])).err(),
        Some(IdDefError::InvalidId { row: 1 })
    );
    assert_eq!(
        read_id_def(&rows(&[&["1"], &["x", "名詞"]])).err(),
        Some(IdDefError::MissingField { row: 0 })
    );
}

#[test]
fn resolving_twice_gives_the_same_id() {
    let mut t = table(&[
        ("名詞,普通名詞,一般,*,*,*,*", 1),
        ("名詞,固有名詞,人名,姓,*,*,*", 2),
    ]);
    let mut memo = empty_map();
    let first = id_expr("名詞,固有名詞,人名", &mut t, &mut memo, 1);
    let second = id_expr("名詞,固有名詞,人名", &mut t, &mut memo, 1);
    assert_eq!(first, 2);
    assert_eq!(first, second);
    assert_eq!(t.len(), 3);
    assert_eq!(memo.get("名詞,固有名詞,人名,*,*,*,*"), Some(&2));
}

#[test]
fn exact_match_short_circuits() {
    let mut t = table(&[("名詞,普通名詞,一般,*,*,*,*", 1), ("名詞,固有名詞,人名,姓,*,*,*", 2)]);
    let mut memo = empty_map();
    assert_eq!(id_expr("名詞,固有名詞,人名,姓", &mut t, &mut memo, 1), 2);
    assert_eq!(t.len(), 2);
    assert_eq!(memo.len(), 1);
}

#[test]
fn ties_go_to_the_first_entry() {
    let mut t = table(&[("名詞,固有名詞,地名,*,*,*,*", 7), ("名詞,固有名詞,組織,*,*,*,*", 8)]);
    let mut memo = empty_map();
    assert_eq!(id_expr("名詞,固有名詞", &mut t, &mut memo, 0), 7);
}

#[test]
fn generic_labels_score_nothing() {
    let mut t = table(&[("名詞,*,*,*,*,*,*", 2), ("名詞,一般,*,*,*,*,*", 1)]);
    let mut memo = empty_map();
    assert_eq!(id_expr("名詞,一般,x", &mut t, &mut memo, 99), 2);
}

#[test]
fn unrelated_major_class_falls_back() {
    let mut t = table(&[("名詞,一般,*,*,*,*,*", 3)]);
    let mut memo = empty_map();
    assert_eq!(id_expr("形容詞,一般", &mut t, &mut memo, 99), 99);
}

#[test]
fn verb_conjugation_bonus() {
    let mut t = table(&[
        ("動詞,一般,*,*,一段,*,*", 1),
        ("動詞,一般,*,*,五段,カ行,*", 2),
        ("動詞,一般,*,*,五段,サ行,*", 3),
    ]);
    let mut memo = empty_map();
    assert_eq!(id_expr("動詞,一般,*,*,五段-カ行,*,*", &mut t, &mut memo, 0), 2);
}

#[test]
fn unmatched_without_default_gives_minus_one() {
    let mut t = empty_map();
    let mut memo = empty_map();
    assert_eq!(id_expr("名詞", &mut t, &mut memo, -1), -1);
}

#[test]
fn search_key_finds_first_expression() {
    let t = table(&[("a,*,*,*,*,*,*", 4), ("b,*,*,*,*,*,*", 4)]);
    assert_eq!(search_key(&t, 4), "a,*,*,*,*,*,*");
    assert_eq!(search_key(&t, 5), "");
}
