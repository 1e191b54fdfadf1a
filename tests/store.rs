use dict_to_mozc::{DictionaryData, DictionaryEntry, DictionaryKey};

fn entry(p: &str, n: &str, id: i32, cost: i32, label: &str) -> DictionaryEntry {
    DictionaryEntry {
        key: DictionaryKey { pronunciation: p.to_string(), notation: n.to_string(), word_class_id: id },
        cost,
        word_class: label.to_string(),
    }
}

#[test]
fn same_key_keeps_the_second_entry() {
    let mut data = DictionaryData::new();
    data.add(entry("あ", "亜", 1, 6000, ""), false);
    data.add(entry("あ", "亜", 1, 7000, ""), false);
    assert_eq!(data.len(false), 1);
    let e = data.get(false, 0).unwrap();
    assert_eq!(e.cost, 7000);
    assert_eq!(e.key.notation, "亜");
}

#[test]
fn keys_differ_by_any_field() {
    let mut data = DictionaryData::new();
    data.add(entry("あ", "亜", 1, 6000, ""), false);
    data.add(entry("あ", "亜", 2, 6000, ""), false);
    data.add(entry("あ", "阿", 1, 6000, ""), false);
    data.add(entry("い", "亜", 1, 6000, ""), false);
    data.add(entry("あ", "亜", 1, 6500, ""), false);
    assert_eq!(data.len(false), 4);
    assert_eq!(data.get(false, 0).unwrap().cost, 6500);
    assert_eq!(data.get(false, 3).unwrap().key.pronunciation, "い");
    assert!(data.get(false, 4).is_none());
}

#[test]
fn formats_are_kept_apart() {
    let mut data = DictionaryData::default();
    data.add(entry("あ", "亜", 1, 6000, "名詞"), true);
    assert_eq!(data.len(true), 1);
    assert_eq!(data.len(false), 0);
    assert_eq!(data.get(true, 0).unwrap().word_class, "名詞");
}

#[test]
fn keys_compare_by_all_fields() {
    let a = DictionaryKey { pronunciation: "あ".to_string(), notation: "亜".to_string(), word_class_id: 1 };
    let b = a.clone();
    assert_eq!(a, b);
    let c = DictionaryKey { word_class_id: 2, ..a.clone() };
    assert_ne!(a, c);
}
