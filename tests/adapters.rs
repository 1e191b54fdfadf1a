use dict_to_mozc::convert::{hiragana_of_wide, parse_i32, trim_text};
use dict_to_mozc::processor::{
    neologd_skip_decision, process_neologd_skip, process_sudachi_skip, sudachi_skip_decision,
    tagged_skip_decision, word_class_parts,
};
use dict_to_mozc::{
    convert_to_hiragana, create_word_class_mapping, get_user_word_class, get_user_word_class_by_id,
    is_japanese, is_kana, is_kigou, is_start_suuji, parse_delimiter, process_record,
    unicode_escape_to_char, Config, DefaultProcessor, DictValues, DictionaryData,
    DictionaryProcessor, MozcUserDictProcessor, NeologdProcessor, SudachiProcessor, TextIdMap,
    UtDictProcessor, WordClassValues,
};
use hashbrown::DefaultHashBuilder;
use indexmap::IndexMap;

fn strings(fs: &[&str]) -> Vec<String> {
    fs.iter().map(|f| f.to_string()).collect()
}

fn config() -> Config {
    Config {
        csv_file: String::new(),
        id_def: String::new(),
        pronunciation_index: 11,
        notation_index: 12,
        word_class_index: 5,
        word_class_numbers: 6,
        cost_index: 3,
        delimiter: ",".to_string(),
        sudachi: true,
        utdict: false,
        neologd: false,
        mozcuserdict: false,
        user_dict: false,
        places: false,
        symbols: false,
        debug: 0,
    }
}

fn state(rows: &[&[&str]]) -> WordClassValues {
    let rows: Vec<Vec<String>> = rows.iter().map(|r| strings(r)).collect();
    WordClassValues::load(&rows).unwrap()
}

fn scratch() -> DictValues {
    DictValues { pronunciation: String::new(), notation: String::new(), word_class_id: -1, cost: -1 }
}

fn sudachi_record(reading: &str, notation: &str, pos: &[&str], cost: &str) -> Vec<String> {
    let mut r = strings(&["見出し", "0", "0", cost, notation]);
    r.extend(strings(pos));
    r.push(reading.to_string());
    r.push(notation.to_string());
    r
}

#[test]
fn hiragana_conversion() {
    assert_eq!(convert_to_hiragana("カタカナ"), "かたかな");
    assert_eq!(convert_to_hiragana("ｶﾀｶﾅ"), "かたかな");
    assert_eq!(convert_to_hiragana("ヰヱ"), "いえ");
    assert_eq!(convert_to_hiragana("ガッコウ"), "がっこう");
}

#[test]
fn escapes_are_decoded() {
    assert_eq!(unicode_escape_to_char("a\\u3042b"), "aあb");
    assert_eq!(unicode_escape_to_char("\\u0041\\u0062"), "Ab");
    assert_eq!(unicode_escape_to_char("\\uD800"), "\\uD800");
    assert_eq!(unicode_escape_to_char("\\u30"), "\\u30");
}

#[test]
fn character_checks() {
    assert!(is_kana("キゴウ"));
    assert!(is_kana("ひらがなー"));
    assert!(!is_kana("漢字"));
    assert!(is_kigou("Hello world"));
    assert!(!is_kigou("Hello1"));
    assert!(is_start_suuji("1番"));
    assert!(is_start_suuji("第3"));
    assert!(!is_start_suuji("番1"));
    assert!(is_japanese("東京都"));
    assert!(!is_japanese("Tokyo"));
}

#[test]
fn delimiters() {
    let c = config();
    assert_eq!(parse_delimiter("TAB", &c), b'\t');
    assert_eq!(parse_delimiter("\\t", &c), b'\t');
    assert_eq!(parse_delimiter("\t", &c), b'\t');
    assert_eq!(parse_delimiter(",", &c), b',');
    assert_eq!(parse_delimiter(";", &c), b';');
    assert_eq!(parse_delimiter(" ", &c), b' ');
    assert_eq!(parse_delimiter("|", &c), b'|');
    assert_eq!(parse_delimiter("ab", &c), b',');
}

#[test]
fn parts_are_trimmed_and_bounded() {
    let mut c = config();
    c.word_class_index = 1;
    c.word_class_numbers = 2;
    assert_eq!(word_class_parts(&strings(&["a", " 名詞 ", "一般", "x"]), &c), strings(&["名詞", "一般"]));
    c.word_class_numbers = 9;
    assert_eq!(word_class_parts(&strings(&["a", "b"]), &c), strings(&["b"]));
    c.word_class_index = 5;
    assert_eq!(word_class_parts(&strings(&["a", "b"]), &c), Vec::<String>::new());
}

#[test]
fn trimming_removes_unicode_white_space() {
    assert_eq!(trim_text("\u{3000} 名詞\t"), "名詞");
    assert_eq!(trim_text("  "), "");
    assert_eq!(trim_text("a b"), "a b");
}

#[test]
fn exact_match_wins_whatever_the_second_row() {
    let c = config();
    let mut w = state(&[
        &["10", "名詞,固有名詞,人名,姓,*,*,*"],
        &["20", "名詞,固有名詞,人名,姓,*,*,*,*"],
    ]);
    let mut d = scratch();
    let rec = sudachi_record("ヤマダ", "山田", &["名詞", "固有名詞", "人名", "姓", "*", "*"], "5000");
    assert!(!SudachiProcessor.should_skip(&mut w, &mut d, &rec, &c));
    assert!(SudachiProcessor.word_class_analyze(&mut w, &mut d, &rec, &c));
    assert_eq!(d.word_class_id, 10);
    assert_ne!(d.word_class_id, w.default_noun_id);
}

#[test]
fn symbol_reading_is_dropped_unless_symbols_are_kept() {
    let mut c = config();
    let parts = strings(&["記号", "一般"]);
    assert!(process_sudachi_skip(&c, "キゴウ", "＃", &parts));
    c.symbols = true;
    assert!(!process_sudachi_skip(&c, "キゴウ", "＃", &parts));
}

#[test]
fn symbol_record_through_the_adapter() {
    let mut c = config();
    let mut w = state(&[&["1", "記号,一般,*,*,*,*,*"]]);
    let mut d = scratch();
    let rec = sudachi_record("キゴウ", "＃", &["記号", "一般", "*", "*", "*", "*"], "100");
    assert!(SudachiProcessor.should_skip(&mut w, &mut d, &rec, &c));
    c.symbols = true;
    assert!(!SudachiProcessor.should_skip(&mut w, &mut d, &rec, &c));
}

#[test]
fn skip_rules() {
    let c = config();
    let noun = strings(&["名詞", "普通名詞", "一般"]);
    assert!(process_sudachi_skip(&c, "kana", "x", &noun));
    assert!(process_sudachi_skip(&c, "テスト", "", &noun));
    assert!(process_sudachi_skip(&c, "テスト", "x", &strings(&["空白"])));
    assert!(process_sudachi_skip(&c, "テスト", "test", &strings(&["名詞", "普通名詞"])));
    assert!(!process_sudachi_skip(&c, "テスト", "test", &strings(&["名詞", "固有名詞"])));
    assert!(process_sudachi_skip(&c, "トウキョウ", "東京", &strings(&["名詞", "固有名詞", "地名"])));
    assert!(!process_sudachi_skip(&c, "テスト", "試験", &noun));
    assert!(process_sudachi_skip(&c, "テスト", "試験", &Vec::new()));
}

#[test]
fn neologd_skip_rules() {
    let c = config();
    assert!(process_neologd_skip(&c, "イチバン", "1番", &strings(&["名詞", "固有名詞", "一般"])));
    assert!(process_neologd_skip(&c, "トウキョウ", "Tokyo", &strings(&["名詞", "固有名詞", "地域"])));
    assert!(!process_neologd_skip(&c, "イチバン", "一番", &strings(&["名詞", "固有名詞", "一般"])));
}

#[test]
fn record_matching_first_row_resolves_to_it() {
    let c = config();
    let mut w = state(&[
        &["10", "名詞,固有名詞,人名,姓,*,*,*"],
        &["20", "動詞,一般,*,*,五段,カ行,*"],
    ]);
    let mut d = scratch();
    let mut data = DictionaryData::new();
    let rec = sudachi_record("ヤマダ", "山田", &["名詞", "固有名詞", "人名", "姓", "*", "*"], "5000");
    process_record(&SudachiProcessor, &mut data, &c, &mut w, &mut d, &rec);
    assert_eq!(data.len(false), 1);
    let e = data.get(false, 0).unwrap();
    assert_eq!(e.key.pronunciation, "やまだ");
    assert_eq!(e.key.notation, "山田");
    assert_eq!(e.key.word_class_id, 10);
    assert_eq!(e.cost, 6500);
    assert_eq!(e.word_class, "");
}

#[test]
fn default_processor_uses_default_cost_for_bad_cost_field() {
    let mut c = config();
    c.sudachi = false;
    let mut w = state(&[&["10", "名詞,普通名詞,一般,*,*,*,*"]]);
    let mut d = scratch();
    let rec = sudachi_record("テスト", "試験", &["名詞", "普通名詞", "一般", "*", "*", "*"], "abc");
    assert!(!DefaultProcessor.should_skip(&mut w, &mut d, &rec, &c));
    assert!(DefaultProcessor.word_class_analyze(&mut w, &mut d, &rec, &c));
    assert_eq!(d.cost, 6600);
    assert_eq!(d.word_class_id, 10);
}

#[test]
fn sudachi_place_is_rejected_after_resolution() {
    let c = config();
    let mut w = state(&[&["30", "名詞,固有名詞,地名,一般,*,*,*"]]);
    let mut d = scratch();
    let rec = sudachi_record("トウキョウ", "東京", &["名詞", "固有名詞", "地名", "一般", "*", "*"], "1");
    assert!(!SudachiProcessor.word_class_analyze(&mut w, &mut d, &rec, &c));
    assert_eq!(d.word_class_id, 30);
}

#[test]
fn neologd_general_noun_becomes_common_noun() {
    let mut c = config();
    c.sudachi = false;
    c.neologd = true;
    c.pronunciation_index = 10;
    c.notation_index = 12;
    c.word_class_index = 4;
    let mut w = state(&[&["1", "名詞,固有名詞,人名,*,*,*,*"], &["2", "名詞,普通名詞,形状詞可能,*,*,*,*"]]);
    let mut d = scratch();
    let rec = strings(&["表層", "0", "0", "3000", "名詞", "一般", "*", "*", "*", "*", "シケン", "x", "試験"]);
    assert!(!NeologdProcessor.should_skip(&mut w, &mut d, &rec, &c));
    assert!(NeologdProcessor.word_class_analyze(&mut w, &mut d, &rec, &c));
    assert_eq!(d.word_class_id, 2);
    assert_eq!(d.pronunciation, "しけん");
    assert_eq!(d.cost, 6300);
}

#[test]
fn utdict_literal_ids() {
    let mut c = config();
    c.sudachi = false;
    c.utdict = true;
    c.pronunciation_index = 0;
    c.notation_index = 4;
    c.word_class_index = 1;
    c.word_class_numbers = 1;
    let mut w = state(&[&["1851", "名詞,一般,*,*,*,*,*"], &["7", "名詞,固有名詞,人名,姓,*,*,*"]]);
    let mut d = scratch();
    let rec = strings(&["やまだ", "7", "7", "5000", "山田"]);
    assert!(!UtDictProcessor.should_skip(&mut w, &mut d, &rec, &c));
    assert_eq!(d.word_class_id, 7);
    assert!(UtDictProcessor.word_class_analyze(&mut w, &mut d, &rec, &c));
    assert_eq!(d.word_class_id, 7);
    let rec = strings(&["やま", "0000", "0000", "5000", "山"]);
    assert!(UtDictProcessor.word_class_analyze(&mut w, &mut d, &rec, &c));
    assert_eq!(d.word_class_id, 1851);
}

#[test]
fn mozc_user_dictionary_labels() {
    let mut c = config();
    c.sudachi = false;
    c.mozcuserdict = true;
    c.pronunciation_index = 0;
    c.notation_index = 1;
    c.word_class_index = 2;
    c.word_class_numbers = 1;
    let mut w = state(&[&["1851", "名詞,一般,*,*,*,*,*"], &["9", "名詞,固有名詞,人名,姓,*,*,*"]]);
    let mut d = scratch();
    let rec = strings(&["やまだ", "山田", "姓", ""]);
    assert!(!MozcUserDictProcessor.should_skip(&mut w, &mut d, &rec, &c));
    assert!(MozcUserDictProcessor.word_class_analyze(&mut w, &mut d, &rec, &c));
    assert_eq!(d.word_class_id, 9);
    assert_eq!(d.cost, 6600);
}

#[test]
fn curated_labels() {
    let m = create_word_class_mapping();
    let t: TextIdMap = IndexMap::with_hasher(DefaultHashBuilder::default());
    assert_eq!(get_user_word_class(&m, &t, "動詞カ行五段".to_string()), "動詞,一般,*,*,五段,カ行,*,*");
    assert_eq!(get_user_word_class(&m, &t, "名詞".to_string()), "名詞,普通名詞,一般,*,*,*,*");
    assert_eq!(get_user_word_class(&m, &t, "未知".to_string()), "名詞,一般,*,*,*,*,*");
    assert_eq!(get_user_word_class(&m, &t, "接尾一般".to_string()), "名詞,接尾,一般,*,*,*,*");
}

#[test]
fn labels_of_ids() {
    let mut m = create_word_class_mapping();
    let mut t: TextIdMap = IndexMap::with_hasher(DefaultHashBuilder::default());
    t.insert("名詞,固有名詞,人名,姓,*,*,*".to_string(), 4);
    t.insert("補助記号,句点,*,*,*,*,*".to_string(), 5);
    assert_eq!(get_user_word_class_by_id(&mut m, &t, 4), Some("姓".to_string()));
    assert_eq!(get_user_word_class_by_id(&mut m, &t, 5), Some("記号".to_string()));
    assert_eq!(get_user_word_class_by_id(&mut m, &t, 6), None);
    let empty: TextIdMap = IndexMap::with_hasher(DefaultHashBuilder::default());
    assert_eq!(get_user_word_class_by_id(&mut m, &empty, 4), Some("姓".to_string()));
}

#[test]
fn user_format_entries_carry_labels() {
    let mut c = config();
    c.user_dict = true;
    let mut w = state(&[&["10", "名詞,普通名詞,一般,*,*,*,*"]]);
    let mut d = scratch();
    let mut data = DictionaryData::new();
    let rec = sudachi_record("テスト", "試験", &["名詞", "普通名詞", "一般", "*", "*", "*"], "5000");
    process_record(&SudachiProcessor, &mut data, &c, &mut w, &mut d, &rec);
    assert_eq!(data.len(true), 1);
    assert_eq!(data.len(false), 0);
    assert_eq!(data.get(true, 0).unwrap().word_class, "名詞");
}

#[test]
fn half_width_voiced_kana_are_joined() {
    assert_eq!(convert_to_hiragana("ｶﾞｯｺｳ"), "がっこう");
    assert_eq!(convert_to_hiragana("ﾊﾟﾝ"), "ぱん");
}

#[test]
fn folding_of_widened_text() {
    let wide: Vec<char> = "ガヰヱあ".chars().collect();
    assert_eq!(hiragana_of_wide(&wide), "がいえあ");
}

#[test]
fn parentheses_are_not_kana() {
    assert!(!is_kana("(カナ)"));
    assert!(is_kana("カナ"));
}

#[test]
fn skip_decisions_on_given_checks() {
    let mut c = config();
    let symbol = strings(&["記号", "一般"]);
    assert!(sudachi_skip_decision(&c, true, false, false, "キゴウ", "＃", &symbol));
    assert!(sudachi_skip_decision(&c, false, false, false, "テスト", "試験", &strings(&["名詞"])));
    let place = strings(&["名詞", "固有名詞", "地名"]);
    assert!(sudachi_skip_decision(&c, true, false, true, "トウキョウ", "東京", &place));
    assert!(!sudachi_skip_decision(&c, true, false, false, "トウキョウ", "東京", &place));
    let proper = strings(&["名詞", "固有名詞", "一般"]);
    assert!(neologd_skip_decision(&c, true, false, true, "イチバン", "1番", &proper));
    assert!(!neologd_skip_decision(&c, true, false, false, "イチバン", "一番", &proper));
    c.symbols = true;
    assert!(!sudachi_skip_decision(&c, true, false, false, "キゴウ", "＃", &symbol));
    assert!(!sudachi_skip_decision(&c, true, true, false, "テスト", "test", &strings(&["名詞", "普通名詞"])));
}

#[test]
fn tagged_decisions() {
    let mut c = config();
    assert!(tagged_skip_decision(&c, true, &"名詞,普通名詞,一般,*,*,*,*".to_string()));
    assert!(!tagged_skip_decision(&c, true, &"名詞,固有名詞,人名,*,*,*,*".to_string()));
    assert!(tagged_skip_decision(&c, false, &"名詞,固有名詞,地名,一般,*,*,*".to_string()));
    c.places = true;
    c.symbols = true;
    assert!(!tagged_skip_decision(&c, true, &"名詞,固有名詞,地名,一般,*,*,*".to_string()));
}

#[test]
fn utdict_unbound_id_falls_back_to_default() {
    let mut c = config();
    c.sudachi = false;
    c.utdict = true;
    c.pronunciation_index = 0;
    c.notation_index = 4;
    c.word_class_index = 1;
    c.word_class_numbers = 1;
    let mut w = state(&[&["1851", "名詞,一般,*,*,*,*,*"], &["7", "名詞,固有名詞,人名,姓,*,*,*"]]);
    let mut d = scratch();
    for lit in ["0", "-1", "0000", "999", "x"] {
        let rec = strings(&["やま", lit, lit, "5000", "山"]);
        assert!(UtDictProcessor.word_class_analyze(&mut w, &mut d, &rec, &c));
        assert_eq!(d.word_class_id, 1851);
    }
}

#[test]
fn loaded_state() {
    let w = state(&[&["1851", "名詞,一般,*,*,*,*,*"]]);
    assert_eq!(w.default_noun_id, 1851);
    assert_eq!(w.class_map.len(), 0);
    let rows = vec![strings(&["x", "名詞"])];
    assert!(WordClassValues::load(&rows).is_err());
}

#[test]
fn integer_reading() {
    assert_eq!(parse_i32("5000"), Some(5000));
    assert_eq!(parse_i32("+7"), Some(7));
    assert_eq!(parse_i32("-2147483648"), Some(i32::MIN));
    assert_eq!(parse_i32("2147483647"), Some(i32::MAX));
    assert_eq!(parse_i32("2147483648"), None);
    assert_eq!(parse_i32("-2147483649"), None);
    assert_eq!(parse_i32("-"), None);
    assert_eq!(parse_i32(""), None);
    assert_eq!(parse_i32(" 1"), None);
    assert_eq!(parse_i32("0000"), Some(0));
    assert_eq!(parse_i32("99999999999999999999"), None);
}
