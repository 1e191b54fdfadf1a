//! Dialect adapters: for each supported source format, which records are
//! dropped, and how a kept record is turned into a reading, a notation, a
//! taxonomy identifier and a cost.
use vstd::prelude::*;
use crate::classes::{
    cache_after, create_word_class_mapping, curated_pairs, expression_for_label, first_with_id,
    get_user_word_class, mapping_from,
    get_user_word_class_by_id, key_text, label_of_id, lemma_first_with_id, search_key,
    WordClassMapping,
};
use crate::store::{DictionaryData, DictionaryEntry, DictionaryKey};
use crate::loader::{
    first_bad_row, loaded_default, loaded_entries, read_id_def, row_error, rows_view, IdDefError,
};
use crate::convert::{
    convert_to_hiragana, hiragana_reading, parse_i32, parsed_i32, trim_text, trimmed, unescaped,
    unicode_escape_to_char,
};
use crate::cost::{adjust_cost, adjusted, DEFAULT_COST};
use crate::ordered::{
    index_of_key, inserted, keys_unique, lemma_index_of_key, text_id_entries, text_id_map_new,
    TextIdMap,
};
use crate::patterns::{
    is_japanese, is_kana, is_kigou, is_start_suuji, japanese_pattern, kana_pattern, regex_found,
    start_number_pattern, symbol_pattern,
};
use crate::taxonomy::{
    best_of, fields_of, find_key, first_from, id_expr, lemma_best_of_none, lemma_first_from,
    lemma_padded_fields, lemma_resolve_keeps_agreement, memo_agrees, normalized, padded, resolved,
    scan, score, star, table_after, verb_bonus, verb_label,
};
use crate::text::{
    apply_rules, chars_list, chars_of, contains_chars, contains_seq, join_chars, joined, replace_chars,
    rewritten, rule, rule_views, same_chars, string_of, texts, views,
};

verus! {

/// How a run reads its source records and what it writes.
pub struct Config {
    /// Path of the source records.
    pub csv_file: String,
    /// Path of the taxonomy definition.
    pub id_def: String,
    /// Index of the reading field.
    pub pronunciation_index: usize,
    /// Index of the notation field.
    pub notation_index: usize,
    /// Index of the first part-of-speech field.
    pub word_class_index: usize,
    /// Number of part-of-speech fields.
    pub word_class_numbers: usize,
    /// Index of the cost field.
    pub cost_index: usize,
    /// Field delimiter of the source records.
    pub delimiter: String,
    /// The source is SudachiDict.
    pub sudachi: bool,
    /// The source is a UT dictionary.
    pub utdict: bool,
    /// The source is NEologd.
    pub neologd: bool,
    /// The source is a Mozc user dictionary.
    pub mozcuserdict: bool,
    /// Write the Mozc user-dictionary format.
    pub user_dict: bool,
    /// Keep place names.
    pub places: bool,
    /// Keep symbols.
    pub symbols: bool,
    /// Level of diagnostic output.
    pub debug: usize,
}

/// The entry being built from the current record.
pub struct DictValues {
    pub pronunciation: String,
    pub notation: String,
    pub word_class_id: i32,
    pub cost: i32,
}

/// The taxonomy state shared by all records of a run.
pub struct WordClassValues {
    /// Every expression resolved so far, with its identifier.
    pub class_map: TextIdMap,
    /// The curated user labels and their cache.
    pub mapping: WordClassMapping,
    /// The taxonomy table, grown by resolution.
    pub id_def: TextIdMap,
    /// The identifier used where nothing matches.
    pub default_noun_id: i32,
}

/// The model of the taxonomy state.
pub open spec fn wcv_view(w: WordClassValues) -> (
    Seq<(Seq<char>, i32)>,
    Seq<(Seq<char>, Seq<char>)>,
    Seq<(i32, Seq<char>)>,
    Seq<(Seq<char>, i32)>,
    i32,
) {
    (
        text_id_entries(w.class_map),
        w.mapping.pairs(),
        w.mapping.cache(),
        text_id_entries(w.id_def),
        w.default_noun_id,
    )
}

/// The model of the entry being built.
pub open spec fn dv_view(d: DictValues) -> (Seq<char>, Seq<char>, i32, i32) {
    (d.pronunciation@, d.notation@, d.word_class_id, d.cost)
}

/// The field at index `i`, if the record has it.
pub open spec fn field_at(rec: Seq<Seq<char>>, i: int) -> Option<Seq<char>> {
    if 0 <= i < rec.len() {
        Some(rec[i])
    } else {
        None
    }
}

/// The trimmed part-of-speech fields: `n` fields from `start`, as many as
/// the record has.
pub open spec fn pos_parts(rec: Seq<Seq<char>>, start: int, n: int) -> Seq<Seq<char>> {
    if start >= rec.len() {
        Seq::empty()
    } else {
        let end = if start + n < rec.len() {
            start + n
        } else {
            rec.len() as int
        };
        rec.subrange(start, end).map_values(|f: Seq<char>| trimmed(f))
    }
}

/// The part-of-speech fields of a record under a configuration.
pub open spec fn config_parts(rec: Seq<Seq<char>>, args: Config) -> Seq<Seq<char>> {
    pos_parts(rec, args.word_class_index as int, args.word_class_numbers as int)
}

/// The trimmed part-of-speech fields of a record.
pub fn word_class_parts(record: &Vec<String>, args: &Config) -> (r: Vec<String>)
    ensures
        texts(r@) == config_parts(texts(record@), *args),
{
    let ghost rec = texts(record@);
    let start = args.word_class_index;
    let mut parts: Vec<String> = Vec::new();
    if start >= record.len() {
        assert(texts(parts@) =~= config_parts(rec, *args));
        return parts;
    }
    let end = if args.word_class_numbers < record.len() - start {
        start + args.word_class_numbers
    } else {
        record.len()
    };
    let ghost want = rec.subrange(start as int, end as int).map_values(|f: Seq<char>| trimmed(f));
    assert(want == config_parts(rec, *args));
    for i in start..end
        invariant
            start <= end <= record.len(),
            rec == texts(record@),
            want == rec.subrange(start as int, end as int).map_values(|f: Seq<char>| trimmed(f)),
            texts(parts@) == want.take(i - start),
    {
        let p = trim_text(record[i].as_str());
        assert(rec[i as int] == record@[i as int]@);
        assert(want[i - start] == trimmed(rec[i as int]));
        let ghost before = texts(parts@);
        let ghost pv = p@;
        parts.push(p);
        assert(texts(parts@) =~= before.push(pv));
        assert(want.take(i - start + 1) =~= want.take(i - start).push(want[i - start]));
    }
    assert(want.take(end - start) =~= want);
    parts
}

/// Whether a record is dropped under the SudachiDict rules (also those of
/// the generic format): a reading that is not kana, an empty notation, no
/// part of speech, a blank, a symbol (unless symbols are kept), or a place
/// name written as Japanese text (unless places are kept).
pub open spec fn sudachi_skip(
    symbols: bool,
    places: bool,
    pron: Seq<char>,
    notation: Seq<char>,
    parts: Seq<Seq<char>>,
) -> bool {
    sudachi_drop(
        symbols,
        places,
        regex_found(kana_pattern(), pron),
        regex_found(symbol_pattern(), notation),
        regex_found(japanese_pattern(), notation),
        pron,
        notation,
        parts,
    )
}

/// The SudachiDict drop rules, given whether the reading is kana, whether
/// the notation is Latin letters only, and whether it reads as Japanese.
pub open spec fn sudachi_drop(
    symbols: bool,
    places: bool,
    kana: bool,
    latin: bool,
    japanese: bool,
    pron: Seq<char>,
    notation: Seq<char>,
    parts: Seq<Seq<char>>,
) -> bool {
    ||| !kana
    ||| notation.len() == 0
    ||| parts.len() == 0
    ||| parts[0] == "空白"@
    ||| (!symbols && pron == "キゴウ"@ && contains_seq(parts[0], "記号"@))
    ||| (parts.len() > 1 && !symbols && latin && parts[1] != "固有名詞"@)
    ||| (parts.len() > 2 && !places && japanese && contains_seq(parts[2], "地名"@))
}

/// Whether a record is dropped under the NEologd rules: as for SudachiDict,
/// but a place is any region tag, and a proper noun whose notation starts
/// with a number is dropped too.
pub open spec fn neologd_skip(
    symbols: bool,
    places: bool,
    pron: Seq<char>,
    notation: Seq<char>,
    parts: Seq<Seq<char>>,
) -> bool {
    neologd_drop(
        symbols,
        places,
        regex_found(kana_pattern(), pron),
        regex_found(symbol_pattern(), notation),
        regex_found(start_number_pattern(), notation),
        pron,
        notation,
        parts,
    )
}

/// The NEologd drop rules, given whether the reading is kana, whether the
/// notation is Latin letters only, and whether it starts with a number.
pub open spec fn neologd_drop(
    symbols: bool,
    places: bool,
    kana: bool,
    latin: bool,
    starts_with_number: bool,
    pron: Seq<char>,
    notation: Seq<char>,
    parts: Seq<Seq<char>>,
) -> bool {
    ||| !kana
    ||| notation.len() == 0
    ||| parts.len() == 0
    ||| parts[0] == "空白"@
    ||| (!symbols && pron == "キゴウ"@ && contains_seq(parts[0], "記号"@))
    ||| (parts.len() > 1 && !symbols && latin && parts[1] != "固有名詞"@)
    ||| (parts.len() > 2 && !places && contains_seq(parts[2], "地域"@))
    ||| (parts.len() > 2 && parts[0] == "名詞"@ && parts[1] == "固有名詞"@ && parts[2] == "一般"@
        && starts_with_number)
}

fn is_text(s: &String, lit: &str) -> (r: bool)
    ensures
        r == (s@ == lit@),
{
    let a = chars_of(s.as_str());
    let b = chars_of(lit);
    same_chars(&a, &b)
}

fn has_text(s: &String, lit: &str) -> (r: bool)
    ensures
        r == contains_seq(s@, lit@),
{
    let a = chars_of(s.as_str());
    let b = chars_of(lit);
    contains_chars(&a, &b)
}

/// The SudachiDict drop decision, given the results of the character
/// checks on the reading and the notation.
pub fn sudachi_skip_decision(
    args: &Config,
    kana: bool,
    latin: bool,
    japanese: bool,
    pronunciation: &str,
    notation: &str,
    word_class: &Vec<String>,
) -> (r: bool)
    ensures
        r == sudachi_drop(
            args.symbols,
            args.places,
            kana,
            latin,
            japanese,
            pronunciation@,
            notation@,
            texts(word_class@),
        ),
{
    let ghost parts = texts(word_class@);
    if !kana || notation.is_empty() || word_class.len() == 0 {
        return true;
    }
    assert(parts[0] == word_class@[0]@);
    if is_text(&word_class[0], "空白") {
        return true;
    }
    let pron = pronunciation.to_owned();
    if !args.symbols && is_text(&pron, "キゴウ") && has_text(&word_class[0], "記号") {
        return true;
    }
    if word_class.len() > 1 && !args.symbols && latin && !is_text(&word_class[1], "固有名詞") {
        assert(parts[1] == word_class@[1]@);
        return true;
    }
    if word_class.len() > 2 && !args.places && japanese && has_text(&word_class[2], "地名") {
        assert(parts[2] == word_class@[2]@);
        return true;
    }
    assert(word_class.len() > 1 ==> parts[1] == word_class@[1]@);
    assert(word_class.len() > 2 ==> parts[2] == word_class@[2]@);
    false
}

/// Whether a record is dropped under the SudachiDict rules.
pub fn process_sudachi_skip(
    args: &Config,
    pronunciation: &str,
    notation: &str,
    word_class: &Vec<String>,
) -> (r: bool)
    ensures
        r == sudachi_skip(args.symbols, args.places, pronunciation@, notation@, texts(word_class@)),
{
    let kana = is_kana(pronunciation);
    let latin = is_kigou(notation);
    let japanese = is_japanese(notation);
    sudachi_skip_decision(args, kana, latin, japanese, pronunciation, notation, word_class)
}

/// The NEologd drop decision, given the results of the character checks
/// on the reading and the notation.
pub fn neologd_skip_decision(
    args: &Config,
    kana: bool,
    latin: bool,
    starts_with_number: bool,
    pronunciation: &str,
    notation: &str,
    word_class: &Vec<String>,
) -> (r: bool)
    ensures
        r == neologd_drop(
            args.symbols,
            args.places,
            kana,
            latin,
            starts_with_number,
            pronunciation@,
            notation@,
            texts(word_class@),
        ),
{
    let ghost parts = texts(word_class@);
    if !kana || notation.is_empty() || word_class.len() == 0 {
        return true;
    }
    assert(parts[0] == word_class@[0]@);
    if is_text(&word_class[0], "空白") {
        return true;
    }
    let pron = pronunciation.to_owned();
    if !args.symbols && is_text(&pron, "キゴウ") && has_text(&word_class[0], "記号") {
        return true;
    }
    if word_class.len() > 1 && !args.symbols && latin && !is_text(&word_class[1], "固有名詞") {
        assert(parts[1] == word_class@[1]@);
        return true;
    }
    if word_class.len() > 2 && !args.places && has_text(&word_class[2], "地域") {
        assert(parts[2] == word_class@[2]@);
        return true;
    }
    if word_class.len() > 2 && is_text(&word_class[0], "名詞") && is_text(&word_class[1], "固有名詞")
        && is_text(&word_class[2], "一般") && starts_with_number {
        assert(parts[1] == word_class@[1]@);
        assert(parts[2] == word_class@[2]@);
        return true;
    }
    assert(word_class.len() > 1 ==> parts[1] == word_class@[1]@);
    assert(word_class.len() > 2 ==> parts[2] == word_class@[2]@);
    false
}

/// Whether a record is dropped under the NEologd rules.
pub fn process_neologd_skip(
    args: &Config,
    pronunciation: &str,
    notation: &str,
    word_class: &Vec<String>,
) -> (r: bool)
    ensures
        r == neologd_skip(args.symbols, args.places, pronunciation@, notation@, texts(word_class@)),
{
    let kana = is_kana(pronunciation);
    let latin = is_kigou(notation);
    let starts_with_number = is_start_suuji(notation);
    neologd_skip_decision(args, kana, latin, starts_with_number, pronunciation, notation, word_class)
}

/// The model of the taxonomy state: class map, curated pairs, label cache,
/// table and default noun identifier.
pub type WordClassState = (
    Seq<(Seq<char>, i32)>,
    Seq<(Seq<char>, Seq<char>)>,
    Seq<(i32, Seq<char>)>,
    Seq<(Seq<char>, i32)>,
    i32,
);

/// The model of the entry being built: reading, notation, identifier, cost.
pub type DictState = (Seq<char>, Seq<char>, i32, i32);

/// Resolving `x`: its identifier and the state after.
pub open spec fn resolve_in(w: WordClassState, x: Seq<char>) -> (i32, WordClassState) {
    let id = resolved(w.3, x, w.4);
    (id, (inserted(w.0, normalized(x), id), w.1, w.2, table_after(w.3, x, w.4), w.4))
}

/// Looking `k` up in the class map, resolving it where it is absent.
pub open spec fn lookup_in(w: WordClassState, k: Seq<char>) -> (i32, WordClassState) {
    let j = index_of_key(w.0, k);
    if j >= 0 {
        (w.0[j].1, w)
    } else {
        resolve_in(w, k)
    }
}

/// The taxonomy state is consistent: the table's keys are unique and every
/// expression of the class map is a table key bound to the same identifier.
pub open spec fn state_wf(w: WordClassState) -> bool {
    keys_unique(w.3) && memo_agrees(w.0, w.3)
}

/// Every table expression has at least seven fields, none of them empty.
pub open spec fn keys_well_formed(t: Seq<(Seq<char>, i32)>) -> bool {
    forall|i: int|
        0 <= i < t.len() ==> fields_of(#[trigger] t[i].0).len() >= 7 && forall|j: int|
            0 <= j < fields_of(t[i].0).len() ==> fields_of(t[i].0)[j].len() > 0
}

pub proof fn lemma_resolve_in_wf(w: WordClassState, x: Seq<char>)
    requires
        state_wf(w),
    ensures
        state_wf(resolve_in(w, x).1),
{
    lemma_resolve_keeps_agreement(w.3, w.0, x, w.4);
}

pub proof fn lemma_lookup_in_wf(w: WordClassState, k: Seq<char>)
    requires
        state_wf(w),
    ensures
        state_wf(lookup_in(w, k).1),
{
    lemma_resolve_in_wf(w, k);
}

proof fn lemma_scan_empty_first(e: Seq<Seq<char>>, k: Seq<Seq<char>>, ki: int)
    requires
        e.len() > 0,
        e[0] == Seq::<char>::empty(),
        0 <= ki,
        forall|j: int| 0 <= j < k.len() ==> k[j].len() > 0,
    ensures
        scan(e, k, 0, ki) == 0,
    decreases k.len() - ki,
{
    reveal_strlit("*");
    assert(star().len() == 1);
    if ki < k.len() {
        if k[ki] == star() {
            lemma_scan_empty_first(e, k, ki + 1);
        } else {
            lemma_first_from(k, e[0], ki);
        }
    }
}

/// Looking up the table expression of identifier `id` gives `id` where the
/// table binds it, and the default noun identifier where it does not (for a
/// table of well-formed expressions).
pub proof fn lemma_lookup_bound_id(w: WordClassState, id: i32)
    requires
        state_wf(w),
        keys_well_formed(w.3),
    ensures
        lookup_in(w, key_text(w.3, id)).0 == if first_with_id(w.3, id) >= 0 {
            id
        } else {
            w.4
        },
{
    let t = w.3;
    let cm = w.0;
    let k = key_text(t, id);
    lemma_first_with_id(t, id);
    lemma_index_of_key(t, k);
    lemma_index_of_key(cm, k);
    reveal_strlit(",");
    assert(","@ =~= seq![',']);
    if first_with_id(t, id) >= 0 {
        let j = first_with_id(t, id);
        assert(t[j].0 == k);
        assert(index_of_key(t, k) == j);
        if index_of_key(cm, k) < 0 {
            assert(padded(fields_of(k)) == fields_of(k));
            crate::text::lemma_join_split(k, ',');
            assert(normalized(k) == k);
        }
    } else {
        assert(k == Seq::<char>::empty());
        assert(fields_of(k) == seq![Seq::<char>::empty()]);
        if index_of_key(t, k) >= 0 {
            assert(fields_of(t[index_of_key(t, k)].0)[0].len() == 0);
        }
        if index_of_key(cm, k) >= 0 {
            let c = index_of_key(cm, k);
            assert(cm[c].0 == k);
            assert(index_of_key(t, cm[c].0) >= 0);
        }
        let e = padded(fields_of(k));
        lemma_padded_fields(fields_of(k));
        assert(e.take(1)[0] == e[0]);
        let n = normalized(k);
        crate::text::lemma_joined_prefix(e, ","@);
        assert(n.take(1)[0] == n[0]);
        assert(n[0] == ',');
        crate::text::lemma_split_leading_delimiter(n, ',');
        lemma_index_of_key(t, n);
        if index_of_key(t, n) >= 0 {
            assert(fields_of(t[index_of_key(t, n)].0)[0].len() == 0);
        }
        reveal_strlit("動詞");
        assert(verb_label().len() == 2);
        assert forall|i: int| 0 <= i < t.len() implies score(e, #[trigger] t[i].0) <= 0 by {
            lemma_scan_empty_first(e, fields_of(t[i].0), 0);
            assert(verb_bonus(e, fields_of(t[i].0)) == 0);
        }
        lemma_best_of_none(t, e);
    }
}

/// The identifier written in a pre-tagged field: its value where it reads
/// as an `i32` other than 0 and -1, else the default noun identifier.
pub open spec fn literal_id(f: Seq<char>, default_noun_id: i32) -> i32 {
    match parsed_i32(f) {
        Some(v) => if v == -1 || v == 0 {
            default_noun_id
        } else {
            v
        },
        None => default_noun_id,
    }
}

/// The normalised cost of a record: its cost field read as an `i32`, or the
/// default cost where it is absent or unreadable.
pub open spec fn record_cost(rec: Seq<Seq<char>>, i: int) -> i32 {
    let raw: int = match field_at(rec, i) {
        Some(f) => match parsed_i32(f) {
            Some(v) => v as int,
            None => 6000,
        },
        None => 6000,
    };
    adjusted(raw) as i32
}

/// The symbol and place checks of the pre-tagged dialects, on the table
/// expression `k` of the record's identifier.
pub open spec fn tagged_drop(symbols: bool, places: bool, notation: Seq<char>, k: Seq<char>) -> bool {
    tagged_drop_from(symbols, places, regex_found(symbol_pattern(), notation), k)
}

/// The symbol and place checks of the pre-tagged dialects, given whether
/// the notation is Latin letters only.
pub open spec fn tagged_drop_from(symbols: bool, places: bool, latin: bool, k: Seq<char>) -> bool {
    (!symbols && latin && !contains_seq(k, "固有名詞"@)) || (!places && contains_seq(k, "地名"@))
}

/// The symbol and place decision of the pre-tagged dialects, given whether
/// the notation is Latin letters only and the table expression `key` of the
/// record's identifier.
pub fn tagged_skip_decision(args: &Config, latin: bool, key: &String) -> (r: bool)
    ensures
        r == tagged_drop_from(args.symbols, args.places, latin, key@),
{
    (!args.symbols && latin && !has_text(key, "固有名詞")) || (!args.places && has_text(key, "地名"))
}

/// The expression that the user label written by `parts` stands for.
pub open spec fn user_expression(pairs: Seq<(Seq<char>, Seq<char>)>, parts: Seq<Seq<char>>) -> Seq<
    char,
> {
    expression_for_label(pairs, joined(parts, ""@))
}

/// The skip decision of the UT dictionary rules, and the state after.
pub open spec fn utdict_skip_step(
    args: Config,
    w: WordClassState,
    d: DictState,
    pron: Seq<char>,
    notation: Seq<char>,
    parts: Seq<Seq<char>>,
) -> (bool, WordClassState, DictState) {
    if !regex_found(kana_pattern(), pron) || notation.len() == 0 || parts.len() == 0 {
        (true, w, d)
    } else {
        let id = literal_id(parts[0], w.4);
        (tagged_drop(args.symbols, args.places, notation, key_text(w.3, id)), w, (d.0, d.1, id, d.3))
    }
}

/// The skip decision of the Mozc user-dictionary rules, and the state after.
pub open spec fn mozcuserdict_skip_step(
    args: Config,
    w: WordClassState,
    d: DictState,
    pron: Seq<char>,
    notation: Seq<char>,
    parts: Seq<Seq<char>>,
) -> (bool, WordClassState, DictState) {
    if !regex_found(kana_pattern(), pron) || notation.len() == 0 {
        (true, w, d)
    } else {
        let st = resolve_in(w, user_expression(w.1, parts));
        (
            tagged_drop(args.symbols, args.places, notation, key_text(st.1.3, st.0)),
            st.1,
            (d.0, d.1, st.0, d.3),
        )
    }
}

/// The skip decision for a record, and the state after: a record without a
/// reading or a notation field is not dropped here; otherwise the rules of
/// the configured dialect decide.
pub open spec fn skip_step(args: Config, rec: Seq<Seq<char>>, w: WordClassState, d: DictState) -> (
    bool,
    WordClassState,
    DictState,
) {
    match (
        field_at(rec, args.pronunciation_index as int),
        field_at(rec, args.notation_index as int),
    ) {
        (Some(p), Some(n)) => {
            let parts = config_parts(rec, args);
            if args.sudachi {
                (sudachi_skip(args.symbols, args.places, p, n, parts), w, d)
            } else if args.neologd {
                (neologd_skip(args.symbols, args.places, p, n, parts), w, d)
            } else if args.utdict {
                utdict_skip_step(args, w, d, p, n, parts)
            } else if args.mozcuserdict {
                mozcuserdict_skip_step(args, w, d, p, n, parts)
            } else {
                (sudachi_skip(args.symbols, args.places, p, n, parts), w, d)
            }
        },
        _ => (false, w, d),
    }
}

/// The SudachiDict vocabulary rewrites, applied in this order to the joined
/// expression.
pub open spec fn sudachi_rules() -> Seq<(Seq<char>, Seq<char>)> {
    seq![
        ("段-"@, "段,"@),
        ("接尾辞,名詞的,一般,"@, "名詞,接尾,一般,"@),
        ("接尾辞,名詞的,副詞可能,"@, "名詞,接尾,副詞可能,"@),
        ("接尾辞,名詞的,助数詞,"@, "名詞,普通名詞,助数詞可能,"@),
        ("接尾辞,名詞的,サ変可能,"@, "名詞,接尾,サ変接続,"@),
        ("接尾辞,動詞的,"@, "動詞,接尾,"@),
        ("接尾辞,形容詞的,"@, "形容詞,接尾,"@),
        ("接尾辞,形状詞的,"@, "名詞,接尾,助動詞語幹,"@),
        ("形状詞,助動詞語幹,"@, "名詞,接尾,助動詞語幹,"@),
        ("形状詞,一般,"@, "名詞,形容動詞語幹,"@),
        ("形状詞,タリ,"@, "接頭辞,形容詞接続,"@),
        ("代名詞,"@, "名詞,代名詞,一般,"@),
        ("接頭辞,"@, "接頭詞,"@),
    ]
}

fn sudachi_rules_exec() -> (r: Vec<(Vec<char>, Vec<char>)>)
    ensures
        rule_views(r@) == sudachi_rules(),
{
    let r = vec![
        rule("段-", "段,"),
        rule("接尾辞,名詞的,一般,", "名詞,接尾,一般,"),
        rule("接尾辞,名詞的,副詞可能,", "名詞,接尾,副詞可能,"),
        rule("接尾辞,名詞的,助数詞,", "名詞,普通名詞,助数詞可能,"),
        rule("接尾辞,名詞的,サ変可能,", "名詞,接尾,サ変接続,"),
        rule("接尾辞,動詞的,", "動詞,接尾,"),
        rule("接尾辞,形容詞的,", "形容詞,接尾,"),
        rule("接尾辞,形状詞的,", "名詞,接尾,助動詞語幹,"),
        rule("形状詞,助動詞語幹,", "名詞,接尾,助動詞語幹,"),
        rule("形状詞,一般,", "名詞,形容動詞語幹,"),
        rule("形状詞,タリ,", "接頭辞,形容詞接続,"),
        rule("代名詞,", "名詞,代名詞,一般,"),
        rule("接頭辞,", "接頭詞,"),
    ];
    assert(rule_views(r@) =~= sudachi_rules());
    r
}

/// The field at index `i` rewritten by one rule, where there is one.
pub open spec fn fix_field(parts: Seq<Seq<char>>, i: int, p: Seq<char>, r: Seq<char>) -> Seq<
    Seq<char>,
> {
    if i < parts.len() {
        parts.update(i, crate::text::replaced(parts[i], p, r))
    } else {
        parts
    }
}

/// The SudachiDict fields after the per-field rewrites.
pub open spec fn sudachi_fields(parts: Seq<Seq<char>>) -> Seq<Seq<char>> {
    let a = fix_field(parts, 0, "補助記号"@, "記号"@);
    let b = fix_field(a, 1, "非自立可能"@, "非自立"@);
    let c = fix_field(b, 4, "下一段"@, "一段"@);
    fix_field(c, 5, "形-"@, "形,"@)
}

/// The taxonomy expression of SudachiDict fields.
pub open spec fn sudachi_word_class(parts: Seq<Seq<char>>) -> Seq<char> {
    rewritten(joined(sudachi_fields(parts), ","@), sudachi_rules())
}

/// The taxonomy expression of NEologd fields: a general noun becomes a
/// common noun.
pub open spec fn neologd_word_class(parts: Seq<Seq<char>>) -> Seq<char> {
    if parts.len() > 1 && parts[0] == "名詞"@ && parts[1] == "一般"@ {
        joined(parts.update(1, "普通名詞"@), ","@)
    } else {
        joined(parts, ","@)
    }
}

fn fix_field_exec(parts: &mut Vec<Vec<char>>, i: usize, p: &str, r: &str)
    ensures
        views(final(parts)@) == fix_field(views(old(parts)@), i as int, p@, r@),
{
    if i < parts.len() {
        let pc = chars_of(p);
        let rc = chars_of(r);
        let f = replace_chars(&parts[i], &pc, &rc);
        let ghost before = views(parts@);
        let ghost fv = f@;
        parts.set(i, f);
        assert(views(parts@) =~= before.update(i as int, fv));
    }
}

/// The taxonomy expression of SudachiDict fields.
pub fn process_sudachi_word_class(word_class: &Vec<String>) -> (r: String)
    ensures
        r@ == sudachi_word_class(texts(word_class@)),
{
    let mut parts = chars_list(word_class);
    fix_field_exec(&mut parts, 0, "補助記号", "記号");
    fix_field_exec(&mut parts, 1, "非自立可能", "非自立");
    fix_field_exec(&mut parts, 4, "下一段", "一段");
    fix_field_exec(&mut parts, 5, "形-", "形,");
    let comma = chars_of(",");
    let joined_parts = join_chars(&parts, &comma);
    let rules = sudachi_rules_exec();
    string_of(&apply_rules(&joined_parts, &rules))
}

/// The taxonomy expression of NEologd fields.
pub fn process_neologd_word_class(word_class: &Vec<String>) -> (r: String)
    ensures
        r@ == neologd_word_class(texts(word_class@)),
{
    let mut parts = chars_list(word_class);
    if parts.len() > 1 && is_text(&word_class[0], "名詞") && is_text(&word_class[1], "一般") {
        let ghost before = views(parts@);
        let common = chars_of("普通名詞");
        let ghost cv = common@;
        parts.set(1, common);
        assert(views(parts@) =~= before.update(1, cv));
    }
    let comma = chars_of(",");
    string_of(&join_chars(&parts, &comma))
}

/// The user label written by Mozc user-dictionary fields: the fields
/// joined without a separator.
pub fn process_mozcuserdict_word_class(parts: &Vec<String>) -> (r: String)
    ensures
        r@ == joined(texts(parts@), ""@),
{
    let cs = chars_list(parts);
    let empty: Vec<char> = Vec::new();
    proof {
        reveal_strlit("");
    }
    assert(empty@ =~= ""@);
    string_of(&join_chars(&cs, &empty))
}

/// The identifier and the state after resolving the part of speech of a
/// record under the configured dialect; the UT dictionary resolves nothing
/// here and gives the default noun identifier.
pub open spec fn word_class_step(args: Config, rec: Seq<Seq<char>>, w: WordClassState) -> (
    i32,
    WordClassState,
) {
    let parts = config_parts(rec, args);
    if args.sudachi {
        resolve_in(w, sudachi_word_class(parts))
    } else if args.neologd {
        resolve_in(w, neologd_word_class(parts))
    } else if args.utdict {
        (w.4, w)
    } else if args.mozcuserdict {
        resolve_in(w, user_expression(w.1, parts))
    } else {
        resolve_in(w, sudachi_word_class(parts))
    }
}

fn literal_id_exec(f: &String, default_noun_id: i32) -> (r: i32)
    ensures
        r == literal_id(f@, default_noun_id),
{
    match parse_i32(f.as_str()) {
        Some(v) => if v == -1 || v == 0 {
            default_noun_id
        } else {
            v
        },
        None => default_noun_id,
    }
}

/// Whether a record is dropped under the UT dictionary rules; the literal
/// identifier of a record that passes the first checks goes to `dict_values`.
pub fn process_utdict_skip(
    args: &Config,
    word_class_values: &mut WordClassValues,
    dict_values: &mut DictValues,
    pronunciation: &str,
    notation: &str,
    word_class: &Vec<String>,
) -> (r: bool)
    ensures
        (r, wcv_view(*final(word_class_values)), dv_view(*final(dict_values))) == utdict_skip_step(
            *args,
            wcv_view(*old(word_class_values)),
            dv_view(*old(dict_values)),
            pronunciation@,
            notation@,
            texts(word_class@),
        ),
{
    if !is_kana(pronunciation) || notation.is_empty() || word_class.len() == 0 {
        return true;
    }
    assert(texts(word_class@)[0] == word_class@[0]@);
    let id = literal_id_exec(&word_class[0], word_class_values.default_noun_id);
    dict_values.word_class_id = id;
    let key = search_key(&word_class_values.id_def, id);
    let latin = is_kigou(notation);
    tagged_skip_decision(args, latin, &key)
}

/// Whether a record is dropped under the Mozc user-dictionary rules; the
/// label is resolved (growing the table) and its identifier goes to
/// `dict_values`.
pub fn process_mozcuserdict_skip(
    args: &Config,
    word_class_values: &mut WordClassValues,
    dict_values: &mut DictValues,
    pronunciation: &str,
    notation: &str,
    word_class: &Vec<String>,
) -> (r: bool)
    ensures
        (r, wcv_view(*final(word_class_values)), dv_view(*final(dict_values)))
            == mozcuserdict_skip_step(
            *args,
            wcv_view(*old(word_class_values)),
            dv_view(*old(dict_values)),
            pronunciation@,
            notation@,
            texts(word_class@),
        ),
{
    if !is_kana(pronunciation) || notation.is_empty() {
        return true;
    }
    let label = process_mozcuserdict_word_class(word_class);
    let expr = get_user_word_class(&word_class_values.mapping, &word_class_values.id_def, label);
    let id = id_expr(
        expr.as_str(),
        &mut word_class_values.id_def,
        &mut word_class_values.class_map,
        word_class_values.default_noun_id,
    );
    dict_values.word_class_id = id;
    let key = search_key(&word_class_values.id_def, id);
    let latin = is_kigou(notation);
    tagged_skip_decision(args, latin, &key)
}

/// Whether a record is dropped, under the rules of the configured dialect.
pub fn skip_analyze(
    record: &Vec<String>,
    args: &Config,
    word_class_values: &mut WordClassValues,
    dict_values: &mut DictValues,
) -> (r: bool)
    ensures
        (r, wcv_view(*final(word_class_values)), dv_view(*final(dict_values))) == skip_step(
            *args,
            texts(record@),
            wcv_view(*old(word_class_values)),
            dv_view(*old(dict_values)),
        ),
{
    let ghost rec = texts(record@);
    if args.pronunciation_index >= record.len() || args.notation_index >= record.len() {
        return false;
    }
    let pronunciation = record[args.pronunciation_index].as_str();
    let notation = record[args.notation_index].as_str();
    assert(rec[args.pronunciation_index as int] == pronunciation@);
    assert(rec[args.notation_index as int] == notation@);
    let parts = word_class_parts(record, args);
    if args.sudachi {
        process_sudachi_skip(args, pronunciation, notation, &parts)
    } else if args.neologd {
        process_neologd_skip(args, pronunciation, notation, &parts)
    } else if args.utdict {
        process_utdict_skip(args, word_class_values, dict_values, pronunciation, notation, &parts)
    } else if args.mozcuserdict {
        process_mozcuserdict_skip(
            args,
            word_class_values,
            dict_values,
            pronunciation,
            notation,
            &parts,
        )
    } else {
        process_sudachi_skip(args, pronunciation, notation, &parts)
    }
}

/// Resolves the part of speech of a record under the configured dialect.
pub fn process_word_class(
    record: &Vec<String>,
    args: &Config,
    word_class_values: &mut WordClassValues,
    dict_values: &mut DictValues,
) -> (r: i32)
    ensures
        (r, wcv_view(*final(word_class_values))) == word_class_step(
            *args,
            texts(record@),
            wcv_view(*old(word_class_values)),
        ),
        dv_view(*final(dict_values)) == dv_view(*old(dict_values)),
{
    let parts = word_class_parts(record, args);
    let processed_class = if args.sudachi {
        process_sudachi_word_class(&parts)
    } else if args.neologd {
        process_neologd_word_class(&parts)
    } else if args.utdict {
        return word_class_values.default_noun_id;
    } else if args.mozcuserdict {
        get_user_word_class(
            &word_class_values.mapping,
            &word_class_values.id_def,
            process_mozcuserdict_word_class(&parts),
        )
    } else {
        process_sudachi_word_class(&parts)
    };
    id_expr(
        processed_class.as_str(),
        &mut word_class_values.id_def,
        &mut word_class_values.class_map,
        word_class_values.default_noun_id,
    )
}

/// The entry of a kept record: its reading in hiragana and its notation,
/// both with escapes decoded, the identifier and the record's cost.
pub open spec fn built_entry(p: Seq<char>, n: Seq<char>, id: i32, cost: i32) -> DictState {
    (unescaped(hiragana_reading(p)), unescaped(n), id, cost)
}

/// The analysis of the generic and SudachiDict adapters: resolve, then drop
/// a place name written as Japanese text unless places are kept.
pub open spec fn sudachi_analyze_step(
    args: Config,
    rec: Seq<Seq<char>>,
    w: WordClassState,
    d: DictState,
) -> (bool, WordClassState, DictState) {
    match (
        field_at(rec, args.pronunciation_index as int),
        field_at(rec, args.notation_index as int),
    ) {
        (Some(p), Some(n)) => {
            let st = word_class_step(args, rec, w);
            if !args.places && contains_seq(key_text(st.1.3, st.0), "地名"@) && regex_found(
                japanese_pattern(),
                n,
            ) {
                (false, st.1, (d.0, d.1, st.0, d.3))
            } else {
                (true, st.1, built_entry(p, n, st.0, record_cost(rec, args.cost_index as int)))
            }
        },
        _ => (false, w, d),
    }
}

/// The analysis of the NEologd adapter: resolve, then drop any place name
/// unless places are kept.
pub open spec fn neologd_analyze_step(
    args: Config,
    rec: Seq<Seq<char>>,
    w: WordClassState,
    d: DictState,
) -> (bool, WordClassState, DictState) {
    match (
        field_at(rec, args.pronunciation_index as int),
        field_at(rec, args.notation_index as int),
    ) {
        (Some(p), Some(n)) => {
            let st = word_class_step(args, rec, w);
            if !args.places && contains_seq(key_text(st.1.3, st.0), "地名"@) {
                (false, st.1, (d.0, d.1, st.0, d.3))
            } else {
                (true, st.1, built_entry(p, n, st.0, record_cost(rec, args.cost_index as int)))
            }
        },
        _ => (false, w, d),
    }
}

/// The analysis of the UT dictionary adapter: the literal identifier's
/// table expression is looked up in the class map (resolved where absent).
pub open spec fn utdict_analyze_step(
    args: Config,
    rec: Seq<Seq<char>>,
    w: WordClassState,
    d: DictState,
) -> (bool, WordClassState, DictState) {
    match (
        field_at(rec, args.word_class_index as int),
        field_at(rec, args.pronunciation_index as int),
        field_at(rec, args.notation_index as int),
    ) {
        (Some(f), Some(p), Some(n)) => {
            let st = lookup_in(w, key_text(w.3, literal_id(f, w.4)));
            (true, st.1, built_entry(p, n, st.0, record_cost(rec, args.cost_index as int)))
        },
        _ => (false, w, d),
    }
}

/// The analysis of the Mozc user-dictionary adapter: resolve, then look the
/// resolved expression up in the class map; the cost is fixed.
pub open spec fn mozcuserdict_analyze_step(
    args: Config,
    rec: Seq<Seq<char>>,
    w: WordClassState,
    d: DictState,
) -> (bool, WordClassState, DictState) {
    let st = word_class_step(args, rec, w);
    match (
        field_at(rec, args.pronunciation_index as int),
        field_at(rec, args.notation_index as int),
    ) {
        (Some(p), Some(n)) => {
            let st2 = lookup_in(st.1, key_text(st.1.3, st.0));
            (true, st2.1, built_entry(p, n, st2.0, adjusted(6000) as i32))
        },
        _ => (false, st.1, (d.0, d.1, st.0, d.3)),
    }
}

fn record_cost_exec(record: &Vec<String>, i: usize) -> (r: i32)
    ensures
        r == record_cost(texts(record@), i as int),
{
    let raw = if i < record.len() {
        assert(texts(record@)[i as int] == record@[i as int]@);
        match parse_i32(record[i].as_str()) {
            Some(v) => v,
            None => DEFAULT_COST,
        }
    } else {
        DEFAULT_COST
    };
    adjust_cost(raw)
}

fn look_up_class(
    word_class_values: &mut WordClassValues,
    key: String,
) -> (r: i32)
    ensures
        (r, wcv_view(*final(word_class_values))) == lookup_in(
            wcv_view(*old(word_class_values)),
            key@,
        ),
{
    let kc = chars_of(key.as_str());
    match find_key(&word_class_values.class_map, &kc) {
        Some(id) => id,
        None => id_expr(
            key.as_str(),
            &mut word_class_values.id_def,
            &mut word_class_values.class_map,
            word_class_values.default_noun_id,
        ),
    }
}

/// Analysis shared by the generic and SudachiDict adapters.
fn sudachi_analyze(
    word_class_values: &mut WordClassValues,
    dict_values: &mut DictValues,
    record: &Vec<String>,
    args: &Config,
) -> (r: bool)
    ensures
        (r, wcv_view(*final(word_class_values)), dv_view(*final(dict_values)))
            == sudachi_analyze_step(
            *args,
            texts(record@),
            wcv_view(*old(word_class_values)),
            dv_view(*old(dict_values)),
        ),
{
    if args.pronunciation_index >= record.len() || args.notation_index >= record.len() {
        return false;
    }
    assert(texts(record@)[args.pronunciation_index as int] == record@[args.pronunciation_index as int]@);
    assert(texts(record@)[args.notation_index as int] == record@[args.notation_index as int]@);
    let pronunciation = convert_to_hiragana(record[args.pronunciation_index].as_str());
    let notation = record[args.notation_index].as_str();
    dict_values.word_class_id = process_word_class(record, args, word_class_values, dict_values);
    if !args.places && has_text(&search_key(&word_class_values.id_def, dict_values.word_class_id), "地名")
        && is_japanese(notation) {
        return false;
    }
    dict_values.pronunciation = unicode_escape_to_char(pronunciation.as_str());
    dict_values.notation = unicode_escape_to_char(notation);
    dict_values.cost = record_cost_exec(record, args.cost_index);
    true
}

impl WordClassValues {
    /// The state is consistent: see `state_wf`.
    pub open spec fn wf(&self) -> bool {
        state_wf(wcv_view(*self))
    }

    /// The taxonomy state at the start of a run: the table and default noun
    /// identifier loaded from the definition rows, the curated mapping with
    /// an empty cache, and an empty class map.
    pub fn load(rows: &Vec<Vec<String>>) -> (r: Result<WordClassValues, IdDefError>)
        ensures
            r is Ok <==> first_bad_row(rows_view(rows@)) == -1,
            r matches Ok(w) ==> w.wf() && text_id_entries(w.id_def) == loaded_entries(
                rows_view(rows@),
            ) && w.default_noun_id == loaded_default(rows_view(rows@)) && text_id_entries(
                w.class_map,
            ).len() == 0 && w.mapping.pairs() == mapping_from(curated_pairs())
                && w.mapping.cache().len() == 0,
            r matches Err(e) ==> e == row_error(rows_view(rows@), first_bad_row(rows_view(rows@))),
    {
        match read_id_def(rows) {
            Ok((id_def, default_noun_id)) => {
                let class_map = text_id_map_new();
                let mapping = create_word_class_mapping();
                let w = WordClassValues { class_map, mapping, id_def, default_noun_id };
                assert(memo_agrees(text_id_entries(w.class_map), text_id_entries(w.id_def)));
                Ok(w)
            },
            Err(e) => Err(e),
        }
    }
}

/// Every step of an adapter keeps the taxonomy state consistent.
pub proof fn lemma_steps_keep_wf(args: Config, rec: Seq<Seq<char>>, w: WordClassState, d: DictState)
    requires
        state_wf(w),
    ensures
        state_wf(skip_step(args, rec, w, d).1),
        state_wf(word_class_step(args, rec, w).1),
        state_wf(sudachi_analyze_step(args, rec, w, d).1),
        state_wf(neologd_analyze_step(args, rec, w, d).1),
        state_wf(utdict_analyze_step(args, rec, w, d).1),
        state_wf(mozcuserdict_analyze_step(args, rec, w, d).1),
{
    let parts = config_parts(rec, args);
    lemma_resolve_in_wf(w, sudachi_word_class(parts));
    lemma_resolve_in_wf(w, neologd_word_class(parts));
    lemma_resolve_in_wf(w, user_expression(w.1, parts));
    if 0 <= args.word_class_index < rec.len() {
        lemma_lookup_in_wf(w, key_text(w.3, literal_id(rec[args.word_class_index as int], w.4)));
    }
    let st = word_class_step(args, rec, w);
    lemma_lookup_in_wf(st.1, key_text(st.1.3, st.0));
}

/// A dialect adapter: which records it drops, and how it analyses a kept
/// one. Its two spec functions state the whole effect of each method on
/// the taxonomy state and on the entry being built.
pub trait DictionaryProcessor {
    /// The decision of `should_skip`, and the state after.
    spec fn skip_spec(
        &self,
        args: Config,
        rec: Seq<Seq<char>>,
        w: WordClassState,
        d: DictState,
    ) -> (bool, WordClassState, DictState);

    /// The result of `word_class_analyze`, and the state after.
    spec fn analyze_spec(
        &self,
        args: Config,
        rec: Seq<Seq<char>>,
        w: WordClassState,
        d: DictState,
    ) -> (bool, WordClassState, DictState);

    /// Whether the record is dropped.
    fn should_skip(
        &self,
        word_class_values: &mut WordClassValues,
        dict_values: &mut DictValues,
        record: &Vec<String>,
        args: &Config,
    ) -> (r: bool)
        requires
            state_wf(wcv_view(*old(word_class_values))),
        ensures
            state_wf(wcv_view(*final(word_class_values))),
            (r, wcv_view(*final(word_class_values)), dv_view(*final(dict_values)))
                == self.skip_spec(
                *args,
                texts(record@),
                wcv_view(*old(word_class_values)),
                dv_view(*old(dict_values)),
            ),
    ;

    /// Analyses a record into `dict_values`; false where it is rejected.
    fn word_class_analyze(
        &self,
        word_class_values: &mut WordClassValues,
        dict_values: &mut DictValues,
        record: &Vec<String>,
        args: &Config,
    ) -> (r: bool)
        requires
            state_wf(wcv_view(*old(word_class_values))),
        ensures
            state_wf(wcv_view(*final(word_class_values))),
            (r, wcv_view(*final(word_class_values)), dv_view(*final(dict_values)))
                == self.analyze_spec(
                *args,
                texts(record@),
                wcv_view(*old(word_class_values)),
                dv_view(*old(dict_values)),
            ),
    ;
}

/// The adapter for the generic format (the SudachiDict rules).
pub struct DefaultProcessor;

impl DictionaryProcessor for DefaultProcessor {
    open spec fn skip_spec(
        &self,
        args: Config,
        rec: Seq<Seq<char>>,
        w: WordClassState,
        d: DictState,
    ) -> (bool, WordClassState, DictState) {
        skip_step(args, rec, w, d)
    }

    open spec fn analyze_spec(
        &self,
        args: Config,
        rec: Seq<Seq<char>>,
        w: WordClassState,
        d: DictState,
    ) -> (bool, WordClassState, DictState) {
        sudachi_analyze_step(args, rec, w, d)
    }

    fn should_skip(
        &self,
        word_class_values: &mut WordClassValues,
        dict_values: &mut DictValues,
        record: &Vec<String>,
        args: &Config,
    ) -> (r: bool) {
        proof {
            lemma_steps_keep_wf(
                *args,
                texts(record@),
                wcv_view(*word_class_values),
                dv_view(*dict_values),
            );
        }
        skip_analyze(record, args, word_class_values, dict_values)
    }

    fn word_class_analyze(
        &self,
        word_class_values: &mut WordClassValues,
        dict_values: &mut DictValues,
        record: &Vec<String>,
        args: &Config,
    ) -> (r: bool) {
        proof {
            lemma_steps_keep_wf(
                *args,
                texts(record@),
                wcv_view(*word_class_values),
                dv_view(*dict_values),
            );
        }
        sudachi_analyze(word_class_values, dict_values, record, args)
    }
}

/// The adapter for SudachiDict.
pub struct SudachiProcessor;

impl DictionaryProcessor for SudachiProcessor {
    open spec fn skip_spec(
        &self,
        args: Config,
        rec: Seq<Seq<char>>,
        w: WordClassState,
        d: DictState,
    ) -> (bool, WordClassState, DictState) {
        skip_step(args, rec, w, d)
    }

    open spec fn analyze_spec(
        &self,
        args: Config,
        rec: Seq<Seq<char>>,
        w: WordClassState,
        d: DictState,
    ) -> (bool, WordClassState, DictState) {
        sudachi_analyze_step(args, rec, w, d)
    }

    fn should_skip(
        &self,
        word_class_values: &mut WordClassValues,
        dict_values: &mut DictValues,
        record: &Vec<String>,
        args: &Config,
    ) -> (r: bool) {
        proof {
            lemma_steps_keep_wf(
                *args,
                texts(record@),
                wcv_view(*word_class_values),
                dv_view(*dict_values),
            );
        }
        skip_analyze(record, args, word_class_values, dict_values)
    }

    fn word_class_analyze(
        &self,
        word_class_values: &mut WordClassValues,
        dict_values: &mut DictValues,
        record: &Vec<String>,
        args: &Config,
    ) -> (r: bool) {
        proof {
            lemma_steps_keep_wf(
                *args,
                texts(record@),
                wcv_view(*word_class_values),
                dv_view(*dict_values),
            );
        }
        sudachi_analyze(word_class_values, dict_values, record, args)
    }
}

/// The adapter for NEologd.
pub struct NeologdProcessor;

impl DictionaryProcessor for NeologdProcessor {
    open spec fn skip_spec(
        &self,
        args: Config,
        rec: Seq<Seq<char>>,
        w: WordClassState,
        d: DictState,
    ) -> (bool, WordClassState, DictState) {
        skip_step(args, rec, w, d)
    }

    open spec fn analyze_spec(
        &self,
        args: Config,
        rec: Seq<Seq<char>>,
        w: WordClassState,
        d: DictState,
    ) -> (bool, WordClassState, DictState) {
        neologd_analyze_step(args, rec, w, d)
    }

    fn should_skip(
        &self,
        word_class_values: &mut WordClassValues,
        dict_values: &mut DictValues,
        record: &Vec<String>,
        args: &Config,
    ) -> (r: bool) {
        proof {
            lemma_steps_keep_wf(
                *args,
                texts(record@),
                wcv_view(*word_class_values),
                dv_view(*dict_values),
            );
        }
        skip_analyze(record, args, word_class_values, dict_values)
    }

    fn word_class_analyze(
        &self,
        word_class_values: &mut WordClassValues,
        dict_values: &mut DictValues,
        record: &Vec<String>,
        args: &Config,
    ) -> (r: bool) {
        proof {
            lemma_steps_keep_wf(
                *args,
                texts(record@),
                wcv_view(*word_class_values),
                dv_view(*dict_values),
            );
        }
        if args.pronunciation_index >= record.len() || args.notation_index >= record.len() {
            return false;
        }
        assert(texts(record@)[args.pronunciation_index as int]
            == record@[args.pronunciation_index as int]@);
        assert(texts(record@)[args.notation_index as int] == record@[args.notation_index as int]@);
        let pronunciation = convert_to_hiragana(record[args.pronunciation_index].as_str());
        let notation = record[args.notation_index].as_str();
        dict_values.word_class_id = process_word_class(record, args, word_class_values, dict_values);
        if !args.places && has_text(
            &search_key(&word_class_values.id_def, dict_values.word_class_id),
            "地名",
        ) {
            return false;
        }
        dict_values.pronunciation = unicode_escape_to_char(pronunciation.as_str());
        dict_values.notation = unicode_escape_to_char(notation);
        dict_values.cost = record_cost_exec(record, args.cost_index);
        true
    }
}

/// The adapter for UT dictionaries, whose part of speech is a literal
/// identifier.
pub struct UtDictProcessor;

impl DictionaryProcessor for UtDictProcessor {
    open spec fn skip_spec(
        &self,
        args: Config,
        rec: Seq<Seq<char>>,
        w: WordClassState,
        d: DictState,
    ) -> (bool, WordClassState, DictState) {
        skip_step(args, rec, w, d)
    }

    open spec fn analyze_spec(
        &self,
        args: Config,
        rec: Seq<Seq<char>>,
        w: WordClassState,
        d: DictState,
    ) -> (bool, WordClassState, DictState) {
        utdict_analyze_step(args, rec, w, d)
    }

    fn should_skip(
        &self,
        word_class_values: &mut WordClassValues,
        dict_values: &mut DictValues,
        record: &Vec<String>,
        args: &Config,
    ) -> (r: bool) {
        proof {
            lemma_steps_keep_wf(
                *args,
                texts(record@),
                wcv_view(*word_class_values),
                dv_view(*dict_values),
            );
        }
        skip_analyze(record, args, word_class_values, dict_values)
    }

    fn word_class_analyze(
        &self,
        word_class_values: &mut WordClassValues,
        dict_values: &mut DictValues,
        record: &Vec<String>,
        args: &Config,
    ) -> (r: bool)
        ensures
            ({
                let w = wcv_view(*old(word_class_values));
                let lit = literal_id(record@[args.word_class_index as int]@, w.4);
                args.word_class_index < record.len() && args.pronunciation_index < record.len()
                    && args.notation_index < record.len() && keys_well_formed(w.3) ==> r
                    && final(dict_values).word_class_id == if first_with_id(w.3, lit) >= 0 {
                    lit
                } else {
                    w.4
                }
            }),
    {
        proof {
            if args.word_class_index < record.len() {
                assert(texts(record@)[args.word_class_index as int]
                    == record@[args.word_class_index as int]@);
                if keys_well_formed(text_id_entries(word_class_values.id_def)) {
                    lemma_lookup_bound_id(
                        wcv_view(*word_class_values),
                        literal_id(record@[args.word_class_index as int]@, word_class_values.default_noun_id),
                    );
                }
            }
        }
        proof {
            lemma_steps_keep_wf(
                *args,
                texts(record@),
                wcv_view(*word_class_values),
                dv_view(*dict_values),
            );
        }
        if args.word_class_index >= record.len() || args.pronunciation_index >= record.len()
            || args.notation_index >= record.len() {
            return false;
        }
        assert(texts(record@)[args.word_class_index as int] == record@[args.word_class_index as int]@);
        assert(texts(record@)[args.pronunciation_index as int]
            == record@[args.pronunciation_index as int]@);
        assert(texts(record@)[args.notation_index as int] == record@[args.notation_index as int]@);
        let word_class_id = literal_id_exec(
            &record[args.word_class_index],
            word_class_values.default_noun_id,
        );
        let pronunciation = convert_to_hiragana(record[args.pronunciation_index].as_str());
        dict_values.pronunciation = unicode_escape_to_char(pronunciation.as_str());
        dict_values.notation = unicode_escape_to_char(record[args.notation_index].as_str());
        let d = search_key(&word_class_values.id_def, word_class_id);
        dict_values.word_class_id = look_up_class(word_class_values, d);
        dict_values.cost = record_cost_exec(record, args.cost_index);
        true
    }
}

/// The adapter for Mozc user dictionaries, whose part of speech is a user
/// label.
pub struct MozcUserDictProcessor;

impl DictionaryProcessor for MozcUserDictProcessor {
    open spec fn skip_spec(
        &self,
        args: Config,
        rec: Seq<Seq<char>>,
        w: WordClassState,
        d: DictState,
    ) -> (bool, WordClassState, DictState) {
        skip_step(args, rec, w, d)
    }

    open spec fn analyze_spec(
        &self,
        args: Config,
        rec: Seq<Seq<char>>,
        w: WordClassState,
        d: DictState,
    ) -> (bool, WordClassState, DictState) {
        mozcuserdict_analyze_step(args, rec, w, d)
    }

    fn should_skip(
        &self,
        word_class_values: &mut WordClassValues,
        dict_values: &mut DictValues,
        record: &Vec<String>,
        args: &Config,
    ) -> (r: bool) {
        proof {
            lemma_steps_keep_wf(
                *args,
                texts(record@),
                wcv_view(*word_class_values),
                dv_view(*dict_values),
            );
        }
        skip_analyze(record, args, word_class_values, dict_values)
    }

    fn word_class_analyze(
        &self,
        word_class_values: &mut WordClassValues,
        dict_values: &mut DictValues,
        record: &Vec<String>,
        args: &Config,
    ) -> (r: bool) {
        proof {
            lemma_steps_keep_wf(
                *args,
                texts(record@),
                wcv_view(*word_class_values),
                dv_view(*dict_values),
            );
        }
        dict_values.word_class_id = process_word_class(record, args, word_class_values, dict_values);
        if args.pronunciation_index >= record.len() || args.notation_index >= record.len() {
            return false;
        }
        assert(texts(record@)[args.pronunciation_index as int]
            == record@[args.pronunciation_index as int]@);
        assert(texts(record@)[args.notation_index as int] == record@[args.notation_index as int]@);
        let pronunciation = convert_to_hiragana(record[args.pronunciation_index].as_str());
        dict_values.pronunciation = unicode_escape_to_char(pronunciation.as_str());
        dict_values.notation = unicode_escape_to_char(record[args.notation_index].as_str());
        let d = search_key(&word_class_values.id_def, dict_values.word_class_id);
        dict_values.word_class_id = look_up_class(word_class_values, d);
        dict_values.cost = adjust_cost(DEFAULT_COST);
        true
    }
}

/// The user label stored with an entry of identifier `id`: the label found
/// for it, or the plain noun label.
pub open spec fn user_label(w: WordClassState, id: i32) -> Seq<char> {
    match label_of_id(w.1, w.2, w.3, id) {
        Some(l) => l,
        None => "名詞"@,
    }
}

/// The taxonomy state with another label cache.
pub open spec fn with_cache(w: WordClassState, c: Seq<(i32, Seq<char>)>) -> WordClassState {
    (w.0, w.1, c, w.3, w.4)
}

/// The key of the entry being built.
pub open spec fn entry_key(d: DictState) -> (Seq<char>, Seq<char>, i32) {
    (d.0, d.1, d.2)
}

/// The cost of the entry being built.
pub open spec fn entry_cost(d: DictState) -> i32 {
    d.3
}

/// Stores the entry being built: with its user label in the user-format
/// entries where the user format is written (looking the label up, which may
/// fill the label cache), else with an empty label in the system-format
/// entries.
pub fn add_dict_data(
    word_class_values: &mut WordClassValues,
    dict_values: &DictValues,
    dict_data: &mut DictionaryData,
    args: &Config,
)
    ensures
        args.user_dict ==> final(dict_data).entries_of(true) == inserted(
            old(dict_data).entries_of(true),
            entry_key(dv_view(*dict_values)),
            (dict_values.cost, user_label(wcv_view(*old(word_class_values)), dict_values.word_class_id)),
        ),
        args.user_dict ==> final(dict_data).entries_of(false) == old(dict_data).entries_of(false),
        args.user_dict ==> wcv_view(*final(word_class_values)) == with_cache(
            wcv_view(*old(word_class_values)),
            cache_after(
                old(word_class_values).mapping.pairs(),
                old(word_class_values).mapping.cache(),
                text_id_entries(old(word_class_values).id_def),
                dict_values.word_class_id,
            ),
        ),
        !args.user_dict ==> final(dict_data).entries_of(false) == inserted(
            old(dict_data).entries_of(false),
            entry_key(dv_view(*dict_values)),
            (dict_values.cost, ""@),
        ),
        !args.user_dict ==> final(dict_data).entries_of(true) == old(dict_data).entries_of(true),
        !args.user_dict ==> wcv_view(*final(word_class_values)) == wcv_view(*old(word_class_values)),
{
    let key = DictionaryKey {
        pronunciation: dict_values.pronunciation.clone(),
        notation: dict_values.notation.clone(),
        word_class_id: dict_values.word_class_id,
    };
    if args.user_dict {
        let word_class = match get_user_word_class_by_id(
            &mut word_class_values.mapping,
            &word_class_values.id_def,
            dict_values.word_class_id,
        ) {
            Some(label) => label,
            None => "名詞".to_owned(),
        };
        dict_data.add(DictionaryEntry { key, cost: dict_values.cost, word_class }, true);
    } else {
        dict_data.add(
            DictionaryEntry { key, cost: dict_values.cost, word_class: "".to_owned() },
            false,
        );
    }
}

/// What the adapter makes of a record before storing: whether it is kept,
/// and the state after the skip check and (for a record not dropped) the
/// analysis.
pub open spec fn kept_after<P: DictionaryProcessor>(
    processor: P,
    args: Config,
    rec: Seq<Seq<char>>,
    w: WordClassState,
    d: DictState,
) -> (bool, WordClassState, DictState) {
    let s = processor.skip_spec(args, rec, w, d);
    if s.0 {
        (false, s.1, s.2)
    } else {
        processor.analyze_spec(args, rec, s.1, s.2)
    }
}

/// Processes one record: a record that the adapter neither drops nor
/// rejects is stored.
pub fn process_record<P: DictionaryProcessor>(
    processor: &P,
    dict_data: &mut DictionaryData,
    args: &Config,
    word_class_values: &mut WordClassValues,
    dict_values: &mut DictValues,
    data: &Vec<String>,
)
    requires
        state_wf(wcv_view(*old(word_class_values))),
    ensures
        state_wf(wcv_view(*final(word_class_values))),
        ({
            let k = kept_after(
                *processor,
                *args,
                texts(data@),
                wcv_view(*old(word_class_values)),
                dv_view(*old(dict_values)),
            );
            &&& dv_view(*final(dict_values)) == k.2
            &&& !k.0 ==> wcv_view(*final(word_class_values)) == k.1
            &&& !k.0 ==> final(dict_data).entries_of(true) == old(dict_data).entries_of(true)
            &&& !k.0 ==> final(dict_data).entries_of(false) == old(dict_data).entries_of(false)
            &&& k.0 && args.user_dict ==> final(dict_data).entries_of(true) == inserted(
                old(dict_data).entries_of(true),
                entry_key(k.2),
                (entry_cost(k.2), user_label(k.1, entry_key(k.2).2)),
            )
            &&& k.0 && args.user_dict ==> final(dict_data).entries_of(false) == old(
                dict_data,
            ).entries_of(false)
            &&& k.0 && args.user_dict ==> wcv_view(*final(word_class_values)) == with_cache(
                k.1,
                cache_after(k.1.1, k.1.2, k.1.3, entry_key(k.2).2),
            )
            &&& k.0 && !args.user_dict ==> final(dict_data).entries_of(false) == inserted(
                old(dict_data).entries_of(false),
                entry_key(k.2),
                (entry_cost(k.2), ""@),
            )
            &&& k.0 && !args.user_dict ==> final(dict_data).entries_of(true) == old(
                dict_data,
            ).entries_of(true)
            &&& k.0 && !args.user_dict ==> wcv_view(*final(word_class_values)) == k.1
        }),
{
    if !processor.should_skip(word_class_values, dict_values, data, args)
        && processor.word_class_analyze(word_class_values, dict_values, data, args) {
        add_dict_data(word_class_values, dict_values, dict_data, args);
    }
}

/// The delimiter byte that a delimiter setting names.
pub open spec fn delimiter_byte(s: Seq<char>) -> u8 {
    if s == "TAB"@ || s == "t"@ || s == "\\t"@ || s == "\t"@ {
        9
    } else if s == ","@ {
        44
    } else if s == ";"@ {
        59
    } else if s == " "@ {
        32
    } else if s.len() == 1 {
        ((s[0] as u32) % 256) as u8
    } else {
        44
    }
}

/// The delimiter byte that a delimiter setting names: a tab for `TAB`, `t`,
/// a backslash-t or a tab; the byte of any other single character (its code
/// modulo 256); a comma for anything longer.
pub fn parse_delimiter(s: &str, args: &Config) -> (r: u8)
    ensures
        r == delimiter_byte(s@),
{
    let t = s.to_owned();
    if is_text(&t, "TAB") || is_text(&t, "t") || is_text(&t, "\\t") || is_text(&t, "\t") {
        9
    } else if is_text(&t, ",") {
        44
    } else if is_text(&t, ";") {
        59
    } else if is_text(&t, " ") {
        32
    } else {
        let chars = chars_of(s);
        if chars.len() == 1 {
            let code = chars[0] as u32;
            (code % 256) as u8
        } else {
            44
        }
    }
}

} // verus!
