//! User-facing word classes: the curated association of labels with
//! taxonomy expressions, the lookup from a label to its first expression,
//! and the classification of a taxonomy identifier into a label.
use vstd::prelude::*;
use crate::ordered::{
    id_text_entries, id_text_map_get, id_text_map_insert, id_text_map_new, index_of_key, inserted,
    IdTextMap, text_id_entries, text_id_map_get_index, text_id_map_len, text_text_entries,
    text_text_map_get_index, text_text_map_insert, text_text_map_len, text_text_map_new,
    TextIdMap, TextTextMap,
};
use crate::taxonomy::{conjugation, fields_of, star, verb_categories, verb_label, Vocabulary};
use crate::text::{
    chars_of, contains_chars, contains_seq, rule, rule_views, same_chars, split_chars, string_of,
    views,
};

verus! {

/// The curated (label, expression) pairs, in the order they are added.
pub open spec fn curated_pairs() -> Seq<(Seq<char>, Seq<char>)> {
    seq![
        ("名詞"@, "名詞,普通名詞,一般,*,*,*,*"@),
        ("名詞"@, "名詞,一般,*,*,*,*"@),
        ("名詞"@, "名詞,普通名詞,*,*,*,*,*"@),
        ("名詞"@, "名詞,代名詞,一般,*,*,*,*"@),
        ("固有名詞"@, "名詞,固有名詞,*,*,*,*,*"@),
        ("固有名詞"@, "名詞,固有名詞,一般,*,*,*,*"@),
        ("接尾人名"@, "接尾辞,人名,*,*,*,*,*"@),
        ("接尾人名"@, "接尾辞,人名,*,*,*,*,女史"@),
        ("接尾地名"@, "接尾辞,地名,*,*,*,*,*"@),
        ("接尾一般"@, "名詞,接尾,一般,*,*,*,*"@),
        ("地名"@, "名詞,固有名詞,地名,一般,*,*,*"@),
        ("地名"@, "名詞,固有名詞,地域,一般,*,*,*"@),
        ("地名"@, "名詞,接尾,地域,*,*,*,*"@),
        ("地名"@, "名詞,固有名詞,国,*,*,*,*"@),
        ("組織"@, "名詞,固有名詞,組織,*,*,*,*"@),
        ("人名"@, "名詞,固有名詞,人名,一般,*,*,*"@),
        ("名"@, "名詞,固有名詞,人名,名,*,*,*"@),
        ("姓"@, "名詞,固有名詞,人名,姓,*,*,*"@),
        ("動詞一段"@, "動詞,一般,*,*,一段,*,*"@),
        ("動詞サ変"@, "動詞,一般,*,*,サ変,*,*"@),
        ("動詞カ変"@, "動詞,一般,*,*,カ変,*,*"@),
        ("動詞ラ変"@, "動詞,自立,*,*,ラ変,*,*"@),
        ("動詞カ行五段"@, "動詞,一般,*,*,五段,カ行,*,*"@),
        ("動詞カ行五段"@, "動詞,一般,*,*,五段・カ行,*,*"@),
        ("動詞サ行五段"@, "動詞,一般,*,*,五段,サ行,*,*"@),
        ("動詞サ行五段"@, "動詞,一般,*,*,五段・サ行,*,*"@),
        ("動詞タ行五段"@, "動詞,一般,*,*,五段,タ行,*,*"@),
        ("動詞タ行五段"@, "動詞,一般,*,*,五段・タ行,*,*"@),
        ("動詞ナ行五段"@, "動詞,一般,*,*,五段,ナ行,*,*"@),
        ("動詞ナ行五段"@, "動詞,一般,*,*,五段・ナ行,*,*"@),
        ("動詞ハ行四段"@, "動詞,非自立,*,*,四段,ハ行,*,*"@),
        ("動詞ハ行四段"@, "動詞,非自立,*,*,四段・ハ行,*,*"@),
        ("動詞マ行五段"@, "動詞,一般,*,*,五段,マ行,*,*"@),
        ("動詞マ行五段"@, "動詞,一般,*,*,五段・マ行,*,*"@),
        ("動詞ラ行五段"@, "動詞,一般,*,*,五段,ラ行,*,*"@),
        ("動詞ラ行五段"@, "動詞,一般,*,*,五段・ラ行,*,*"@),
        ("動詞ガ行五段"@, "動詞,一般,*,*,五段,ガ行,*,*"@),
        ("動詞ガ行五段"@, "動詞,一般,*,*,五段・ガ行,*,*"@),
        ("動詞バ行五段"@, "動詞,一般,*,*,五段,バ行,*,*"@),
        ("動詞バ行五段"@, "動詞,一般,*,*,五段・バ行,*,*"@),
        ("動詞ワ行五段"@, "動詞,自立,*,*,五段,ワ行,*,*"@),
        ("動詞ワ行五段"@, "動詞,自立,*,*,五段・ワ行,*,*"@),
        ("名詞サ変"@, "名詞,普通名詞,サ変,可能,*,*,*"@),
        ("名詞サ変"@, "名詞,普通名詞,サ変,接続,*,*,*"@),
        ("名詞サ変"@, "名詞,普通名詞,サ変可能,*,*,*"@),
        ("名詞サ変"@, "名詞,普通名詞,サ変接続,*,*,*"@),
        ("名詞サ変"@, "名詞,サ変,可能,*,*,*"@),
        ("名詞サ変"@, "名詞,サ変,接続,*,*,*"@),
        ("名詞サ変"@, "名詞,サ変接続,*,*,*"@),
        ("名詞サ変"@, "名詞,サ変可能,*,*,*"@),
        ("形容詞"@, "形容詞,接尾,*,*,*,文語基本形,*"@),
        ("形容詞"@, "形容詞,一般,*,*,形容詞,*,*"@),
        ("形容詞"@, "形容詞,一般,*,*,*,*,*"@),
        ("感動詞"@, "感動詞,一般,*,*,*,*,*"@),
        ("感動詞"@, "感動詞,*,*,*,*,*,*"@),
        ("助動詞"@, "助動詞,一般,*,*,*,*,*"@),
        ("助動詞"@, "助動詞,*,*,*,*,*,*"@),
        ("終助詞"@, "助詞,終助詞,*,*,*,*,*"@),
        ("終助詞"@, "助詞,*,*,*,*,*,*"@),
        ("数"@, "名詞,数詞,*,*,*,*,*"@),
        ("助数詞"@, "名詞,普通名詞,助数詞可能,*,*,*"@),
        ("助数詞"@, "接尾辞,名詞的,助数詞,*,*,*,*"@),
        ("接続詞"@, "接続詞,*,*,*,*,*,*"@),
        ("接頭語"@, "接頭辞,*,*,*,*,*,*"@),
        ("副詞"@, "副詞,一般,*,*,*,*,*"@),
        ("副詞"@, "名詞,接尾,副詞可能,*,*,*,*"@),
        ("副詞"@, "接尾辞,名詞的,副詞可能,*,*,*,*"@),
        ("副詞"@, "副詞,*,*,*,*,*,*"@),
        ("形容詞"@, "形容詞,*,*,*,*,*,*"@),
        ("記号"@, "記号,*,*,*,*,*,*"@),
        ("記号"@, "補助記号,*,*,*,*,*,*"@),
        ("名詞形動"@, "名詞,形容動詞語幹,*,*,*,*,*"@),
        ("名詞形動"@, "形状詞,一般,*,*,*,*,*"@),
        ("名詞形動"@, "形状詞,*,*,*,*,*,*"@),
        ("接頭語"@, "形状詞,タリ,*,*,*,*,*"@),
        ("接尾一般"@, "接尾辞,名詞的,一般,*,*,*,*"@),
        ("接尾一般"@, "接尾辞,動詞的,*,*,*,*,*"@),
        ("接尾一般"@, "接尾辞,形状詞的,*,*,*,*,*"@),
        ("接尾一般"@, "接尾辞,*,*,*,*,*,*"@),
        ("形容詞"@, "接尾辞,形状詞的,*,*,*,*,*"@),
        ("連体詞"@, "連体詞,*,*,*,*,*,*"@),
        ("動詞"@, "動詞,*,*,*,*,*,*"@),
        ("フィラー"@, "感動詞,フィラー,*,*,*,*,*"@),
        ("BOS/EOS"@, "BOS/EOS,*,*,*,*,*,*"@),
        ("その他"@, "その他,*,*,*,*,*,*"@),
        ("その他"@, "その他,間投,*,*,*,*"@),
    ]
}

/// The entries (expression, label) of a mapping made by adding `pairs` in
/// order: a repeated expression keeps its place and takes the later label.
pub open spec fn mapping_from(pairs: Seq<(Seq<char>, Seq<char>)>) -> Seq<(Seq<char>, Seq<char>)>
    decreases pairs.len(),
{
    if pairs.len() == 0 {
        Seq::empty()
    } else {
        inserted(mapping_from(pairs.drop_last()), pairs.last().1, pairs.last().0)
    }
}

/// The index of the first entry whose label is `label`, or -1.
pub open spec fn first_with_label(e: Seq<(Seq<char>, Seq<char>)>, label: Seq<char>) -> int
    decreases e.len(),
{
    if e.len() == 0 {
        -1
    } else if first_with_label(e.drop_last(), label) >= 0 {
        first_with_label(e.drop_last(), label)
    } else if e.last().1 == label {
        e.len() - 1
    } else {
        -1
    }
}

/// The expression that a label stands for: the first curated expression
/// with that label, or the generic noun.
pub open spec fn expression_for_label(e: Seq<(Seq<char>, Seq<char>)>, label: Seq<char>) -> Seq<char> {
    let j = first_with_label(e, label);
    if j >= 0 {
        e[j].0
    } else {
        "名詞,一般,*,*,*,*,*"@
    }
}

/// The index of the first table entry with identifier `id`, or -1.
pub open spec fn first_with_id(t: Seq<(Seq<char>, i32)>, id: i32) -> int
    decreases t.len(),
{
    if t.len() == 0 {
        -1
    } else if first_with_id(t.drop_last(), id) >= 0 {
        first_with_id(t.drop_last(), id)
    } else if t.last().1 == id {
        t.len() - 1
    } else {
        -1
    }
}

pub proof fn lemma_first_with_id(t: Seq<(Seq<char>, i32)>, id: i32)
    ensures
        -1 <= first_with_id(t, id) < t.len(),
        first_with_id(t, id) >= 0 ==> t[first_with_id(t, id)].1 == id,
        first_with_id(t, id) < 0 ==> forall|i: int| 0 <= i < t.len() ==> t[i].1 != id,
    decreases t.len(),
{
    if t.len() > 0 {
        lemma_first_with_id(t.drop_last(), id);
        assert forall|i: int| 0 <= i < t.len() - 1 implies t.drop_last()[i] == t[i] by {}
    }
}

/// The positional score of the fields `a` against the curated fields `b`
/// from index `i`: a field that equals, contains or is contained in the
/// curated one earns a point, two wildcards pass, anything else stops.
pub open spec fn zip_score(a: Seq<Seq<char>>, b: Seq<Seq<char>>, i: int) -> int
    decreases a.len() - i,
{
    if i < 0 || i >= a.len() || i >= b.len() {
        0
    } else if b[i] != star() && a[i] == b[i] {
        1 + zip_score(a, b, i + 1)
    } else if b[i] != star() && (contains_seq(a[i], b[i]) || contains_seq(b[i], a[i])) {
        1 + zip_score(a, b, i + 1)
    } else if b[i] == star() && a[i] == star() {
        zip_score(a, b, i + 1)
    } else {
        0
    }
}

/// Some field of `b` contains `c`.
pub open spec fn some_field_contains(b: Seq<Seq<char>>, c: Seq<char>) -> bool {
    exists|j: int| 0 <= j < b.len() && contains_seq(b[j], c)
}

/// The extra point of a verb: a conjugation category found in the verb's
/// conjugation type and in some curated field.
pub open spec fn label_bonus(a: Seq<Seq<char>>, b: Seq<Seq<char>>) -> int {
    if a.len() > 0 && a[0] == verb_label() && exists|c: int|
        0 <= c < verb_categories().len() && contains_seq(conjugation(a), verb_categories()[c])
            && some_field_contains(b, verb_categories()[c]) {
        1
    } else {
        0
    }
}

/// The score of the fields `a` against the curated expression `key`.
pub open spec fn label_score(a: Seq<Seq<char>>, key: Seq<char>) -> int {
    zip_score(a, fields_of(key), 0) + label_bonus(a, fields_of(key))
}

/// The best (score, label) over the curated entries: the first entry with
/// the highest score wins.
pub open spec fn best_label(e: Seq<(Seq<char>, Seq<char>)>, a: Seq<Seq<char>>) -> Option<
    (int, Seq<char>),
>
    decreases e.len(),
{
    if e.len() == 0 {
        None
    } else {
        let prev = best_label(e.drop_last(), a);
        let sc = label_score(a, e.last().0);
        match prev {
            None => Some((sc, e.last().1)),
            Some(b) => if sc > b.0 {
                Some((sc, e.last().1))
            } else {
                prev
            },
        }
    }
}

/// The index of the first curated entry whose expression has the symbol
/// major class, or -1.
pub open spec fn first_symbol(e: Seq<(Seq<char>, Seq<char>)>) -> int
    decreases e.len(),
{
    if e.len() == 0 {
        -1
    } else if first_symbol(e.drop_last()) >= 0 {
        first_symbol(e.drop_last())
    } else if fields_of(e.last().0)[0] == "記号"@ {
        e.len() - 1
    } else {
        -1
    }
}

/// The label of a taxonomy expression: for a symbol, the label of the first
/// curated symbol expression; otherwise the best-scoring curated label.
pub open spec fn classified(e: Seq<(Seq<char>, Seq<char>)>, expr: Seq<char>) -> Option<Seq<char>> {
    let a = fields_of(expr);
    if a[0] == "記号"@ || a[0] == "補助記号"@ {
        if first_symbol(e) >= 0 {
            Some(e[first_symbol(e)].1)
        } else {
            None
        }
    } else {
        match best_label(e, a) {
            Some(b) => Some(b.1),
            None => None,
        }
    }
}

/// The label of identifier `id`: the cached one, else the label of the
/// first table expression bound to `id`; `None` where no expression is.
pub open spec fn label_of_id(
    e: Seq<(Seq<char>, Seq<char>)>,
    cache: Seq<(i32, Seq<char>)>,
    t: Seq<(Seq<char>, i32)>,
    id: i32,
) -> Option<Seq<char>> {
    if index_of_key(cache, id) >= 0 {
        Some(cache[index_of_key(cache, id)].1)
    } else if first_with_id(t, id) >= 0 {
        classified(e, t[first_with_id(t, id)].0)
    } else {
        None
    }
}

/// The cache after looking up `id`: a label found without the cache is
/// remembered.
pub open spec fn cache_after(
    e: Seq<(Seq<char>, Seq<char>)>,
    cache: Seq<(i32, Seq<char>)>,
    t: Seq<(Seq<char>, i32)>,
    id: i32,
) -> Seq<(i32, Seq<char>)> {
    match label_of_id(e, cache, t, id) {
        Some(l) => if index_of_key(cache, id) >= 0 {
            cache
        } else {
            inserted(cache, id, l)
        },
        None => cache,
    }
}

/// The curated association of taxonomy expressions with user labels, and
/// the cache of labels found for identifiers.
pub struct WordClassMapping {
    id_def_to_user: TextTextMap,
    id_to_user_word_class_cache: IdTextMap,
}

impl WordClassMapping {
    /// The (expression, label) entries, in insertion order.
    pub closed spec fn pairs(&self) -> Seq<(Seq<char>, Seq<char>)> {
        text_text_entries(self.id_def_to_user)
    }

    /// The (identifier, label) entries of the cache.
    pub closed spec fn cache(&self) -> Seq<(i32, Seq<char>)> {
        id_text_entries(self.id_to_user_word_class_cache)
    }

    /// An empty mapping with an empty cache.
    pub fn new() -> (r: Self)
        ensures
            r.pairs() == Seq::<(Seq<char>, Seq<char>)>::empty(),
            r.cache() == Seq::<(i32, Seq<char>)>::empty(),
    {
        WordClassMapping {
            id_def_to_user: text_text_map_new(),
            id_to_user_word_class_cache: id_text_map_new(),
        }
    }

    /// Associates the taxonomy expression `id_def_word_class` with the label
    /// `user_word_class`.
    pub fn add_mapping(&mut self, user_word_class: &str, id_def_word_class: &str)
        ensures
            final(self).pairs() == inserted(
                old(self).pairs(),
                id_def_word_class@,
                user_word_class@,
            ),
            final(self).cache() == old(self).cache(),
    {
        text_text_map_insert(
            &mut self.id_def_to_user,
            id_def_word_class.to_owned(),
            user_word_class.to_owned(),
        );
    }

    /// The first expression associated with the label, if any.
    pub fn get_first_id_def(&self, user_word_class: &String) -> (r: Option<String>)
        ensures
            r is Some <==> first_with_label(self.pairs(), user_word_class@) >= 0,
            r matches Some(x) ==> x@ == self.pairs()[first_with_label(
                self.pairs(),
                user_word_class@,
            )].0,
    {
        let ghost e = self.pairs();
        let n = text_text_map_len(&self.id_def_to_user);
        for i in 0..n
            invariant
                n == e.len(),
                e == self.pairs(),
                first_with_label(e.take(i as int), user_word_class@) == -1,
        {
            assert(e.take(i as int + 1).drop_last() =~= e.take(i as int));
            if let Some((k, v)) = text_text_map_get_index(&self.id_def_to_user, i) {
                if v.eq(user_word_class) {
                    assert(e.take(i as int + 1).last() == e[i as int]);
                    proof {
                        lemma_first_with_label_prefix(e, i as int + 1, user_word_class@);
                    }
                    return Some(k.clone());
                }
            }
        }
        assert(e.take(n as int) =~= e);
        None
    }
}

proof fn lemma_first_with_label_prefix(e: Seq<(Seq<char>, Seq<char>)>, n: int, label: Seq<char>)
    requires
        0 <= n <= e.len(),
        first_with_label(e.take(n), label) >= 0,
    ensures
        first_with_label(e, label) == first_with_label(e.take(n), label),
    decreases e.len() - n,
{
    if n < e.len() {
        assert(e.take(n + 1).drop_last() =~= e.take(n));
        lemma_first_with_label_prefix(e, n + 1, label);
    } else {
        assert(e.take(n) =~= e);
    }
}

/// The curated mapping.
pub fn create_word_class_mapping() -> (r: WordClassMapping)
    ensures
        r.pairs() == mapping_from(curated_pairs()),
        r.cache() == Seq::<(i32, Seq<char>)>::empty(),
{
    let pairs = vec![
        rule("名詞", "名詞,普通名詞,一般,*,*,*,*"),
        rule("名詞", "名詞,一般,*,*,*,*"),
        rule("名詞", "名詞,普通名詞,*,*,*,*,*"),
        rule("名詞", "名詞,代名詞,一般,*,*,*,*"),
        rule("固有名詞", "名詞,固有名詞,*,*,*,*,*"),
        rule("固有名詞", "名詞,固有名詞,一般,*,*,*,*"),
        rule("接尾人名", "接尾辞,人名,*,*,*,*,*"),
        rule("接尾人名", "接尾辞,人名,*,*,*,*,女史"),
        rule("接尾地名", "接尾辞,地名,*,*,*,*,*"),
        rule("接尾一般", "名詞,接尾,一般,*,*,*,*"),
        rule("地名", "名詞,固有名詞,地名,一般,*,*,*"),
        rule("地名", "名詞,固有名詞,地域,一般,*,*,*"),
        rule("地名", "名詞,接尾,地域,*,*,*,*"),
        rule("地名", "名詞,固有名詞,国,*,*,*,*"),
        rule("組織", "名詞,固有名詞,組織,*,*,*,*"),
        rule("人名", "名詞,固有名詞,人名,一般,*,*,*"),
        rule("名", "名詞,固有名詞,人名,名,*,*,*"),
        rule("姓", "名詞,固有名詞,人名,姓,*,*,*"),
        rule("動詞一段", "動詞,一般,*,*,一段,*,*"),
        rule("動詞サ変", "動詞,一般,*,*,サ変,*,*"),
        rule("動詞カ変", "動詞,一般,*,*,カ変,*,*"),
        rule("動詞ラ変", "動詞,自立,*,*,ラ変,*,*"),
        rule("動詞カ行五段", "動詞,一般,*,*,五段,カ行,*,*"),
        rule("動詞カ行五段", "動詞,一般,*,*,五段・カ行,*,*"),
        rule("動詞サ行五段", "動詞,一般,*,*,五段,サ行,*,*"),
        rule("動詞サ行五段", "動詞,一般,*,*,五段・サ行,*,*"),
        rule("動詞タ行五段", "動詞,一般,*,*,五段,タ行,*,*"),
        rule("動詞タ行五段", "動詞,一般,*,*,五段・タ行,*,*"),
        rule("動詞ナ行五段", "動詞,一般,*,*,五段,ナ行,*,*"),
        rule("動詞ナ行五段", "動詞,一般,*,*,五段・ナ行,*,*"),
        rule("動詞ハ行四段", "動詞,非自立,*,*,四段,ハ行,*,*"),
        rule("動詞ハ行四段", "動詞,非自立,*,*,四段・ハ行,*,*"),
        rule("動詞マ行五段", "動詞,一般,*,*,五段,マ行,*,*"),
        rule("動詞マ行五段", "動詞,一般,*,*,五段・マ行,*,*"),
        rule("動詞ラ行五段", "動詞,一般,*,*,五段,ラ行,*,*"),
        rule("動詞ラ行五段", "動詞,一般,*,*,五段・ラ行,*,*"),
        rule("動詞ガ行五段", "動詞,一般,*,*,五段,ガ行,*,*"),
        rule("動詞ガ行五段", "動詞,一般,*,*,五段・ガ行,*,*"),
        rule("動詞バ行五段", "動詞,一般,*,*,五段,バ行,*,*"),
        rule("動詞バ行五段", "動詞,一般,*,*,五段・バ行,*,*"),
        rule("動詞ワ行五段", "動詞,自立,*,*,五段,ワ行,*,*"),
        rule("動詞ワ行五段", "動詞,自立,*,*,五段・ワ行,*,*"),
        rule("名詞サ変", "名詞,普通名詞,サ変,可能,*,*,*"),
        rule("名詞サ変", "名詞,普通名詞,サ変,接続,*,*,*"),
        rule("名詞サ変", "名詞,普通名詞,サ変可能,*,*,*"),
        rule("名詞サ変", "名詞,普通名詞,サ変接続,*,*,*"),
        rule("名詞サ変", "名詞,サ変,可能,*,*,*"),
        rule("名詞サ変", "名詞,サ変,接続,*,*,*"),
        rule("名詞サ変", "名詞,サ変接続,*,*,*"),
        rule("名詞サ変", "名詞,サ変可能,*,*,*"),
        rule("形容詞", "形容詞,接尾,*,*,*,文語基本形,*"),
        rule("形容詞", "形容詞,一般,*,*,形容詞,*,*"),
        rule("形容詞", "形容詞,一般,*,*,*,*,*"),
        rule("感動詞", "感動詞,一般,*,*,*,*,*"),
        rule("感動詞", "感動詞,*,*,*,*,*,*"),
        rule("助動詞", "助動詞,一般,*,*,*,*,*"),
        rule("助動詞", "助動詞,*,*,*,*,*,*"),
        rule("終助詞", "助詞,終助詞,*,*,*,*,*"),
        rule("終助詞", "助詞,*,*,*,*,*,*"),
        rule("数", "名詞,数詞,*,*,*,*,*"),
        rule("助数詞", "名詞,普通名詞,助数詞可能,*,*,*"),
        rule("助数詞", "接尾辞,名詞的,助数詞,*,*,*,*"),
        rule("接続詞", "接続詞,*,*,*,*,*,*"),
        rule("接頭語", "接頭辞,*,*,*,*,*,*"),
        rule("副詞", "副詞,一般,*,*,*,*,*"),
        rule("副詞", "名詞,接尾,副詞可能,*,*,*,*"),
        rule("副詞", "接尾辞,名詞的,副詞可能,*,*,*,*"),
        rule("副詞", "副詞,*,*,*,*,*,*"),
        rule("形容詞", "形容詞,*,*,*,*,*,*"),
        rule("記号", "記号,*,*,*,*,*,*"),
        rule("記号", "補助記号,*,*,*,*,*,*"),
        rule("名詞形動", "名詞,形容動詞語幹,*,*,*,*,*"),
        rule("名詞形動", "形状詞,一般,*,*,*,*,*"),
        rule("名詞形動", "形状詞,*,*,*,*,*,*"),
        rule("接頭語", "形状詞,タリ,*,*,*,*,*"),
        rule("接尾一般", "接尾辞,名詞的,一般,*,*,*,*"),
        rule("接尾一般", "接尾辞,動詞的,*,*,*,*,*"),
        rule("接尾一般", "接尾辞,形状詞的,*,*,*,*,*"),
        rule("接尾一般", "接尾辞,*,*,*,*,*,*"),
        rule("形容詞", "接尾辞,形状詞的,*,*,*,*,*"),
        rule("連体詞", "連体詞,*,*,*,*,*,*"),
        rule("動詞", "動詞,*,*,*,*,*,*"),
        rule("フィラー", "感動詞,フィラー,*,*,*,*,*"),
        rule("BOS/EOS", "BOS/EOS,*,*,*,*,*,*"),
        rule("その他", "その他,*,*,*,*,*,*"),
        rule("その他", "その他,間投,*,*,*,*"),
    ];
    assert(rule_views(pairs@) =~= curated_pairs());
    let mut mapping = WordClassMapping::new();
    for i in 0..pairs.len()
        invariant
            rule_views(pairs@) == curated_pairs(),
            mapping.pairs() == mapping_from(curated_pairs().take(i as int)),
            mapping.cache() == Seq::<(i32, Seq<char>)>::empty(),
    {
        assert(curated_pairs().take(i as int + 1).drop_last() =~= curated_pairs().take(i as int));
        let label = string_of(&pairs[i].0);
        let expr = string_of(&pairs[i].1);
        mapping.add_mapping(label.as_str(), expr.as_str());
    }
    assert(curated_pairs().take(pairs.len() as int) =~= curated_pairs());
    mapping
}

/// The expression that the label stands for: the first curated expression
/// with that label, or the generic noun where there is none.
pub fn get_user_word_class(mapping: &WordClassMapping, id_def: &TextIdMap, user_word_class: String) -> (r: String)
    ensures
        r@ == expression_for_label(mapping.pairs(), user_word_class@),
{
    match mapping.get_first_id_def(&user_word_class) {
        Some(class) => class,
        None => "名詞,一般,*,*,*,*,*".to_owned(),
    }
}

/// The positional score of `a` against the curated fields `b`.
fn zip_score_exec(a: &Vec<Vec<char>>, b: &Vec<Vec<char>>, w: &Vocabulary) -> (r: usize)
    requires
        w.wf(),
    ensures
        r == zip_score(views(a@), views(b@), 0),
{
    let ghost av = views(a@);
    let ghost bv = views(b@);
    let mut count: usize = 0;
    let mut i: usize = 0;
    let mut done = false;
    while !done && i < a.len() && i < b.len()
        invariant
            w.wf(),
            av == views(a@),
            bv == views(b@),
            i <= a.len(),
            count <= i,
            zip_score(av, bv, 0) == count + zip_score(av, bv, i as int),
            done ==> zip_score(av, bv, i as int) == 0,
        decreases a.len() - i + (if done {
            0int
        } else {
            1int
        }),
    {
        let b_star = same_chars(&b[i], &w.star);
        if !b_star && same_chars(&a[i], &b[i]) {
            count = count + 1;
            i = i + 1;
        } else if !b_star && (contains_chars(&a[i], &b[i]) || contains_chars(&b[i], &a[i])) {
            count = count + 1;
            i = i + 1;
        } else if b_star && same_chars(&a[i], &w.star) {
            i = i + 1;
        } else {
            done = true;
        }
    }
    count
}

/// Whether some field of `b` contains `c`.
fn some_field_contains_exec(b: &Vec<Vec<char>>, c: &Vec<char>) -> (r: bool)
    ensures
        r == some_field_contains(views(b@), c@),
{
    let mut j: usize = 0;
    while j < b.len()
        invariant
            j <= b.len(),
            forall|k: int| 0 <= k < j ==> !contains_seq(views(b@)[k], c@),
        decreases b.len() - j,
    {
        if contains_chars(&b[j], c) {
            assert(views(b@)[j as int] == b@[j as int]@);
            return true;
        }
        j = j + 1;
    }
    false
}

/// The extra point of a verb.
fn label_bonus_exec(a: &Vec<Vec<char>>, b: &Vec<Vec<char>>, w: &Vocabulary) -> (r: usize)
    requires
        w.wf(),
    ensures
        r == label_bonus(views(a@), views(b@)),
        r <= 1,
{
    if a.len() == 0 || !same_chars(&a[0], &w.verb) {
        return 0;
    }
    let empty: Vec<char> = Vec::new();
    let vt = if a.len() > 4 {
        &a[4]
    } else {
        &empty
    };
    assert(vt@ == conjugation(views(a@)));
    assert(views(a@)[0] == a@[0]@);
    assert(views(a@)[0] == verb_label());
    let mut c: usize = 0;
    while c < w.categories.len()
        invariant
            w.wf(),
            c <= w.categories.len(),
            vt@ == conjugation(views(a@)),
            views(a@).len() > 0 && views(a@)[0] == verb_label(),
            forall|k: int|
                0 <= k < c ==> !(contains_seq(vt@, verb_categories()[k]) && some_field_contains(
                    views(b@),
                    verb_categories()[k],
                )),
        decreases w.categories.len() - c,
    {
        assert(views(w.categories@)[c as int] == w.categories@[c as int]@);
        if contains_chars(vt, &w.categories[c]) && some_field_contains_exec(b, &w.categories[c]) {
            assert(0 <= c < verb_categories().len() && contains_seq(
                conjugation(views(a@)),
                verb_categories()[c as int],
            ) && some_field_contains(views(b@), verb_categories()[c as int]));
            return 1;
        }
        c = c + 1;
    }
    0
}

/// The curated label of a taxonomy expression.
fn classify(m: &TextTextMap, expr: &String, w: &Vocabulary) -> (r: Option<String>)
    requires
        w.wf(),
    ensures
        r is Some <==> classified(text_text_entries(*m), expr@) is Some,
        r matches Some(x) ==> x@ == classified(text_text_entries(*m), expr@)->0,
{
    let ghost e = text_text_entries(*m);
    let ec = chars_of(expr.as_str());
    let a = split_chars(&ec, ',');
    proof {
        crate::text::lemma_split_nonempty(ec@, ',');
    }
    let symbol = chars_of("記号");
    let aux_symbol = chars_of("補助記号");
    let n = text_text_map_len(m);
    assert(views(a@)[0] == a@[0]@);
    if same_chars(&a[0], &symbol) || same_chars(&a[0], &aux_symbol) {
        assert(fields_of(expr@)[0] == "記号"@ || fields_of(expr@)[0] == "補助記号"@);
        for i in 0..n
            invariant
                fields_of(expr@)[0] == "記号"@ || fields_of(expr@)[0] == "補助記号"@,
                n == e.len(),
                e == text_text_entries(*m),
                symbol@ == "記号"@,
                first_symbol(e.take(i as int)) == -1,
        {
            assert(e.take(i as int + 1).drop_last() =~= e.take(i as int));
            if let Some((k, v)) = text_text_map_get_index(m, i) {
                let kc = chars_of(k.as_str());
                let kp = split_chars(&kc, ',');
                proof {
                    crate::text::lemma_split_nonempty(kc@, ',');
                }
                if same_chars(&kp[0], &symbol) {
                    assert(e.take(i as int + 1).last() == e[i as int]);
                    assert(views(kp@)[0] == kp@[0]@);
                    proof {
                        lemma_first_symbol_prefix(e, i as int + 1);
                    }
                    return Some(v.clone());
                }
            }
        }
        assert(e.take(n as int) =~= e);
        return None;
    }
    assert(!(fields_of(expr@)[0] == "記号"@ || fields_of(expr@)[0] == "補助記号"@));
    let mut best_score: u128 = 0;
    let mut best: Option<String> = None;
    for i in 0..n
        invariant
            w.wf(),
            n == e.len(),
            e == text_text_entries(*m),
            views(a@) == fields_of(expr@),
            !(fields_of(expr@)[0] == "記号"@ || fields_of(expr@)[0] == "補助記号"@),
            best is Some <==> best_label(e.take(i as int), views(a@)) is Some,
            best matches Some(x) ==> x@ == (best_label(e.take(i as int), views(a@))->0).1
                && best_score == (best_label(e.take(i as int), views(a@))->0).0,
    {
        assert(e.take(i as int + 1).drop_last() =~= e.take(i as int));
        if let Some((k, v)) = text_text_map_get_index(m, i) {
            let kc = chars_of(k.as_str());
            let kp = split_chars(&kc, ',');
            let zs = zip_score_exec(&a, &kp, w);
            let bonus = label_bonus_exec(&a, &kp, w);
            proof {
                lemma_zip_bound(views(a@), views(kp@), 0);
            }
            let sc = zs as u128 + bonus as u128;
            if best.is_none() || sc > best_score {
                best_score = sc;
                best = Some(v.clone());
            }
        }
    }
    assert(e.take(n as int) =~= e);
    best
}

proof fn lemma_zip_bound(a: Seq<Seq<char>>, b: Seq<Seq<char>>, i: int)
    requires
        0 <= i,
    ensures
        0 <= zip_score(a, b, i) <= if i <= a.len() {
            a.len() - i
        } else {
            0
        },
    decreases a.len() - i,
{
    if i < a.len() && i < b.len() {
        lemma_zip_bound(a, b, i + 1);
    }
}

proof fn lemma_first_symbol_prefix(e: Seq<(Seq<char>, Seq<char>)>, n: int)
    requires
        0 <= n <= e.len(),
        first_symbol(e.take(n)) >= 0,
    ensures
        first_symbol(e) == first_symbol(e.take(n)),
    decreases e.len() - n,
{
    if n < e.len() {
        assert(e.take(n + 1).drop_last() =~= e.take(n));
        lemma_first_symbol_prefix(e, n + 1);
    } else {
        assert(e.take(n) =~= e);
    }
}

proof fn lemma_first_with_id_prefix(t: Seq<(Seq<char>, i32)>, n: int, id: i32)
    requires
        0 <= n <= t.len(),
        first_with_id(t.take(n), id) >= 0,
    ensures
        first_with_id(t, id) == first_with_id(t.take(n), id),
    decreases t.len() - n,
{
    if n < t.len() {
        assert(t.take(n + 1).drop_last() =~= t.take(n));
        lemma_first_with_id_prefix(t, n + 1, id);
    } else {
        assert(t.take(n) =~= t);
    }
}

/// The first table expression bound to `id`, if any.
pub fn search_expression(def: &TextIdMap, id: i32) -> (r: Option<String>)
    ensures
        r is Some <==> first_with_id(text_id_entries(*def), id) >= 0,
        r matches Some(x) ==> x@ == text_id_entries(*def)[first_with_id(
            text_id_entries(*def),
            id,
        )].0,
{
    let ghost t = text_id_entries(*def);
    let n = text_id_map_len(def);
    for i in 0..n
        invariant
            n == t.len(),
            t == text_id_entries(*def),
            first_with_id(t.take(i as int), id) == -1,
    {
        assert(t.take(i as int + 1).drop_last() =~= t.take(i as int));
        if let Some((k, v)) = text_id_map_get_index(def, i) {
            if *v == id {
                proof {
                    lemma_first_with_id_prefix(t, i as int + 1, id);
                }
                return Some(k.clone());
            }
        }
    }
    assert(t.take(n as int) =~= t);
    None
}

/// The text of the first table expression bound to `id`, or the empty text.
pub open spec fn key_text(t: Seq<(Seq<char>, i32)>, id: i32) -> Seq<char> {
    if first_with_id(t, id) >= 0 {
        t[first_with_id(t, id)].0
    } else {
        Seq::empty()
    }
}

/// The first table expression bound to `search`, or the empty text.
pub fn search_key(def: &TextIdMap, search: i32) -> (r: String)
    ensures
        r@ == key_text(text_id_entries(*def), search),
{
    match search_expression(def, search) {
        Some(k) => k,
        None => String::new(),
    }
}

/// The user label of a taxonomy identifier: the cached label, else the
/// label of the first table expression bound to the identifier, found by
/// the curated scorer and then cached; `None` where no expression is bound
/// to the identifier.
pub fn get_user_word_class_by_id(
    mapping: &mut WordClassMapping,
    id_def: &TextIdMap,
    word_class_id: i32,
) -> (r: Option<String>)
    ensures
        r is Some <==> label_of_id(
            old(mapping).pairs(),
            old(mapping).cache(),
            text_id_entries(*id_def),
            word_class_id,
        ) is Some,
        r matches Some(x) ==> x@ == label_of_id(
            old(mapping).pairs(),
            old(mapping).cache(),
            text_id_entries(*id_def),
            word_class_id,
        )->0,
        final(mapping).pairs() == old(mapping).pairs(),
        final(mapping).cache() == cache_after(
            old(mapping).pairs(),
            old(mapping).cache(),
            text_id_entries(*id_def),
            word_class_id,
        ),
{
    if let Some(cached) = id_text_map_get(&mapping.id_to_user_word_class_cache, &word_class_id) {
        return Some(cached.clone());
    }
    let w = Vocabulary::new();
    let result = match search_expression(id_def, word_class_id) {
        Some(expr) => classify(&mapping.id_def_to_user, &expr, &w),
        None => None,
    };
    if let Some(word_class) = &result {
        id_text_map_insert(&mut mapping.id_to_user_word_class_cache, word_class_id, word_class.clone());
    }
    result
}

} // verus!
