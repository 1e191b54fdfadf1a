//! The taxonomy table and its resolver: a part-of-speech expression is
//! resolved to a taxonomy identifier by exact lookup or, failing that, by
//! the best fuzzy score over the table; every resolution is remembered in
//! the table.
use vstd::prelude::*;
use crate::ordered::{
    index_of_key, inserted, keys_unique, lemma_index_of_key, lemma_inserted_unique, text_id_entries, text_id_map_get_index,
    text_id_map_insert, text_id_map_len, TextIdMap,
};
use crate::text::{
    chars_of, contains_chars, contains_seq, join_chars, joined, same_chars, split_chars, split_on,
    string_of, views,
};

verus! {

/// The wildcard field.
pub open spec fn star() -> Seq<char> {
    "*"@
}

/// The major class of verbs.
pub open spec fn verb_label() -> Seq<char> {
    "動詞"@
}

/// A matched field that earns no point: the table side is the generic
/// label, or the expression side is one of the three generic sub-labels.
pub open spec fn earns_no_point(k: Seq<char>, e: Seq<char>) -> bool {
    k == "一般"@ || e == "接尾"@ || e == "自立"@ || e == "非自立"@
}

/// The verb conjugation categories.
pub open spec fn verb_categories() -> Seq<Seq<char>> {
    seq!["五段"@, "一段"@, "四段"@, "カ変"@, "サ変"@, "ラ変"@]
}

/// The verb row keywords.
pub open spec fn verb_rows() -> Seq<Seq<char>> {
    seq!["カ行"@, "ガ行"@, "サ行"@, "タ行"@, "ナ行"@, "バ行"@, "マ行"@, "ラ行"@, "ワ行"@]
}

/// The fields of an expression.
pub open spec fn fields_of(s: Seq<char>) -> Seq<Seq<char>> {
    split_on(s, ',')
}

/// Fields right-padded with wildcards to at least seven.
pub open spec fn padded(f: Seq<Seq<char>>) -> Seq<Seq<char>>
    decreases 7 - f.len(),
{
    if f.len() >= 7 {
        f
    } else {
        padded(f.push(star()))
    }
}

/// Padding leaves at least seven fields, exactly seven where there were no
/// more, and keeps the fields there were.
pub proof fn lemma_padded_fields(f: Seq<Seq<char>>)
    ensures
        padded(f).len() >= 7,
        f.len() <= 7 ==> padded(f).len() == 7,
        padded(f).take(f.len() as int) == f,
    decreases 7 - f.len(),
{
    if f.len() < 7 {
        lemma_padded_fields(f.push(star()));
        assert(padded(f).take(f.len() as int) =~= f.push(star()).take(f.len() as int));
        assert(f.push(star()).take(f.len() as int) =~= f);
    } else {
        assert(f.take(f.len() as int) =~= f);
    }
}

/// The first index at or after `from` whose field is `x`, or -1.
pub open spec fn first_from(k: Seq<Seq<char>>, x: Seq<char>, from: int) -> int
    decreases k.len() - from,
{
    if from < 0 || from >= k.len() {
        -1
    } else if k[from] == x {
        from
    } else {
        first_from(k, x, from + 1)
    }
}

/// The positional score of the expression fields `e` from index `ei`
/// against the table fields `k` from index `ki`.
pub open spec fn scan(e: Seq<Seq<char>>, k: Seq<Seq<char>>, ei: int, ki: int) -> int
    decreases e.len() - ei, k.len() - ki,
{
    if ei < 0 || ki < 0 || ei >= e.len() || ki >= k.len() {
        0
    } else if k[ki] == star() && e[ei] == star() {
        scan(e, k, ei + 1, ki + 1)
    } else if k[ki] == star() {
        scan(e, k, ei, ki + 1)
    } else if e[ei] == star() {
        scan(e, k, ei + 1, ki)
    } else if e[ei] == k[ki] {
        (if earns_no_point(k[ki], e[ei]) {
            0int
        } else {
            1int
        }) + scan(e, k, ei + 1, ki + 1)
    } else {
        let j = first_from(k, e[ei], ki);
        if j < 0 {
            0
        } else {
            1 + scan(e, k, ei + 1, j + 1)
        }
    }
}

/// Some keyword of `words` occurs in both `a` and `b`.
pub open spec fn shares_keyword(words: Seq<Seq<char>>, a: Seq<char>, b: Seq<char>) -> bool {
    exists|i: int| 0 <= i < words.len() && contains_seq(a, words[i]) && contains_seq(b, words[i])
}

/// The field at index 4 (the conjugation type), or the empty text.
pub open spec fn conjugation(f: Seq<Seq<char>>) -> Seq<char> {
    if f.len() > 4 {
        f[4]
    } else {
        Seq::empty()
    }
}

/// The extra points of a verb expression `e` against table fields `k`.
pub open spec fn verb_bonus(e: Seq<Seq<char>>, k: Seq<Seq<char>>) -> int {
    if e.len() > 0 && e[0] == verb_label() {
        let vt = conjugation(e);
        let kt = conjugation(k);
        if kt != "一般"@ && vt == kt {
            2
        } else {
            (if shares_keyword(verb_categories(), vt, kt) {
                1int
            } else {
                0int
            }) + (if shares_keyword(verb_rows(), vt, kt) {
                1int
            } else {
                0int
            })
        }
    } else {
        0
    }
}

/// The score of the expression fields `e` against the table expression `key`.
pub open spec fn score(e: Seq<Seq<char>>, key: Seq<char>) -> int {
    scan(e, fields_of(key), 0, 0) + verb_bonus(e, fields_of(key))
}

/// The best `(score, id)` over the first entries of a table: the first entry
/// with the highest positive score wins; `(0, -1)` where none scores.
pub open spec fn best_of(t: Seq<(Seq<char>, i32)>, e: Seq<Seq<char>>) -> (int, i32)
    decreases t.len(),
{
    if t.len() == 0 {
        (0, -1i32)
    } else {
        let prev = best_of(t.drop_last(), e);
        let sc = score(e, t.last().0);
        if sc > prev.0 {
            (sc, t.last().1)
        } else {
            prev
        }
    }
}

/// An expression right-padded to seven fields.
pub open spec fn normalized(s: Seq<char>) -> Seq<char> {
    joined(padded(fields_of(s)), ","@)
}

/// The identifier that the expression `s` resolves to against the table
/// entries `t`.
pub open spec fn resolved(t: Seq<(Seq<char>, i32)>, s: Seq<char>, default_noun_id: i32) -> i32 {
    let n = normalized(s);
    let j = index_of_key(t, n);
    if j >= 0 {
        t[j].1
    } else {
        let b = best_of(t, padded(fields_of(s)));
        if b.1 == -1 {
            default_noun_id
        } else {
            b.1
        }
    }
}

/// The table entries after resolving `s`: a new expression is remembered
/// with its identifier, a known one leaves the table as it was.
pub open spec fn table_after(t: Seq<(Seq<char>, i32)>, s: Seq<char>, default_noun_id: i32) -> Seq<
    (Seq<char>, i32),
> {
    if index_of_key(t, normalized(s)) >= 0 {
        t
    } else {
        t.push((normalized(s), resolved(t, s, default_noun_id)))
    }
}

/// The fixed labels and keyword lists the scorer compares against.
pub(crate) struct Vocabulary {
    pub(crate) star: Vec<char>,
    pub(crate) general: Vec<char>,
    pub(crate) suffix: Vec<char>,
    pub(crate) independent: Vec<char>,
    pub(crate) dependent: Vec<char>,
    pub(crate) verb: Vec<char>,
    pub(crate) categories: Vec<Vec<char>>,
    pub(crate) rows: Vec<Vec<char>>,
}

impl Vocabulary {
    pub(crate) open spec fn wf(&self) -> bool {
        &&& self.star@ == star()
        &&& self.general@ == "一般"@
        &&& self.suffix@ == "接尾"@
        &&& self.independent@ == "自立"@
        &&& self.dependent@ == "非自立"@
        &&& self.verb@ == verb_label()
        &&& views(self.categories@) == verb_categories()
        &&& views(self.rows@) == verb_rows()
    }

    pub(crate) fn new() -> (w: Self)
        ensures
            w.wf(),
    {
        let categories = vec![
            chars_of("五段"),
            chars_of("一段"),
            chars_of("四段"),
            chars_of("カ変"),
            chars_of("サ変"),
            chars_of("ラ変"),
        ];
        let rows = vec![
            chars_of("カ行"),
            chars_of("ガ行"),
            chars_of("サ行"),
            chars_of("タ行"),
            chars_of("ナ行"),
            chars_of("バ行"),
            chars_of("マ行"),
            chars_of("ラ行"),
            chars_of("ワ行"),
        ];
        assert(views(categories@) =~= verb_categories());
        assert(views(rows@) =~= verb_rows());
        Vocabulary {
            star: chars_of("*"),
            general: chars_of("一般"),
            suffix: chars_of("接尾"),
            independent: chars_of("自立"),
            dependent: chars_of("非自立"),
            verb: chars_of("動詞"),
            categories,
            rows,
        }
    }
}

pub proof fn lemma_first_from(k: Seq<Seq<char>>, x: Seq<char>, from: int)
    requires
        0 <= from,
    ensures
        first_from(k, x, from) == -1 || (from <= first_from(k, x, from) < k.len() && k[first_from(
            k,
            x,
            from,
        )] == x),
    decreases k.len() - from,
{
    if from < k.len() && k[from] != x {
        lemma_first_from(k, x, from + 1);
    }
}

/// The first index at or after `from` whose field is `x`; `k.len()` where
/// there is none.
fn first_from_exec(k: &Vec<Vec<char>>, x: &Vec<char>, from: usize) -> (r: usize)
    requires
        from <= k.len(),
    ensures
        r <= k.len(),
        r < k.len() ==> r as int == first_from(views(k@), x@, from as int),
        r == k.len() ==> first_from(views(k@), x@, from as int) == -1,
{
    let mut i = from;
    while i < k.len()
        invariant
            from <= i <= k.len(),
            first_from(views(k@), x@, from as int) == first_from(views(k@), x@, i as int),
        decreases k.len() - i,
    {
        if same_chars(&k[i], x) {
            return i;
        }
        i = i + 1;
    }
    i
}

/// The positional score of `e` against `k`.
fn scan_exec(e: &Vec<Vec<char>>, k: &Vec<Vec<char>>, w: &Vocabulary) -> (r: usize)
    requires
        w.wf(),
    ensures
        r == scan(views(e@), views(k@), 0, 0),
{
    let ghost ev = views(e@);
    let ghost kv = views(k@);
    let mut count: usize = 0;
    let mut ei: usize = 0;
    let mut ki: usize = 0;
    let mut done = false;
    while !done && ei < e.len() && ki < k.len()
        invariant
            w.wf(),
            ev == views(e@),
            kv == views(k@),
            ei <= e.len(),
            ki <= k.len(),
            count <= ei,
            scan(ev, kv, 0, 0) == count + scan(ev, kv, ei as int, ki as int),
            done ==> scan(ev, kv, ei as int, ki as int) == 0,
        decreases (e.len() - ei) + (k.len() - ki) + (if done {
            0int
        } else {
            1int
        }),
    {
        let k_star = same_chars(&k[ki], &w.star);
        let e_star = same_chars(&e[ei], &w.star);
        if k_star && e_star {
            ei = ei + 1;
            ki = ki + 1;
        } else if k_star {
            ki = ki + 1;
        } else if e_star {
            ei = ei + 1;
        } else if same_chars(&e[ei], &k[ki]) {
            let no_point = same_chars(&k[ki], &w.general) || same_chars(&e[ei], &w.suffix)
                || same_chars(&e[ei], &w.independent) || same_chars(&e[ei], &w.dependent);
            if !no_point {
                count = count + 1;
            }
            ei = ei + 1;
            ki = ki + 1;
        } else {
            let j = first_from_exec(k, &e[ei], ki);
            proof {
                lemma_first_from(kv, ev[ei as int], ki as int);
            }
            if j == k.len() {
                done = true;
            } else {
                count = count + 1;
                ei = ei + 1;
                ki = j + 1;
            }
        }
    }
    count
}

/// Whether some keyword occurs in both `a` and `b`.
fn shares_keyword_exec(words: &Vec<Vec<char>>, a: &Vec<char>, b: &Vec<char>) -> (r: bool)
    ensures
        r == shares_keyword(views(words@), a@, b@),
{
    let mut i: usize = 0;
    while i < words.len()
        invariant
            i <= words.len(),
            forall|j: int|
                0 <= j < i ==> !(contains_seq(a@, views(words@)[j]) && contains_seq(
                    b@,
                    views(words@)[j],
                )),
        decreases words.len() - i,
    {
        if contains_chars(a, &words[i]) && contains_chars(b, &words[i]) {
            assert(views(words@)[i as int] == words@[i as int]@);
            return true;
        }
        i = i + 1;
    }
    false
}

/// The extra points of a verb expression.
fn verb_bonus_exec(e: &Vec<Vec<char>>, k: &Vec<Vec<char>>, w: &Vocabulary) -> (r: usize)
    requires
        w.wf(),
    ensures
        r == verb_bonus(views(e@), views(k@)),
        r <= 2,
{
    if e.len() == 0 || !same_chars(&e[0], &w.verb) {
        return 0;
    }
    let empty: Vec<char> = Vec::new();
    let vt = if e.len() > 4 {
        &e[4]
    } else {
        &empty
    };
    let kt = if k.len() > 4 {
        &k[4]
    } else {
        &empty
    };
    assert(vt@ == conjugation(views(e@)));
    assert(kt@ == conjugation(views(k@)));
    if !same_chars(kt, &w.general) && same_chars(vt, kt) {
        return 2;
    }
    let mut bonus: usize = 0;
    if shares_keyword_exec(&w.categories, vt, kt) {
        bonus = bonus + 1;
    }
    if shares_keyword_exec(&w.rows, vt, kt) {
        bonus = bonus + 1;
    }
    bonus
}

/// The score of the expression fields `e` against the table expression `key`.
fn score_exec(e: &Vec<Vec<char>>, key: &String, w: &Vocabulary) -> (r: u128)
    requires
        w.wf(),
    ensures
        r == score(views(e@), key@),
{
    let kc = chars_of(key.as_str());
    let k = split_chars(&kc, ',');
    let s = scan_exec(e, &k, w);
    let b = verb_bonus_exec(e, &k, w);
    s as u128 + b as u128
}

/// The index of the entry with key `key`, found by a scan in insertion
/// order.
pub(crate) fn find_key(m: &TextIdMap, key: &Vec<char>) -> (r: Option<i32>)
    ensures
        r is Some <==> index_of_key(text_id_entries(*m), key@) >= 0,
        r matches Some(v) ==> v == text_id_entries(*m)[index_of_key(
            text_id_entries(*m),
            key@,
        )].1,
{
    let ghost t = text_id_entries(*m);
    proof {
        lemma_index_of_key(t, key@);
    }
    let n = text_id_map_len(m);
    for i in 0..n
        invariant
            n == t.len(),
            t == text_id_entries(*m),
            forall|j: int| 0 <= j < i ==> t[j].0 != key@,
            -1 <= index_of_key(t, key@) < t.len(),
            index_of_key(t, key@) >= 0 ==> t[index_of_key(t, key@)].0 == key@,
            index_of_key(t, key@) >= 0 ==> forall|j: int|
                0 <= j < index_of_key(t, key@) ==> t[j].0 != key@,
            index_of_key(t, key@) < 0 ==> forall|j: int| 0 <= j < t.len() ==> t[j].0 != key@,
    {
        let entry = text_id_map_get_index(m, i);
        match entry {
            Some((k, v)) => {
                let kc = chars_of(k.as_str());
                if same_chars(&kc, key) {
                    return Some(*v);
                }
            },
            None => {},
        }
    }
    None
}

/// The fields of `s`, right-padded with wildcards to at least seven.
fn padded_fields(s: &Vec<char>, w: &Vocabulary) -> (r: Vec<Vec<char>>)
    requires
        w.wf(),
    ensures
        views(r@) == padded(fields_of(s@)),
        r@.len() >= 7,
{
    let mut f = split_chars(s, ',');
    while f.len() < 7
        invariant
            w.wf(),
            padded(views(f@)) == padded(fields_of(s@)),
        decreases 7 - f.len(),
    {
        let ghost before = views(f@);
        f.push(w.star.clone());
        assert(views(f@) =~= before.push(star()));
    }
    f
}

/// Every expression of the memo `cm` is a key of the table `t` bound to the
/// same identifier.
pub open spec fn memo_agrees(cm: Seq<(Seq<char>, i32)>, t: Seq<(Seq<char>, i32)>) -> bool {
    forall|i: int|
        0 <= i < cm.len() ==> index_of_key(t, #[trigger] cm[i].0) >= 0 && t[index_of_key(
            t,
            cm[i].0,
        )].1 == cm[i].1
}

/// Resolution keeps the table's keys unique and the memo in agreement with
/// the table.
pub proof fn lemma_resolve_keeps_agreement(
    t: Seq<(Seq<char>, i32)>,
    cm: Seq<(Seq<char>, i32)>,
    s: Seq<char>,
    default_noun_id: i32,
)
    requires
        keys_unique(t),
        memo_agrees(cm, t),
    ensures
        keys_unique(table_after(t, s, default_noun_id)),
        memo_agrees(
            inserted(cm, normalized(s), resolved(t, s, default_noun_id)),
            table_after(t, s, default_noun_id),
        ),
{
    let n = normalized(s);
    let r = resolved(t, s, default_noun_id);
    let t2 = table_after(t, s, default_noun_id);
    let cm2 = inserted(cm, n, r);
    lemma_index_of_key(t, n);
    lemma_index_of_key(cm, n);
    if index_of_key(t, n) < 0 {
        lemma_inserted_unique(t, n, r);
        assert(t2 == inserted(t, n, r));
        assert(t2.drop_last() =~= t);
    }
    assert(index_of_key(t2, n) >= 0 && t2[index_of_key(t2, n)].1 == r);
    assert forall|k: Seq<char>| index_of_key(t, k) >= 0 implies index_of_key(t2, k) == index_of_key(
        t,
        k,
    ) && t2[index_of_key(t2, k)] == t[index_of_key(t, k)] by {
        lemma_index_of_key(t, k);
        if index_of_key(t, n) < 0 {
            assert(t2.drop_last() =~= t);
            assert(t2 == t.push((n, r)));
            assert(index_of_key(t2, k) == index_of_key(t2.drop_last(), k));
        } else {
            assert(t2 == t);
        }
    }
    assert forall|i: int| 0 <= i < cm2.len() implies index_of_key(t2, #[trigger] cm2[i].0) >= 0
        && t2[index_of_key(t2, cm2[i].0)].1 == cm2[i].1 by {
        if i < cm.len() && cm2[i] == cm[i] {
            assert(index_of_key(t, cm[i].0) >= 0);
        }
    }
}

/// Resolves a part-of-speech expression to a taxonomy identifier.
///
/// The expression is right-padded to seven fields. An expression that is
/// already a key of `id_def` gives that key's identifier. Any other gives the
/// identifier of the first entry with the highest positive score, or
/// `default_noun_id` where no entry scores; it is then remembered in
/// `id_def`. Either way `class_map` records the expression with the result.
pub fn id_expr(
    clsexpr: &str,
    id_def: &mut TextIdMap,
    class_map: &mut TextIdMap,
    default_noun_id: i32,
) -> (r: i32)
    ensures
        r == resolved(text_id_entries(*old(id_def)), clsexpr@, default_noun_id),
        text_id_entries(*final(id_def)) == table_after(
            text_id_entries(*old(id_def)),
            clsexpr@,
            default_noun_id,
        ),
        text_id_entries(*final(class_map)) == inserted(
            text_id_entries(*old(class_map)),
            normalized(clsexpr@),
            r,
        ),
        keys_unique(text_id_entries(*old(id_def))) && memo_agrees(
            text_id_entries(*old(class_map)),
            text_id_entries(*old(id_def)),
        ) ==> keys_unique(text_id_entries(*final(id_def))) && memo_agrees(
            text_id_entries(*final(class_map)),
            text_id_entries(*final(id_def)),
        ),
{
    proof {
        if keys_unique(text_id_entries(*id_def)) && memo_agrees(
            text_id_entries(*class_map),
            text_id_entries(*id_def),
        ) {
            lemma_resolve_keeps_agreement(
                text_id_entries(*id_def),
                text_id_entries(*class_map),
                clsexpr@,
                default_noun_id,
            );
        }
    }
    let w = Vocabulary::new();
    let ghost t = text_id_entries(*id_def);
    let s = chars_of(clsexpr);
    let expr = padded_fields(&s, &w);
    let comma = vec![','];
    proof {
        reveal_strlit(",");
    }
    assert(comma@ =~= ","@);
    let norm = join_chars(&expr, &comma);
    assert(norm@ == normalized(clsexpr@));
    if let Some(id) = find_key(id_def, &norm) {
        text_id_map_insert(class_map, string_of(&norm), id);
        return id;
    }
    let n = text_id_map_len(id_def);
    let mut best_score: u128 = 0;
    let mut best_id: i32 = -1;
    for i in 0..n
        invariant
            w.wf(),
            n == t.len(),
            t == text_id_entries(*id_def),
            views(expr@) == padded(fields_of(clsexpr@)),
            (best_score as int, best_id) == best_of(t.take(i as int), views(expr@)),
    {
        assert(t.take(i as int + 1).drop_last() =~= t.take(i as int));
        let entry = text_id_map_get_index(id_def, i);
        match entry {
            Some((k, v)) => {
                let sc = score_exec(&expr, k, &w);
                if sc > best_score {
                    best_score = sc;
                    best_id = *v;
                }
            },
            None => {},
        }
    }
    assert(t.take(n as int) =~= t);
    let result = if best_id == -1 {
        default_noun_id
    } else {
        best_id
    };
    text_id_map_insert(id_def, string_of(&norm), result);
    text_id_map_insert(class_map, string_of(&norm), result);
    result
}

/// Resolving an expression a second time, against the table that the first
/// resolution left behind, gives the same identifier and leaves that table
/// as it is.
pub proof fn lemma_resolve_idempotent(t: Seq<(Seq<char>, i32)>, s: Seq<char>, default_noun_id: i32)
    ensures
        resolved(table_after(t, s, default_noun_id), s, default_noun_id) == resolved(
            t,
            s,
            default_noun_id,
        ),
        table_after(table_after(t, s, default_noun_id), s, default_noun_id) == table_after(
            t,
            s,
            default_noun_id,
        ),
{
    let n = normalized(s);
    if index_of_key(t, n) < 0 {
        let t2 = table_after(t, s, default_noun_id);
        assert(t2.drop_last() =~= t);
        assert(index_of_key(t2, n) == t.len());
    }
}

pub proof fn lemma_best_of_none(t: Seq<(Seq<char>, i32)>, e: Seq<Seq<char>>)
    requires
        forall|i: int| 0 <= i < t.len() ==> score(e, #[trigger] t[i].0) <= 0,
    ensures
        best_of(t, e) == (0int, -1i32),
    decreases t.len(),
{
    if t.len() > 0 {
        let p = t.drop_last();
        assert forall|i: int| 0 <= i < p.len() implies score(e, #[trigger] p[i].0) <= 0 by {
            assert(p[i] == t[i]);
        }
        lemma_best_of_none(p, e);
        assert(score(e, t[t.len() - 1].0) <= 0);
    }
}

/// An expression that is not a key of the table, and against which no entry
/// scores above zero, resolves to the default noun identifier.
pub proof fn lemma_unrelated_resolves_to_default(
    t: Seq<(Seq<char>, i32)>,
    s: Seq<char>,
    default_noun_id: i32,
)
    requires
        index_of_key(t, normalized(s)) < 0,
        forall|i: int| 0 <= i < t.len() ==> score(padded(fields_of(s)), #[trigger] t[i].0) <= 0,
    ensures
        resolved(t, s, default_noun_id) == default_noun_id,
{
    lemma_best_of_none(t, padded(fields_of(s)));
}

} // verus!
