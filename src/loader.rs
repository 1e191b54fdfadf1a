//! Loading of the taxonomy definition: each row holds an identifier and an
//! expression in a possibly legacy spelling, which is rewritten into the
//! canonical vocabulary before it enters the table.
use vstd::prelude::*;
use crate::convert::{parse_i32, parsed_i32};
use crate::ordered::{inserted, keys_unique, lemma_inserted_unique, TextIdMap, text_id_entries, text_id_map_insert, text_id_map_new};
use crate::patterns::{regex_replace_all, regex_replaced};
use crate::text::{apply_rules, chars_of, rewritten, rule, rule_views, string_of, texts};

verus! {

/// Why a definition could not be loaded.
#[derive(Debug, PartialEq, Eq, Structural, Clone, Copy)]
pub enum IdDefError {
    /// The row at this index has fewer than two fields.
    MissingField { row: usize },
    /// The first field of the row at this index is not an `i32`.
    InvalidId { row: usize },
}

/// The literal rewrites from legacy spellings to the canonical vocabulary,
/// applied in this order.
pub open spec fn legacy_rules() -> Seq<(Seq<char>, Seq<char>)> {
    seq![
        ("名詞,一般,*,"@, "名詞,普通名詞,一般,"@),
        ("名詞,数,"@, "名詞,数詞,"@),
        ("名詞,接尾,助数詞,"@, "名詞,普通名詞,助数詞可能,"@),
        ("名詞,サ変接続,*,"@, "名詞,普通名詞,サ変可能,"@),
        ("名詞,副詞可能,*,"@, "名詞,普通名詞,副詞可能,"@),
        ("動詞,*,"@, "動詞,一般,"@),
        ("助動詞,*,"@, "助動詞,一般,"@),
        ("副詞,*,"@, "副詞,一般,"@),
        ("形容詞,*,"@, "形容詞,一般,"@),
        ("感動詞,*,"@, "感動詞,一般,"@),
        ("段・"@, "段,"@),
        ("形-"@, "形,"@),
        ("地域,"@, "地名,"@),
    ]
}

fn legacy_rules_exec() -> (r: Vec<(Vec<char>, Vec<char>)>)
    ensures
        rule_views(r@) == legacy_rules(),
{
    let r = vec![
        rule("名詞,一般,*,", "名詞,普通名詞,一般,"),
        rule("名詞,数,", "名詞,数詞,"),
        rule("名詞,接尾,助数詞,", "名詞,普通名詞,助数詞可能,"),
        rule("名詞,サ変接続,*,", "名詞,普通名詞,サ変可能,"),
        rule("名詞,副詞可能,*,", "名詞,普通名詞,副詞可能,"),
        rule("動詞,*,", "動詞,一般,"),
        rule("助動詞,*,", "助動詞,一般,"),
        rule("副詞,*,", "副詞,一般,"),
        rule("形容詞,*,", "形容詞,一般,"),
        rule("感動詞,*,", "感動詞,一般,"),
        rule("段・", "段,"),
        rule("形-", "形,"),
        rule("地域,", "地名,"),
    ];
    assert(rule_views(r@) =~= legacy_rules());
    r
}

/// An expression after the literal rewrites.
pub open spec fn legacy_rewritten(raw: Seq<char>) -> Seq<char> {
    rewritten(raw, legacy_rules())
}

/// An expression after the five row normalisations, which move the text
/// that follows a verb-row keyword behind a comma.
pub open spec fn rows_normalized(x: Seq<char>) -> Seq<char> {
    let a = regex_replaced("カ行([^,]*),"@, x, "カ行,$1"@);
    let b = regex_replaced("サ行([^,]*),"@, a, "サ行,$1"@);
    let c = regex_replaced("サ変([^,]*),"@, b, "サ変,$1"@);
    let d = regex_replaced("ラ行([^,]*),"@, c, "ラ行,$1"@);
    regex_replaced("ワ行([^,]*),"@, d, "ワ行,$1"@)
}

/// The table expression of a raw definition expression.
pub open spec fn row_expression(raw: Seq<char>) -> Seq<char> {
    rows_normalized(legacy_rewritten(raw))
}

/// The two spellings of the generic noun.
pub open spec fn is_generic_noun(x: Seq<char>) -> bool {
    x == "名詞,普通名詞,一般,*,*,*,*"@ || x == "名詞,一般,*,*,*,*,*"@
}

/// A row with an identifier field that reads as an `i32` and an expression
/// field.
pub open spec fn row_ok(r: Seq<Seq<char>>) -> bool {
    r.len() >= 2 && parsed_i32(r[0]) is Some
}

/// The identifier of a well-formed row.
pub open spec fn row_id(r: Seq<Seq<char>>) -> i32 {
    parsed_i32(r[0])->0
}

/// The index of the first row that is not well formed, or -1.
pub open spec fn first_bad_row(rows: Seq<Seq<Seq<char>>>) -> int
    decreases rows.len(),
{
    if rows.len() == 0 {
        -1
    } else if first_bad_row(rows.drop_last()) >= 0 {
        first_bad_row(rows.drop_last())
    } else if !row_ok(rows.last()) {
        rows.len() - 1
    } else {
        -1
    }
}

/// The table entries that well-formed rows give.
pub open spec fn loaded_entries(rows: Seq<Seq<Seq<char>>>) -> Seq<(Seq<char>, i32)>
    decreases rows.len(),
{
    if rows.len() == 0 {
        Seq::empty()
    } else {
        inserted(
            loaded_entries(rows.drop_last()),
            row_expression(rows.last()[1]),
            row_id(rows.last()),
        )
    }
}

/// The default noun identifier that well-formed rows give: that of the last
/// row whose rewritten expression is the generic noun, or -1.
pub open spec fn loaded_default(rows: Seq<Seq<Seq<char>>>) -> i32
    decreases rows.len(),
{
    if rows.len() == 0 {
        -1i32
    } else if is_generic_noun(legacy_rewritten(rows.last()[1])) {
        row_id(rows.last())
    } else {
        loaded_default(rows.drop_last())
    }
}

/// The fields of each row.
pub open spec fn rows_view(rows: Seq<Vec<String>>) -> Seq<Seq<Seq<char>>> {
    rows.map_values(|r: Vec<String>| texts(r@))
}

/// The error for the row at index `i`.
pub open spec fn row_error(rows: Seq<Seq<Seq<char>>>, i: int) -> IdDefError {
    if rows[i].len() < 2 {
        IdDefError::MissingField { row: i as usize }
    } else {
        IdDefError::InvalidId { row: i as usize }
    }
}

proof fn lemma_first_bad_prefix(rows: Seq<Seq<Seq<char>>>, n: int)
    requires
        0 <= n <= rows.len(),
        first_bad_row(rows.take(n)) >= 0,
    ensures
        first_bad_row(rows) == first_bad_row(rows.take(n)),
    decreases rows.len() - n,
{
    if n < rows.len() {
        assert(rows.take(n + 1).drop_last() =~= rows.take(n));
        lemma_first_bad_prefix(rows, n + 1);
    } else {
        assert(rows.take(n) =~= rows);
    }
}

fn normalize_rows(x: &str) -> (r: String)
    ensures
        r@ == rows_normalized(x@),
{
    let a = regex_replace_all("カ行([^,]*),", x, "カ行,$1");
    let b = regex_replace_all("サ行([^,]*),", a.as_str(), "サ行,$1");
    let c = regex_replace_all("サ変([^,]*),", b.as_str(), "サ変,$1");
    let d = regex_replace_all("ラ行([^,]*),", c.as_str(), "ラ行,$1");
    regex_replace_all("ワ行([^,]*),", d.as_str(), "ワ行,$1")
}

/// Whether the rewritten expression is one of the generic noun spellings.
fn is_generic_noun_exec(x: &Vec<char>) -> (r: bool)
    ensures
        r == is_generic_noun(x@),
{
    let a = chars_of("名詞,普通名詞,一般,*,*,*,*");
    let b = chars_of("名詞,一般,*,*,*,*,*");
    crate::text::same_chars(x, &a) || crate::text::same_chars(x, &b)
}

/// Builds the taxonomy table and the default noun identifier from the rows
/// of a definition, each `[id, expression]`.
///
/// Each expression goes through the literal rewrites, is compared with the
/// generic noun spellings (a match makes its identifier the default noun
/// identifier, which stays -1 where no row matches), then goes through the
/// row normalisations and is inserted with its identifier. A row without two
/// fields or with an identifier that is not an `i32` fails the whole load.
pub fn read_id_def(rows: &Vec<Vec<String>>) -> (r: Result<(TextIdMap, i32), IdDefError>)
    ensures
        r is Ok <==> first_bad_row(rows_view(rows@)) == -1,
        r matches Ok((m, d)) ==> text_id_entries(m) == loaded_entries(rows_view(rows@)) && d
            == loaded_default(rows_view(rows@)),
        r matches Err(e) ==> e == row_error(rows_view(rows@), first_bad_row(rows_view(rows@))),
        r matches Ok((m, d)) ==> keys_unique(text_id_entries(m)),
{
    let ghost rv = rows_view(rows@);
    let rules = legacy_rules_exec();
    let mut table = text_id_map_new();
    let mut default_noun_id: i32 = -1;
    for i in 0..rows.len()
        invariant
            rv == rows_view(rows@),
            rule_views(rules@) == legacy_rules(),
            first_bad_row(rv.take(i as int)) == -1,
            text_id_entries(table) == loaded_entries(rv.take(i as int)),
            default_noun_id == loaded_default(rv.take(i as int)),
            keys_unique(text_id_entries(table)),
    {
        let ghost pre = rv.take(i as int);
        let ghost cur = rv.take(i as int + 1);
        assert(cur.drop_last() =~= pre);
        let row = &rows[i];
        assert(cur.last() == texts(row@));
        if row.len() < 2 {
            proof {
                lemma_first_bad_prefix(rv, i as int + 1);
            }
            return Err(IdDefError::MissingField { row: i });
        }
        assert(cur.last()[0] == row@[0]@);
        assert(cur.last()[1] == row@[1]@);
        let id = match parse_i32(row[0].as_str()) {
            Some(v) => v,
            None => {
                proof {
                    lemma_first_bad_prefix(rv, i as int + 1);
                }
                return Err(IdDefError::InvalidId { row: i });
            },
        };
        let raw = chars_of(row[1].as_str());
        let expr = apply_rules(&raw, &rules);
        if is_generic_noun_exec(&expr) {
            default_noun_id = id;
        }
        let es = string_of(&expr);
        let normalized = normalize_rows(es.as_str());
        proof {
            lemma_inserted_unique(text_id_entries(table), normalized@, id);
        }
        text_id_map_insert(&mut table, normalized, id);
    }
    assert(rv.take(rows.len() as int) =~= rv);
    Ok((table, default_noun_id))
}

} // verus!
