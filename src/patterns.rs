//! Character-class checks on readings and notations, made with the `regex`
//! crate.
use vstd::prelude::*;

verus! {

/// Whether `text` has a match of the regular expression `pattern` (false
/// where `pattern` does not compile).
pub uninterp spec fn regex_found(pattern: Seq<char>, text: Seq<char>) -> bool;

/// `text` with each leftmost non-overlapping match of `pattern` replaced by
/// `rep`, in which `$n` stands for the n-th group (`text` itself where
/// `pattern` does not compile).
pub uninterp spec fn regex_replaced(pattern: Seq<char>, text: Seq<char>, rep: Seq<char>) -> Seq<
    char,
>;

/// Relies on `regex::Regex::new` and `Regex::is_match`: whether the compiled
/// pattern matches somewhere in `text`.
#[verifier::external_body]
pub(crate) fn regex_is_match(pattern: &str, text: &str) -> (r: bool)
    ensures
        r == regex_found(pattern@, text@),
{
    match regex::Regex::new(pattern) {
        Ok(re) => re.is_match(text),
        Err(_) => false,
    }
}

/// Relies on `regex::Regex::new` and `Regex::replace_all`: every leftmost
/// non-overlapping match replaced, with `$n` expanded to the n-th group.
#[verifier::external_body]
pub(crate) fn regex_replace_all(pattern: &str, text: &str, rep: &str) -> (r: String)
    ensures
        r@ == regex_replaced(pattern@, text@, rep@),
{
    match regex::Regex::new(pattern) {
        Ok(re) => re.replace_all(text, rep).into_owned(),
        Err(_) => text.to_owned(),
    }
}

/// Readings written in kana only (with the prolonged sound mark, the middle
/// dot, the sound marks and the historical kana).
pub open spec fn kana_pattern() -> Seq<char> {
    "^[ぁ-ゖゐゑゐ゙ゑ゙ァ-ヺー・゛゜]+$"@
}

/// Notations that start with a number (optionally after a yen sign or 第).
pub open spec fn start_number_pattern() -> Seq<char> {
    r"^(\d|￥\d|¥\d|第\d)+"@
}

/// Notations made of Latin letters, apostrophes and spaces only.
pub open spec fn symbol_pattern() -> Seq<char> {
    r"^[a-zA-Z' ]+$"@
}

/// Notations that read as Japanese text: a kanji or kana first, then kanji,
/// kana, modifier letters, punctuation, spaces, Latin letters or numbers.
pub open spec fn japanese_pattern() -> Seq<char> {
    r"^[\x{3005}\x{3007}\x{303b}\x{3400}-\x{9FFF}\x{F900}-\x{FAFF}\x{20000}-\x{2FFFF}\p{Hiragana}\p{Katakana}][\x{3005}\x{3007}\x{303b}\x{3400}-\x{9FFF}\x{F900}-\x{FAFF}\x{20000}-\x{2FFFF}\p{Hiragana}\p{Katakana}\p{Lm}\p{Punct}\p{Zs}\p{Latin}\p{Number}]*$"@
}

/// Whether `s` is written in kana only.
pub fn is_kana(s: &str) -> (r: bool)
    ensures
        r == regex_found(kana_pattern(), s@),
{
    regex_is_match("^[ぁ-ゖゐゑゐ゙ゑ゙ァ-ヺー・゛゜]+$", s)
}

/// Whether `s` starts with a number.
pub fn is_start_suuji(s: &str) -> (r: bool)
    ensures
        r == regex_found(start_number_pattern(), s@),
{
    regex_is_match(r"^(\d|￥\d|¥\d|第\d)+", s)
}

/// Whether `s` is made of Latin letters, apostrophes and spaces only.
pub fn is_kigou(s: &str) -> (r: bool)
    ensures
        r == regex_found(symbol_pattern(), s@),
{
    regex_is_match(r"^[a-zA-Z' ]+$", s)
}

/// Whether `s` reads as Japanese text.
pub fn is_japanese(s: &str) -> (r: bool)
    ensures
        r == regex_found(japanese_pattern(), s@),
{
    regex_is_match(
        r"^[\x{3005}\x{3007}\x{303b}\x{3400}-\x{9FFF}\x{F900}-\x{FAFF}\x{20000}-\x{2FFFF}\p{Hiragana}\p{Katakana}][\x{3005}\x{3007}\x{303b}\x{3400}-\x{9FFF}\x{F900}-\x{FAFF}\x{20000}-\x{2FFFF}\p{Hiragana}\p{Katakana}\p{Lm}\p{Punct}\p{Zs}\p{Latin}\p{Number}]*$",
        s,
    )
}

} // verus!
