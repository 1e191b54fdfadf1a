//! Conversions applied to the text of a record: readings folded to
//! hiragana, `\uXXXX` escapes decoded, decimal integers read.
use vstd::prelude::*;
use kanaria::string::{ConvertType, UCSStr};
use kanaria::utils::ConvertTarget;
use crate::text::{chars_of, string_of};

verus! {

/// What kanaria makes of `s` when it widens half-width katakana (joining a
/// following sound mark into the kana it modifies).
pub uninterp spec fn wide_katakana(s: Seq<char>) -> Seq<char>;

/// Relies on kanaria's `UCSStr::from_slice(..).wide(ConvertTarget::KATAKANA)
/// .to_vec()`: the widened characters, cut to the number written.
#[verifier::external_body]
fn widen_katakana(s: &Vec<char>) -> (r: Vec<char>)
    ensures
        r@ == wide_katakana(s@),
{
    UCSStr::from_slice(s.as_slice()).wide(ConvertTarget::KATAKANA).to_vec()
}

/// The code of a character after kanaria's hiragana conversion: full-width
/// katakana (U+30A1 to U+30F6 and U+30FD to U+30FF) move down by 0x60,
/// anything else is kept.
pub open spec fn hiragana_code(c: int) -> int {
    if (0x30A1 <= c && c <= 0x30F6) || (0x30FD <= c && c <= 0x30FF) {
        c - 0x60
    } else {
        c
    }
}

/// Relies on kanaria's `UCSStr::convert` with `ConvertType::Hiragana`: one
/// character out for each character in, converted by `hiragana_code`.
#[verifier::external_body]
fn to_hiragana(s: &Vec<char>) -> (r: Vec<char>)
    ensures
        r@.len() == s@.len(),
        forall|i: int| 0 <= i < s@.len() ==> r@[i] as int == hiragana_code(s@[i] as int),
{
    UCSStr::convert(s.as_slice(), ConvertType::Hiragana, ConvertTarget::ALL)
}

/// The historical kana ゐ and ゑ replaced by い and え.
pub open spec fn modern_code(c: int) -> int {
    if c == 0x3090 {
        0x3044
    } else if c == 0x3091 {
        0x3048
    } else {
        c
    }
}

/// `r` is the widened text `w` folded to hiragana, with ゐ and ゑ replaced
/// by い and え.
pub open spec fn is_hiragana_of(w: Seq<char>, r: Seq<char>) -> bool {
    &&& r.len() == w.len()
    &&& forall|i: int|
        0 <= i < w.len() ==> r[i] as int == modern_code(hiragana_code(w[i] as int))
}

/// The reading of `text` in hiragana: half-width katakana widened, katakana
/// folded to hiragana, and ゐ, ゑ replaced by い, え.
pub open spec fn is_hiragana_reading(text: Seq<char>, r: Seq<char>) -> bool {
    is_hiragana_of(wide_katakana(text), r)
}

/// The hiragana reading of `text`.
pub open spec fn hiragana_reading(text: Seq<char>) -> Seq<char> {
    choose|r: Seq<char>| is_hiragana_reading(text, r)
}

proof fn lemma_hiragana_reading_unique(text: Seq<char>, r: Seq<char>)
    requires
        is_hiragana_reading(text, r),
    ensures
        hiragana_reading(text) == r,
{
    let h = hiragana_reading(text);
    assert(is_hiragana_reading(text, h));
    assert forall|i: int| 0 <= i < r.len() implies h[i] == r[i] by {
        assert(code_of(h[i]) == code_of(r[i]));
    }
    assert(h =~= r);
}

/// Folds already widened text to hiragana and replaces ゐ, ゑ by い, え.
pub fn hiragana_of_wide(wide: &Vec<char>) -> (r: String)
    ensures
        is_hiragana_of(wide@, r@),
{
    let hira = to_hiragana(wide);
    let mut out: Vec<char> = Vec::new();
    for i in 0..hira.len()
        invariant
            hira@.len() == wide@.len(),
            forall|k: int|
                0 <= k < wide@.len() ==> hira@[k] as int == hiragana_code(wide@[k] as int),
            out@.len() == i,
            forall|k: int|
                0 <= k < i ==> out@[k] as int == modern_code(hiragana_code(wide@[k] as int)),
    {
        let c = hira[i];
        if c == 'ゐ' {
            out.push('い');
        } else if c == 'ゑ' {
            out.push('え');
        } else {
            out.push(c);
        }
    }
    string_of(&out)
}

/// Converts a reading to hiragana: half-width katakana widened, katakana
/// folded to hiragana, and ゐ, ゑ replaced by い, え.
pub fn convert_to_hiragana(text: &str) -> (r: String)
    ensures
        is_hiragana_reading(text@, r@),
        r@ == hiragana_reading(text@),
{
    let cs = chars_of(text);
    let wide = widen_katakana(&cs);
    let r = hiragana_of_wide(&wide);
    proof {
        lemma_hiragana_reading_unique(text@, r@);
    }
    r
}

/// The value of a hexadecimal digit, or -1 for any other character.
pub open spec fn hex_value(c: char) -> int {
    let n = c as int;
    if 0x30 <= n <= 0x39 {
        n - 0x30
    } else if 0x41 <= n <= 0x46 {
        n - 0x37
    } else if 0x61 <= n <= 0x66 {
        n - 0x57
    } else {
        -1
    }
}

/// `s` starts with a backslash, `u` and four hexadecimal digits.
pub open spec fn starts_with_escape(s: Seq<char>) -> bool {
    &&& s.len() >= 6
    &&& s[0] == '\\'
    &&& s[1] == 'u'
    &&& hex_value(s[2]) >= 0
    &&& hex_value(s[3]) >= 0
    &&& hex_value(s[4]) >= 0
    &&& hex_value(s[5]) >= 0
}

/// The code written by the four digits of an escape at the start of `s`.
pub open spec fn escape_code(s: Seq<char>) -> int {
    hex_value(s[2]) * 4096 + hex_value(s[3]) * 256 + hex_value(s[4]) * 16 + hex_value(s[5])
}

/// `n` is the code of a character (a Unicode scalar value).
pub open spec fn is_scalar(n: int) -> bool {
    (0 <= n < 0xD800) || (0xE000 <= n < 0x110000)
}

/// The code of a character.
pub open spec fn code_of(c: char) -> int {
    c as int
}

/// The character whose code is `n`.
pub open spec fn char_with_code(n: int) -> char {
    choose|c: char| #[trigger] code_of(c) == n
}

/// `s` with each `\uXXXX` escape that names a character replaced by that
/// character, escapes taken left to right; an escape naming a surrogate is
/// kept as written.
pub open spec fn unescaped(s: Seq<char>) -> Seq<char>
    decreases s.len(),
{
    if s.len() == 0 {
        Seq::empty()
    } else if starts_with_escape(s) && is_scalar(escape_code(s)) {
        seq![char_with_code(escape_code(s))] + unescaped(s.skip(6))
    } else {
        seq![s[0]] + unescaped(s.skip(1))
    }
}

/// Relies on `char::from_u32`: `Some` exactly for a Unicode scalar value,
/// holding the character with that code.
#[verifier::external_body]
fn char_from_code(n: u32) -> (r: Option<char>)
    ensures
        r is Some <==> is_scalar(n as int),
        r is Some ==> r->0 as int == n as int,
{
    char::from_u32(n)
}

fn hex_digit(c: char) -> (r: u32)
    ensures
        hex_value(c) >= 0 ==> r as int == hex_value(c),
        hex_value(c) < 0 ==> r == 16,
{
    if '0' <= c && c <= '9' {
        c as u32 - '0' as u32
    } else if 'A' <= c && c <= 'F' {
        c as u32 - 'A' as u32 + 10
    } else if 'a' <= c && c <= 'f' {
        c as u32 - 'a' as u32 + 10
    } else {
        16
    }
}

/// The character of the escape at index `i` of `s`, if one starts there
/// and names a character.
fn escape_at(s: &Vec<char>, i: usize) -> (r: Option<char>)
    requires
        i < s@.len(),
    ensures
        r is Some <==> (starts_with_escape(s@.skip(i as int)) && is_scalar(
            escape_code(s@.skip(i as int)),
        )),
        r is Some ==> r->0 == char_with_code(escape_code(s@.skip(i as int))),
{
    let ghost t = s@.skip(i as int);
    if s.len() - i < 6 || s[i] != '\\' || s[i + 1] != 'u' {
        return None;
    }
    let a = hex_digit(s[i + 2]);
    let b = hex_digit(s[i + 3]);
    let c = hex_digit(s[i + 4]);
    let d = hex_digit(s[i + 5]);
    if a == 16 || b == 16 || c == 16 || d == 16 {
        return None;
    }
    assert(t[2] == s@[i + 2] && t[3] == s@[i + 3] && t[4] == s@[i + 4] && t[5] == s@[i + 5]);
    let code = a * 4096 + b * 256 + c * 16 + d;
    let ch = char_from_code(code);
    match ch {
        Some(x) => {
            assert(code_of(x) == escape_code(t));
            assert(x == char_with_code(escape_code(t)));
            Some(x)
        },
        None => None,
    }
}

/// Decodes the `\uXXXX` escapes of `text`.
pub fn unicode_escape_to_char(text: &str) -> (r: String)
    ensures
        r@ == unescaped(text@),
{
    let s = chars_of(text);
    let mut out: Vec<char> = Vec::new();
    let mut i: usize = 0;
    assert(s@.skip(0) =~= s@);
    while i < s.len()
        invariant
            i <= s.len(),
            s@ == text@,
            unescaped(text@) == out@ + unescaped(s@.skip(i as int)),
        decreases s.len() - i,
    {
        let ghost t = s@.skip(i as int);
        let ghost before = out@;
        match escape_at(&s, i) {
            Some(c) => {
                out.push(c);
                assert(t.skip(6) =~= s@.skip(i + 6));
                assert(before + unescaped(t) =~= out@ + unescaped(s@.skip(i + 6)));
                i = i + 6;
            },
            None => {
                out.push(s[i]);
                assert(t.skip(1) =~= s@.skip(i + 1));
                assert(before + unescaped(t) =~= out@ + unescaped(s@.skip(i + 1)));
                i = i + 1;
            },
        }
    }
    assert(s@.skip(i as int) =~= Seq::<char>::empty());
    assert(out@ + Seq::<char>::empty() =~= out@);
    string_of(&out)
}

/// Every character of `s` is an ASCII digit.
pub open spec fn all_digits(s: Seq<char>) -> bool {
    forall|i: int| 0 <= i < s.len() ==> 0x30 <= #[trigger] code_of(s[i]) <= 0x39
}

/// The number written by the ASCII digits `s`.
pub open spec fn digits_value(s: Seq<char>) -> int
    decreases s.len(),
{
    if s.len() == 0 {
        0
    } else {
        digits_value(s.drop_last()) * 10 + (code_of(s.last()) - 0x30)
    }
}

/// The integer that `s` writes in decimal: an optional sign `+` or `-`
/// followed by one or more ASCII digits; `None` for anything else.
pub open spec fn decimal_value(s: Seq<char>) -> Option<int> {
    if s.len() > 0 && (s[0] == '-' || s[0] == '+') {
        let d = s.skip(1);
        if d.len() > 0 && all_digits(d) {
            if s[0] == '-' {
                Some(-digits_value(d))
            } else {
                Some(digits_value(d))
            }
        } else {
            None
        }
    } else if s.len() > 0 && all_digits(s) {
        Some(digits_value(s))
    } else {
        None
    }
}

/// What reading `s` as an `i32` gives: the decimal value where it is one
/// and fits.
pub open spec fn parsed_i32(s: Seq<char>) -> Option<i32> {
    match decimal_value(s) {
        Some(v) => if i32::MIN <= v <= i32::MAX {
            Some(v as i32)
        } else {
            None
        },
        None => None,
    }
}

proof fn lemma_digits_nonneg(s: Seq<char>)
    requires
        all_digits(s),
    ensures
        digits_value(s) >= 0,
    decreases s.len(),
{
    if s.len() > 0 {
        assert(all_digits(s.drop_last())) by {
            assert forall|i: int| 0 <= i < s.drop_last().len() implies 0x30 <= #[trigger] code_of(
                s.drop_last()[i],
            ) <= 0x39 by {
                assert(s.drop_last()[i] == s[i]);
            }
        }
        lemma_digits_nonneg(s.drop_last());
        assert(0x30 <= code_of(s[s.len() - 1]) <= 0x39);
    }
}

proof fn lemma_digits_prefix_le(s: Seq<char>, k: int)
    requires
        all_digits(s),
        0 <= k <= s.len(),
    ensures
        digits_value(s.take(k)) <= digits_value(s),
    decreases s.len() - k,
{
    if k < s.len() {
        lemma_digits_prefix_le(s, k + 1);
        let t = s.take(k + 1);
        assert(t.drop_last() =~= s.take(k));
        assert(all_digits(s.take(k))) by {
            assert forall|i: int| 0 <= i < s.take(k).len() implies 0x30 <= #[trigger] code_of(
                s.take(k)[i],
            ) <= 0x39 by {
                assert(s.take(k)[i] == s[i]);
            }
        }
        lemma_digits_nonneg(s.take(k));
        assert(0x30 <= code_of(s[k]) <= 0x39);
        assert(t.last() == s[k]);
    } else {
        assert(s.take(k) =~= s);
    }
}

/// Reads `s` as an `i32` (as `str::parse::<i32>`): an optional sign and
/// decimal digits whose value fits.
pub fn parse_i32(s: &str) -> (r: Option<i32>)
    ensures
        r == parsed_i32(s@),
{
    let cs = chars_of(s);
    if cs.len() == 0 {
        return None;
    }
    let neg = cs[0] == '-';
    let start: usize = if cs[0] == '-' || cs[0] == '+' {
        1
    } else {
        0
    };
    if start == cs.len() {
        return None;
    }
    let ghost d = cs@.skip(start as int);
    assert(start == 0 ==> d =~= cs@);
    assert(neg ==> start == 1);
    assert(decimal_value(s@) == if all_digits(d) {
        Some(
            if neg {
                -digits_value(d)
            } else {
                digits_value(d)
            },
        )
    } else {
        None::<int>
    }) by {
        assert(cs@ == s@);
        assert(d.len() > 0);
    }
    let mut acc: i64 = 0;
    let mut i: usize = start;
    assert(d.take(0) =~= Seq::<char>::empty());
    while i < cs.len()
        invariant
            start <= i <= cs.len(),
            start < cs.len(),
            decimal_value(s@) == if all_digits(d) {
                Some(
                    if neg {
                        -digits_value(d)
                    } else {
                        digits_value(d)
                    },
                )
            } else {
                None::<int>
            },
            d == cs@.skip(start as int),
            all_digits(d.take(i - start)),
            acc == digits_value(d.take(i - start)),
            0 <= acc <= 2147483648,
        decreases cs.len() - i,
    {
        let c = cs[i];
        assert(d[i - start] == c);
        if c < '0' || c > '9' {
            assert(!(0x30 <= code_of(d[i - start]) <= 0x39));
            assert(!all_digits(d));
            return None;
        }
        let n = c as u32;
        assert(n as int == code_of(c));
        let ghost t = d.take(i - start + 1);
        assert(t.drop_last() =~= d.take(i - start));
        assert(t.last() == c);
        let v: i64 = acc * 10 + (n as i64 - 0x30);
        assert(v == digits_value(t));
        if v > 2147483648 {
            proof {
                if all_digits(d) {
                    lemma_digits_prefix_le(d, i - start + 1);
                }
            }
            return None;
        }
        assert(all_digits(t)) by {
            assert forall|k: int| 0 <= k < t.len() implies 0x30 <= #[trigger] code_of(t[k]) <= 0x39 by {
                if k < t.len() - 1 {
                    assert(t[k] == d.take(i - start)[k]);
                }
            }
        }
        acc = v;
        i = i + 1;
    }
    assert(d.take(i - start) =~= d);
    if neg {
        Some((-acc) as i32)
    } else if acc <= 2147483647 {
        Some(acc as i32)
    } else {
        None
    }
}

/// A character with the Unicode White_Space property.
pub open spec fn is_white_space(c: char) -> bool {
    let n = code_of(c);
    ||| (0x9 <= n <= 0xD)
    ||| n == 0x20
    ||| n == 0x85
    ||| n == 0xA0
    ||| n == 0x1680
    ||| (0x2000 <= n <= 0x200A)
    ||| n == 0x2028
    ||| n == 0x2029
    ||| n == 0x202F
    ||| n == 0x205F
    ||| n == 0x3000
}

/// The number of white-space characters that `s` starts with.
pub open spec fn leading_space(s: Seq<char>) -> int
    decreases s.len(),
{
    if s.len() > 0 && is_white_space(s[0]) {
        1 + leading_space(s.skip(1))
    } else {
        0
    }
}

/// The number of white-space characters that `s` ends with.
pub open spec fn trailing_space(s: Seq<char>) -> int
    decreases s.len(),
{
    if s.len() > 0 && is_white_space(s.last()) {
        1 + trailing_space(s.drop_last())
    } else {
        0
    }
}

/// `s` without its leading and trailing white space.
pub open spec fn trimmed(s: Seq<char>) -> Seq<char> {
    let t = s.skip(leading_space(s));
    t.take(t.len() - trailing_space(t))
}

proof fn lemma_leading_space_bound(s: Seq<char>)
    ensures
        0 <= leading_space(s) <= s.len(),
    decreases s.len(),
{
    if s.len() > 0 && is_white_space(s[0]) {
        lemma_leading_space_bound(s.skip(1));
    }
}

proof fn lemma_trailing_space_bound(s: Seq<char>)
    ensures
        0 <= trailing_space(s) <= s.len(),
    decreases s.len(),
{
    if s.len() > 0 && is_white_space(s.last()) {
        lemma_trailing_space_bound(s.drop_last());
    }
}

fn white_space(c: char) -> (r: bool)
    ensures
        r == is_white_space(c),
{
    let n = c as u32;
    assert(n as int == code_of(c));
    (0x9 <= n && n <= 0xD) || n == 0x20 || n == 0x85 || n == 0xA0 || n == 0x1680 || (0x2000 <= n
        && n <= 0x200A) || n == 0x2028 || n == 0x2029 || n == 0x202F || n == 0x205F || n == 0x3000
}

/// `s` without its leading and trailing white space (as `str::trim`).
pub fn trim_text(s: &str) -> (r: String)
    ensures
        r@ == trimmed(s@),
{
    let cs = chars_of(s);
    let mut a: usize = 0;
    assert(cs@.skip(0) =~= cs@);
    while a < cs.len() && white_space(cs[a])
        invariant
            a <= cs.len(),
            leading_space(cs@) == a + leading_space(cs@.skip(a as int)),
        decreases cs.len() - a,
    {
        assert(cs@.skip(a as int).skip(1) =~= cs@.skip(a + 1));
        a = a + 1;
    }
    let ghost t = cs@.skip(a as int);
    assert(leading_space(t) == 0);
    let mut b: usize = cs.len();
    assert(t.take(b - a) =~= t);
    while b > a && white_space(cs[b - 1])
        invariant
            a <= b <= cs.len(),
            t == cs@.skip(a as int),
            trailing_space(t) == (cs.len() - b) + trailing_space(t.take(b - a)),
        decreases b - a,
    {
        assert(t.take(b - a).drop_last() =~= t.take(b - a - 1));
        b = b - 1;
    }
    proof {
        assert(t.take(b - a) =~= t.take(b - a));
        lemma_trailing_space_bound(t);
    }
    let mut out: Vec<char> = Vec::new();
    for i in a..b
        invariant
            a <= b <= cs.len(),
            out@ == cs@.subrange(a as int, i as int),
    {
        out.push(cs[i]);
        assert(cs@.subrange(a as int, i + 1) =~= cs@.subrange(a as int, i as int).push(cs@[i as int]));
    }
    assert(out@ =~= t.take(t.len() - trailing_space(t)));
    string_of(&out)
}

} // verus!
