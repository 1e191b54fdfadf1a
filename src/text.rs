//! Character-sequence helpers shared by the loader, the resolver and the
//! dialect adapters. Text is manipulated as `Vec<char>`; its model is the
//! `Seq<char>` it holds.
use vstd::prelude::*;

verus! {

/// The character sequences held by a vector of pieces.
pub open spec fn views(v: Seq<Vec<char>>) -> Seq<Seq<char>> {
    v.map_values(|f: Vec<char>| f@)
}

/// `p` occurs in `s` starting at index `i`.
pub open spec fn occurs_at(s: Seq<char>, p: Seq<char>, i: int) -> bool {
    0 <= i && i + p.len() <= s.len() && s.subrange(i, i + p.len()) == p
}

/// `p` occurs somewhere in `s`.
pub open spec fn contains_seq(s: Seq<char>, p: Seq<char>) -> bool {
    exists|i: int| occurs_at(s, p, i)
}

/// `s` with every occurrence of the non-empty pattern `p` replaced by `r`,
/// occurrences taken left to right without overlap.
pub open spec fn replaced(s: Seq<char>, p: Seq<char>, r: Seq<char>) -> Seq<char>
    decreases s.len(),
{
    if s.len() == 0 {
        Seq::empty()
    } else if p.len() > 0 && occurs_at(s, p, 0) {
        r + replaced(s.skip(p.len() as int), p, r)
    } else {
        seq![s[0]] + replaced(s.skip(1), p, r)
    }
}

/// The pieces of `s` between occurrences of the delimiter `d`; always at
/// least one piece.
pub open spec fn split_on(s: Seq<char>, d: char) -> Seq<Seq<char>>
    decreases s.len(),
{
    if s.len() == 0 {
        seq![Seq::empty()]
    } else {
        let prev = split_on(s.drop_last(), d);
        if s.last() == d {
            prev.push(Seq::empty())
        } else {
            prev.update(prev.len() - 1, prev.last().push(s.last()))
        }
    }
}

/// The pieces `fs` joined with the separator `d` between neighbours.
pub open spec fn joined(fs: Seq<Seq<char>>, d: Seq<char>) -> Seq<char>
    decreases fs.len(),
{
    if fs.len() == 0 {
        Seq::empty()
    } else if fs.len() == 1 {
        fs[0]
    } else {
        joined(fs.drop_last(), d) + d + fs.last()
    }
}

pub proof fn lemma_split_nonempty(s: Seq<char>, d: char)
    ensures
        split_on(s, d).len() >= 1,
    decreases s.len(),
{
    if s.len() > 0 {
        lemma_split_nonempty(s.drop_last(), d);
    }
}

proof fn lemma_joined_push_last(fs: Seq<Seq<char>>, d: Seq<char>, c: char)
    requires
        fs.len() >= 1,
    ensures
        joined(fs.update(fs.len() - 1, fs.last().push(c)), d) == joined(fs, d).push(c),
{
    let g = fs.update(fs.len() - 1, fs.last().push(c));
    if fs.len() >= 2 {
        assert(g.drop_last() =~= fs.drop_last());
        assert(joined(fs.drop_last(), d) + d + fs.last().push(c) =~= (joined(fs.drop_last(), d)
            + d + fs.last()).push(c));
    }
}

/// Joining the pieces of a split with the delimiter gives back the text.
pub proof fn lemma_join_split(s: Seq<char>, c: char)
    ensures
        joined(split_on(s, c), seq![c]) == s,
    decreases s.len(),
{
    if s.len() > 0 {
        let prev = split_on(s.drop_last(), c);
        lemma_join_split(s.drop_last(), c);
        lemma_split_nonempty(s.drop_last(), c);
        if s.last() == c {
            let fs = prev.push(Seq::<char>::empty());
            assert(fs.drop_last() =~= prev);
            assert(joined(fs, seq![c]) =~= s);
        } else {
            lemma_joined_push_last(prev, seq![c], s.last());
            assert(s.drop_last().push(s.last()) =~= s);
        }
    }
}

/// A text that starts with the delimiter splits into an empty first piece
/// and at least one more.
pub proof fn lemma_split_leading_delimiter(s: Seq<char>, c: char)
    requires
        s.len() > 0,
        s[0] == c,
    ensures
        split_on(s, c).len() >= 2,
        split_on(s, c)[0] == Seq::<char>::empty(),
    decreases s.len(),
{
    if s.len() == 1 {
        assert(s.drop_last() =~= Seq::<char>::empty());
    } else {
        lemma_split_leading_delimiter(s.drop_last(), c);
    }
}

/// Joining two or more pieces starts with the first piece and the separator.
pub proof fn lemma_joined_prefix(fs: Seq<Seq<char>>, d: Seq<char>)
    requires
        fs.len() >= 2,
    ensures
        joined(fs, d).len() >= fs[0].len() + d.len(),
        joined(fs, d).take((fs[0].len() + d.len()) as int) == fs[0] + d,
    decreases fs.len(),
{
    if fs.len() == 2 {
        assert(fs.drop_last().len() == 1);
        assert(joined(fs.drop_last(), d) == fs.drop_last()[0]);
        assert(fs.drop_last()[0] == fs[0]);
        assert(joined(fs, d) == fs[0] + d + fs[1]);
        assert((fs[0] + d + fs[1]).take((fs[0].len() + d.len()) as int) =~= fs[0] + d);
    } else {
        lemma_joined_prefix(fs.drop_last(), d);
        assert(fs.drop_last()[0] == fs[0]);
        let j = joined(fs.drop_last(), d);
        assert(joined(fs, d) == j + d + fs.last());
        assert((j + d + fs.last()).take((fs[0].len() + d.len()) as int) =~= j.take((fs[0].len() + d.len()) as int));
    }
}

/// The characters of `s`, in order.
pub fn chars_of(s: &str) -> (r: Vec<char>)
    ensures
        r@ == s@,
{
    let mut r: Vec<char> = Vec::new();
    for c in it: s.chars()
        invariant
            it.seq() == s@,
            r@ == it.seq().take(it.index() as int),
    {
        r.push(c);
    }
    assert(r@ =~= s@);
    r
}

/// Relies on `Iterator::collect` into a `String`: the characters in order.
#[verifier::external_body]
pub(crate) fn string_of(v: &Vec<char>) -> (r: String)
    ensures
        r@ == v@,
{
    v.iter().collect()
}

/// Whether two character sequences are equal.
pub fn same_chars(a: &Vec<char>, b: &Vec<char>) -> (r: bool)
    ensures
        r == (a@ == b@),
{
    if a.len() != b.len() {
        return false;
    }
    let mut i: usize = 0;
    while i < a.len()
        invariant
            i <= a.len() == b.len(),
            a@.take(i as int) == b@.take(i as int),
        decreases a.len() - i,
    {
        if a[i] != b[i] {
            assert(a@.take(i as int + 1)[i as int] != b@.take(i as int + 1)[i as int]);
            return false;
        }
        assert(a@.take(i as int + 1) =~= a@.take(i as int).push(a@[i as int]));
        assert(b@.take(i as int + 1) =~= b@.take(i as int).push(b@[i as int]));
        i = i + 1;
    }
    assert(a@ =~= a@.take(i as int));
    assert(b@ =~= b@.take(i as int));
    true
}

/// Whether `p` occurs in `s` at index `i`.
pub fn occurs_at_exec(s: &Vec<char>, p: &Vec<char>, i: usize) -> (r: bool)
    ensures
        r == occurs_at(s@, p@, i as int),
{
    if i > s.len() || p.len() > s.len() - i {
        return false;
    }
    let mut j: usize = 0;
    while j < p.len()
        invariant
            j <= p.len(),
            i + p.len() <= s.len(),
            forall|k: int| 0 <= k < j ==> s@[i + k] == p@[k],
        decreases p.len() - j,
    {
        if s[i + j] != p[j] {
            assert(s@.subrange(i as int, i + p.len())[j as int] != p@[j as int]);
            return false;
        }
        j = j + 1;
    }
    assert(s@.subrange(i as int, i + p.len()) =~= p@);
    true
}

/// Whether `p` occurs anywhere in `s`.
pub fn contains_chars(s: &Vec<char>, p: &Vec<char>) -> (r: bool)
    ensures
        r == contains_seq(s@, p@),
{
    if p.len() > s.len() {
        assert forall|i: int| !occurs_at(s@, p@, i) by {}
        return false;
    }
    let mut i: usize = 0;
    loop
        invariant
            p.len() <= s.len(),
            i <= s.len() - p.len(),
            forall|k: int| 0 <= k < i ==> !occurs_at(s@, p@, k),
        ensures
            forall|k: int| 0 <= k <= s.len() - p.len() ==> !occurs_at(s@, p@, k),
        decreases s.len() - p.len() - i,
    {
        if occurs_at_exec(s, p, i) {
            return true;
        }
        if i == s.len() - p.len() {
            break;
        }
        i = i + 1;
    }
    assert forall|k: int| !occurs_at(s@, p@, k) by {}
    false
}

/// Appends the characters of `x` to `out`.
pub fn append_chars(out: &mut Vec<char>, x: &Vec<char>)
    ensures
        final(out)@ == old(out)@ + x@,
{
    let ghost start = out@;
    for i in 0..x.len()
        invariant
            out@ == start + x@.take(i as int),
    {
        out.push(x[i]);
        assert(x@.take(i as int + 1) =~= x@.take(i as int).push(x@[i as int]));
    }
    assert(x@.take(x@.len() as int) =~= x@);
}

proof fn lemma_skip_occurs(s: Seq<char>, p: Seq<char>, i: int)
    requires
        0 <= i < s.len(),
    ensures
        occurs_at(s.skip(i), p, 0) == occurs_at(s, p, i),
        occurs_at(s, p, i) ==> s.skip(i).skip(p.len() as int) == s.skip(i + p.len()),
        s.skip(i)[0] == s[i],
        s.skip(i).skip(1) == s.skip(i + 1),
{
    if i + p.len() <= s.len() {
        assert(s.skip(i).subrange(0, p.len() as int) =~= s.subrange(i, i + p.len()));
        assert(s.skip(i).skip(p.len() as int) =~= s.skip(i + p.len()));
    }
    assert(s.skip(i).skip(1) =~= s.skip(i + 1));
}

proof fn lemma_replaced_empty_pattern(s: Seq<char>, p: Seq<char>, r: Seq<char>)
    requires
        p.len() == 0,
    ensures
        replaced(s, p, r) == s,
    decreases s.len(),
{
    if s.len() > 0 {
        lemma_replaced_empty_pattern(s.skip(1), p, r);
        assert(seq![s[0]] + s.skip(1) =~= s);
    }
}

/// `s` with every occurrence of `p` replaced by `r`, left to right (an
/// empty pattern replaces nothing).
pub fn replace_chars(s: &Vec<char>, p: &Vec<char>, r: &Vec<char>) -> (out: Vec<char>)
    ensures
        out@ == replaced(s@, p@, r@),
{
    if p.len() == 0 {
        proof {
            lemma_replaced_empty_pattern(s@, p@, r@);
        }
        return s.clone();
    }
    let mut out: Vec<char> = Vec::new();
    let mut i: usize = 0;
    assert(s@.skip(0) =~= s@);
    while i < s.len()
        invariant
            p@.len() > 0,
            i <= s.len(),
            replaced(s@, p@, r@) == out@ + replaced(s@.skip(i as int), p@, r@),
        decreases s.len() - i,
    {
        proof {
            lemma_skip_occurs(s@, p@, i as int);
        }
        if occurs_at_exec(s, p, i) {
            let ghost before = out@;
            append_chars(&mut out, r);
            assert(before + replaced(s@.skip(i as int), p@, r@) == out@ + replaced(
                s@.skip(i + p.len()),
                p@,
                r@,
            ));
            i = i + p.len();
        } else {
            let ghost before = out@;
            out.push(s[i]);
            assert(before + replaced(s@.skip(i as int), p@, r@) =~= out@ + replaced(
                s@.skip(i + 1),
                p@,
                r@,
            ));
            i = i + 1;
        }
    }
    assert(s@.skip(i as int) =~= Seq::<char>::empty());
    assert(out@ + Seq::<char>::empty() =~= out@);
    out
}

/// The pieces of `s` between occurrences of `d`.
pub fn split_chars(s: &Vec<char>, d: char) -> (r: Vec<Vec<char>>)
    ensures
        views(r@) == split_on(s@, d),
{
    let mut fields: Vec<Vec<char>> = Vec::new();
    let mut cur: Vec<char> = Vec::new();
    for i in 0..s.len()
        invariant
            views(fields@).push(cur@) == split_on(s@.take(i as int), d),
    {
        let ghost prev = split_on(s@.take(i as int), d);
        assert(s@.take(i as int + 1).drop_last() =~= s@.take(i as int));
        if s[i] == d {
            let ghost fv = views(fields@);
            let ghost cv = cur@;
            let piece = cur;
            fields.push(piece);
            cur = Vec::new();
            assert(views(fields@) =~= fv.push(cv));
            assert(views(fields@).push(cur@) =~= prev.push(Seq::empty()));
        } else {
            let ghost fv = views(fields@);
            cur.push(s[i]);
            assert(views(fields@).push(cur@) =~= prev.update(
                prev.len() - 1,
                prev.last().push(s@[i as int]),
            ));
        }
    }
    assert(s@.take(s@.len() as int) =~= s@);
    let ghost fv = views(fields@);
    let ghost cv = cur@;
    fields.push(cur);
    assert(views(fields@) =~= fv.push(cv));
    fields
}

/// The pieces `fs` joined with `d` between neighbours.
pub fn join_chars(fs: &Vec<Vec<char>>, d: &Vec<char>) -> (r: Vec<char>)
    ensures
        r@ == joined(views(fs@), d@),
{
    let mut out: Vec<char> = Vec::new();
    for i in 0..fs.len()
        invariant
            out@ == joined(views(fs@).take(i as int), d@),
    {
        let ghost t = views(fs@).take(i as int + 1);
        assert(t.drop_last() =~= views(fs@).take(i as int));
        if i > 0 {
            append_chars(&mut out, d);
        }
        append_chars(&mut out, &fs[i]);
        assert(t.last() == fs[i as int]@);
        if i == 0 {
            assert(out@ =~= joined(t, d@));
        }
    }
    assert(views(fs@).take(fs.len() as int) =~= views(fs@));
    out
}

/// The (pattern, replacement) pairs held by a vector of rules.
pub open spec fn rule_views(v: Seq<(Vec<char>, Vec<char>)>) -> Seq<(Seq<char>, Seq<char>)> {
    v.map_values(|p: (Vec<char>, Vec<char>)| (p.0@, p.1@))
}

/// `s` rewritten by each rule in turn, every occurrence of its pattern
/// replaced by its replacement.
pub open spec fn rewritten(s: Seq<char>, rules: Seq<(Seq<char>, Seq<char>)>) -> Seq<char>
    decreases rules.len(),
{
    if rules.len() == 0 {
        s
    } else {
        replaced(rewritten(s, rules.drop_last()), rules.last().0, rules.last().1)
    }
}

/// A rewriting rule made of two texts.
pub fn rule(pattern: &str, replacement: &str) -> (r: (Vec<char>, Vec<char>))
    ensures
        r.0@ == pattern@,
        r.1@ == replacement@,
{
    (chars_of(pattern), chars_of(replacement))
}

/// Applies the rules in order to `s`.
pub fn apply_rules(s: &Vec<char>, rules: &Vec<(Vec<char>, Vec<char>)>) -> (r: Vec<char>)
    ensures
        r@ == rewritten(s@, rule_views(rules@)),
{
    let mut cur = s.clone();
    for i in 0..rules.len()
        invariant
            cur@ == rewritten(s@, rule_views(rules@).take(i as int)),
    {
        let ghost rv = rule_views(rules@).take(i as int + 1);
        assert(rv.drop_last() =~= rule_views(rules@).take(i as int));
        cur = replace_chars(&cur, &rules[i].0, &rules[i].1);
    }
    assert(rule_views(rules@).take(rules.len() as int) =~= rule_views(rules@));
    cur
}

/// The texts held by a vector of strings.
pub open spec fn texts(v: Seq<String>) -> Seq<Seq<char>> {
    v.map_values(|s: String| s@)
}

/// The characters of each string.
pub fn chars_list(v: &Vec<String>) -> (r: Vec<Vec<char>>)
    ensures
        views(r@) == texts(v@),
{
    let mut r: Vec<Vec<char>> = Vec::new();
    for i in 0..v.len()
        invariant
            views(r@) == texts(v@).take(i as int),
    {
        let c = chars_of(v[i].as_str());
        let ghost before = views(r@);
        let ghost cv = c@;
        r.push(c);
        assert(views(r@) =~= before.push(cv));
        assert(texts(v@).take(i as int + 1) =~= texts(v@).take(i as int).push(v@[i as int]@));
    }
    assert(texts(v@).take(v.len() as int) =~= texts(v@));
    r
}

} // verus!
