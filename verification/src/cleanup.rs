//! Text cleanup rules for extracted HTML cells. A cell is a sequence of text
//! nodes; three cleanup flavours turn one into a field value:
//!
//! - simple cleanup: the text nodes, each trimmed, joined with single spaces,
//!   and the whole trimmed;
//! - amount cleanup: simple cleanup, then one leading dollar sign stripped;
//! - multi-line cleanup: the text nodes concatenated, re-split on line
//!   breaks, each line collapsed to single-spaced words, empty lines dropped,
//!   and the survivors joined with newlines. Used for address blocks, where
//!   the markup's line breaks are meaningful.

use vstd::prelude::*;
use crate::text::{is_ws, is_ws_char, trim_spec, trim_chars, string_to_chars, chars_to_string, subvec};

verus! {

/// Each text trimmed, with one space after each.
pub open spec fn trimmed_cat(ts: Seq<Seq<char>>) -> Seq<char>
    decreases ts.len(),
{
    if ts.len() == 0 {
        Seq::empty()
    } else {
        trimmed_cat(ts.drop_last()) + trim_spec(ts.last()) + seq![' ']
    }
}

/// Simple cleanup of a cell's text nodes.
pub open spec fn cleanup_spec(ts: Seq<Seq<char>>) -> Seq<char> {
    trim_spec(trimmed_cat(ts))
}

/// One leading dollar sign stripped, if present.
pub open spec fn strip_dollar(s: Seq<char>) -> Seq<char> {
    if s.len() > 0 && s[0] == '$' {
        s.drop_first()
    } else {
        s
    }
}

/// Amount cleanup of a cell's text nodes.
pub open spec fn cleanup_amount_spec(ts: Seq<Seq<char>>) -> Seq<char> {
    strip_dollar(cleanup_spec(ts))
}

/// The texts concatenated as they stand, with one space after each.
pub open spec fn raw_cat(ts: Seq<Seq<char>>) -> Seq<char>
    decreases ts.len(),
{
    if ts.len() == 0 {
        Seq::empty()
    } else {
        raw_cat(ts.drop_last()) + ts.last() + seq![' ']
    }
}

/// Index of the first newline in `s`, or the length of `s` when it has none.
pub open spec fn first_nl(s: Seq<char>) -> int
    decreases s.len(),
{
    if s.len() == 0 {
        0
    } else if s[0] == '\n' {
        0
    } else {
        1 + first_nl(s.drop_first())
    }
}

/// `s` split at newlines; the separators are consumed.
pub open spec fn split_nl(s: Seq<char>) -> Seq<Seq<char>>
    decreases s.len(),
{
    let i = first_nl(s);
    if 0 <= i < s.len() {
        seq![s.take(i)] + split_nl(s.skip(i + 1))
    } else {
        seq![s]
    }
}

/// A split never yields more lines than characters plus one.
pub proof fn lemma_split_nl_count(s: Seq<char>)
    ensures
        1 <= split_nl(s).len() <= s.len() + 1,
    decreases s.len(),
{
    lemma_first_nl(s);
    let i = first_nl(s);
    if 0 <= i < s.len() {
        lemma_split_nl_count(s.skip(i + 1));
    }
}

/// Index of the first whitespace character in `s`, or the length of `s`.
pub open spec fn first_ws(s: Seq<char>) -> int
    decreases s.len(),
{
    if s.len() == 0 {
        0
    } else if is_ws(s[0]) {
        0
    } else {
        1 + first_ws(s.drop_first())
    }
}

/// `s` split at every whitespace character; empty segments are kept.
pub open spec fn split_ws(s: Seq<char>) -> Seq<Seq<char>>
    decreases s.len(),
{
    let i = first_ws(s);
    if 0 <= i < s.len() {
        seq![s.take(i)] + split_ws(s.skip(i + 1))
    } else {
        seq![s]
    }
}

/// The non-empty segments, in order.
pub open spec fn nonempty_segs(ss: Seq<Seq<char>>) -> Seq<Seq<char>>
    decreases ss.len(),
{
    if ss.len() == 0 {
        Seq::empty()
    } else if ss.last().len() > 0 {
        nonempty_segs(ss.drop_last()).push(ss.last())
    } else {
        nonempty_segs(ss.drop_last())
    }
}

/// The parts joined with a single separator character between them.
pub open spec fn join_char(ts: Seq<Seq<char>>, c: char) -> Seq<char>
    decreases ts.len(),
{
    if ts.len() == 0 {
        Seq::empty()
    } else if ts.len() == 1 {
        ts[0]
    } else {
        join_char(ts.drop_last(), c) + seq![c] + ts.last()
    }
}

/// One line collapsed to its words, joined by single spaces.
pub open spec fn line_clean(line: Seq<char>) -> Seq<char> {
    join_char(nonempty_segs(split_ws(line)), ' ')
}

/// Each line cleaned, lines that clean to nothing dropped.
pub open spec fn clean_lines(ls: Seq<Seq<char>>) -> Seq<Seq<char>>
    decreases ls.len(),
{
    if ls.len() == 0 {
        Seq::empty()
    } else if line_clean(ls.last()).len() > 0 {
        clean_lines(ls.drop_last()).push(line_clean(ls.last()))
    } else {
        clean_lines(ls.drop_last())
    }
}

/// Multi-line cleanup of a cell's text nodes.
pub open spec fn cleanup_multi_spec(ts: Seq<Seq<char>>) -> Seq<char> {
    join_char(clean_lines(split_nl(raw_cat(ts))), '\n')
}

/// Appends all of `src` to `dst`.
pub fn append_chars(dst: &mut Vec<char>, src: &Vec<char>)
    ensures
        final(dst)@ == old(dst)@ + src@,
{
    let mut i: usize = 0;
    while i < src.len()
        invariant
            i <= src@.len(),
            dst@ == old(dst)@ + src@.take(i as int),
        decreases src@.len() - i,
    {
        let ghost pre = dst@;
        dst.push(src[i]);
        proof {
            assert(pre.push(src@[i as int]) =~= old(dst)@ + src@.take(i + 1));
        }
        i = i + 1;
    }
    proof {
        assert(old(dst)@ + src@.take(src@.len() as int) =~= old(dst)@ + src@);
    }
}

/// Simple cleanup: text nodes, each trimmed, joined with single spaces, the
/// whole trimmed.
pub fn cleanup(texts: &Vec<String>) -> (r: String)
    ensures
        r@ == cleanup_spec(texts.deep_view()),
{
    let ghost ts = texts.deep_view();
    let mut acc: Vec<char> = Vec::new();
    let mut i: usize = 0;
    while i < texts.len()
        invariant
            i <= texts@.len(),
            ts == texts.deep_view(),
            acc@ == trimmed_cat(ts.take(i as int)),
        decreases texts@.len() - i,
    {
        let chars = string_to_chars(texts[i].as_str());
        let trimmed = trim_chars(&chars);
        append_chars(&mut acc, &trimmed);
        acc.push(' ');
        proof {
            assert(ts.take(i + 1).drop_last() =~= ts.take(i as int));
            assert(ts.take(i + 1).last() == ts[i as int]);
            assert(acc@ =~= trimmed_cat(ts.take(i as int)) + trim_spec(ts[i as int]) + seq![' ']);
        }
        i = i + 1;
    }
    proof {
        assert(ts.take(ts.len() as int) =~= ts);
    }
    let out = trim_chars(&acc);
    chars_to_string(&out)
}

/// Amount cleanup: simple cleanup, then one leading dollar sign stripped.
pub fn cleanup_amount(texts: &Vec<String>) -> (r: String)
    ensures
        r@ == cleanup_amount_spec(texts.deep_view()),
{
    let cleaned = cleanup(texts);
    let chars = string_to_chars(cleaned.as_str());
    if chars.len() > 0 && chars[0] == '$' {
        let rest = subvec(&chars, 1, chars.len());
        proof {
            assert(chars@.subrange(1, chars@.len() as int) =~= chars@.drop_first());
        }
        chars_to_string(&rest)
    } else {
        cleaned
    }
}

proof fn lemma_first_nl(s: Seq<char>)
    ensures
        0 <= first_nl(s) <= s.len(),
        forall|j: int| 0 <= j < first_nl(s) ==> s[j] != '\n',
        first_nl(s) < s.len() ==> s[first_nl(s)] == '\n',
    decreases s.len(),
{
    if s.len() > 0 && s[0] != '\n' {
        lemma_first_nl(s.drop_first());
        assert(forall|j: int| 1 <= j < first_nl(s) ==> s[j] == s.drop_first()[j - 1]);
    }
}

proof fn lemma_first_nl_at(s: Seq<char>, j: int)
    requires
        0 <= j <= s.len(),
        forall|k: int| 0 <= k < j ==> s[k] != '\n',
        j < s.len() ==> s[j] == '\n',
    ensures
        first_nl(s) == j,
{
    lemma_first_nl(s);
    let d = first_nl(s);
    if d < j {
        assert(s[d] == '\n');
        assert(false);
    }
    if d > j {
        assert(j < s.len());
        assert(s[j] != '\n');
        assert(false);
    }
}

proof fn lemma_first_ws(s: Seq<char>)
    ensures
        0 <= first_ws(s) <= s.len(),
        forall|j: int| 0 <= j < first_ws(s) ==> !is_ws(s[j]),
        first_ws(s) < s.len() ==> is_ws(s[first_ws(s)]),
    decreases s.len(),
{
    if s.len() > 0 && !is_ws(s[0]) {
        lemma_first_ws(s.drop_first());
        assert(forall|j: int| 1 <= j < first_ws(s) ==> s[j] == s.drop_first()[j - 1]);
    }
}

proof fn lemma_first_ws_at(s: Seq<char>, j: int)
    requires
        0 <= j <= s.len(),
        forall|k: int| 0 <= k < j ==> !is_ws(s[k]),
        j < s.len() ==> is_ws(s[j]),
    ensures
        first_ws(s) == j,
{
    lemma_first_ws(s);
    let d = first_ws(s);
    if d < j {
        assert(is_ws(s[d]));
        assert(false);
    }
    if d > j {
        assert(j < s.len());
        assert(!is_ws(s[j]));
        assert(false);
    }
}

/// The lines of `v` from `from` onward, split at newlines.
pub(crate) fn split_nl_exec(v: &Vec<char>, from: usize) -> (r: Vec<Vec<char>>)
    requires
        from <= v@.len(),
    ensures
        r.deep_view() == split_nl(v@.skip(from as int)),
    decreases v@.len() - from,
{
    let ghost s = v@.skip(from as int);
    let mut j: usize = from;
    while j < v.len() && v[j] != '\n'
        invariant
            from <= j <= v@.len(),
            forall|k: int| from <= k < j ==> v@[k] != '\n',
        decreases v@.len() - j,
    {
        j = j + 1;
    }
    proof {
        assert(forall|k: int| 0 <= k < j - from ==> s[k] == v@[k + from] && s[k] != '\n');
        if j < v@.len() {
            assert(s[j - from] == v@[j as int]);
        }
        lemma_first_nl_at(s, j - from);
    }
    if j < v.len() {
        let head = subvec(v, from, j);
        let mut r = split_nl_exec(v, j + 1);
        r.insert(0, head);
        proof {
            assert(head@ =~= s.take(j - from));
            assert(v@.skip(j + 1) =~= s.skip(j - from + 1));
            assert(r.deep_view() =~~= seq![s.take(j - from)] + split_nl(s.skip(j - from + 1)));
        }
        r
    } else {
        let head = subvec(v, from, v.len());
        let mut r: Vec<Vec<char>> = Vec::new();
        r.push(head);
        proof {
            assert(head@ =~= s);
            assert(r.deep_view() =~~= seq![s]);
        }
        r
    }
}

/// The segments of `v` from `from` onward, split at whitespace.
fn split_ws_exec(v: &Vec<char>, from: usize) -> (r: Vec<Vec<char>>)
    requires
        from <= v@.len(),
    ensures
        r.deep_view() == split_ws(v@.skip(from as int)),
    decreases v@.len() - from,
{
    let ghost s = v@.skip(from as int);
    let mut j: usize = from;
    while j < v.len() && !is_ws_char(v[j])
        invariant
            from <= j <= v@.len(),
            forall|k: int| from <= k < j ==> !is_ws(v@[k]),
        decreases v@.len() - j,
    {
        j = j + 1;
    }
    proof {
        assert(forall|k: int| 0 <= k < j - from ==> s[k] == v@[k + from] && !is_ws(s[k]));
        if j < v@.len() {
            assert(s[j - from] == v@[j as int]);
        }
        lemma_first_ws_at(s, j - from);
    }
    if j < v.len() {
        let head = subvec(v, from, j);
        let mut r = split_ws_exec(v, j + 1);
        r.insert(0, head);
        proof {
            assert(head@ =~= s.take(j - from));
            assert(v@.skip(j + 1) =~= s.skip(j - from + 1));
            assert(r.deep_view() =~~= seq![s.take(j - from)] + split_ws(s.skip(j - from + 1)));
        }
        r
    } else {
        let head = subvec(v, from, v.len());
        let mut r: Vec<Vec<char>> = Vec::new();
        r.push(head);
        proof {
            assert(head@ =~= s);
            assert(r.deep_view() =~~= seq![s]);
        }
        r
    }
}

/// Joins parts with a single separator character.
fn join_exec(parts: &Vec<Vec<char>>, sep: char) -> (r: Vec<char>)
    ensures
        r@ == join_char(parts.deep_view(), sep),
{
    let ghost ps = parts.deep_view();
    let mut acc: Vec<char> = Vec::new();
    let mut i: usize = 0;
    while i < parts.len()
        invariant
            i <= parts@.len(),
            ps == parts.deep_view(),
            acc@ == join_char(ps.take(i as int), sep),
        decreases parts@.len() - i,
    {
        if i > 0 {
            acc.push(sep);
        }
        append_chars(&mut acc, &parts[i]);
        proof {
            assert(ps.take(i + 1).drop_last() =~= ps.take(i as int));
            assert(ps.take(i + 1).last() == ps[i as int]);
            if i == 0 {
                assert(acc@ =~= join_char(ps.take(1), sep));
            } else {
                assert(acc@ =~= join_char(ps.take(i as int), sep) + seq![sep] + ps[i as int]);
            }
        }
        i = i + 1;
    }
    proof {
        assert(ps.take(ps.len() as int) =~= ps);
    }
    acc
}

/// One line collapsed to its words, joined by single spaces.
fn line_clean_exec(line: &Vec<char>) -> (r: Vec<char>)
    ensures
        r@ == line_clean(line@),
{
    let segs = split_ws_exec(line, 0);
    proof {
        assert(line@.skip(0) =~= line@);
    }
    let ghost ss = segs.deep_view();
    let mut words: Vec<Vec<char>> = Vec::new();
    let mut i: usize = 0;
    while i < segs.len()
        invariant
            i <= segs@.len(),
            ss == segs.deep_view(),
            words.deep_view() == nonempty_segs(ss.take(i as int)),
        decreases segs@.len() - i,
    {
        proof {
            assert(ss.take(i + 1).drop_last() =~= ss.take(i as int));
            assert(ss.take(i + 1).last() == ss[i as int]);
        }
        if segs[i].len() > 0 {
            let ghost pre = words.deep_view();
            let w = subvec(&segs[i], 0, segs[i].len());
            proof {
                assert(w@ =~= ss[i as int]);
            }
            words.push(w);
            proof {
                assert(words.deep_view() =~~= pre.push(ss[i as int]));
            }
        }
        i = i + 1;
    }
    proof {
        assert(ss.take(ss.len() as int) =~= ss);
    }
    join_exec(&words, ' ')
}

/// Multi-line cleanup: concatenate, split on line breaks, collapse each
/// line's whitespace, drop empty lines, join survivors with newlines.
pub fn cleanup_multiple_lines(texts: &Vec<String>) -> (r: String)
    ensures
        r@ == cleanup_multi_spec(texts.deep_view()),
{
    let ghost ts = texts.deep_view();
    let mut acc: Vec<char> = Vec::new();
    let mut i: usize = 0;
    while i < texts.len()
        invariant
            i <= texts@.len(),
            ts == texts.deep_view(),
            acc@ == raw_cat(ts.take(i as int)),
        decreases texts@.len() - i,
    {
        let chars = string_to_chars(texts[i].as_str());
        append_chars(&mut acc, &chars);
        acc.push(' ');
        proof {
            assert(ts.take(i + 1).drop_last() =~= ts.take(i as int));
            assert(ts.take(i + 1).last() == ts[i as int]);
            assert(acc@ =~= raw_cat(ts.take(i as int)) + ts[i as int] + seq![' ']);
        }
        i = i + 1;
    }
    proof {
        assert(ts.take(ts.len() as int) =~= ts);
    }
    let lines = split_nl_exec(&acc, 0);
    proof {
        assert(acc@.skip(0) =~= acc@);
    }
    let ghost ls = lines.deep_view();
    let mut cleaned: Vec<Vec<char>> = Vec::new();
    let mut i: usize = 0;
    while i < lines.len()
        invariant
            i <= lines@.len(),
            ls == lines.deep_view(),
            cleaned.deep_view() == clean_lines(ls.take(i as int)),
        decreases lines@.len() - i,
    {
        proof {
            assert(ls.take(i + 1).drop_last() =~= ls.take(i as int));
            assert(ls.take(i + 1).last() == ls[i as int]);
            assert(ls[i as int] =~= lines@[i as int]@);
        }
        let lc = line_clean_exec(&lines[i]);
        if lc.len() > 0 {
            let ghost pre = cleaned.deep_view();
            cleaned.push(lc);
            proof {
                assert(cleaned.deep_view() =~~= pre.push(line_clean(ls[i as int])));
            }
        }
        i = i + 1;
    }
    proof {
        assert(ls.take(ls.len() as int) =~= ls);
    }
    let joined = join_exec(&cleaned, '\n');
    chars_to_string(&joined)
}

} // verus!
