//! Greedy line wrapper with hyphenation fallback.
//!
//! `split_into_lines(text, max_length)` repeatedly splits the last produced
//! line while it exceeds `max_length` characters: within the first
//! `max_length + 1` characters it looks for the last whitespace-or-hyphen
//! break; if one exists at a position past the start, the line is cut just
//! after it and the remainder becomes a new line prefixed with one space;
//! otherwise the line is cut at exactly `max_length + 1` characters, a
//! synthetic hyphen is appended to the first part, and the remainder is again
//! prefixed with one space. A break character in position 0 is ignored: a cut
//! there would remove nothing and make no progress, so such a line is treated
//! as unbreakable.

use vstd::prelude::*;
use crate::text::{chars_to_string, string_to_chars, subvec};

verus! {

/// The characters at which a line may be broken.
pub open spec fn is_break(c: char) -> bool {
    c == ' ' || c == '-'
}

pub fn is_break_char(c: char) -> (r: bool)
    ensures
        r == is_break(c),
{
    c == ' ' || c == '-'
}

/// Index of the last break character of `w`, or -1 when `w` has none.
pub open spec fn last_break(w: Seq<char>) -> int
    decreases w.len(),
{
    if w.len() == 0 {
        -1
    } else if is_break(w[w.len() - 1]) {
        w.len() - 1
    } else {
        last_break(w.drop_last())
    }
}

proof fn lemma_last_break(w: Seq<char>)
    ensures
        -1 <= last_break(w) < w.len(),
        last_break(w) >= 0 ==> is_break(w[last_break(w)]),
        forall|j: int| last_break(w) < j < w.len() ==> !is_break(w[j]),
    decreases w.len(),
{
    if w.len() > 0 && !is_break(w[w.len() - 1]) {
        lemma_last_break(w.drop_last());
        assert(forall|j: int|
            last_break(w) < j < w.len() - 1 ==> w[j] == w.drop_last()[j] && !is_break(w[j]));
    }
}

proof fn lemma_last_break_at(w: Seq<char>, j: int)
    requires
        0 <= j < w.len(),
        is_break(w[j]),
        forall|k: int| j < k < w.len() ==> !is_break(w[k]),
    ensures
        last_break(w) == j,
{
    lemma_last_break(w);
    let r = last_break(w);
    if r < j {
        assert(!is_break(w[j]));
        assert(false);
    }
    if r > j {
        assert(!is_break(w[r]));
        assert(false);
    }
}

/// The lines produced from one overlong line, in order.
pub open spec fn wrap_line(line: Seq<char>, max: nat) -> Seq<Seq<char>>
    decreases line.len(),
{
    if max == 0 || line.len() <= max {
        seq![line]
    } else {
        let i = last_break(line.take(max + 1 as int));
        if 1 <= i <= max {
            seq![line.take(i + 1)] + wrap_line(seq![' '] + line.skip(i + 1), max)
        } else {
            seq![line.take(max + 1 as int).push('-')] + wrap_line(seq![' '] + line.skip(max + 1 as int), max)
        }
    }
}

/// What `split_into_lines` returns: no lines for empty input, otherwise the
/// wrapping of the whole input as one initial line.
pub open spec fn wrap_spec(s: Seq<char>, max: nat) -> Seq<Seq<char>> {
    if s.len() == 0 {
        Seq::empty()
    } else {
        wrap_line(s, max)
    }
}

/// The non-break content of a text: its characters that are neither spaces
/// nor hyphens.
pub open spec fn strip_breaks(s: Seq<char>) -> Seq<char> {
    s.filter(|c: char| !is_break(c))
}

proof fn lemma_strip_concat(a: Seq<char>, b: Seq<char>)
    ensures
        strip_breaks(a + b) == strip_breaks(a) + strip_breaks(b),
{
    Seq::filter_distributes_over_add(a, b, |c: char| !is_break(c));
}

proof fn lemma_strip_single(c: char)
    ensures
        is_break(c) ==> strip_breaks(seq![c]) == Seq::<char>::empty(),
        !is_break(c) ==> strip_breaks(seq![c]) == seq![c],
{
    reveal(Seq::filter);
    assert(seq![c].drop_last() =~= Seq::<char>::empty());
    assert(Seq::<char>::empty().filter(|x: char| !is_break(x)) =~= Seq::<char>::empty());
}

proof fn lemma_flatten_two(a: Seq<char>, rest: Seq<Seq<char>>)
    ensures
        (seq![a] + rest).flatten() == a + rest.flatten(),
{
    let s = seq![a] + rest;
    assert(s.first() == a);
    assert(s.drop_first() =~= rest);
}

/// Wrapping round trip: the produced lines carry exactly the non-break
/// content of the input, in order. The splits only ever duplicate break
/// positions (the space prefixed to a continuation) or add a synthetic
/// hyphen, so filtering spaces and hyphens from the concatenation of the
/// produced lines gives the same text as filtering them from the input.
pub proof fn lemma_wrap_round_trip(s: Seq<char>, max: nat)
    requires
        max >= 1,
    ensures
        strip_breaks(wrap_spec(s, max).flatten()) == strip_breaks(s),
    decreases s.len(),
{
    if s.len() == 0 {
        assert(wrap_spec(s, max).flatten() =~= Seq::<char>::empty());
        assert(strip_breaks(Seq::<char>::empty()) =~= Seq::<char>::empty()) by {
            reveal(Seq::filter);
        }
        assert(strip_breaks(s) =~= Seq::<char>::empty()) by {
            reveal(Seq::filter);
        }
    } else {
        lemma_wrap_line_round_trip(s, max);
    }
}

proof fn lemma_wrap_line_round_trip(line: Seq<char>, max: nat)
    requires
        max >= 1,
    ensures
        strip_breaks(wrap_line(line, max).flatten()) == strip_breaks(line),
    decreases line.len(),
{
    if line.len() <= max {
        Seq::lemma_flatten_one_element(wrap_line(line, max));
    } else {
        let w = line.take(max + 1 as int);
        lemma_last_break(w);
        let i = last_break(w);
        if i >= 1 {
            let first = line.take(i + 1);
            let cont = seq![' '] + line.skip(i + 1);
            lemma_flatten_two(first, wrap_line(cont, max));
            lemma_wrap_line_round_trip(cont, max);
            lemma_strip_concat(first, wrap_line(cont, max).flatten());
            lemma_strip_concat(seq![' '], line.skip(i + 1));
            lemma_strip_single(' ');
            lemma_strip_concat(first, line.skip(i + 1));
            assert(first + line.skip(i + 1) =~= line);
            assert(strip_breaks(cont) =~= strip_breaks(line.skip(i + 1)));
        } else {
            let first = line.take(max + 1 as int).push('-');
            let cont = seq![' '] + line.skip(max + 1 as int);
            lemma_flatten_two(first, wrap_line(cont, max));
            lemma_wrap_line_round_trip(cont, max);
            lemma_strip_concat(first, wrap_line(cont, max).flatten());
            assert(first =~= line.take(max + 1 as int) + seq!['-']);
            lemma_strip_concat(line.take(max + 1 as int), seq!['-']);
            lemma_strip_single('-');
            assert(strip_breaks(first) =~= strip_breaks(line.take(max + 1 as int)));
            lemma_strip_concat(seq![' '], line.skip(max + 1 as int));
            lemma_strip_single(' ');
            assert(strip_breaks(cont) =~= strip_breaks(line.skip(max + 1 as int)));
            lemma_strip_concat(line.take(max + 1 as int), line.skip(max + 1 as int));
            assert(line.take(max + 1 as int) + line.skip(max + 1 as int) =~= line);
        }
    }
}

/// Length discipline of the produced lines: every line fits in
/// `max + 2` characters; a line that exceeds `max` ends at a kept break or a
/// synthetic hyphen; a line that exceeds `max + 1` can only be a forced split
/// ending in the synthetic hyphen; and the final line always fits in `max`.
pub proof fn lemma_wrap_line_lengths(line: Seq<char>, max: nat)
    requires
        max >= 1,
    ensures
        wrap_line(line, max).len() >= 1,
        wrap_line(line, max).last().len() <= max,
        forall|k: int|
            0 <= k < wrap_line(line, max).len() ==> (#[trigger] wrap_line(line, max)[k]).len()
                <= max + 2,
        forall|k: int|
            0 <= k < wrap_line(line, max).len() && (#[trigger] wrap_line(line, max)[k]).len() > max
                ==> is_break(wrap_line(line, max)[k].last()),
        forall|k: int|
            0 <= k < wrap_line(line, max).len() && (#[trigger] wrap_line(line, max)[k]).len() > max
                + 1 ==> wrap_line(line, max)[k].last() == '-',
    decreases line.len(),
{
    let ls = wrap_line(line, max);
    if line.len() <= max {
        assert(ls =~= seq![line]);
    } else {
        let w = line.take(max + 1 as int);
        lemma_last_break(w);
        let i = last_break(w);
        if i >= 1 {
            let first = line.take(i + 1);
            let cont = seq![' '] + line.skip(i + 1);
            lemma_wrap_line_lengths(cont, max);
            assert(first.len() == i + 1 <= max + 1);
            assert(first.last() == w[i]);
            assert(is_break(first.last()));
            let rest = wrap_line(cont, max);
            assert(ls =~= seq![first] + rest);
            assert(forall|k: int| 1 <= k < ls.len() ==> ls[k] == rest[k - 1]);
            assert(ls.last() == rest.last());
        } else {
            let first = line.take(max + 1 as int).push('-');
            let cont = seq![' '] + line.skip(max + 1 as int);
            lemma_wrap_line_lengths(cont, max);
            assert(first.len() == max + 2);
            assert(first.last() == '-');
            let rest = wrap_line(cont, max);
            assert(ls =~= seq![first] + rest);
            assert(forall|k: int| 1 <= k < ls.len() ==> ls[k] == rest[k - 1]);
            assert(ls.last() == rest.last());
        }
    }
}

/// Wrapping cannot yield more lines than the input has characters, plus
/// one: every split consumes at least one character of the remainder.
pub proof fn lemma_wrap_count(s: Seq<char>, max: nat)
    requires
        max >= 1,
    ensures
        wrap_spec(s, max).len() <= s.len() + 1,
{
    if s.len() > 0 {
        lemma_wrap_line_count(s, max);
    }
}

proof fn lemma_wrap_line_count(line: Seq<char>, max: nat)
    requires
        max >= 1,
    ensures
        wrap_line(line, max).len() <= line.len() + 1,
    decreases line.len(),
{
    if line.len() > max {
        let w = line.take(max + 1 as int);
        lemma_last_break(w);
        let i = last_break(w);
        if 1 <= i <= max {
            lemma_wrap_line_count(seq![' '] + line.skip(i + 1), max);
        } else {
            lemma_wrap_line_count(seq![' '] + line.skip(max + 1 as int), max);
        }
    }
}

/// A continuation line: one space followed by the characters of `v` from
/// `from` onward.
fn make_continuation(v: &Vec<char>, from: usize) -> (r: Vec<char>)
    requires
        from <= v@.len(),
    ensures
        r@ == seq![' '] + v@.skip(from as int),
{
    let mut r: Vec<char> = Vec::new();
    r.push(' ');
    let mut i: usize = from;
    while i < v.len()
        invariant
            from <= i <= v@.len(),
            r@ == seq![' '] + v@.subrange(from as int, i as int),
        decreases v@.len() - i,
    {
        let ghost pre = r@;
        r.push(v[i]);
        proof {
            assert(pre.push(v@[i as int]) =~= seq![' '] + v@.subrange(from as int, i + 1));
        }
        i = i + 1;
    }
    r
}

/// Splits text that exceeds a maximum width into a sequence of lines, each
/// continuation prefixed by one space, with a synthetic hyphen at forced
/// splits inside unbreakable runs. Empty input yields no lines; input that
/// already fits yields exactly one line, the input itself.
pub fn split_into_lines(string: &str, max_length: usize) -> (lines: Vec<String>)
    requires
        max_length >= 1,
    ensures
        lines.deep_view() == wrap_spec(string@, max_length as nat),
        string@.len() == 0 ==> lines@.len() == 0,
        string@.len() > 0 ==> lines@.len() >= 1,
        1 <= string@.len() <= max_length ==> lines.deep_view() == seq![string@],
        forall|k: int|
            0 <= k < lines@.len() ==> (#[trigger] lines.deep_view()[k]).len() <= max_length + 2,
        lines@.len() > 0 ==> lines.deep_view().last().len() <= max_length,
{
    proof {
        if string@.len() > 0 {
            lemma_wrap_line_lengths(string@, max_length as nat);
        }
    }
    let chars = string_to_chars(string);
    let mut out: Vec<String> = Vec::new();
    if chars.len() == 0 {
        proof {
            assert(out.deep_view() =~= wrap_spec(string@, max_length as nat));
        }
        return out;
    }
    let ghost goal = wrap_line(string@, max_length as nat);
    let mut rest: Vec<char> = chars;
    while rest.len() > max_length
        invariant
            max_length >= 1,
            out.deep_view() + wrap_line(rest@, max_length as nat) =~= goal,
        decreases rest@.len(),
    {
        // scan the window for the last break character past position 0
        let mut found: usize = 0;
        let mut j: usize = max_length;
        while found == 0 && j >= 1
            invariant
                j <= max_length,
                max_length < rest@.len(),
                found <= j,
                found == 0 ==> forall|k: int| j < k <= max_length ==> !is_break(#[trigger] rest@[k]),
                found >= 1 ==> is_break(rest@[found as int]) && forall|k: int|
                    found < k <= max_length ==> !is_break(#[trigger] rest@[k]),
            decreases j + (if found == 0 { 1int } else { 0int }),
        {
            if is_break_char(rest[j]) {
                found = j;
            } else {
                j = j - 1;
            }
        }
        let ghost w = rest@.take(max_length + 1);
        proof {
            assert(forall|k: int| 0 <= k <= max_length ==> w[k] == rest@[k]);
        }
        let cut = if found >= 1 {
            proof {
                lemma_last_break_at(w, found as int);
            }
            found
        } else {
            proof {
                lemma_last_break(w);
                assert(forall|k: int| 1 <= k <= max_length ==> !is_break(w[k]));
            }
            max_length
        };
        // cut >= 1 holds: either a break was found past position 0, or the cut
        // is forced at max_length, which is at least 1
        let mut first = subvec(&rest, 0, cut + 1);
        if found == 0 {
            first.push('-');
        }
        let cont = make_continuation(&rest, cut + 1);
        let ghost dv = out.deep_view();
        out.push(chars_to_string(&first));
        proof {
            assert(out.deep_view() =~= dv.push(first@));
            if found >= 1 {
                assert(first@ =~= rest@.take(found + 1));
                assert(wrap_line(rest@, max_length as nat) =~= seq![rest@.take(found + 1)]
                    + wrap_line(cont@, max_length as nat));
            } else {
                assert(first@ =~= rest@.take(max_length + 1).push('-'));
                assert(last_break(w) < 1);
                assert(wrap_line(rest@, max_length as nat) =~= seq![rest@.take(
                    max_length + 1,
                ).push('-')] + wrap_line(cont@, max_length as nat));
            }
            assert(dv.push(first@) + wrap_line(cont@, max_length as nat) =~= dv + (seq![first@]
                + wrap_line(cont@, max_length as nat)));
            assert(out.deep_view() + wrap_line(cont@, max_length as nat) =~= goal);
        }
        rest = cont;
    }
    let ghost dv = out.deep_view();
    out.push(chars_to_string(&rest));
    proof {
        assert(wrap_line(rest@, max_length as nat) =~= seq![rest@]);
        assert(out.deep_view() =~= dv.push(rest@));
        assert(out.deep_view() =~= goal);
    }
    out
}

} // verus!
