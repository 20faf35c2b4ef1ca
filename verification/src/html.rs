//! The structural view of the input markup that the extractor walks: spans
//! and tables of rows of cells, each element reduced to its text nodes in
//! document order. The CSS-selector tree traversal that produces this view
//! from raw markup is an external collaborator; the library's own work
//! starts from these plain values.
//!
//! `find_html_fragment` locates the fragment between the case-insensitive
//! `<html>` and `</html>` markers in a mail file's text, the way the
//! surrounding daemon expects.

use vstd::prelude::*;
use crate::text::{string_to_chars, chars_to_string, subvec};

verus! {

/// An element's text nodes, in document order.
#[derive(Debug, Clone)]
pub struct HtmlCell {
    pub texts: Vec<String>,
}

/// A table row: its `td` cells in order.
#[derive(Debug, Clone)]
pub struct HtmlRow {
    pub cells: Vec<HtmlCell>,
}

/// A table: its `tr` rows in order.
#[derive(Debug, Clone)]
pub struct HtmlTable {
    pub rows: Vec<HtmlRow>,
}

/// A parsed document: whether it has a body, and the spans and tables under
/// it, in document order.
#[derive(Debug, Clone)]
pub struct HtmlDoc {
    pub has_body: bool,
    pub spans: Vec<HtmlCell>,
    pub tables: Vec<HtmlTable>,
}

/// The cells of a table in row-major order, the order a selector that walks
/// the whole table yields them in.
pub open spec fn table_cells(rows: Seq<HtmlRow>) -> Seq<HtmlCell>
    decreases rows.len(),
{
    if rows.len() == 0 {
        Seq::empty()
    } else {
        table_cells(rows.drop_last()) + rows.last().cells@
    }
}

proof fn lemma_table_cells_prefix(rows: Seq<HtmlRow>, k: int)
    requires
        0 <= k <= rows.len(),
    ensures
        table_cells(rows.take(k)).len() <= table_cells(rows).len(),
        forall|n: int|
            0 <= n < table_cells(rows.take(k)).len() ==> table_cells(rows)[n] == table_cells(
                rows.take(k),
            )[n],
    decreases rows.len() - k,
{
    if k == rows.len() {
        assert(rows.take(k) =~= rows);
    } else {
        lemma_table_cells_prefix(rows, k + 1);
        assert(rows.take(k + 1).drop_last() =~= rows.take(k));
        assert(table_cells(rows.take(k + 1)) == table_cells(rows.take(k)) + rows[k].cells@);
    }
}

/// The `n`-th cell of the table in row-major order, if the table has that
/// many cells.
pub fn nth_table_cell<'a>(t: &'a HtmlTable, n: usize) -> (r: Option<&'a HtmlCell>)
    ensures
        r is Some <==> n < table_cells(t.rows@).len(),
        r is Some ==> *r->0 == table_cells(t.rows@)[n as int],
{
    let ghost rows = t.rows@;
    let mut cnt: usize = 0;
    let mut i: usize = 0;
    while i < t.rows.len()
        invariant
            i <= rows.len(),
            rows == t.rows@,
            cnt == table_cells(rows.take(i as int)).len(),
            n >= cnt,
        decreases rows.len() - i,
    {
        proof {
            assert(rows.take(i + 1).drop_last() =~= rows.take(i as int));
            assert(rows.take(i + 1).last() == rows[i as int]);
            lemma_table_cells_prefix(rows, i + 1);
        }
        let row_len = t.rows[i].cells.len();
        if n - cnt < row_len {
            let cell = &t.rows[i].cells[n - cnt];
            proof {
                assert(table_cells(rows.take(i + 1))[n as int] == rows[i as int].cells@[n - cnt]);
            }
            return Some(cell);
        }
        cnt = cnt + row_len;
        i = i + 1;
    }
    proof {
        assert(rows.take(rows.len() as int) =~= rows);
    }
    None
}

/// Whether `c` may stand for the tag character `t` (a lower-case tag letter
/// or a punctuation character) in a case-insensitive match.
pub open spec fn tag_char_matches(c: char, t: char) -> bool {
    c == t || (t == 'h' && c == 'H') || (t == 't' && c == 'T') || (t == 'm' && c == 'M') || (t
        == 'l' && c == 'L')
}

/// The opening marker, lower case.
pub open spec fn open_tag() -> Seq<char> {
    seq!['<', 'h', 't', 'm', 'l', '>']
}

/// The closing marker, lower case.
pub open spec fn close_tag() -> Seq<char> {
    seq!['<', '/', 'h', 't', 'm', 'l', '>']
}

/// Whether the tag matches at position `i` of `s`, ignoring letter case.
pub open spec fn tag_at(s: Seq<char>, i: int, tag: Seq<char>) -> bool {
    0 <= i && i + tag.len() <= s.len() && forall|j: int|
        0 <= j < tag.len() ==> tag_char_matches(s[i + j], #[trigger] tag[j])
}

/// The least position at or after `from` where the tag matches, or -1.
pub open spec fn first_tag(s: Seq<char>, tag: Seq<char>, from: int) -> int
    decreases s.len() - from,
    when 0 <= from <= s.len()
{
    if from < 0 || from + tag.len() > s.len() {
        -1
    } else if tag_at(s, from, tag) {
        from
    } else {
        first_tag(s, tag, from + 1)
    }
}

pub proof fn lemma_first_tag(s: Seq<char>, tag: Seq<char>, from: int)
    requires
        0 <= from <= s.len(),
    ensures
        first_tag(s, tag, from) == -1 || from <= first_tag(s, tag, from),
        first_tag(s, tag, from) >= 0 ==> tag_at(s, first_tag(s, tag, from), tag),
        forall|i: int|
            from <= i && (first_tag(s, tag, from) == -1 || i < first_tag(s, tag, from)) ==> !tag_at(
                s,
                i,
                tag,
            ),
    decreases s.len() - from,
{
    if from + tag.len() > s.len() {
        assert forall|i: int| from <= i implies !tag_at(s, i, tag) by {
            assert(i + tag.len() > s.len());
        }
    } else if !tag_at(s, from, tag) {
        lemma_first_tag(s, tag, from + 1);
    }
}

proof fn lemma_first_tag_at(s: Seq<char>, tag: Seq<char>, from: int, j: int)
    requires
        0 <= from <= s.len(),
        from <= j,
        tag_at(s, j, tag),
        forall|i: int| from <= i < j ==> !tag_at(s, i, tag),
    ensures
        first_tag(s, tag, from) == j,
{
    lemma_first_tag(s, tag, from);
    let d = first_tag(s, tag, from);
    if d == -1 || d > j {
        assert(!tag_at(s, j, tag));
        assert(false);
    }
    if d < j {
        assert(!tag_at(s, d, tag));
        assert(false);
    }
}

fn open_tag_at(v: &Vec<char>, i: usize) -> (r: bool)
    requires
        i + 6 <= v@.len(),
    ensures
        r == tag_at(v@, i as int, open_tag()),
{
    let n = v.len();
    let r = v[i] == '<' && (v[i + 1] == 'h' || v[i + 1] == 'H') && (v[i + 2] == 't' || v[i + 2]
        == 'T') && (v[i + 3] == 'm' || v[i + 3] == 'M') && (v[i + 4] == 'l' || v[i + 4] == 'L')
        && v[i + 5] == '>';
    proof {
        if r {
            assert(forall|j: int|
                0 <= j < 6 ==> tag_char_matches(v@[i + j], #[trigger] open_tag()[j]));
        } else {
            assert(!tag_at(v@, i as int, open_tag())) by {
                if tag_at(v@, i as int, open_tag()) {
                    assert(tag_char_matches(v@[i as int], open_tag()[0]));
                    assert(tag_char_matches(v@[i + 1], open_tag()[1]));
                    assert(tag_char_matches(v@[i + 2], open_tag()[2]));
                    assert(tag_char_matches(v@[i + 3], open_tag()[3]));
                    assert(tag_char_matches(v@[i + 4], open_tag()[4]));
                    assert(tag_char_matches(v@[i + 5], open_tag()[5]));
                }
            }
        }
    }
    r
}

fn close_tag_at(v: &Vec<char>, i: usize) -> (r: bool)
    requires
        i + 7 <= v@.len(),
    ensures
        r == tag_at(v@, i as int, close_tag()),
{
    let n = v.len();
    let r = v[i] == '<' && v[i + 1] == '/' && (v[i + 2] == 'h' || v[i + 2] == 'H') && (v[i + 3]
        == 't' || v[i + 3] == 'T') && (v[i + 4] == 'm' || v[i + 4] == 'M') && (v[i + 5] == 'l'
        || v[i + 5] == 'L') && v[i + 6] == '>';
    proof {
        if r {
            assert(forall|j: int|
                0 <= j < 7 ==> tag_char_matches(v@[i + j], #[trigger] close_tag()[j]));
        } else {
            assert(!tag_at(v@, i as int, close_tag())) by {
                if tag_at(v@, i as int, close_tag()) {
                    assert(tag_char_matches(v@[i as int], close_tag()[0]));
                    assert(tag_char_matches(v@[i + 1], close_tag()[1]));
                    assert(tag_char_matches(v@[i + 2], close_tag()[2]));
                    assert(tag_char_matches(v@[i + 3], close_tag()[3]));
                    assert(tag_char_matches(v@[i + 4], close_tag()[4]));
                    assert(tag_char_matches(v@[i + 5], close_tag()[5]));
                    assert(tag_char_matches(v@[i + 6], close_tag()[6]));
                }
            }
        }
    }
    r
}

/// Why the fragment could not be located.
#[derive(Debug, Clone, Copy, PartialEq, Eq, Structural)]
pub enum FragmentError {
    /// No opening marker anywhere in the text.
    NoHtmlStart,
    /// No closing marker at or after the opening one.
    NoHtmlEnd,
}

/// Locates the markup fragment in a mail file's text: from the first
/// case-insensitive `<html>` through the end of the first `</html>` at or
/// after it.
pub fn find_html_fragment(mail: &str) -> (r: Result<String, FragmentError>)
    ensures
        ({
            let s = mail@;
            let o = first_tag(s, open_tag(), 0);
            let c = first_tag(s, close_tag(), o);
            &&& (r is Ok <==> o >= 0 && c >= 0)
            &&& (o < 0 ==> r == Result::<String, FragmentError>::Err(FragmentError::NoHtmlStart))
            &&& (o >= 0 && c < 0 ==> r == Result::<String, FragmentError>::Err(
                FragmentError::NoHtmlEnd,
            ))
            &&& (r is Ok ==> r->Ok_0@ == s.subrange(o, c + 7))
        }),
{
    let v = string_to_chars(mail);
    let ghost s = mail@;
    // find the opening marker
    let mut start: usize = 0;
    let mut have_start = false;
    let mut i: usize = 0;
    while !have_start && v.len() - i >= 6
        invariant
            s == v@,
            i <= v@.len(),
            !have_start ==> forall|k: int| 0 <= k < i ==> !tag_at(s, k, open_tag()),
            have_start ==> start == i && tag_at(s, i as int, open_tag()) && forall|k: int|
                0 <= k < i ==> !tag_at(s, k, open_tag()),
        decreases v@.len() - i + (if have_start { 0int } else { 1int }),
    {
        if open_tag_at(&v, i) {
            start = i;
            have_start = true;
        } else {
            i = i + 1;
        }
    }
    if !have_start {
        proof {
            assert forall|k: int| 0 <= k implies !tag_at(s, k, open_tag()) by {
                assert(open_tag().len() == 6);
                if k + 6 <= s.len() {
                    assert(k < i);
                }
            }
            lemma_first_tag(s, open_tag(), 0);
            if first_tag(s, open_tag(), 0) >= 0 {
                assert(tag_at(s, first_tag(s, open_tag(), 0), open_tag()));
                assert(false);
            }
        }
        return Err(FragmentError::NoHtmlStart);
    }
    proof {
        lemma_first_tag_at(s, open_tag(), 0, start as int);
    }
    // find the closing marker at or after the opening one
    let mut endpos: usize = 0;
    let mut have_end = false;
    let mut j: usize = start;
    while !have_end && v.len() - j >= 7
        invariant
            s == v@,
            start <= j <= v@.len(),
            !have_end ==> forall|k: int| start <= k < j ==> !tag_at(s, k, close_tag()),
            have_end ==> endpos == j && tag_at(s, j as int, close_tag()) && forall|k: int|
                start <= k < j ==> !tag_at(s, k, close_tag()),
        decreases v@.len() - j + (if have_end { 0int } else { 1int }),
    {
        if close_tag_at(&v, j) {
            endpos = j;
            have_end = true;
        } else {
            j = j + 1;
        }
    }
    if !have_end {
        proof {
            assert forall|k: int| start <= k implies !tag_at(s, k, close_tag()) by {
                assert(close_tag().len() == 7);
                if k + 7 <= s.len() {
                    assert(k < j);
                }
            }
            lemma_first_tag(s, close_tag(), start as int);
            if first_tag(s, close_tag(), start as int) >= 0 {
                assert(tag_at(s, first_tag(s, close_tag(), start as int), close_tag()));
                assert(false);
            }
        }
        return Err(FragmentError::NoHtmlEnd);
    }
    proof {
        lemma_first_tag_at(s, close_tag(), start as int, endpos as int);
    }
    let frag = subvec(&v, start, endpos + 7);
    Ok(chars_to_string(&frag))
}

} // verus!
