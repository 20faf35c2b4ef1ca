//! The typesetter. Given a normalized document and its selected layout it
//! emits, in a fixed order, the absolute-positioned draw operations of one
//! page: text placements, rule lines, boxes and the logo. A
//! page-serialization backend turns the operations into the final byte
//! stream; this module owns every coordinate and every formatted field.
//!
//! Coordinates are in half printer's points (two units per printer's point),
//! so the half-line compensation of the totals separator stays integral.
//! The page is US letter: 1224 by 1584 half-points.

use vstd::prelude::*;
use vstd::string::*;
use crate::cleanup::{split_nl, split_nl_exec};
use crate::layout::{
    code_col, desc_col, disc_col, max_desc_spec, qty_col, price_col, total_col, uom_col,
    vlines_spec, DocLayout, select_layout, has_discount,
};
use crate::model::{Amount, DocType, ItemLine, ReceiptInfo};
use crate::num::{all_digits, digits_val, parse_digits_range};
use crate::text::{chars_to_string, string_to_chars, subvec};
use crate::wrap::{split_into_lines, wrap_spec};

verus! {

/// The three embedded fonts of the page.
#[derive(Debug, Clone, Copy, PartialEq, Eq, Structural)]
pub enum Font {
    Regular,
    Bold,
    Mono,
}

/// One draw operation, in page coordinates (half points, origin at the
/// lower left). `size` is the font size in printer's points; `scale_pct`
/// the logo scale in hundredths.
#[derive(Debug, Clone)]
pub enum DrawOp {
    Text { text: String, size: u32, x: i64, y: i64, font: Font },
    LineSeg { x1: i64, y1: i64, x2: i64, y2: i64 },
    Rect { x1: i64, y1: i64, x2: i64, y2: i64 },
    Logo { x: i64, y: i64, scale_pct: u32 },
}

/// The mathematical value of a draw operation.
pub enum DrawOpV {
    Text { text: Seq<char>, size: int, x: int, y: int, font: Font },
    LineSeg { x1: int, y1: int, x2: int, y2: int },
    Rect { x1: int, y1: int, x2: int, y2: int },
    Logo { x: int, y: int, scale_pct: int },
}

impl View for DrawOp {
    type V = DrawOpV;

    open spec fn view(&self) -> DrawOpV {
        match self {
            DrawOp::Text { text, size, x, y, font } => DrawOpV::Text {
                text: text@,
                size: *size as int,
                x: *x as int,
                y: *y as int,
                font: *font,
            },
            DrawOp::LineSeg { x1, y1, x2, y2 } => DrawOpV::LineSeg {
                x1: *x1 as int,
                y1: *y1 as int,
                x2: *x2 as int,
                y2: *y2 as int,
            },
            DrawOp::Rect { x1, y1, x2, y2 } => DrawOpV::Rect {
                x1: *x1 as int,
                y1: *y1 as int,
                x2: *x2 as int,
                y2: *y2 as int,
            },
            DrawOp::Logo { x, y, scale_pct } => DrawOpV::Logo {
                x: *x as int,
                y: *y as int,
                scale_pct: *scale_pct as int,
            },
        }
    }
}

impl DeepView for DrawOp {
    type V = DrawOpV;

    open spec fn deep_view(&self) -> DrawOpV {
        self.view()
    }
}

fn push_text(ops: &mut Vec<DrawOp>, text: String, size: u32, x: i64, y: i64, font: Font)
    ensures
        final(ops).deep_view() == old(ops).deep_view().push(
            DrawOpV::Text { text: text@, size: size as int, x: x as int, y: y as int, font },
        ),
{
    ops.push(DrawOp::Text { text, size, x, y, font });
    proof {
        assert(ops.deep_view() =~= old(ops).deep_view().push(ops@.last().deep_view()));
    }
}

fn push_line(ops: &mut Vec<DrawOp>, x1: i64, y1: i64, x2: i64, y2: i64)
    ensures
        final(ops).deep_view() == old(ops).deep_view().push(
            DrawOpV::LineSeg { x1: x1 as int, y1: y1 as int, x2: x2 as int, y2: y2 as int },
        ),
{
    ops.push(DrawOp::LineSeg { x1, y1, x2, y2 });
    proof {
        assert(ops.deep_view() =~= old(ops).deep_view().push(ops@.last().deep_view()));
    }
}

fn push_rect(ops: &mut Vec<DrawOp>, x1: i64, y1: i64, x2: i64, y2: i64)
    ensures
        final(ops).deep_view() == old(ops).deep_view().push(
            DrawOpV::Rect { x1: x1 as int, y1: y1 as int, x2: x2 as int, y2: y2 as int },
        ),
{
    ops.push(DrawOp::Rect { x1, y1, x2, y2 });
    proof {
        assert(ops.deep_view() =~= old(ops).deep_view().push(ops@.last().deep_view()));
    }
}

fn push_logo(ops: &mut Vec<DrawOp>, x: i64, y: i64, scale_pct: u32)
    ensures
        final(ops).deep_view() == old(ops).deep_view().push(
            DrawOpV::Logo { x: x as int, y: y as int, scale_pct: scale_pct as int },
        ),
{
    ops.push(DrawOp::Logo { x, y, scale_pct });
    proof {
        assert(ops.deep_view() =~= old(ops).deep_view().push(ops@.last().deep_view()));
    }
}

/// `n` spaces.
pub open spec fn spaces(n: nat) -> Seq<char>
    decreases n,
{
    if n == 0 {
        Seq::empty()
    } else {
        spaces((n - 1) as nat).push(' ')
    }
}

/// `s` right-justified in a field of `w` characters; text that is already
/// wider stands as it is.
pub open spec fn pad_left(s: Seq<char>, w: nat) -> Seq<char> {
    if s.len() >= w {
        s
    } else {
        spaces((w - s.len()) as nat) + s
    }
}

/// A currency field: a dollar sign before the value right-justified in
/// eleven characters; an empty value renders as nothing, not as a bare
/// symbol.
pub open spec fn money_text(s: Seq<char>) -> Seq<char> {
    if s.len() == 0 {
        Seq::empty()
    } else {
        seq!['$'] + pad_left(s, 11)
    }
}

/// The each-counted unit of measure.
pub open spec fn ea_uom() -> Seq<char> {
    seq!['E', 'A']
}

/// The weighed unit of measure.
pub open spec fn ton_uom() -> Seq<char> {
    seq!['T', 'O', 'N']
}

/// A quantity field: for each-counted goods a whole quantity drops its
/// meaningless `.00` fraction and sits in seven characters with three
/// trailing spaces; any other quantity is right-justified in ten.
pub open spec fn qty_text(uom: Seq<char>, q: Seq<char>) -> Seq<char> {
    if uom == ea_uom() && q.len() >= 3 && q.subrange(q.len() - 3, q.len() as int) == seq![
        '.',
        '0',
        '0',
    ] {
        pad_left(q.take(q.len() - 3), 7) + spaces(3)
    } else {
        pad_left(q, 10)
    }
}

fn spaces_exec(n: usize) -> (r: Vec<char>)
    ensures
        r@ == spaces(n as nat),
{
    let mut r: Vec<char> = Vec::new();
    let mut i: usize = 0;
    while i < n
        invariant
            i <= n,
            r@ == spaces(i as nat),
        decreases n - i,
    {
        r.push(' ');
        i = i + 1;
    }
    r
}

/// Right-justifies text in a field of `w` characters.
pub fn pad_left_exec(v: &Vec<char>, w: usize) -> (r: Vec<char>)
    ensures
        r@ == pad_left(v@, w as nat),
{
    if v.len() >= w {
        let r = subvec(v, 0, v.len());
        proof {
            assert(r@ =~= v@);
        }
        r
    } else {
        let mut r = spaces_exec(w - v.len());
        crate::cleanup::append_chars(&mut r, v);
        r
    }
}

/// Renders a currency field.
pub fn format_money(s: &String) -> (r: String)
    ensures
        r@ == money_text(s@),
{
    let chars = string_to_chars(s.as_str());
    if chars.len() == 0 {
        proof {
            assert(money_text(s@) =~= Seq::<char>::empty());
        }
        return String::new();
    }
    let mut out: Vec<char> = Vec::new();
    out.push('$');
    let padded = pad_left_exec(&chars, 11);
    crate::cleanup::append_chars(&mut out, &padded);
    proof {
        assert(out@ =~= money_text(s@));
    }
    chars_to_string(&out)
}

/// Renders a quantity field for the given unit of measure.
pub fn format_qty(uom: &String, q: &String) -> (r: String)
    ensures
        r@ == qty_text(uom@, q@),
{
    let uc = string_to_chars(uom.as_str());
    let qc = string_to_chars(q.as_str());
    let ea = uc.len() == 2 && uc[0] == 'E' && uc[1] == 'A';
    proof {
        if ea {
            assert(uc@ =~= ea_uom());
        } else {
            assert(uc@ != ea_uom());
        }
    }
    let whole = ea && qc.len() >= 3 && qc[qc.len() - 3] == '.' && qc[qc.len() - 2] == '0'
        && qc[qc.len() - 1] == '0';
    if whole {
        proof {
            assert(qc@.subrange(qc@.len() - 3, qc@.len() as int) =~= seq!['.', '0', '0']);
        }
        let head = subvec(&qc, 0, qc.len() - 3);
        let mut out = pad_left_exec(&head, 7);
        out.push(' ');
        out.push(' ');
        out.push(' ');
        proof {
            assert(head@ =~= qc@.take(qc@.len() - 3));
            reveal_with_fuel(spaces, 4);
            assert(spaces(3) =~= seq![' ', ' ', ' ']);
            assert(out@ =~= pad_left(qc@.take(qc@.len() - 3), 7) + spaces(3));
        }
        chars_to_string(&out)
    } else {
        proof {
            if ea && qc@.len() >= 3 && qc@.subrange(qc@.len() - 3, qc@.len() as int) == seq![
                '.',
                '0',
                '0',
            ] {
                assert(qc@[qc@.len() - 3] == '.');
                assert(qc@[qc@.len() - 2] == '0');
                assert(qc@[qc@.len() - 1] == '0');
                assert(false);
            }
        }
        let out = pad_left_exec(&qc, 10);
        chars_to_string(&out)
    }
}

/// The header label of the document number, fixed by the document type.
pub open spec fn number_label(t: DocType) -> Seq<char> {
    match t {
        DocType::Invoice => "Invoice Number:"@,
        DocType::Receipt => "Receipt Number:"@,
        DocType::Quote => "Quote Number:"@,
    }
}

/// The operations of the page head: title, company header, logo, and the
/// date / VAT / document-number header block.
pub open spec fn head_ops(r: ReceiptInfo) -> Seq<DrawOpV> {
    seq![
        DrawOpV::Text { text: r.title@, size: 14, x: 508, y: 1500, font: Font::Bold },
        DrawOpV::Text { text: r.company_name@, size: 28, x: 450, y: 1424, font: Font::Bold },
        DrawOpV::Text {
            text: r.company_info_line@,
            size: 18,
            x: 456,
            y: 1380,
            font: Font::Regular,
        },
        DrawOpV::Logo { x: 110, y: 1364, scale_pct: 65 },
        DrawOpV::Text { text: "Date/Time:"@, size: 8, x: 118, y: 1320, font: Font::Bold },
        DrawOpV::Text { text: "VAT Number:"@, size: 8, x: 454, y: 1320, font: Font::Bold },
        DrawOpV::Text {
            text: number_label(r.doc_type),
            size: 8,
            x: 790,
            y: 1320,
            font: Font::Bold,
        },
        DrawOpV::Text { text: r.date@, size: 10, x: 118, y: 1288, font: Font::Regular },
        DrawOpV::Text { text: r.vat_number@, size: 10, x: 454, y: 1288, font: Font::Regular },
        DrawOpV::Text { text: r.doc_number@, size: 16, x: 790, y: 1286, font: Font::Bold },
        DrawOpV::Rect { x1: 108, y1: 1060, x2: 1116, y2: 1260 },
        DrawOpV::Text { text: "Sold to:"@, size: 8, x: 118, y: 1236, font: Font::Bold },
    ]
}

fn emit_head(ops: &mut Vec<DrawOp>, r: &ReceiptInfo)
    ensures
        final(ops).deep_view() == old(ops).deep_view() + head_ops(*r),
{
    push_text(ops, r.title.clone(), 14, 508, 1500, Font::Bold);
    push_text(ops, r.company_name.clone(), 28, 450, 1424, Font::Bold);
    push_text(ops, r.company_info_line.clone(), 18, 456, 1380, Font::Regular);
    push_logo(ops, 110, 1364, 65);
    push_text(ops, "Date/Time:".to_owned(), 8, 118, 1320, Font::Bold);
    push_text(ops, "VAT Number:".to_owned(), 8, 454, 1320, Font::Bold);
    let label = match r.doc_type {
        DocType::Invoice => "Invoice Number:",
        DocType::Receipt => "Receipt Number:",
        DocType::Quote => "Quote Number:",
    };
    push_text(ops, label.to_owned(), 8, 790, 1320, Font::Bold);
    push_text(ops, r.date.clone(), 10, 118, 1288, Font::Regular);
    push_text(ops, r.vat_number.clone(), 10, 454, 1288, Font::Regular);
    push_text(ops, r.doc_number.clone(), 16, 790, 1286, Font::Bold);
    push_rect(ops, 108, 1060, 1116, 1260);
    push_text(ops, "Sold to:".to_owned(), 8, 118, 1236, Font::Bold);
    proof {
        assert(ops.deep_view() =~= old(ops).deep_view() + head_ops(*r));
    }
}

/// The customer address block: one text line for each line of the cleaned
/// address, stepping down one line height at a time.
pub open spec fn customer_ops(lines: Seq<Seq<char>>, y: int) -> Seq<DrawOpV>
    decreases lines.len(),
{
    if lines.len() == 0 {
        Seq::empty()
    } else {
        seq![
            DrawOpV::Text { text: lines[0], size: 10, x: 118, y: y - 26, font: Font::Regular },
        ] + customer_ops(lines.drop_first(), y - 26)
    }
}

fn emit_customer(ops: &mut Vec<DrawOp>, r: &ReceiptInfo)
    requires
        r.customer_info@.len() <= 1000000,
    ensures
        final(ops).deep_view() == old(ops).deep_view() + customer_ops(
            split_nl(r.customer_info@),
            1236,
        ),
{
    let chars = string_to_chars(r.customer_info.as_str());
    let lines = split_nl_exec(&chars, 0);
    proof {
        assert(chars@.skip(0) =~= chars@);
        crate::cleanup::lemma_split_nl_count(chars@);
    }
    let ghost ls = lines.deep_view();
    let mut y: i64 = 1236;
    let mut i: usize = 0;
    proof {
        assert(ls.skip(0) =~= ls);
    }
    while i < lines.len()
        invariant
            i <= ls.len(),
            ls == lines.deep_view(),
            ls.len() <= 1000001,
            y == 1236 - 26 * i,
            old(ops).deep_view() + customer_ops(ls, 1236) == ops.deep_view() + customer_ops(
                ls.skip(i as int),
                y as int,
            ),
        decreases ls.len() - i,
    {
        proof {
            assert(ls.skip(i as int).drop_first() =~= ls.skip(i + 1));
            assert(ls.skip(i as int)[0] == ls[i as int]);
            assert(ls[i as int] =~= lines@[i as int]@);
        }
        let line = chars_to_string(&lines[i]);
        y = y - 26;
        push_text(ops, line, 10, 118, y, Font::Regular);
        proof {
            assert(ops.deep_view() + customer_ops(ls.skip(i + 1), y as int) =~= old(
                ops,
            ).deep_view() + customer_ops(ls, 1236));
        }
        i = i + 1;
    }
    proof {
        assert(ls.skip(ls.len() as int) =~= Seq::<Seq<char>>::empty());
        assert(customer_ops(ls.skip(ls.len() as int), y as int) =~= Seq::<DrawOpV>::empty());
        assert(ops.deep_view() + Seq::<DrawOpV>::empty() =~= ops.deep_view());
    }
}

/// The clerk and ticket-reference block on the right of the customer box.
pub open spec fn info_ops(r: ReceiptInfo) -> Seq<DrawOpV> {
    seq![
        DrawOpV::Text { text: "Clerk:"@, size: 8, x: 790, y: 1236, font: Font::Bold },
        DrawOpV::Text { text: r.employee@, size: 12, x: 790, y: 1204, font: Font::Regular },
        DrawOpV::Text { text: "Delivery Ticket #:"@, size: 8, x: 790, y: 1172, font: Font::Bold },
        DrawOpV::Text {
            text: r.delivery_tickets@,
            size: 12,
            x: 790,
            y: 1140,
            font: Font::Regular,
        },
        DrawOpV::Text { text: "Weigh Ticket #:"@, size: 8, x: 790, y: 1108, font: Font::Bold },
        DrawOpV::Text { text: r.weigh_tickets@, size: 12, x: 790, y: 1076, font: Font::Regular },
        DrawOpV::Rect { x1: 108, y1: 508, x2: 1116, y2: 1028 },
    ]
}

fn emit_info(ops: &mut Vec<DrawOp>, r: &ReceiptInfo)
    ensures
        final(ops).deep_view() == old(ops).deep_view() + info_ops(*r),
{
    push_text(ops, "Clerk:".to_owned(), 8, 790, 1236, Font::Bold);
    push_text(ops, r.employee.clone(), 12, 790, 1204, Font::Regular);
    push_text(ops, "Delivery Ticket #:".to_owned(), 8, 790, 1172, Font::Bold);
    push_text(ops, r.delivery_tickets.clone(), 12, 790, 1140, Font::Regular);
    push_text(ops, "Weigh Ticket #:".to_owned(), 8, 790, 1108, Font::Bold);
    push_text(ops, r.weigh_tickets.clone(), 12, 790, 1076, Font::Regular);
    push_rect(ops, 108, 508, 1116, 1028);
    proof {
        assert(ops.deep_view() =~= old(ops).deep_view() + info_ops(*r));
    }
}

/// The closing block: signature box and line, the claims and interest
/// boilerplate, and the slogan.
pub open spec fn footer_ops(r: ReceiptInfo) -> Seq<DrawOpV> {
    seq![
        DrawOpV::Rect { x1: 700, y1: 168, x2: 1116, y2: 168 },
        DrawOpV::Text { text: "Received By"@, size: 10, x: 700, y: 148, font: Font::Regular },
        DrawOpV::Text {
            text: "All claims and returned goods MUST be accompanied by this bill"@,
            size: 8,
            x: 360,
            y: 108,
            font: Font::Regular,
        },
        DrawOpV::Text {
            text:
                "*INTEREST AT THE RATE OF 1.5% PER MONHTH WILL BE CHARGED ON ALL OVERDUE INVOICES*"@,
            size: 8,
            x: 260,
            y: 88,
            font: Font::Regular,
        },
        DrawOpV::Text { text: r.slogan@, size: 9, x: 508, y: 60, font: Font::Regular },
    ]
}

fn emit_footer(ops: &mut Vec<DrawOp>, r: &ReceiptInfo)
    ensures
        final(ops).deep_view() == old(ops).deep_view() + footer_ops(*r),
{
    push_rect(ops, 700, 168, 1116, 168);
    push_text(ops, "Received By".to_owned(), 10, 700, 148, Font::Regular);
    push_text(
        ops,
        "All claims and returned goods MUST be accompanied by this bill".to_owned(),
        8,
        360,
        108,
        Font::Regular,
    );
    push_text(
        ops,
        "*INTEREST AT THE RATE OF 1.5% PER MONHTH WILL BE CHARGED ON ALL OVERDUE INVOICES*".to_owned(),
        8,
        260,
        88,
        Font::Regular,
    );
    push_text(ops, r.slogan.clone(), 9, 508, 60, Font::Regular);
    proof {
        assert(ops.deep_view() =~= old(ops).deep_view() + footer_ops(*r));
    }
}

/// What stopped a render.
#[derive(Debug, Clone, Copy, PartialEq, Eq, Structural)]
pub enum RenderError {
    /// A line item without an explicit unit of measure has a code that is
    /// not a number, so no unit can be inferred for it.
    CodeParse,
}

/// Whether a unit of measure can be resolved for the item: either it
/// carries one, or its code is numeric so one can be inferred.
pub open spec fn code_ok(l: ItemLine) -> bool {
    l.uom@.len() > 0 || (l.code@.len() >= 1 && all_digits(l.code@) && digits_val(l.code@)
        <= u64::MAX)
}

/// Whether every line item can be rendered.
pub open spec fn items_ok(items: Seq<ItemLine>) -> bool {
    forall|k: int| 0 <= k < items.len() ==> code_ok(#[trigger] items[k])
}

/// The legacy unit-of-measure inference: item codes 2000 through 2099 are
/// each-counted goods; every other code is weighed.
pub open spec fn infer_uom(code: Seq<char>) -> Seq<char> {
    if 2000 <= digits_val(code) < 2100 {
        ea_uom()
    } else {
        ton_uom()
    }
}

/// The unit of measure an item renders with: the explicit field when it is
/// set, the inference from the code otherwise.
pub open spec fn eff_uom(l: ItemLine) -> Seq<char> {
    if l.uom@.len() > 0 {
        l.uom@
    } else {
        infer_uom(l.code@)
    }
}

/// A text cell at a column boundary, when the layout has that column.
pub open spec fn opt_text(idx: Option<usize>, vs: Seq<int>, t: Seq<char>, cy: int) -> Seq<
    DrawOpV,
> {
    match idx {
        Some(i) => seq![
            DrawOpV::Text { text: t, size: 8, x: vs[i as int] + 10, y: cy, font: Font::Mono },
        ],
        None => Seq::empty(),
    }
}

/// A currency cell, when the layout has the column and the value is not
/// empty; an empty value renders as nothing.
pub open spec fn opt_money(idx: Option<usize>, vs: Seq<int>, v: Seq<char>, size: int, cy: int) -> Seq<
    DrawOpV,
> {
    match idx {
        Some(i) => {
            if v.len() == 0 {
                Seq::empty()
            } else {
                seq![
                    DrawOpV::Text {
                        text: money_text(v),
                        size,
                        x: vs[i as int] + 10,
                        y: cy,
                        font: Font::Mono,
                    },
                ]
            }
        },
        None => Seq::empty(),
    }
}

/// The discount cell: drawn only when the layout has the column and the
/// item carries a non-empty discount.
pub open spec fn disc_ops(l: ItemLine, lay: DocLayout, cy: int) -> Seq<DrawOpV> {
    match l.discount {
        Some(d) => opt_money(disc_col(lay), vlines_spec(lay), d@, 8, cy),
        None => Seq::empty(),
    }
}

/// The cells of one item's first table row, left to right, with the
/// taxable marker just past the right margin.
pub open spec fn item_cell_ops(l: ItemLine, lay: DocLayout, cy: int) -> Seq<DrawOpV> {
    let vs = vlines_spec(lay);
    let lines = wrap_spec(l.description@, max_desc_spec(lay));
    opt_text(code_col(lay), vs, l.code@, cy) + opt_text(desc_col(lay), vs, lines[0], cy)
        + opt_text(uom_col(lay), vs, eff_uom(l), cy) + opt_text(
        qty_col(lay),
        vs,
        qty_text(eff_uom(l), l.quantity@),
        cy,
    ) + opt_money(price_col(lay), vs, l.unit_price@, 8, cy) + disc_ops(l, lay, cy) + opt_money(
        total_col(lay),
        vs,
        l.amount@,
        8,
        cy,
    ) + (if l.taxable {
        seq![DrawOpV::Text { text: "T"@, size: 8, x: 1126, y: cy, font: Font::Mono }]
    } else {
        Seq::empty()
    })
}

/// The wrapped continuation lines of a description, each one row further
/// down.
pub open spec fn cont_desc_ops(lines: Seq<Seq<char>>, k: int, bottom: int, x: int) -> Seq<
    DrawOpV,
>
    decreases lines.len() - k,
{
    if k < 0 || k >= lines.len() {
        Seq::empty()
    } else {
        seq![
            DrawOpV::Text { text: lines[k], size: 8, x, y: bottom - 30 + 10, font: Font::Mono },
        ] + cont_desc_ops(lines, k + 1, bottom - 30, x)
    }
}

/// How far one item moves the table cursor down: one row per rendered
/// description line.
pub open spec fn item_advance(l: ItemLine, lay: DocLayout) -> int {
    30 * (wrap_spec(l.description@, max_desc_spec(lay)).len() as int)
}

/// All the operations of one item: its row of cells, then its description
/// continuation lines.
pub open spec fn item_ops(l: ItemLine, lay: DocLayout, bottom: int) -> Seq<DrawOpV> {
    let lines = wrap_spec(l.description@, max_desc_spec(lay));
    let x = vlines_spec(lay)[desc_col(lay)->0 as int] + 10;
    item_cell_ops(l, lay, bottom + 10) + cont_desc_ops(lines, 1, bottom, x)
}

/// The operations of the whole item table body, top to bottom.
pub open spec fn items_ops(items: Seq<ItemLine>, lay: DocLayout, bottom: int) -> Seq<DrawOpV>
    decreases items.len(),
{
    if items.len() == 0 {
        Seq::empty()
    } else {
        item_ops(items[0], lay, bottom) + items_ops(
            items.drop_first(),
            lay,
            bottom - item_advance(items[0], lay),
        )
    }
}

/// The vertical column divider lines of the table, one per inner boundary.
pub open spec fn vline_ops(vs: Seq<int>, k: int) -> Seq<DrawOpV>
    decreases vs.len() - k,
{
    if k < 0 || k >= vs.len() {
        Seq::empty()
    } else {
        seq![DrawOpV::LineSeg { x1: vs[k], y1: 508, x2: vs[k], y2: 1028 }] + vline_ops(vs, k + 1)
    }
}

/// A column header label, when the layout has that column.
pub open spec fn head_label_op(idx: Option<usize>, vs: Seq<int>, label: Seq<char>) -> Seq<
    DrawOpV,
> {
    match idx {
        Some(i) => seq![
            DrawOpV::Text {
                text: label,
                size: 12,
                x: vs[i as int] + 10,
                y: 998,
                font: Font::Regular,
            },
        ],
        None => Seq::empty(),
    }
}

/// The table frame: divider lines, the rule under the header row, and the
/// header labels of the layout's columns.
pub open spec fn table_head_ops(lay: DocLayout) -> Seq<DrawOpV> {
    let vs = vlines_spec(lay);
    vline_ops(vs, 1) + seq![DrawOpV::LineSeg { x1: 108, y1: 988, x2: 1116, y2: 988 }]
        + head_label_op(code_col(lay), vs, "Code"@) + head_label_op(
        desc_col(lay),
        vs,
        "Description"@,
    ) + head_label_op(uom_col(lay), vs, "U/M"@) + head_label_op(qty_col(lay), vs, "Quantity"@)
        + head_label_op(price_col(lay), vs, "Unit Price"@) + head_label_op(
        disc_col(lay),
        vs,
        "Discount"@,
    ) + head_label_op(total_col(lay), vs, "Total"@)
}

/// A totals or payments row's name, as rendered: the tax row is relabelled
/// as VAT at render time only.
pub open spec fn render_name(n: Seq<char>) -> Seq<char> {
    if n == "Tax:"@ {
        "VAT:"@
    } else {
        n
    }
}

/// A currency value op for the money column of a totals or payments row.
pub open spec fn money_op_at(v: Seq<char>, size: int, x: int, y: int) -> Seq<DrawOpV> {
    if v.len() == 0 {
        Seq::empty()
    } else {
        seq![DrawOpV::Text { text: money_text(v), size, x, y, font: Font::Mono }]
    }
}

/// The totals block: right-aligned name and value rows below the table. An
/// empty-name row steps back up half a line and draws a separator rule
/// instead of text; the grand total row is emphasized.
pub open spec fn totals_ops(ts: Seq<Amount>, y: int, x1: int, x2: int) -> Seq<DrawOpV>
    decreases ts.len(),
{
    if ts.len() == 0 {
        Seq::empty()
    } else {
        let y1 = y - 26;
        if ts[0].name@.len() == 0 {
            let y2 = y1 + 13;
            seq![DrawOpV::LineSeg { x1, y1: y2, x2: 1116, y2 }] + totals_ops(
                ts.drop_first(),
                y2,
                x1,
                x2,
            )
        } else {
            let f = if ts[0].name@ == "Total:"@ {
                Font::Bold
            } else {
                Font::Regular
            };
            seq![DrawOpV::Text { text: render_name(ts[0].name@), size: 11, x: x1, y: y1, font: f }]
                + money_op_at(ts[0].value@, 10, x2, y1) + totals_ops(ts.drop_first(), y1, x1, x2)
        }
    }
}

/// The tender rows of the payments block.
pub open spec fn payment_rows_ops(ps: Seq<Amount>, y: int) -> Seq<DrawOpV>
    decreases ps.len(),
{
    if ps.len() == 0 {
        Seq::empty()
    } else {
        seq![
            DrawOpV::Text { text: ps[0].name@, size: 10, x: 118, y: y - 26, font: Font::Regular },
        ] + money_op_at(ps[0].value@, 10, 400, y - 26) + payment_rows_ops(ps.drop_first(), y - 26)
    }
}

/// The payments block: the tender heading, its underline, and one row per
/// payment on the left side below the table.
pub open spec fn payments_block_ops(ps: Seq<Amount>) -> Seq<DrawOpV> {
    seq![
        DrawOpV::Text { text: "Tender"@, size: 11, x: 118, y: 402, font: Font::Regular },
        DrawOpV::LineSeg { x1: 118, y1: 394, x2: 560, y2: 394 },
    ] + payment_rows_ops(ps, 394)
}

/// The layout the page renders in, as a function of the document.
pub open spec fn layout_of(r: ReceiptInfo) -> DocLayout {
    if r.doc_type == DocType::Receipt {
        DocLayout::Receipt
    } else if has_discount(r.item_lines@) {
        DocLayout::StandardWithDiscounts
    } else {
        DocLayout::Standard
    }
}

/// Every operation of the page, in drawing order.
pub open spec fn page_ops(r: ReceiptInfo) -> Seq<DrawOpV> {
    let lay = layout_of(r);
    let vs = vlines_spec(lay);
    head_ops(r) + customer_ops(split_nl(r.customer_info@), 1236) + info_ops(r) + table_head_ops(
        lay,
    ) + items_ops(r.item_lines@, lay, 948) + totals_ops(
        r.totals@,
        508,
        vs.last() - 170,
        vs.last() - 10,
    ) + payments_block_ops(r.payments@) + footer_ops(r)
}

/// The machine limits of the page arithmetic: counts and text lengths that
/// keep every coordinate within a 64-bit word. Any realistic one-page
/// document is far inside them.
pub open spec fn renderable(r: ReceiptInfo) -> bool {
    &&& r.item_lines@.len() <= 100000
    &&& (forall|k: int|
        0 <= k < r.item_lines@.len() ==> 1 <= (#[trigger] r.item_lines@[k]).description@.len()
            <= 100000)
    &&& r.customer_info@.len() <= 1000000
    &&& r.totals@.len() <= 1000000
    &&& r.payments@.len() <= 1000000
}

fn emit_table_head(ops: &mut Vec<DrawOp>, lay: DocLayout)
    ensures
        final(ops).deep_view() == old(ops).deep_view() + table_head_ops(lay),
{
    let vs = lay.vlines();
    let ghost vss = vlines_spec(lay);
    let ghost base = ops.deep_view();
    let mut k: usize = 1;
    proof {
        assert(base + vline_ops(vss, 1) =~= ops.deep_view() + vline_ops(vss, 1));
    }
    while k < vs.len()
        invariant
            1 <= k,
            k <= vss.len() || k == 1,
            vs@.map_values(|x: i64| x as int) == vss,
            forall|j: int| 0 <= j < vs@.len() ==> 0 <= #[trigger] vs@[j] <= 2000,
            base + vline_ops(vss, 1) == ops.deep_view() + vline_ops(vss, k as int),
        decreases vss.len() - k,
    {
        push_line(ops, vs[k], 508, vs[k], 1028);
        proof {
            assert(vss[k as int] == vs@[k as int] as int);
            assert(ops.deep_view() + vline_ops(vss, k + 1) =~= base + vline_ops(vss, 1));
        }
        k = k + 1;
    }
    proof {
        assert(vline_ops(vss, vss.len() as int) =~= Seq::<DrawOpV>::empty());
        assert(ops.deep_view() =~= base + vline_ops(vss, 1));
    }
    push_line(ops, 108, 988, 1116, 988);
    if let Some(i) = lay.code_index() {
        push_text(ops, "Code".to_owned(), 12, vs[i] + 10, 998, Font::Regular);
    }
    if let Some(i) = lay.desc_index() {
        push_text(ops, "Description".to_owned(), 12, vs[i] + 10, 998, Font::Regular);
    }
    if let Some(i) = lay.uom_index() {
        push_text(ops, "U/M".to_owned(), 12, vs[i] + 10, 998, Font::Regular);
    }
    if let Some(i) = lay.quantity_index() {
        push_text(ops, "Quantity".to_owned(), 12, vs[i] + 10, 998, Font::Regular);
    }
    if let Some(i) = lay.price_index() {
        push_text(ops, "Unit Price".to_owned(), 12, vs[i] + 10, 998, Font::Regular);
    }
    if let Some(i) = lay.discount_index() {
        push_text(ops, "Discount".to_owned(), 12, vs[i] + 10, 998, Font::Regular);
    }
    if let Some(i) = lay.total_index() {
        push_text(ops, "Total".to_owned(), 12, vs[i] + 10, 998, Font::Regular);
    }
    proof {
        assert(ops.deep_view() =~= old(ops).deep_view() + table_head_ops(lay));
    }
}

/// The operations of one item, and the cursor position below it.
#[verifier::rlimit(60)]
fn emit_item(l: &ItemLine, lay: DocLayout, bottom: i64) -> (r: Result<(Vec<DrawOp>, i64), RenderError>)
    requires
        1 <= l.description@.len() <= 100000,
        -400000000000 <= bottom <= 948,
    ensures
        r is Ok <==> code_ok(*l),
        r is Err ==> r->Err_0 == RenderError::CodeParse,
        r is Ok ==> ({
            &&& r->Ok_0.0.deep_view() == item_ops(*l, lay, bottom as int)
            &&& r->Ok_0.1 == bottom - item_advance(*l, lay)
            &&& bottom - 3000030 <= r->Ok_0.1 <= bottom - 30
        }),
{
    let max_len = lay.max_desc_length();
    let lines = split_into_lines(l.description.as_str(), max_len);
    let ghost dls = wrap_spec(l.description@, max_desc_spec(lay));
    proof {
        crate::wrap::lemma_wrap_count(l.description@, max_desc_spec(lay));
        assert(dls.len() >= 1);
    }
    // resolve the unit of measure, inferring one from the code if need be
    let uom_eff: String = if l.uom.as_str().unicode_len() > 0 {
        l.uom.clone()
    } else {
        let code_chars = string_to_chars(l.code.as_str());
        if code_chars.len() == 0 {
            return Err(RenderError::CodeParse);
        }
        let val = match parse_digits_range(&code_chars, 0, code_chars.len()) {
            Some(v) => v,
            None => {
                proof {
                    assert(code_chars@.subrange(0, code_chars@.len() as int) =~= l.code@);
                }
                return Err(RenderError::CodeParse);
            },
        };
        proof {
            assert(code_chars@.subrange(0, code_chars@.len() as int) =~= l.code@);
            reveal_strlit("EA");
            reveal_strlit("TON");
            assert("EA"@ =~= ea_uom());
            assert("TON"@ =~= ton_uom());
        }
        if 2000 <= val && val < 2100 {
            "EA".to_owned()
        } else {
            "TON".to_owned()
        }
    };
    proof {
        assert(uom_eff@ == eff_uom(*l));
    }
    let mut ops: Vec<DrawOp> = Vec::new();
    let vs = lay.vlines();
    let cy = bottom + 10;
    if let Some(i) = lay.code_index() {
        push_text(&mut ops, l.code.clone(), 8, vs[i] + 10, cy, Font::Mono);
    }
    let di = match lay.desc_index() {
        Some(i) => i,
        None => {
            proof {
                assert(false);
            }
            0
        },
    };
    push_text(&mut ops, lines[0].clone(), 8, vs[di] + 10, cy, Font::Mono);
    if let Some(i) = lay.uom_index() {
        push_text(&mut ops, uom_eff.clone(), 8, vs[i] + 10, cy, Font::Mono);
    }
    if let Some(i) = lay.quantity_index() {
        let qty = format_qty(&uom_eff, &l.quantity);
        push_text(&mut ops, qty, 8, vs[i] + 10, cy, Font::Mono);
    }
    if let Some(i) = lay.price_index() {
        if l.unit_price.as_str().unicode_len() > 0 {
            let m = format_money(&l.unit_price);
            push_text(&mut ops, m, 8, vs[i] + 10, cy, Font::Mono);
        }
    }
    if let Some(i) = lay.discount_index() {
        if let Some(d) = &l.discount {
            if d.as_str().unicode_len() > 0 {
                let m = format_money(d);
                push_text(&mut ops, m, 8, vs[i] + 10, cy, Font::Mono);
            }
        }
    }
    if let Some(i) = lay.total_index() {
        if l.amount.as_str().unicode_len() > 0 {
            let m = format_money(&l.amount);
            push_text(&mut ops, m, 8, vs[i] + 10, cy, Font::Mono);
        }
    }
    if l.taxable {
        push_text(&mut ops, "T".to_owned(), 8, 1126, cy, Font::Mono);
    }
    proof {
        assert(lines.deep_view()[0] == dls[0]);
        assert(ops.deep_view() =~= item_cell_ops(*l, lay, cy as int));
    }
    // continuation lines of a wrapped description
    let ghost cells = ops.deep_view();
    let desc_x = vs[di] + 10;
    let mut b: i64 = bottom;
    let mut k: usize = 1;
    while k < lines.len()
        invariant
            1 <= k <= dls.len(),
            dls.len() <= 100001,
            dls == lines.deep_view(),
            b == bottom - 30 * (k - 1),
            -400000000000 <= bottom <= 948,
            desc_x == vlines_spec(lay)[desc_col(lay)->0 as int] + 10,
            cells + cont_desc_ops(dls, 1, bottom as int, desc_x as int) == ops.deep_view()
                + cont_desc_ops(dls, k as int, b as int, desc_x as int),
        decreases dls.len() - k,
    {
        let line = lines[k].clone();
        proof {
            assert(lines.deep_view()[k as int] == dls[k as int]);
        }
        push_text(&mut ops, line, 8, desc_x, b - 30 + 10, Font::Mono);
        proof {
            assert(ops.deep_view() + cont_desc_ops(dls, k + 1, b - 30, desc_x as int) =~= cells
                + cont_desc_ops(dls, 1, bottom as int, desc_x as int));
        }
        b = b - 30;
        k = k + 1;
    }
    proof {
        assert(cont_desc_ops(dls, dls.len() as int, b as int, desc_x as int)
            =~= Seq::<DrawOpV>::empty());
        assert(ops.deep_view() =~= cells + cont_desc_ops(dls, 1, bottom as int, desc_x as int));
        assert(ops.deep_view() =~= item_ops(*l, lay, bottom as int));
    }
    Ok((ops, b - 30))
}

fn emit_items(ops: &mut Vec<DrawOp>, items: &Vec<ItemLine>, lay: DocLayout) -> (r: Result<
    (),
    RenderError,
>)
    requires
        items@.len() <= 100000,
        forall|k: int|
            0 <= k < items@.len() ==> 1 <= (#[trigger] items@[k]).description@.len() <= 100000,
    ensures
        r is Ok <==> items_ok(items@),
        r is Err ==> r->Err_0 == RenderError::CodeParse,
        r is Ok ==> final(ops).deep_view() == old(ops).deep_view() + items_ops(items@, lay, 948),
{
    let ghost base = old(ops).deep_view();
    let mut bottom: i64 = 948;
    let mut i: usize = 0;
    proof {
        assert(items@.skip(0) =~= items@);
    }
    while i < items.len()
        invariant
            i <= items@.len(),
            items@.len() <= 100000,
            forall|k: int|
                0 <= k < items@.len() ==> 1 <= (#[trigger] items@[k]).description@.len() <= 100000,
            forall|k: int| 0 <= k < i ==> code_ok(#[trigger] items@[k]),
            948 - 3000030 * (i as int) <= bottom <= 948,
            base + items_ops(items@, lay, 948) == ops.deep_view() + items_ops(
                items@.skip(i as int),
                lay,
                bottom as int,
            ),
        decreases items@.len() - i,
    {
        proof {
            assert(items@.skip(i as int).drop_first() =~= items@.skip(i + 1));
            assert(items@.skip(i as int)[0] == items@[i as int]);
        }
        let (mut item_ops_vec, nb) = match emit_item(&items[i], lay, bottom) {
            Ok(pair) => pair,
            Err(e) => {
                return Err(e);
            },
        };
        let ghost pre = ops.deep_view();
        let ghost add = item_ops_vec.deep_view();
        ops.append(&mut item_ops_vec);
        proof {
            assert(ops.deep_view() =~= pre + add);
            assert(ops.deep_view() + items_ops(items@.skip(i + 1), lay, nb as int) =~= base
                + items_ops(items@, lay, 948));
        }
        bottom = nb;
        i = i + 1;
    }
    proof {
        assert(items@.skip(items@.len() as int) =~= Seq::<ItemLine>::empty());
        assert(items_ops(items@.skip(items@.len() as int), lay, bottom as int)
            =~= Seq::<DrawOpV>::empty());
        assert(ops.deep_view() =~= base + items_ops(items@, lay, 948));
    }
    Ok(())
}

fn emit_totals(ops: &mut Vec<DrawOp>, totals: &Vec<Amount>, x1: i64, x2: i64)
    requires
        totals@.len() <= 1000000,
        0 <= x1 <= 2000,
        0 <= x2 <= 2000,
    ensures
        final(ops).deep_view() == old(ops).deep_view() + totals_ops(
            totals@,
            508,
            x1 as int,
            x2 as int,
        ),
{
    let ghost base = old(ops).deep_view();
    let ghost ts = totals@;
    let tax = String::from_str("Tax:");
    let total_label = String::from_str("Total:");
    let mut y: i64 = 508;
    let mut i: usize = 0;
    proof {
        assert(ts.skip(0) =~= ts);
    }
    while i < totals.len()
        invariant
            i <= ts.len(),
            ts == totals@,
            ts.len() <= 1000000,
            tax@ == "Tax:"@,
            total_label@ == "Total:"@,
            508 - 26 * (i as int) <= y <= 508,
            base + totals_ops(ts, 508, x1 as int, x2 as int) == ops.deep_view() + totals_ops(
                ts.skip(i as int),
                y as int,
                x1 as int,
                x2 as int,
            ),
        decreases ts.len() - i,
    {
        proof {
            assert(ts.skip(i as int).drop_first() =~= ts.skip(i + 1));
            assert(ts.skip(i as int)[0] == ts[i as int]);
        }
        let amount = &totals[i];
        if amount.name.as_str().unicode_len() == 0 {
            let y2 = y - 26 + 13;
            push_line(ops, x1, y2, 1116, y2);
            proof {
                assert(ops.deep_view() + totals_ops(ts.skip(i + 1), y2 as int, x1 as int, x2 as int)
                    =~= base + totals_ops(ts, 508, x1 as int, x2 as int));
            }
            y = y2;
        } else {
            let y1 = y - 26;
            let font = if amount.name.eq(&total_label) {
                Font::Bold
            } else {
                Font::Regular
            };
            let shown = if amount.name.eq(&tax) {
                String::from_str("VAT:")
            } else {
                amount.name.clone()
            };
            push_text(ops, shown, 11, x1, y1, font);
            if amount.value.as_str().unicode_len() > 0 {
                let m = format_money(&amount.value);
                push_text(ops, m, 10, x2, y1, Font::Mono);
            }
            proof {
                assert(ops.deep_view() + totals_ops(ts.skip(i + 1), y1 as int, x1 as int, x2 as int)
                    =~= base + totals_ops(ts, 508, x1 as int, x2 as int));
            }
            y = y1;
        }
        i = i + 1;
    }
    proof {
        assert(ts.skip(ts.len() as int) =~= Seq::<Amount>::empty());
        assert(totals_ops(ts.skip(ts.len() as int), y as int, x1 as int, x2 as int)
            =~= Seq::<DrawOpV>::empty());
        assert(ops.deep_view() =~= base + totals_ops(ts, 508, x1 as int, x2 as int));
    }
}

fn emit_payments(ops: &mut Vec<DrawOp>, payments: &Vec<Amount>)
    requires
        payments@.len() <= 1000000,
    ensures
        final(ops).deep_view() == old(ops).deep_view() + payments_block_ops(payments@),
{
    let ghost base = old(ops).deep_view();
    let ghost ps = payments@;
    push_text(ops, "Tender".to_owned(), 11, 118, 402, Font::Regular);
    push_line(ops, 118, 394, 560, 394);
    let ghost headed = ops.deep_view();
    let mut y: i64 = 394;
    let mut i: usize = 0;
    proof {
        assert(ps.skip(0) =~= ps);
        assert(headed + payment_rows_ops(ps, 394) =~= base + payments_block_ops(ps));
    }
    while i < payments.len()
        invariant
            i <= ps.len(),
            ps == payments@,
            ps.len() <= 1000000,
            394 - 26 * (i as int) <= y <= 394,
            base + payments_block_ops(ps) == ops.deep_view() + payment_rows_ops(
                ps.skip(i as int),
                y as int,
            ),
        decreases ps.len() - i,
    {
        proof {
            assert(ps.skip(i as int).drop_first() =~= ps.skip(i + 1));
            assert(ps.skip(i as int)[0] == ps[i as int]);
        }
        let amount = &payments[i];
        let y1 = y - 26;
        push_text(ops, amount.name.clone(), 10, 118, y1, Font::Regular);
        if amount.value.as_str().unicode_len() > 0 {
            let m = format_money(&amount.value);
            push_text(ops, m, 10, 400, y1, Font::Mono);
        }
        proof {
            assert(ops.deep_view() + payment_rows_ops(ps.skip(i + 1), y1 as int) =~= base
                + payments_block_ops(ps));
        }
        y = y1;
        i = i + 1;
    }
    proof {
        assert(ps.skip(ps.len() as int) =~= Seq::<Amount>::empty());
        assert(payment_rows_ops(ps.skip(ps.len() as int), y as int) =~= Seq::<DrawOpV>::empty());
        assert(ops.deep_view() =~= base + payments_block_ops(ps));
    }
}

/// Typesets one page for a normalized document: selects the layout from
/// the document type and discounts, and emits every draw operation of the
/// page, in order. Fails exactly when some line item carries no unit of
/// measure and its code is not numeric.
pub fn gen_pdf(receipt: &ReceiptInfo) -> (r: Result<Vec<DrawOp>, RenderError>)
    requires
        renderable(*receipt),
    ensures
        r is Ok <==> items_ok(receipt.item_lines@),
        r is Err ==> r->Err_0 == RenderError::CodeParse,
        r is Ok ==> r->Ok_0.deep_view() == page_ops(*receipt),
{
    let lay = select_layout(receipt.doc_type, &receipt.item_lines);
    proof {
        assert(lay == layout_of(*receipt));
    }
    let mut ops: Vec<DrawOp> = Vec::new();
    emit_head(&mut ops, receipt);
    emit_customer(&mut ops, receipt);
    emit_info(&mut ops, receipt);
    emit_table_head(&mut ops, lay);
    match emit_items(&mut ops, &receipt.item_lines, lay) {
        Ok(()) => {},
        Err(e) => {
            return Err(e);
        },
    }
    let vs = lay.vlines();
    let last_x = vs[vs.len() - 1];
    proof {
        assert(vs@[vs@.len() - 1] as int == vlines_spec(lay).last());
    }
    emit_totals(&mut ops, &receipt.totals, last_x - 170, last_x - 10);
    emit_payments(&mut ops, &receipt.payments);
    emit_footer(&mut ops, receipt);
    proof {
        assert(ops.deep_view() =~= page_ops(*receipt));
    }
    Ok(ops)
}

} // verus!
