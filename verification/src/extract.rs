//! The document extractor. The input markup is a rigid positional template:
//! a fixed sequence of spans and tables whose places are known in advance.
//! Extraction walks that sequence as named structural checkpoints, each
//! independently failable, and produces a fully populated document model.
//! Any missing element fails the whole extraction with an error naming the
//! expectation that was violated; there is no partial recovery.

use vstd::prelude::*;
use crate::cleanup::{
    cleanup, cleanup_amount, cleanup_amount_spec, cleanup_multi_spec, cleanup_multiple_lines,
    cleanup_spec,
};
use crate::html::{table_cells, nth_table_cell, HtmlCell, HtmlDoc, HtmlRow};
use crate::model::{Amount, DocType, ItemLine, ReceiptInfo};
use crate::num::is_digit;
use crate::text::{
    chars_have_prefix, chars_to_string, has_prefix, is_ws, string_to_chars, subvec, trim_chars,
    trim_spec,
};

verus! {

/// Which structural expectation of the input was violated.
#[derive(Debug, Clone, Copy, PartialEq, Eq, Structural)]
pub enum ExtractError {
    NoBody,
    NoTitle,
    NoDate,
    /// The numbered table (counting from one) is absent.
    MissingTable { number: u8 },
    NoCompanyCustomerRow,
    NoCompanyInfo,
    NoCustomerInfo,
    NoBlankRow,
    NoMetadataRow,
    NoTransactionNumber,
    NoOrderId,
    NoInvoiceNumber,
    NoItemCode,
    NoItemDescription,
    NoItemQuantity,
    NoItemPrice,
    NoItemAmount,
    NoTotalsName,
    NoTotalsValue,
    NoPaymentName,
    NoPaymentValue,
    NoAmountDue,
    NoEmployee,
    NoSlogan,
}

/// The diagnostic line for each structural failure, naming the expectation
/// that was violated.
pub open spec fn message_spec(e: ExtractError) -> Seq<char> {
    match e {
        ExtractError::NoBody => "No body tag found"@,
        ExtractError::NoTitle => "No title found"@,
        ExtractError::NoDate => "No date found"@,
        ExtractError::MissingTable { .. } => "Table does not exist"@,
        ExtractError::NoCompanyCustomerRow => "No company and customer row found"@,
        ExtractError::NoCompanyInfo => "No company info found"@,
        ExtractError::NoCustomerInfo => "No customer info found"@,
        ExtractError::NoBlankRow => "Expected to find a blank row but there was none"@,
        ExtractError::NoMetadataRow => "No metadata row found"@,
        ExtractError::NoTransactionNumber => "No transaction number found"@,
        ExtractError::NoOrderId => "No order id found"@,
        ExtractError::NoInvoiceNumber => "No invoice number found"@,
        ExtractError::NoItemCode => "No code in item line"@,
        ExtractError::NoItemDescription => "No description in item line"@,
        ExtractError::NoItemQuantity => "No quantity in item line"@,
        ExtractError::NoItemPrice => "No price in item line"@,
        ExtractError::NoItemAmount => "No amount in item line"@,
        ExtractError::NoTotalsName => "Subtotal line present but no name"@,
        ExtractError::NoTotalsValue => "Subtotal line present but no value"@,
        ExtractError::NoPaymentName => "Payment line present but no name"@,
        ExtractError::NoPaymentValue => "Payment line present but no value"@,
        ExtractError::NoAmountDue => "No Amount Due"@,
        ExtractError::NoEmployee => "No employee found"@,
        ExtractError::NoSlogan => "No td"@,
    }
}

impl ExtractError {
    /// The diagnostic line for this failure.
    pub fn message(&self) -> (r: String)
        ensures
            r@ == message_spec(*self),
    {
        match self {
            ExtractError::NoBody => "No body tag found".to_owned(),
            ExtractError::NoTitle => "No title found".to_owned(),
            ExtractError::NoDate => "No date found".to_owned(),
            ExtractError::MissingTable { .. } => "Table does not exist".to_owned(),
            ExtractError::NoCompanyCustomerRow => "No company and customer row found".to_owned(),
            ExtractError::NoCompanyInfo => "No company info found".to_owned(),
            ExtractError::NoCustomerInfo => "No customer info found".to_owned(),
            ExtractError::NoBlankRow => "Expected to find a blank row but there was none".to_owned(),
            ExtractError::NoMetadataRow => "No metadata row found".to_owned(),
            ExtractError::NoTransactionNumber => "No transaction number found".to_owned(),
            ExtractError::NoOrderId => "No order id found".to_owned(),
            ExtractError::NoInvoiceNumber => "No invoice number found".to_owned(),
            ExtractError::NoItemCode => "No code in item line".to_owned(),
            ExtractError::NoItemDescription => "No description in item line".to_owned(),
            ExtractError::NoItemQuantity => "No quantity in item line".to_owned(),
            ExtractError::NoItemPrice => "No price in item line".to_owned(),
            ExtractError::NoItemAmount => "No amount in item line".to_owned(),
            ExtractError::NoTotalsName => "Subtotal line present but no name".to_owned(),
            ExtractError::NoTotalsValue => "Subtotal line present but no value".to_owned(),
            ExtractError::NoPaymentName => "Payment line present but no name".to_owned(),
            ExtractError::NoPaymentValue => "Payment line present but no value".to_owned(),
            ExtractError::NoAmountDue => "No Amount Due".to_owned(),
            ExtractError::NoEmployee => "No employee found".to_owned(),
            ExtractError::NoSlogan => "No td".to_owned(),
        }
    }
}

/// Simple cleanup of one cell.
pub open spec fn cell_clean(c: HtmlCell) -> Seq<char> {
    cleanup_spec(c.texts.deep_view())
}

/// Amount cleanup of one cell.
pub open spec fn cell_amount(c: HtmlCell) -> Seq<char> {
    cleanup_amount_spec(c.texts.deep_view())
}

/// Multi-line cleanup of one cell.
pub open spec fn cell_multi(c: HtmlCell) -> Seq<char> {
    cleanup_multi_spec(c.texts.deep_view())
}

/// The first missing cell of a line-item row, if any: a row needs code,
/// description, quantity, price and amount cells.
pub open spec fn item_row_err(r: HtmlRow) -> Option<ExtractError> {
    if r.cells@.len() < 1 {
        Some(ExtractError::NoItemCode)
    } else if r.cells@.len() < 2 {
        Some(ExtractError::NoItemDescription)
    } else if r.cells@.len() < 3 {
        Some(ExtractError::NoItemQuantity)
    } else if r.cells@.len() < 4 {
        Some(ExtractError::NoItemPrice)
    } else if r.cells@.len() < 5 {
        Some(ExtractError::NoItemAmount)
    } else {
        None
    }
}

/// The first missing cell of a totals row, if any.
pub open spec fn totals_row_err(r: HtmlRow) -> Option<ExtractError> {
    if r.cells@.len() < 1 {
        Some(ExtractError::NoTotalsName)
    } else if r.cells@.len() < 2 {
        Some(ExtractError::NoTotalsValue)
    } else {
        None
    }
}

/// The first missing cell of a payments row, if any.
pub open spec fn payments_row_err(r: HtmlRow) -> Option<ExtractError> {
    if r.cells@.len() < 1 {
        Some(ExtractError::NoPaymentName)
    } else if r.cells@.len() < 2 {
        Some(ExtractError::NoPaymentValue)
    } else {
        None
    }
}

/// The first line-item row error over a table's rows, in order.
pub open spec fn item_rows_err(rows: Seq<HtmlRow>) -> Option<ExtractError>
    decreases rows.len(),
{
    if rows.len() == 0 {
        None
    } else if item_rows_err(rows.drop_last()) is Some {
        item_rows_err(rows.drop_last())
    } else {
        item_row_err(rows.last())
    }
}

/// The first totals row error, in order.
pub open spec fn totals_rows_err(rows: Seq<HtmlRow>) -> Option<ExtractError>
    decreases rows.len(),
{
    if rows.len() == 0 {
        None
    } else if totals_rows_err(rows.drop_last()) is Some {
        totals_rows_err(rows.drop_last())
    } else {
        totals_row_err(rows.last())
    }
}

/// The first payments row error, in order.
pub open spec fn payments_rows_err(rows: Seq<HtmlRow>) -> Option<ExtractError>
    decreases rows.len(),
{
    if rows.len() == 0 {
        None
    } else if payments_rows_err(rows.drop_last()) is Some {
        payments_rows_err(rows.drop_last())
    } else {
        payments_row_err(rows.last())
    }
}

proof fn lemma_item_rows_err_prefix(rows: Seq<HtmlRow>, k: int)
    requires
        0 <= k <= rows.len(),
        item_rows_err(rows.take(k)) is Some,
    ensures
        item_rows_err(rows) == item_rows_err(rows.take(k)),
    decreases rows.len() - k,
{
    if k == rows.len() {
        assert(rows.take(k) =~= rows);
    } else {
        assert(rows.take(k + 1).drop_last() =~= rows.take(k));
        lemma_item_rows_err_prefix(rows, k + 1);
    }
}

proof fn lemma_totals_rows_err_prefix(rows: Seq<HtmlRow>, k: int)
    requires
        0 <= k <= rows.len(),
        totals_rows_err(rows.take(k)) is Some,
    ensures
        totals_rows_err(rows) == totals_rows_err(rows.take(k)),
    decreases rows.len() - k,
{
    if k == rows.len() {
        assert(rows.take(k) =~= rows);
    } else {
        assert(rows.take(k + 1).drop_last() =~= rows.take(k));
        lemma_totals_rows_err_prefix(rows, k + 1);
    }
}

proof fn lemma_payments_rows_err_prefix(rows: Seq<HtmlRow>, k: int)
    requires
        0 <= k <= rows.len(),
        payments_rows_err(rows.take(k)) is Some,
    ensures
        payments_rows_err(rows) == payments_rows_err(rows.take(k)),
    decreases rows.len() - k,
{
    if k == rows.len() {
        assert(rows.take(k) =~= rows);
    } else {
        assert(rows.take(k + 1).drop_last() =~= rows.take(k));
        lemma_payments_rows_err_prefix(rows, k + 1);
    }
}

/// The sentinel code of a delivery-ticket row.
pub open spec fn code_dt() -> Seq<char> {
    seq!['2', '3', '0', '0']
}

/// The sentinel code of a weigh-ticket row.
pub open spec fn code_wt() -> Seq<char> {
    seq!['2', '3', '0', '1']
}

/// Whether a (well-formed) row is a delivery-ticket reference row.
pub open spec fn is_dt_row(r: HtmlRow) -> bool {
    cell_clean(r.cells@[0]) == code_dt()
}

/// Whether a (well-formed) row is a weigh-ticket reference row.
pub open spec fn is_wt_row(r: HtmlRow) -> bool {
    cell_clean(r.cells@[0]) == code_wt()
}

/// The rows that become line items: those with neither sentinel code.
pub open spec fn item_rows(rows: Seq<HtmlRow>) -> Seq<HtmlRow>
    decreases rows.len(),
{
    if rows.len() == 0 {
        Seq::empty()
    } else if !is_dt_row(rows.last()) && !is_wt_row(rows.last()) {
        item_rows(rows.drop_last()).push(rows.last())
    } else {
        item_rows(rows.drop_last())
    }
}

/// The delivery-ticket rows, in order.
pub open spec fn dt_rows(rows: Seq<HtmlRow>) -> Seq<HtmlRow>
    decreases rows.len(),
{
    if rows.len() == 0 {
        Seq::empty()
    } else if is_dt_row(rows.last()) {
        dt_rows(rows.drop_last()).push(rows.last())
    } else {
        dt_rows(rows.drop_last())
    }
}

/// The weigh-ticket rows, in order.
pub open spec fn wt_rows(rows: Seq<HtmlRow>) -> Seq<HtmlRow>
    decreases rows.len(),
{
    if rows.len() == 0 {
        Seq::empty()
    } else if !is_dt_row(rows.last()) && is_wt_row(rows.last()) {
        wt_rows(rows.drop_last()).push(rows.last())
    } else {
        wt_rows(rows.drop_last())
    }
}

/// ASCII punctuation, as a ticket reference may contain it.
pub open spec fn is_t_punct(c: char) -> bool {
    ('!' <= c <= '/') || (':' <= c <= '@') || ('[' <= c <= '`') || ('{' <= c <= '~')
}

/// The characters a ticket reference keeps: digits, punctuation and spaces.
pub open spec fn ticket_char(c: char) -> bool {
    is_digit(c) || is_t_punct(c) || is_ws(c)
}

/// A ticket description reduced to its kept characters.
pub open spec fn ticket_filter(s: Seq<char>) -> Seq<char> {
    s.filter(|c: char| ticket_char(c))
}

/// The filtered, trimmed descriptions of ticket rows, each followed by one
/// space.
pub open spec fn ticket_cat(rows: Seq<HtmlRow>) -> Seq<char>
    decreases rows.len(),
{
    if rows.len() == 0 {
        Seq::empty()
    } else {
        ticket_cat(rows.drop_last()) + trim_spec(
            ticket_filter(cell_clean(rows.last().cells@[1])),
        ) + seq![' ']
    }
}

/// Drops the trailing separator space of a joined ticket string.
pub open spec fn chop_last(s: Seq<char>) -> Seq<char> {
    if s.len() > 0 {
        s.drop_last()
    } else {
        s
    }
}

/// Whether the pattern occurs at position `i` of `s`, exactly.
pub open spec fn sub_at(s: Seq<char>, i: int, pat: Seq<char>) -> bool {
    0 <= i && i + pat.len() <= s.len() && forall|j: int|
        0 <= j < pat.len() ==> s[i + j] == #[trigger] pat[j]
}

/// Whether the pattern occurs anywhere in `s`.
pub open spec fn contains_sub(s: Seq<char>, pat: Seq<char>) -> bool {
    exists|i: int| sub_at(s, i, pat)
}

/// The word that classifies a receipt title.
pub open spec fn receipt_word() -> Seq<char> {
    seq!['R', 'e', 'c', 'e', 'i', 'p', 't']
}

/// The word that classifies a quote title.
pub open spec fn quote_word() -> Seq<char> {
    seq!['Q', 'u', 'o', 't', 'e']
}

/// The document type read off the title: a title naming a receipt makes a
/// receipt, else one naming a quote makes a quote, else the document is an
/// invoice.
pub open spec fn title_type(t: Seq<char>) -> DocType {
    if contains_sub(t, receipt_word()) {
        DocType::Receipt
    } else if contains_sub(t, quote_word()) {
        DocType::Quote
    } else {
        DocType::Invoice
    }
}

fn sub_match_at(hay: &Vec<char>, i: usize, pat: &Vec<char>) -> (r: bool)
    requires
        i + pat@.len() <= hay@.len(),
    ensures
        r == sub_at(hay@, i as int, pat@),
{
    let n = hay.len();
    let mut j: usize = 0;
    while j < pat.len()
        invariant
            j <= pat@.len(),
            i + pat@.len() <= hay@.len(),
            hay@.len() <= usize::MAX,
            forall|k: int| 0 <= k < j ==> hay@[i + k] == #[trigger] pat@[k],
        decreases pat@.len() - j,
    {
        if hay[i + j] != pat[j] {
            return false;
        }
        j = j + 1;
    }
    true
}

/// Whether the pattern occurs anywhere in the text.
pub fn contains_word(hay: &Vec<char>, pat: &Vec<char>) -> (r: bool)
    ensures
        r == contains_sub(hay@, pat@),
{
    if pat.len() > hay.len() {
        proof {
            assert(forall|i: int| !sub_at(hay@, i, pat@));
        }
        return false;
    }
    let mut i: usize = 0;
    while i <= hay.len() - pat.len()
        invariant
            pat@.len() <= hay@.len(),
            i <= hay@.len() - pat@.len() + 1,
            forall|k: int| 0 <= k < i ==> !sub_at(hay@, k, pat@),
        decreases hay@.len() - pat@.len() - i + 1,
    {
        if sub_match_at(hay, i, pat) {
            return true;
        }
        i = i + 1;
    }
    proof {
        assert(forall|k: int| k > hay@.len() - pat@.len() ==> !sub_at(hay@, k, pat@));
    }
    false
}

/// The value with a known label prefix stripped, if it carries one.
pub open spec fn strip_label(s: Seq<char>, p: Seq<char>) -> Seq<char> {
    if has_prefix(s, p) {
        s.skip(p.len() as int)
    } else {
        s
    }
}

fn strip_label_exec(s: &String, p: &str) -> (r: String)
    ensures
        r@ == strip_label(s@, p@),
{
    let sc = string_to_chars(s.as_str());
    let pc = string_to_chars(p);
    if chars_have_prefix(&sc, &pc) {
        let rest = subvec(&sc, pc.len(), sc.len());
        proof {
            assert(sc@.subrange(pc@.len() as int, sc@.len() as int) =~= sc@.skip(
                pc@.len() as int,
            ));
        }
        chars_to_string(&rest)
    } else {
        s.clone()
    }
}


/// The checks that precede the line-item table walk, taken together.
pub open spec fn header_ok(doc: HtmlDoc) -> bool {
    &&& doc.has_body
    &&& doc.spans@.len() >= 2
    &&& doc.tables@.len() >= 3
    &&& doc.tables@[0].rows@.len() >= 3
    &&& doc.tables@[0].rows@[0].cells@.len() >= 2
    &&& doc.tables@[0].rows@[2].cells@.len() >= 3
}

/// The checks that precede the totals table walk, taken together.
pub open spec fn mid_ok(doc: HtmlDoc) -> bool {
    &&& header_ok(doc)
    &&& item_rows_err(doc.tables@[2].rows@) is None
    &&& doc.tables@.len() >= 5
}

/// The checks that precede the payments table walk, taken together.
pub open spec fn pay_ok(doc: HtmlDoc) -> bool {
    &&& mid_ok(doc)
    &&& totals_rows_err(doc.tables@[4].rows@) is None
    &&& doc.tables@.len() >= 6
}

/// The first structural expectation the document violates, in walking
/// order, or nothing when the whole fixed sequence is present.
pub open spec fn extract_err(doc: HtmlDoc) -> Option<ExtractError> {
    if !doc.has_body {
        Some(ExtractError::NoBody)
    } else if doc.spans@.len() < 1 {
        Some(ExtractError::NoTitle)
    } else if doc.spans@.len() < 2 {
        Some(ExtractError::NoDate)
    } else if doc.tables@.len() < 1 {
        Some(ExtractError::MissingTable { number: 1u8 })
    } else if doc.tables@[0].rows@.len() < 1 {
        Some(ExtractError::NoCompanyCustomerRow)
    } else if doc.tables@[0].rows@[0].cells@.len() < 1 {
        Some(ExtractError::NoCompanyInfo)
    } else if doc.tables@[0].rows@[0].cells@.len() < 2 {
        Some(ExtractError::NoCustomerInfo)
    } else if doc.tables@[0].rows@.len() < 2 {
        Some(ExtractError::NoBlankRow)
    } else if doc.tables@[0].rows@.len() < 3 {
        Some(ExtractError::NoMetadataRow)
    } else if doc.tables@[0].rows@[2].cells@.len() < 1 {
        Some(ExtractError::NoTransactionNumber)
    } else if doc.tables@[0].rows@[2].cells@.len() < 2 {
        Some(ExtractError::NoOrderId)
    } else if doc.tables@[0].rows@[2].cells@.len() < 3 {
        Some(ExtractError::NoInvoiceNumber)
    } else if doc.tables@.len() < 2 {
        Some(ExtractError::MissingTable { number: 2u8 })
    } else if doc.tables@.len() < 3 {
        Some(ExtractError::MissingTable { number: 3u8 })
    } else if item_rows_err(doc.tables@[2].rows@) is Some {
        item_rows_err(doc.tables@[2].rows@)
    } else if doc.tables@.len() < 4 {
        Some(ExtractError::MissingTable { number: 4u8 })
    } else if doc.tables@.len() < 5 {
        Some(ExtractError::MissingTable { number: 5u8 })
    } else if totals_rows_err(doc.tables@[4].rows@) is Some {
        totals_rows_err(doc.tables@[4].rows@)
    } else if doc.tables@.len() < 6 {
        Some(ExtractError::MissingTable { number: 6u8 })
    } else if payments_rows_err(doc.tables@[5].rows@) is Some {
        payments_rows_err(doc.tables@[5].rows@)
    } else if doc.tables@.len() < 7 {
        Some(ExtractError::MissingTable { number: 7u8 })
    } else if table_cells(doc.tables@[6].rows@).len() < 3 {
        Some(ExtractError::NoAmountDue)
    } else if doc.tables@.len() < 8 {
        Some(ExtractError::MissingTable { number: 8u8 })
    } else if table_cells(doc.tables@[7].rows@).len() < 2 {
        Some(ExtractError::NoEmployee)
    } else if doc.tables@.len() < 9 {
        Some(ExtractError::MissingTable { number: 9u8 })
    } else if table_cells(doc.tables@[8].rows@).len() < 1 {
        Some(ExtractError::NoSlogan)
    } else {
        None
    }
}

pub open spec fn tnum_label() -> Seq<char> {
    "TransactionNumber: "@
}

pub open spec fn oid_label() -> Seq<char> {
    "OrderId: "@
}

pub open spec fn docnum_label() -> Seq<char> {
    "Invoice#: "@
}

fn is_ticket_char(c: char) -> (r: bool)
    ensures
        r == ticket_char(c),
{
    ('0' <= c && c <= '9') || ('!' <= c && c <= '/') || (':' <= c && c <= '@') || ('[' <= c && c
        <= '`') || ('{' <= c && c <= '~') || c == ' ' || c == '\t' || c == '\n' || c == '\r' || c
        == '\u{b}' || c == '\u{c}'
}

fn ticket_filter_exec(v: &Vec<char>) -> (r: Vec<char>)
    ensures
        r@ == ticket_filter(v@),
{
    let mut r: Vec<char> = Vec::new();
    let mut i: usize = 0;
    while i < v.len()
        invariant
            i <= v@.len(),
            r@ == ticket_filter(v@.take(i as int)),
        decreases v@.len() - i,
    {
        proof {
            reveal(Seq::filter);
            assert(v@.take(i + 1).drop_last() =~= v@.take(i as int));
            assert(v@.take(i + 1).last() == v@[i as int]);
        }
        if is_ticket_char(v[i]) {
            r.push(v[i]);
        }
        i = i + 1;
    }
    proof {
        assert(v@.take(v@.len() as int) =~= v@);
    }
    r
}

/// Whether the characters are exactly the four given ones.
fn eq4(v: &Vec<char>, a: char, b: char, c: char, d: char) -> (r: bool)
    ensures
        r == (v@ == seq![a, b, c, d]),
{
    if v.len() != 4 {
        proof {
            assert(v@.len() != seq![a, b, c, d].len());
        }
        return false;
    }
    let r = v[0] == a && v[1] == b && v[2] == c && v[3] == d;
    proof {
        if r {
            assert(v@ =~= seq![a, b, c, d]);
        } else {
            assert(v@ != seq![a, b, c, d]);
        }
    }
    r
}

/// Walks the fixed structural sequence of the input document and builds the
/// model: title and date spans; the company/customer table with its
/// metadata row; the line-item table, whose sentinel-coded rows become
/// delivery- and weigh-ticket references instead of items; the totals and
/// payments tables; the amount-due table (read, not retained); and the
/// employee and slogan tables. The document type is read off the title. The
/// company header lines and the VAT identifier are not in the markup: they
/// stay empty for the caller to fill in.
pub fn extract_receipt(doc: &HtmlDoc) -> (r: Result<ReceiptInfo, ExtractError>)
    ensures
        r is Err <==> extract_err(*doc) is Some,
        r is Err ==> Some(r->Err_0) == extract_err(*doc),
        r is Ok ==> ({
            let info = r->Ok_0;
            let t0 = doc.tables@[0];
            let t3rows = doc.tables@[2].rows@;
            let irs = item_rows(t3rows);
            let trows = doc.tables@[4].rows@;
            let prows = doc.tables@[5].rows@;
            &&& info.title@ == cell_clean(doc.spans@[0])
            &&& info.date@ == cell_clean(doc.spans@[1])
            &&& info.customer_info@ == cell_multi(t0.rows@[0].cells@[1])
            &&& info.transaction_number@ == strip_label(
                cell_clean(t0.rows@[2].cells@[0]),
                tnum_label(),
            )
            &&& info.order_id@ == strip_label(cell_clean(t0.rows@[2].cells@[1]), oid_label())
            &&& info.doc_number@ == strip_label(cell_clean(t0.rows@[2].cells@[2]), docnum_label())
            &&& info.doc_type == title_type(cell_clean(doc.spans@[0]))
            &&& info.company_name@ == Seq::<char>::empty()
            &&& info.company_info_line@ == Seq::<char>::empty()
            &&& info.vat_number@ == Seq::<char>::empty()
            &&& info.amount_due@ == Seq::<char>::empty()
            &&& info.item_lines@.len() == irs.len()
            &&& (forall|k: int|
                0 <= k < irs.len() ==> {
                    let il = #[trigger] info.item_lines@[k];
                    let row = irs[k];
                    &&& il.code@ == cell_clean(row.cells@[0])
                    &&& il.description@ == cell_clean(row.cells@[1])
                    &&& il.quantity@ == cell_clean(row.cells@[2])
                    &&& il.unit_price@ == cell_amount(row.cells@[3])
                    &&& il.amount@ == cell_amount(row.cells@[4])
                    &&& il.uom@ == Seq::<char>::empty()
                    &&& il.discount is None
                    &&& il.taxable == false
                })
            &&& info.delivery_tickets@ == chop_last(ticket_cat(dt_rows(t3rows)))
            &&& info.weigh_tickets@ == chop_last(ticket_cat(wt_rows(t3rows)))
            &&& info.totals@.len() == trows.len()
            &&& (forall|k: int|
                0 <= k < trows.len() ==> {
                    let a = #[trigger] info.totals@[k];
                    &&& a.name@ == cell_clean(trows[k].cells@[0])
                    &&& a.value@ == cell_amount(trows[k].cells@[1])
                })
            &&& info.payments@.len() == prows.len()
            &&& (forall|k: int|
                0 <= k < prows.len() ==> {
                    let a = #[trigger] info.payments@[k];
                    &&& a.name@ == cell_clean(prows[k].cells@[0])
                    &&& a.value@ == cell_amount(prows[k].cells@[1])
                })
            &&& info.employee@ == cell_clean(table_cells(doc.tables@[7].rows@)[1])
            &&& info.slogan@ == cell_clean(table_cells(doc.tables@[8].rows@)[0])
        }),
{
    let mut info = ReceiptInfo::new();
    if !doc.has_body {
        return Err(ExtractError::NoBody);
    }
    // the first two spans are the title and the date
    if doc.spans.len() < 1 {
        return Err(ExtractError::NoTitle);
    }
    if doc.spans.len() < 2 {
        return Err(ExtractError::NoDate);
    }
    info.title = cleanup(&doc.spans[0].texts);
    info.date = cleanup(&doc.spans[1].texts);
    let title_chars = string_to_chars(info.title.as_str());
    let mut receipt_pat: Vec<char> = Vec::new();
    receipt_pat.push('R');
    receipt_pat.push('e');
    receipt_pat.push('c');
    receipt_pat.push('e');
    receipt_pat.push('i');
    receipt_pat.push('p');
    receipt_pat.push('t');
    let mut quote_pat: Vec<char> = Vec::new();
    quote_pat.push('Q');
    quote_pat.push('u');
    quote_pat.push('o');
    quote_pat.push('t');
    quote_pat.push('e');
    proof {
        assert(receipt_pat@ =~= receipt_word());
        assert(quote_pat@ =~= quote_word());
    }
    info.doc_type = if contains_word(&title_chars, &receipt_pat) {
        DocType::Receipt
    } else if contains_word(&title_chars, &quote_pat) {
        DocType::Quote
    } else {
        DocType::Invoice
    };
    // table one: company and customer blocks, then the metadata row
    if doc.tables.len() < 1 {
        return Err(ExtractError::MissingTable { number: 1 });
    }
    let t1 = &doc.tables[0];
    if t1.rows.len() < 1 {
        return Err(ExtractError::NoCompanyCustomerRow);
    }
    if t1.rows[0].cells.len() < 1 {
        return Err(ExtractError::NoCompanyInfo);
    }
    // the company block is validated and read, but the model's company
    // header lines come from configuration, not from the input
    let _company_block = cleanup_multiple_lines(&t1.rows[0].cells[0].texts);
    if t1.rows[0].cells.len() < 2 {
        return Err(ExtractError::NoCustomerInfo);
    }
    info.customer_info = cleanup_multiple_lines(&t1.rows[0].cells[1].texts);
    if t1.rows.len() < 2 {
        return Err(ExtractError::NoBlankRow);
    }
    if t1.rows.len() < 3 {
        return Err(ExtractError::NoMetadataRow);
    }
    let meta = &t1.rows[2];
    if meta.cells.len() < 1 {
        return Err(ExtractError::NoTransactionNumber);
    }
    let tnum = cleanup(&meta.cells[0].texts);
    info.transaction_number = strip_label_exec(&tnum, "TransactionNumber: ");
    if meta.cells.len() < 2 {
        return Err(ExtractError::NoOrderId);
    }
    let oid = cleanup(&meta.cells[1].texts);
    info.order_id = strip_label_exec(&oid, "OrderId: ");
    if meta.cells.len() < 3 {
        return Err(ExtractError::NoInvoiceNumber);
    }
    let dnum = cleanup(&meta.cells[2].texts);
    info.doc_number = strip_label_exec(&dnum, "Invoice#: ");
    // table two holds column headers and is only required to exist
    if doc.tables.len() < 2 {
        return Err(ExtractError::MissingTable { number: 2 });
    }
    // table three: line items and ticket reference rows
    if doc.tables.len() < 3 {
        return Err(ExtractError::MissingTable { number: 3 });
    }
    let t3 = &doc.tables[2];
    let ghost t3rows = t3.rows@;
    let mut items: Vec<ItemLine> = Vec::new();
    let mut dt_acc: Vec<char> = Vec::new();
    let mut wt_acc: Vec<char> = Vec::new();
    let mut i: usize = 0;
    while i < t3.rows.len()
        invariant
            i <= t3rows.len(),
            t3rows == doc.tables@[2].rows@,
            t3rows == t3.rows@,
            header_ok(*doc),
            item_rows_err(t3rows.take(i as int)) is None,
            items@.len() == item_rows(t3rows.take(i as int)).len(),
            forall|k: int|
                0 <= k < item_rows(t3rows.take(i as int)).len() ==> {
                    let il = #[trigger] items@[k];
                    let row = item_rows(t3rows.take(i as int))[k];
                    &&& il.code@ == cell_clean(row.cells@[0])
                    &&& il.description@ == cell_clean(row.cells@[1])
                    &&& il.quantity@ == cell_clean(row.cells@[2])
                    &&& il.unit_price@ == cell_amount(row.cells@[3])
                    &&& il.amount@ == cell_amount(row.cells@[4])
                    &&& il.uom@ == Seq::<char>::empty()
                    &&& il.discount is None
                    &&& il.taxable == false
                },
            dt_acc@ == ticket_cat(dt_rows(t3rows.take(i as int))),
            wt_acc@ == ticket_cat(wt_rows(t3rows.take(i as int))),
        decreases t3rows.len() - i,
    {
        proof {
            assert(t3rows.take(i + 1).drop_last() =~= t3rows.take(i as int));
            assert(t3rows.take(i + 1).last() == t3rows[i as int]);
        }
        let row = &t3.rows[i];
        if row.cells.len() < 1 {
            proof {
                lemma_item_rows_err_prefix(t3rows, i + 1);
            }
            return Err(ExtractError::NoItemCode);
        }
        if row.cells.len() < 2 {
            proof {
                lemma_item_rows_err_prefix(t3rows, i + 1);
            }
            return Err(ExtractError::NoItemDescription);
        }
        if row.cells.len() < 3 {
            proof {
                lemma_item_rows_err_prefix(t3rows, i + 1);
            }
            return Err(ExtractError::NoItemQuantity);
        }
        if row.cells.len() < 4 {
            proof {
                lemma_item_rows_err_prefix(t3rows, i + 1);
            }
            return Err(ExtractError::NoItemPrice);
        }
        if row.cells.len() < 5 {
            proof {
                lemma_item_rows_err_prefix(t3rows, i + 1);
            }
            return Err(ExtractError::NoItemAmount);
        }
        let code = cleanup(&row.cells[0].texts);
        let description = cleanup(&row.cells[1].texts);
        let code_chars = string_to_chars(code.as_str());
        if eq4(&code_chars, '2', '3', '0', '0') {
            let desc_chars = string_to_chars(description.as_str());
            let filtered = ticket_filter_exec(&desc_chars);
            let trimmed = trim_chars(&filtered);
            crate::cleanup::append_chars(&mut dt_acc, &trimmed);
            dt_acc.push(' ');
            proof {
                assert(is_dt_row(t3rows[i as int]));
                let drows = dt_rows(t3rows.take(i as int)).push(t3rows[i as int]);
                assert(dt_rows(t3rows.take(i + 1)) == drows);
                assert(drows.drop_last() =~= dt_rows(t3rows.take(i as int)));
                assert(drows.last() == t3rows[i as int]);
                assert(dt_acc@ =~= ticket_cat(dt_rows(t3rows.take(i as int))) + trim_spec(
                    ticket_filter(cell_clean(t3rows[i as int].cells@[1])),
                ) + seq![' ']);
                assert(dt_acc@ == ticket_cat(drows));
            }
        } else if eq4(&code_chars, '2', '3', '0', '1') {
            let desc_chars = string_to_chars(description.as_str());
            let filtered = ticket_filter_exec(&desc_chars);
            let trimmed = trim_chars(&filtered);
            crate::cleanup::append_chars(&mut wt_acc, &trimmed);
            wt_acc.push(' ');
            proof {
                assert(!is_dt_row(t3rows[i as int]));
                assert(is_wt_row(t3rows[i as int]));
                let wrows = wt_rows(t3rows.take(i as int)).push(t3rows[i as int]);
                assert(wt_rows(t3rows.take(i + 1)) == wrows);
                assert(wrows.drop_last() =~= wt_rows(t3rows.take(i as int)));
                assert(wrows.last() == t3rows[i as int]);
                assert(wt_acc@ =~= ticket_cat(wt_rows(t3rows.take(i as int))) + trim_spec(
                    ticket_filter(cell_clean(t3rows[i as int].cells@[1])),
                ) + seq![' ']);
                assert(wt_acc@ == ticket_cat(wrows));
            }
        } else {
            let quantity = cleanup(&row.cells[2].texts);
            let unit_price = cleanup_amount(&row.cells[3].texts);
            let amount = cleanup_amount(&row.cells[4].texts);
            proof {
                assert(!is_dt_row(t3rows[i as int]));
                assert(!is_wt_row(t3rows[i as int]));
            }
            items.push(
                ItemLine {
                    code,
                    description,
                    quantity,
                    unit_price,
                    amount,
                    uom: String::new(),
                    discount: None,
                    taxable: false,
                },
            );
        }
        i = i + 1;
    }
    proof {
        assert(t3rows.take(t3rows.len() as int) =~= t3rows);
    }
    info.item_lines = items;
    if dt_acc.len() > 0 {
        dt_acc.pop();
    }
    if wt_acc.len() > 0 {
        wt_acc.pop();
    }
    info.delivery_tickets = chars_to_string(&dt_acc);
    info.weigh_tickets = chars_to_string(&wt_acc);
    // table four is reserved and only required to exist
    if doc.tables.len() < 4 {
        return Err(ExtractError::MissingTable { number: 4 });
    }
    // table five: totals
    if doc.tables.len() < 5 {
        return Err(ExtractError::MissingTable { number: 5 });
    }
    let t5 = &doc.tables[4];
    let ghost trows = t5.rows@;
    let mut totals: Vec<Amount> = Vec::new();
    let mut i: usize = 0;
    while i < t5.rows.len()
        invariant
            i <= trows.len(),
            trows == doc.tables@[4].rows@,
            trows == t5.rows@,
            mid_ok(*doc),
            totals_rows_err(trows.take(i as int)) is None,
            totals@.len() == i,
            forall|k: int|
                0 <= k < i ==> {
                    let a = #[trigger] totals@[k];
                    &&& a.name@ == cell_clean(trows[k].cells@[0])
                    &&& a.value@ == cell_amount(trows[k].cells@[1])
                },
        decreases trows.len() - i,
    {
        proof {
            assert(trows.take(i + 1).drop_last() =~= trows.take(i as int));
            assert(trows.take(i + 1).last() == trows[i as int]);
        }
        let row = &t5.rows[i];
        if row.cells.len() < 1 {
            proof {
                lemma_totals_rows_err_prefix(trows, i + 1);
            }
            return Err(ExtractError::NoTotalsName);
        }
        if row.cells.len() < 2 {
            proof {
                lemma_totals_rows_err_prefix(trows, i + 1);
            }
            return Err(ExtractError::NoTotalsValue);
        }
        totals.push(
            Amount { name: cleanup(&row.cells[0].texts), value: cleanup_amount(&row.cells[1].texts) },
        );
        i = i + 1;
    }
    proof {
        assert(trows.take(trows.len() as int) =~= trows);
    }
    info.totals = totals;
    // table six: payments
    if doc.tables.len() < 6 {
        return Err(ExtractError::MissingTable { number: 6 });
    }
    let t6 = &doc.tables[5];
    let ghost prows = t6.rows@;
    let mut payments: Vec<Amount> = Vec::new();
    let mut i: usize = 0;
    while i < t6.rows.len()
        invariant
            i <= prows.len(),
            prows == doc.tables@[5].rows@,
            prows == t6.rows@,
            pay_ok(*doc),
            payments_rows_err(prows.take(i as int)) is None,
            payments@.len() == i,
            forall|k: int|
                0 <= k < i ==> {
                    let a = #[trigger] payments@[k];
                    &&& a.name@ == cell_clean(prows[k].cells@[0])
                    &&& a.value@ == cell_amount(prows[k].cells@[1])
                },
        decreases prows.len() - i,
    {
        proof {
            assert(prows.take(i + 1).drop_last() =~= prows.take(i as int));
            assert(prows.take(i + 1).last() == prows[i as int]);
        }
        let row = &t6.rows[i];
        if row.cells.len() < 1 {
            proof {
                lemma_payments_rows_err_prefix(prows, i + 1);
            }
            return Err(ExtractError::NoPaymentName);
        }
        if row.cells.len() < 2 {
            proof {
                lemma_payments_rows_err_prefix(prows, i + 1);
            }
            return Err(ExtractError::NoPaymentValue);
        }
        payments.push(
            Amount { name: cleanup(&row.cells[0].texts), value: cleanup_amount(&row.cells[1].texts) },
        );
        i = i + 1;
    }
    proof {
        assert(prows.take(prows.len() as int) =~= prows);
    }
    info.payments = payments;
    // table seven: the amount due, read but not retained on the model
    if doc.tables.len() < 7 {
        return Err(ExtractError::MissingTable { number: 7 });
    }
    let due_cell = match nth_table_cell(&doc.tables[6], 2) {
        Some(c) => c,
        None => {
            return Err(ExtractError::NoAmountDue);
        },
    };
    let _amount_due = cleanup_amount(&due_cell.texts);
    // table eight: the clerk's name is in the second cell
    if doc.tables.len() < 8 {
        return Err(ExtractError::MissingTable { number: 8 });
    }
    let emp_cell = match nth_table_cell(&doc.tables[7], 1) {
        Some(c) => c,
        None => {
            return Err(ExtractError::NoEmployee);
        },
    };
    info.employee = cleanup(&emp_cell.texts);
    // table nine: the footer slogan
    if doc.tables.len() < 9 {
        return Err(ExtractError::MissingTable { number: 9 });
    }
    let slogan_cell = match nth_table_cell(&doc.tables[8], 0) {
        Some(c) => c,
        None => {
            return Err(ExtractError::NoSlogan);
        },
    };
    info.slogan = cleanup(&slogan_cell.texts);
    Ok(info)
}

} // verus!
