//! The document model: one structured invoice, receipt, or quote. A document
//! is fully populated by the extractor, rewritten at most once by the deposit
//! normalization pass, and then read only.
//!
//! Quantities, prices and amounts are display-ready decimal strings: all
//! arithmetic happens upstream, and this library only ever reads one value
//! back (the deposit amount during normalization).

use vstd::prelude::*;

verus! {

/// The kind of document, fixed at extraction; it drives layout selection and
/// the number label in the page header.
#[derive(Debug, Clone, Copy, PartialEq, Eq, Structural)]
pub enum DocType {
    Invoice,
    Receipt,
    Quote,
}

/// One priced entry of the line-item table.
///
/// An empty `uom` means no explicit unit of measure was supplied; the
/// typesetter then falls back to inferring one from the numeric item code.
/// An empty `unit_price`, `discount` of `None`, or an empty `amount` render
/// as nothing rather than as a bare currency symbol.
#[derive(Debug, Clone)]
pub struct ItemLine {
    pub code: String,
    pub description: String,
    pub quantity: String,
    pub unit_price: String,
    pub amount: String,
    pub uom: String,
    pub discount: Option<String>,
    pub taxable: bool,
}

/// One labelled money row of the totals or payments block. A row with an
/// empty name is a deliberate sentinel: it renders as a horizontal separator
/// rule instead of text.
#[derive(Debug, Clone)]
pub struct Amount {
    pub name: String,
    pub value: String,
}

/// The complete structured representation of one document.
#[derive(Debug, Clone)]
pub struct ReceiptInfo {
    pub title: String,
    pub date: String,
    pub company_name: String,
    pub company_info_line: String,
    pub customer_info: String,
    pub transaction_number: String,
    pub order_id: String,
    pub vat_number: String,
    pub doc_number: String,
    pub doc_type: DocType,
    pub item_lines: Vec<ItemLine>,
    pub delivery_tickets: String,
    pub weigh_tickets: String,
    pub totals: Vec<Amount>,
    pub payments: Vec<Amount>,
    pub amount_due: String,
    pub employee: String,
    pub slogan: String,
}

impl ReceiptInfo {
    /// An empty document, ready to be filled by the extractor.
    pub fn new() -> (r: ReceiptInfo)
        ensures
            r.title@ == Seq::<char>::empty(),
            r.date@ == Seq::<char>::empty(),
            r.company_name@ == Seq::<char>::empty(),
            r.company_info_line@ == Seq::<char>::empty(),
            r.customer_info@ == Seq::<char>::empty(),
            r.transaction_number@ == Seq::<char>::empty(),
            r.order_id@ == Seq::<char>::empty(),
            r.vat_number@ == Seq::<char>::empty(),
            r.doc_number@ == Seq::<char>::empty(),
            r.doc_type == DocType::Invoice,
            r.item_lines@ == Seq::<ItemLine>::empty(),
            r.delivery_tickets@ == Seq::<char>::empty(),
            r.weigh_tickets@ == Seq::<char>::empty(),
            r.totals@ == Seq::<Amount>::empty(),
            r.payments@ == Seq::<Amount>::empty(),
            r.amount_due@ == Seq::<char>::empty(),
            r.employee@ == Seq::<char>::empty(),
            r.slogan@ == Seq::<char>::empty(),
    {
        ReceiptInfo {
            title: String::new(),
            date: String::new(),
            company_name: String::new(),
            company_info_line: String::new(),
            customer_info: String::new(),
            transaction_number: String::new(),
            order_id: String::new(),
            vat_number: String::new(),
            doc_number: String::new(),
            doc_type: DocType::Invoice,
            item_lines: Vec::new(),
            delivery_tickets: String::new(),
            weigh_tickets: String::new(),
            totals: Vec::new(),
            payments: Vec::new(),
            amount_due: String::new(),
            employee: String::new(),
            slogan: String::new(),
        }
    }
}

} // verus!
