use receiptd::cleanup::{cleanup, cleanup_amount, cleanup_multiple_lines};
use receiptd::extract::{extract_receipt, ExtractError};
use receiptd::html::{find_html_fragment, FragmentError, HtmlCell, HtmlDoc, HtmlRow, HtmlTable};
use receiptd::model::DocType;

fn cell(texts: &[&str]) -> HtmlCell {
    HtmlCell { texts: texts.iter().map(|s| s.to_string()).collect() }
}

fn row(cells: Vec<HtmlCell>) -> HtmlRow {
    HtmlRow { cells }
}

fn table(rows: Vec<HtmlRow>) -> HtmlTable {
    HtmlTable { rows }
}

fn item_row(code: &str, desc: &str, qty: &str, price: &str, amount: &str) -> HtmlRow {
    row(vec![cell(&[code]), cell(&[desc]), cell(&[qty]), cell(&[price]), cell(&[amount])])
}

fn amount_row(name: &str, value: &str) -> HtmlRow {
    row(vec![cell(&[name]), cell(&[value])])
}

/// A well-formed input document with one stone line item.
fn sample_doc() -> HtmlDoc {
    HtmlDoc {
        has_body: true,
        spans: vec![cell(&["Customer Invoice"]), cell(&["01/02/2024"])],
        tables: vec![
            table(vec![
                row(vec![
                    cell(&["Quarry Co\n1 Rock Road"]),
                    cell(&["Jane Mason\n2 Brick Lane\nStoneham"]),
                ]),
                row(vec![]),
                row(vec![
                    cell(&["TransactionNumber: 778"]),
                    cell(&["OrderId: 41"]),
                    cell(&["Invoice#: 1009"]),
                ]),
            ]),
            table(vec![]),
            table(vec![
                item_row("2050", "Crushed Stone", "5.00", "$120.00", "$600.00"),
                item_row("2300", "DT#4821", "", "", ""),
                item_row("2301", "WT 77", "", "", ""),
            ]),
            table(vec![]),
            table(vec![
                amount_row("Subtotal:", "$600.00"),
                amount_row("Tax:", "$30.00"),
                amount_row("Total:", "$630.00"),
            ]),
            table(vec![amount_row("Pay on Account", "-600.00")]),
            table(vec![row(vec![cell(&[""]), cell(&["Amount Due"]), cell(&["$0.00"])])]),
            table(vec![row(vec![cell(&["Clerk"]), cell(&["Pat"])])]),
            table(vec![row(vec![cell(&["Rock solid service"])])]),
        ],
    }
}

#[test]
fn cleanup_joins_and_trims() {
    let texts = vec!["  a  ".to_string(), "b".to_string()];
    assert_eq!(cleanup(&texts), "a b");
    assert_eq!(cleanup(&Vec::new()), "");
}

#[test]
fn cleanup_amount_strips_one_dollar() {
    assert_eq!(cleanup_amount(&vec!["$600.00".to_string()]), "600.00");
    assert_eq!(cleanup_amount(&vec!["600.00".to_string()]), "600.00");
    assert_eq!(cleanup_amount(&vec!["$$5".to_string()]), "$5");
}

#[test]
fn cleanup_multiple_lines_keeps_breaks() {
    let texts = vec!["Jane  Mason\n 2 Brick   Lane \n\n".to_string(), "Stoneham".to_string()];
    assert_eq!(cleanup_multiple_lines(&texts), "Jane Mason\n2 Brick Lane\nStoneham");
}

#[test]
fn fragment_found_case_insensitive() {
    let mail = "Subject: x\r\n<HTML><body>hi</body></HtMl> trailer";
    let frag = find_html_fragment(mail).unwrap();
    assert_eq!(frag, "<HTML><body>hi</body></HtMl>");
}

#[test]
fn fragment_errors_are_distinct() {
    assert_eq!(find_html_fragment("no markup here"), Err(FragmentError::NoHtmlStart));
    assert_eq!(find_html_fragment("<html> unterminated"), Err(FragmentError::NoHtmlEnd));
}

#[test]
fn extract_full_document() {
    let info = extract_receipt(&sample_doc()).unwrap();
    assert_eq!(info.title, "Customer Invoice");
    assert_eq!(info.date, "01/02/2024");
    assert_eq!(info.doc_type, DocType::Invoice);
    assert_eq!(info.customer_info, "Jane Mason\n2 Brick Lane\nStoneham");
    assert_eq!(info.transaction_number, "778");
    assert_eq!(info.order_id, "41");
    assert_eq!(info.doc_number, "1009");
    assert_eq!(info.item_lines.len(), 1);
    assert_eq!(info.item_lines[0].code, "2050");
    assert_eq!(info.item_lines[0].description, "Crushed Stone");
    assert_eq!(info.item_lines[0].quantity, "5.00");
    assert_eq!(info.item_lines[0].unit_price, "120.00");
    assert_eq!(info.item_lines[0].amount, "600.00");
    assert_eq!(info.item_lines[0].uom, "");
    assert!(info.item_lines[0].discount.is_none());
    assert!(!info.item_lines[0].taxable);
    assert_eq!(info.totals.len(), 3);
    assert_eq!(info.totals[1].name, "Tax:");
    assert_eq!(info.totals[1].value, "30.00");
    assert_eq!(info.payments.len(), 1);
    assert_eq!(info.payments[0].name, "Pay on Account");
    assert_eq!(info.payments[0].value, "-600.00");
    assert_eq!(info.employee, "Pat");
    assert_eq!(info.slogan, "Rock solid service");
    assert_eq!(info.amount_due, "");
    assert_eq!(info.company_name, "");
    assert_eq!(info.vat_number, "");
}

#[test]
fn sentinel_rows_become_ticket_references() {
    let info = extract_receipt(&sample_doc()).unwrap();
    // letters are filtered out of ticket references; digits, punctuation
    // and spaces survive
    assert_eq!(info.delivery_tickets, "#4821");
    assert_eq!(info.weigh_tickets, "77");
}

#[test]
fn title_classifies_document_type() {
    let mut doc = sample_doc();
    doc.spans[0] = cell(&["Customer Receipt"]);
    assert_eq!(extract_receipt(&doc).unwrap().doc_type, DocType::Receipt);
    doc.spans[0] = cell(&["Customer Quote"]);
    assert_eq!(extract_receipt(&doc).unwrap().doc_type, DocType::Quote);
}

#[test]
fn labels_used_verbatim_without_prefix() {
    let mut doc = sample_doc();
    doc.tables[0].rows[2] = row(vec![cell(&["778"]), cell(&["41"]), cell(&["1009"])]);
    let info = extract_receipt(&doc).unwrap();
    assert_eq!(info.transaction_number, "778");
    assert_eq!(info.order_id, "41");
    assert_eq!(info.doc_number, "1009");
}

#[test]
fn missing_body_and_spans() {
    let mut doc = sample_doc();
    doc.has_body = false;
    assert_eq!(extract_receipt(&doc).err().unwrap(), ExtractError::NoBody);
    let mut doc = sample_doc();
    doc.spans.clear();
    assert_eq!(extract_receipt(&doc).err().unwrap(), ExtractError::NoTitle);
    let mut doc = sample_doc();
    doc.spans.truncate(1);
    assert_eq!(extract_receipt(&doc).err().unwrap(), ExtractError::NoDate);
}

#[test]
fn missing_tables_are_numbered() {
    for n in 1..=9u8 {
        let mut doc = sample_doc();
        doc.tables.truncate(n as usize - 1);
        assert_eq!(
            extract_receipt(&doc).err().unwrap(),
            ExtractError::MissingTable { number: n },
            "table {n}"
        );
    }
}

#[test]
fn first_table_shape_errors() {
    let mut doc = sample_doc();
    doc.tables[0].rows.clear();
    assert_eq!(extract_receipt(&doc).err().unwrap(), ExtractError::NoCompanyCustomerRow);
    let mut doc = sample_doc();
    doc.tables[0].rows[0].cells.clear();
    assert_eq!(extract_receipt(&doc).err().unwrap(), ExtractError::NoCompanyInfo);
    let mut doc = sample_doc();
    doc.tables[0].rows[0].cells.truncate(1);
    assert_eq!(extract_receipt(&doc).err().unwrap(), ExtractError::NoCustomerInfo);
    let mut doc = sample_doc();
    doc.tables[0].rows.truncate(1);
    assert_eq!(extract_receipt(&doc).err().unwrap(), ExtractError::NoBlankRow);
    let mut doc = sample_doc();
    doc.tables[0].rows.truncate(2);
    assert_eq!(extract_receipt(&doc).err().unwrap(), ExtractError::NoMetadataRow);
    let mut doc = sample_doc();
    doc.tables[0].rows[2].cells.clear();
    assert_eq!(extract_receipt(&doc).err().unwrap(), ExtractError::NoTransactionNumber);
    let mut doc = sample_doc();
    doc.tables[0].rows[2].cells.truncate(1);
    assert_eq!(extract_receipt(&doc).err().unwrap(), ExtractError::NoOrderId);
    let mut doc = sample_doc();
    doc.tables[0].rows[2].cells.truncate(2);
    assert_eq!(extract_receipt(&doc).err().unwrap(), ExtractError::NoInvoiceNumber);
}

#[test]
fn item_row_cell_errors() {
    let cases = [
        (0, ExtractError::NoItemCode),
        (1, ExtractError::NoItemDescription),
        (2, ExtractError::NoItemQuantity),
        (3, ExtractError::NoItemPrice),
        (4, ExtractError::NoItemAmount),
    ];
    for (keep, err) in cases {
        let mut doc = sample_doc();
        doc.tables[2].rows[0].cells.truncate(keep);
        assert_eq!(extract_receipt(&doc).err().unwrap(), err, "kept {keep} cells");
    }
}

#[test]
fn totals_payments_and_tail_errors() {
    let mut doc = sample_doc();
    doc.tables[4].rows[0].cells.clear();
    assert_eq!(extract_receipt(&doc).err().unwrap(), ExtractError::NoTotalsName);
    let mut doc = sample_doc();
    doc.tables[4].rows[0].cells.truncate(1);
    assert_eq!(extract_receipt(&doc).err().unwrap(), ExtractError::NoTotalsValue);
    let mut doc = sample_doc();
    doc.tables[5].rows[0].cells.clear();
    assert_eq!(extract_receipt(&doc).err().unwrap(), ExtractError::NoPaymentName);
    let mut doc = sample_doc();
    doc.tables[5].rows[0].cells.truncate(1);
    assert_eq!(extract_receipt(&doc).err().unwrap(), ExtractError::NoPaymentValue);
    let mut doc = sample_doc();
    doc.tables[6].rows[0].cells.truncate(2);
    assert_eq!(extract_receipt(&doc).err().unwrap(), ExtractError::NoAmountDue);
    let mut doc = sample_doc();
    doc.tables[7].rows[0].cells.truncate(1);
    assert_eq!(extract_receipt(&doc).err().unwrap(), ExtractError::NoEmployee);
    let mut doc = sample_doc();
    doc.tables[8].rows.clear();
    assert_eq!(extract_receipt(&doc).err().unwrap(), ExtractError::NoSlogan);
}

#[test]
fn empty_item_table_gives_empty_tickets() {
    let mut doc = sample_doc();
    doc.tables[2].rows.clear();
    let info = extract_receipt(&doc).unwrap();
    assert!(info.item_lines.is_empty());
    assert_eq!(info.delivery_tickets, "");
    assert_eq!(info.weigh_tickets, "");
}

#[test]
fn error_messages_name_the_expectation() {
    assert_eq!(ExtractError::NoBody.message(), "No body tag found");
    assert_eq!(ExtractError::NoCustomerInfo.message(), "No customer info found");
    assert_eq!(ExtractError::MissingTable { number: 3 }.message(), "Table does not exist");
    assert_eq!(ExtractError::NoItemQuantity.message(), "No quantity in item line");
    assert_eq!(ExtractError::NoTotalsValue.message(), "Subtotal line present but no value");
    assert_eq!(ExtractError::NoSlogan.message(), "No td");
}

#[test]
fn whole_fragment_kept_verbatim() {
    let mail = "preamble <html><table><tr><td>x</td></tr></table></html>";
    let frag = find_html_fragment(mail).unwrap();
    assert_eq!(frag, "<html><table><tr><td>x</td></tr></table></html>");
}

#[test]
fn end_to_end_invoice_scenario() {
    let mut doc = sample_doc();
    // an ordinary tender, so the totals stand as extracted
    doc.tables[5] = table(vec![amount_row("Cash", "$630.00")]);
    let mut info = extract_receipt(&doc).unwrap();
    info.pre_pass().unwrap();
    let ops = receiptd::typeset::gen_pdf(&info).unwrap();
    let texts: Vec<&String> = ops
        .iter()
        .filter_map(|op| match op {
            receiptd::typeset::DrawOp::Text { text, .. } => Some(text),
            _ => None,
        })
        .collect();
    // code 2050 infers the each-counted unit, the whole quantity drops its
    // fraction, and the tax row renders under the VAT label
    assert!(texts.iter().any(|t| *t == "EA"));
    assert!(texts.iter().any(|t| *t == "      5   "));
    assert!(texts.iter().any(|t| *t == "VAT:"));
    assert!(!texts.iter().any(|t| *t == "Tax:"));
    assert!(texts.iter().any(|t| *t == "Customer Invoice"));
    assert!(texts.iter().any(|t| *t == "Invoice Number:"));
}
