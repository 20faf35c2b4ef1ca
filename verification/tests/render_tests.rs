use receiptd::layout::{select_layout, DocLayout};
use receiptd::model::{Amount, DocType, ItemLine, ReceiptInfo};
use receiptd::normalize::NormalizeError;
use receiptd::typeset::{gen_pdf, DrawOp, Font, RenderError};

fn item(code: &str, desc: &str, qty: &str, price: &str, amount: &str) -> ItemLine {
    ItemLine {
        code: code.to_string(),
        description: desc.to_string(),
        quantity: qty.to_string(),
        unit_price: price.to_string(),
        amount: amount.to_string(),
        uom: String::new(),
        discount: None,
        taxable: false,
    }
}

fn amount(name: &str, value: &str) -> Amount {
    Amount { name: name.to_string(), value: value.to_string() }
}

/// A normalized invoice with one stone line item.
fn sample_info() -> ReceiptInfo {
    let mut info = ReceiptInfo::new();
    info.title = "Customer Invoice".to_string();
    info.date = "01/02/2024".to_string();
    info.company_name = "Quarry Co".to_string();
    info.company_info_line = "1 Rock Road".to_string();
    info.customer_info = "Jane Mason\n2 Brick Lane".to_string();
    info.doc_number = "1009".to_string();
    info.doc_type = DocType::Invoice;
    info.item_lines = vec![item("2050", "Crushed Stone", "5.00", "120.00", "600.00")];
    info.totals = vec![
        amount("Subtotal:", "600.00"),
        amount("Tax:", "30.00"),
        amount("Total:", "630.00"),
    ];
    info.employee = "Pat".to_string();
    info.slogan = "Rock solid service".to_string();
    info
}

fn texts(ops: &[DrawOp]) -> Vec<String> {
    ops.iter()
        .filter_map(|op| match op {
            DrawOp::Text { text, .. } => Some(text.clone()),
            _ => None,
        })
        .collect()
}

#[test]
fn normalizer_is_a_no_op_without_deposit() {
    let mut info = sample_info();
    info.payments = vec![amount("Cash", "630.00")];
    let before_totals: Vec<(String, String)> =
        info.totals.iter().map(|a| (a.name.clone(), a.value.clone())).collect();
    assert!(info.pre_pass().is_ok());
    assert_eq!(info.item_lines.len(), 1);
    assert_eq!(info.payments.len(), 1);
    assert_eq!(info.payments[0].name, "Cash");
    let after_totals: Vec<(String, String)> =
        info.totals.iter().map(|a| (a.name.clone(), a.value.clone())).collect();
    assert_eq!(before_totals, after_totals);
}

#[test]
fn normalizer_rewrites_deposit() {
    let mut info = sample_info();
    info.payments = vec![amount("Cash", "30.00"), amount("Pay on Account", "-600.00")];
    assert!(info.pre_pass().is_ok());
    // the deposit entry is gone, the other payment stays
    assert_eq!(info.payments.len(), 1);
    assert_eq!(info.payments[0].name, "Cash");
    // one synthetic line item describes the deposit in words
    assert_eq!(info.item_lines.len(), 2);
    let added = &info.item_lines[1];
    assert_eq!(
        added.description,
        "Received as cash deposit the sum of six hundred dollars for materials."
    );
    assert_eq!(added.amount, "600.00");
    assert_eq!(added.code, "");
    assert_eq!(added.quantity, "");
    assert_eq!(added.unit_price, "");
    assert!(added.discount.is_none());
    assert!(!added.taxable);
    // the totals collapse to a single grand total of the deposit
    assert_eq!(info.totals.len(), 1);
    assert_eq!(info.totals[0].name, "Total:");
    assert_eq!(info.totals[0].value, "600.00");
}

#[test]
fn normalizer_spells_cents_as_hundredths() {
    let mut info = sample_info();
    info.payments = vec![amount("Pay on Account", "123.45")];
    assert!(info.pre_pass().is_ok());
    assert_eq!(
        info.item_lines[1].description,
        "Received as cash deposit the sum of one hundred twenty-three and 45/100 dollars for materials."
    );
    assert_eq!(info.totals[0].value, "123.45");
}

#[test]
fn normalizer_fails_on_unreadable_deposit() {
    let mut info = sample_info();
    info.payments = vec![amount("Pay on Account", "sixty dollars")];
    assert_eq!(info.pre_pass(), Err(NormalizeError::DepositParse));
}

#[test]
fn layout_selection_is_determined() {
    let plain = vec![item("2050", "Stone", "5.00", "1.00", "5.00")];
    let mut discounted = plain.clone();
    discounted[0].discount = Some("1.00".to_string());
    assert_eq!(select_layout(DocType::Invoice, &plain), DocLayout::Standard);
    assert_eq!(select_layout(DocType::Quote, &plain), DocLayout::Standard);
    assert_eq!(select_layout(DocType::Invoice, &discounted), DocLayout::StandardWithDiscounts);
    assert_eq!(select_layout(DocType::Quote, &discounted), DocLayout::StandardWithDiscounts);
    assert_eq!(select_layout(DocType::Receipt, &plain), DocLayout::Receipt);
    assert_eq!(select_layout(DocType::Receipt, &discounted), DocLayout::Receipt);
}

#[test]
fn page_shows_inferred_unit_and_vat_label() {
    let info = sample_info();
    let ops = gen_pdf(&info).unwrap();
    let all = texts(&ops);
    // code 2050 is in the each-counted range
    assert!(all.iter().any(|t| t == "EA"), "unit of measure");
    // a whole each-counted quantity drops its fraction
    assert!(all.iter().any(|t| t == "      5   "), "quantity {all:?}");
    assert!(!all.iter().any(|t| t.contains("5.00")), "raw quantity must not appear");
    // the tax row is relabelled at render time
    assert!(all.iter().any(|t| t == "VAT:"));
    assert!(!all.iter().any(|t| t == "Tax:"));
    // currency fields carry the symbol and are right-justified in eleven
    assert!(all.iter().any(|t| t == "$     120.00"));
    assert!(all.iter().any(|t| t == "$     600.00"));
}

#[test]
fn explicit_unit_beats_inference() {
    let mut info = sample_info();
    info.item_lines[0].uom = "TON".to_string();
    let ops = gen_pdf(&info).unwrap();
    let all = texts(&ops);
    assert!(all.iter().any(|t| t == "TON"));
    assert!(!all.iter().any(|t| t == "EA"));
    // a TON quantity keeps its fraction, right-justified in ten
    assert!(all.iter().any(|t| t == "      5.00"));
}

#[test]
fn render_fails_on_non_numeric_code_without_unit() {
    let mut info = sample_info();
    info.item_lines[0].code = "STONE".to_string();
    assert!(matches!(gen_pdf(&info), Err(RenderError::CodeParse)));
    // with an explicit unit the same code renders fine
    info.item_lines[0].uom = "TON".to_string();
    assert!(gen_pdf(&info).is_ok());
}

#[test]
fn empty_currency_fields_render_as_nothing() {
    let mut info = sample_info();
    info.item_lines[0].unit_price = String::new();
    let ops = gen_pdf(&info).unwrap();
    let all = texts(&ops);
    assert!(!all.iter().any(|t| t == "$"), "no bare currency symbol");
    assert!(!all.iter().any(|t| t == "$           "));
}

#[test]
fn taxable_line_draws_marker() {
    let mut info = sample_info();
    info.item_lines[0].taxable = true;
    let ops = gen_pdf(&info).unwrap();
    let marker = ops.iter().any(|op| {
        matches!(op, DrawOp::Text { text, x, font: Font::Mono, .. } if text == "T" && *x > 1116)
    });
    assert!(marker);
}

#[test]
fn separator_total_row_gets_half_line_compensation() {
    let mut info = sample_info();
    info.totals = vec![
        amount("Subtotal:", "600.00"),
        amount("", ""),
        amount("Total:", "630.00"),
    ];
    let ops = gen_pdf(&info).unwrap();
    // rows step down a full line height (26): the subtotal row sits at 482;
    // the separator steps back up half a line and draws a rule at 469; the
    // total then lands at 443, not a full line height below the subtotal
    let subtotal_y = ops
        .iter()
        .find_map(|op| match op {
            DrawOp::Text { text, y, .. } if text == "Subtotal:" => Some(*y),
            _ => None,
        })
        .unwrap();
    assert_eq!(subtotal_y, 482);
    let rule = ops.iter().any(
        |op| matches!(op, DrawOp::LineSeg { y1: 469, y2: 469, x2: 1116, .. }),
    );
    assert!(rule, "separator rule at the compensated height");
    let total_y = ops
        .iter()
        .find_map(|op| match op {
            DrawOp::Text { text, y, .. } if text == "Total:" => Some(*y),
            _ => None,
        })
        .unwrap();
    assert_eq!(total_y, 443);
    // no text is drawn between the subtotal and total rows
    assert!(!ops.iter().any(|op| matches!(op, DrawOp::Text { y: 469, .. })));
}

#[test]
fn total_row_is_emphasized() {
    let info = sample_info();
    let ops = gen_pdf(&info).unwrap();
    let total_font = ops
        .iter()
        .find_map(|op| match op {
            DrawOp::Text { text, font, .. } if text == "Total:" => Some(*font),
            _ => None,
        })
        .unwrap();
    assert_eq!(total_font, Font::Bold);
    let subtotal_font = ops
        .iter()
        .find_map(|op| match op {
            DrawOp::Text { text, font, .. } if text == "Subtotal:" => Some(*font),
            _ => None,
        })
        .unwrap();
    assert_eq!(subtotal_font, Font::Regular);
}

#[test]
fn wrapped_description_shifts_following_rows() {
    let mut info = sample_info();
    info.item_lines = vec![
        item(
            "2050",
            "An uncommonly long description of crushed stone that must wrap",
            "5.00",
            "120.00",
            "600.00",
        ),
        item("2051", "Gravel", "2.00", "10.00", "20.00"),
    ];
    let ops = gen_pdf(&info).unwrap();
    let first_y = ops
        .iter()
        .find_map(|op| match op {
            DrawOp::Text { text, y, .. } if text.starts_with("An uncommonly") => Some(*y),
            _ => None,
        })
        .unwrap();
    let second_y = ops
        .iter()
        .find_map(|op| match op {
            DrawOp::Text { text, y, .. } if text == "Gravel" => Some(*y),
            _ => None,
        })
        .unwrap();
    // the second item sits more than one row below the first: each wrapped
    // continuation line consumes one extra row
    assert!(first_y - second_y > 30, "first {first_y} second {second_y}");
}

#[test]
fn receipt_layout_has_only_description_and_total() {
    let mut info = sample_info();
    info.doc_type = DocType::Receipt;
    info.item_lines[0].uom = "EA".to_string();
    let ops = gen_pdf(&info).unwrap();
    let all = texts(&ops);
    assert!(all.iter().any(|t| t == "Description"));
    assert!(all.iter().any(|t| t == "Total"));
    assert!(!all.iter().any(|t| t == "Code"));
    assert!(!all.iter().any(|t| t == "Quantity"));
    assert!(!all.iter().any(|t| t == "Unit Price"));
    // the header names the receipt number
    assert!(all.iter().any(|t| t == "Receipt Number:"));
}

#[test]
fn header_label_follows_document_type() {
    let info = sample_info();
    let ops = gen_pdf(&info).unwrap();
    assert!(texts(&ops).iter().any(|t| t == "Invoice Number:"));
    let mut quote = sample_info();
    quote.doc_type = DocType::Quote;
    let ops = gen_pdf(&quote).unwrap();
    assert!(texts(&ops).iter().any(|t| t == "Quote Number:"));
}

#[test]
fn customer_lines_step_down_from_sold_to() {
    let info = sample_info();
    let ops = gen_pdf(&info).unwrap();
    let first = ops
        .iter()
        .find_map(|op| match op {
            DrawOp::Text { text, y, .. } if text == "Jane Mason" => Some(*y),
            _ => None,
        })
        .unwrap();
    let second = ops
        .iter()
        .find_map(|op| match op {
            DrawOp::Text { text, y, .. } if text == "2 Brick Lane" => Some(*y),
            _ => None,
        })
        .unwrap();
    assert_eq!(first, 1210);
    assert_eq!(second, 1184);
}
