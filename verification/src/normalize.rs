//! Deposit normalization. When the payments of a freshly extracted document
//! contain an entry named "Pay on Account", that payment is a cash deposit:
//! the entry is removed, a line item is synthesized whose description spells
//! the deposit amount out in words, and the totals collapse to a single
//! "Total:" row equal to the deposit. A deposit receipt is self-contained:
//! its stated total is the deposit, not the sum of the underlying items.
//!
//! The deposit amount is read from the payment's decimal string as an
//! absolute number of cents (see `crate::num`); a value that is not a
//! decimal number, or whose whole dollars do not fit a 32-bit count, fails
//! the pass.

use vstd::prelude::*;
use vstd::string::*;
use crate::model::{Amount, ItemLine, ReceiptInfo};
use crate::num::{
    cents_string, decimal_cents, dec_digits, format_cents, is_decimal, parse_decimal_cents,
};
use crate::text::{chars_to_string, string_to_chars};

verus! {

/// The largest deposit this pass accepts: u32::MAX whole dollars and 99
/// cents, comfortably under the cap of the word-spelling routine.
pub const MAX_DEPOSIT_CENTS: u64 = 429496729599;

/// The reserved payment label that marks a cash deposit.
pub open spec fn pay_label() -> Seq<char> {
    "Pay on Account"@
}

/// Whether one payment entry is the deposit entry.
pub open spec fn is_pay_entry(a: Amount) -> bool {
    a.name@ == pay_label()
}

/// Index of the first deposit entry among the payments, or -1.
pub open spec fn first_pay(ps: Seq<Amount>) -> int
    decreases ps.len(),
{
    if ps.len() == 0 {
        -1
    } else if is_pay_entry(ps[0]) {
        0
    } else if first_pay(ps.drop_first()) < 0 {
        -1
    } else {
        1 + first_pay(ps.drop_first())
    }
}

pub proof fn lemma_first_pay(ps: Seq<Amount>)
    ensures
        -1 <= first_pay(ps) < ps.len(),
        first_pay(ps) >= 0 ==> is_pay_entry(ps[first_pay(ps)]),
        forall|j: int| 0 <= j < first_pay(ps) ==> !is_pay_entry(ps[j]),
        first_pay(ps) < 0 ==> forall|j: int| 0 <= j < ps.len() ==> !is_pay_entry(ps[j]),
    decreases ps.len(),
{
    if ps.len() > 0 && !is_pay_entry(ps[0]) {
        lemma_first_pay(ps.drop_first());
        assert(forall|j: int| 1 <= j < ps.len() ==> ps[j] == ps.drop_first()[j - 1]);
    }
}

proof fn lemma_first_pay_at(ps: Seq<Amount>, j: int)
    requires
        -1 <= j < ps.len(),
        j >= 0 ==> is_pay_entry(ps[j]),
        forall|k: int| 0 <= k < j ==> !is_pay_entry(ps[k]),
        j < 0 ==> forall|k: int| 0 <= k < ps.len() ==> !is_pay_entry(ps[k]),
    ensures
        first_pay(ps) == j,
{
    lemma_first_pay(ps);
    let d = first_pay(ps);
    if j >= 0 {
        if d < 0 || d > j {
            assert(!is_pay_entry(ps[j]));
            assert(false);
        }
        if 0 <= d < j {
            assert(!is_pay_entry(ps[d]));
            assert(false);
        }
    } else {
        if d >= 0 {
            assert(!is_pay_entry(ps[d]));
            assert(false);
        }
    }
}

/// The words for a whole number of dollars, lower case, as the word-spelling
/// routine of the `number_to_words` crate writes them.
pub uninterp spec fn int_words(n: u32) -> Seq<char>;

/// Relies on number_to_words::number_to_words: the words depend on the
/// number alone; for a whole number no cents suffix is produced.
#[verifier::external_body]
fn dollars_in_words(dollars: u32) -> (r: String)
    ensures
        r@ == int_words(dollars),
{
    number_to_words::number_to_words(dollars, false)
}

/// The deposit amount in words: whole dollars spelled out, any cents
/// appended as a hundredths fraction.
pub open spec fn deposit_words(cents: nat) -> Seq<char> {
    if cents % 100 == 0 {
        int_words((cents / 100) as u32)
    } else {
        int_words((cents / 100) as u32) + " and "@ + dec_digits(cents % 100) + "/100"@
    }
}

/// The description of the synthesized deposit line item.
pub open spec fn deposit_desc(cents: nat) -> Seq<char> {
    "Received as cash deposit the sum of "@ + deposit_words(cents)
        + " dollars for materials."@
}

/// What failed the normalization pass.
#[derive(Debug, Clone, Copy, PartialEq, Eq, Structural)]
pub enum NormalizeError {
    /// The deposit payment's value is not a decimal number this pass can
    /// read (or its dollars overflow a 32-bit count).
    DepositParse,
}

impl ReceiptInfo {
    /// The deposit normalization pass. With no "Pay on Account" payment the
    /// document is left exactly as it was. Otherwise the first such payment
    /// is removed; if its value reads as a decimal amount, one line item is
    /// appended describing the deposit in words, and the totals are replaced
    /// by a single "Total:" row of the deposit amount; if it does not, the
    /// pass fails with the payment already removed, and the document is
    /// abandoned by the caller.
    pub fn pre_pass(&mut self) -> (r: Result<(), NormalizeError>)
        ensures
            first_pay(old(self).payments@) < 0 ==> r is Ok && *final(self) == *old(self),
            first_pay(old(self).payments@) >= 0 ==> {
                let idx = first_pay(old(self).payments@);
                let value = old(self).payments@[idx].value@;
                let cents = decimal_cents(value);
                &&& final(self).payments@ == old(self).payments@.remove(idx)
                &&& (r is Ok <==> is_decimal(value) && cents <= MAX_DEPOSIT_CENTS)
                &&& final(self).title == old(self).title
                &&& final(self).date == old(self).date
                &&& final(self).company_name == old(self).company_name
                &&& final(self).company_info_line == old(self).company_info_line
                &&& final(self).customer_info == old(self).customer_info
                &&& final(self).transaction_number == old(self).transaction_number
                &&& final(self).order_id == old(self).order_id
                &&& final(self).vat_number == old(self).vat_number
                &&& final(self).doc_number == old(self).doc_number
                &&& final(self).doc_type == old(self).doc_type
                &&& final(self).delivery_tickets == old(self).delivery_tickets
                &&& final(self).weigh_tickets == old(self).weigh_tickets
                &&& final(self).amount_due == old(self).amount_due
                &&& final(self).employee == old(self).employee
                &&& final(self).slogan == old(self).slogan
                &&& (r is Err ==> final(self).item_lines == old(self).item_lines
                    && final(self).totals == old(self).totals)
                &&& (r is Ok ==> {
                    let added = final(self).item_lines@.last();
                    &&& final(self).item_lines@.len() == old(self).item_lines@.len() + 1
                    &&& final(self).item_lines@.take(old(self).item_lines@.len() as int) == old(
                        self,
                    ).item_lines@
                    &&& added.code@ == Seq::<char>::empty()
                    &&& added.description@ == deposit_desc(cents)
                    &&& added.quantity@ == Seq::<char>::empty()
                    &&& added.unit_price@ == Seq::<char>::empty()
                    &&& added.uom@ == Seq::<char>::empty()
                    &&& added.discount is None
                    &&& added.taxable == false
                    &&& added.amount@ == cents_string(cents)
                    &&& final(self).totals@.len() == 1
                    &&& final(self).totals@[0].name@ == "Total:"@
                    &&& final(self).totals@[0].value@ == cents_string(cents)
                })
            },
    {
        let label: String = String::from_str("Pay on Account");
        let ghost ps = self.payments@;
        let mut index: usize = 0;
        let mut present = false;
        while index < self.payments.len() && !present
            invariant
                index <= ps.len(),
                ps == self.payments@,
                self == old(self),
                !present ==> forall|k: int| 0 <= k < index ==> !is_pay_entry(ps[k]),
                present ==> index < ps.len() && is_pay_entry(ps[index as int]) && forall|k: int|
                    0 <= k < index ==> !is_pay_entry(ps[k]),
                label@ == pay_label(),
            decreases ps.len() - index + (if present { 0int } else { 1int }),
        {
            if self.payments[index].name.eq(&label) {
                present = true;
            } else {
                index = index + 1;
            }
        }
        if !present {
            proof {
                lemma_first_pay_at(ps, -1);
            }
            return Ok(());
        }
        proof {
            lemma_first_pay_at(ps, index as int);
        }
        let tender = self.payments.remove(index);
        let value_chars = string_to_chars(tender.value.as_str());
        let cents = match parse_decimal_cents(&value_chars) {
            Some(c) => c,
            None => {
                return Err(NormalizeError::DepositParse);
            },
        };
        if cents > MAX_DEPOSIT_CENTS {
            return Err(NormalizeError::DepositParse);
        }
        let dollars: u32 = (cents / 100) as u32;
        let words = dollars_in_words(dollars);
        let mut description = String::from_str("Received as cash deposit the sum of ");
        description.append(words.as_str());
        let cents_rem: u64 = cents % 100;
        if cents_rem != 0 {
            description.append(" and ");
            let frac = crate::num::u64_digits(cents_rem);
            let frac_str = chars_to_string(&frac);
            description.append(frac_str.as_str());
            description.append("/100");
        }
        description.append(" dollars for materials.");
        proof {
            assert(description@ =~= deposit_desc(decimal_cents(tender.value@)));
        }
        let amount_chars = format_cents(cents);
        let amount_str = chars_to_string(&amount_chars);
        let total_str = chars_to_string(&format_cents(cents));
        let ghost items_before = self.item_lines@;
        self.item_lines.push(
            ItemLine {
                code: String::new(),
                description,
                quantity: String::new(),
                unit_price: String::new(),
                discount: None,
                uom: String::new(),
                amount: amount_str,
                taxable: false,
            },
        );
        proof {
            assert(self.item_lines@.take(items_before.len() as int) =~= items_before);
        }
        self.totals = Vec::new();
        self.totals.push(Amount { name: String::from_str("Total:"), value: total_str });
        Ok(())
    }
}

} // verus!
