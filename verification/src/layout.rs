//! Layout selection. A document renders in one of three fixed column
//! geometries, chosen once from the document type and the presence of
//! per-line discounts. Each variant fixes the maximum description width
//! before wrapping, the vertical column boundaries of the line-item table,
//! and which columns exist and at which boundary each sits.
//!
//! All horizontal offsets are in half printer's points (two units per point),
//! the coordinate unit of the draw operations.

use vstd::prelude::*;
use crate::model::{DocType, ItemLine};

verus! {

/// One of the three fixed page layouts.
#[derive(Debug, Clone, Copy, PartialEq, Eq, Structural)]
pub enum DocLayout {
    Standard,
    StandardWithDiscounts,
    Receipt,
}

/// Whether any line item carries a discount.
pub open spec fn has_discount(items: Seq<ItemLine>) -> bool {
    exists|i: int| 0 <= i < items.len() && (#[trigger] items[i]).discount is Some
}

/// Chooses the layout: `Standard` for invoices and quotes without per-line
/// discounts, `StandardWithDiscounts` for invoices and quotes with at least
/// one, and `Receipt` for receipts whatever the discounts.
pub fn select_layout(doc_type: DocType, item_lines: &Vec<ItemLine>) -> (r: DocLayout)
    ensures
        r == DocLayout::Standard <==> ((doc_type == DocType::Invoice || doc_type
            == DocType::Quote) && !has_discount(item_lines@)),
        r == DocLayout::StandardWithDiscounts <==> ((doc_type == DocType::Invoice || doc_type
            == DocType::Quote) && has_discount(item_lines@)),
        r == DocLayout::Receipt <==> doc_type == DocType::Receipt,
{
    match doc_type {
        DocType::Invoice | DocType::Quote => {
            let mut found = false;
            let mut i: usize = 0;
            while i < item_lines.len()
                invariant
                    i <= item_lines@.len(),
                    found == exists|j: int|
                        0 <= j < i && (#[trigger] item_lines@[j]).discount is Some,
                decreases item_lines@.len() - i,
            {
                if item_lines[i].discount.is_some() {
                    found = true;
                }
                i = i + 1;
            }
            if found {
                DocLayout::StandardWithDiscounts
            } else {
                DocLayout::Standard
            }
        },
        DocType::Receipt => DocLayout::Receipt,
    }
}

/// The widest description, in characters, that fits one table row of this
/// layout.
pub open spec fn max_desc_spec(l: DocLayout) -> nat {
    match l {
        DocLayout::Standard => 30,
        DocLayout::StandardWithDiscounts => 25,
        DocLayout::Receipt => 90,
    }
}

/// The column boundaries of the line-item table, left to right, in half
/// points. The first boundary is the page's left margin.
pub open spec fn vlines_spec(l: DocLayout) -> Seq<int> {
    match l {
        DocLayout::Standard => seq![108, 190, 604, 678, 816, 976],
        DocLayout::StandardWithDiscounts => seq![108, 190, 500, 580, 702, 838, 970],
        DocLayout::Receipt => seq![108, 966],
    }
}

/// Which boundary each column starts at, when the layout has that column.
pub open spec fn code_col(l: DocLayout) -> Option<usize> {
    match l {
        DocLayout::Receipt => None,
        _ => Some(0usize),
    }
}

pub open spec fn desc_col(l: DocLayout) -> Option<usize> {
    match l {
        DocLayout::Receipt => Some(0usize),
        _ => Some(1usize),
    }
}

pub open spec fn uom_col(l: DocLayout) -> Option<usize> {
    match l {
        DocLayout::Receipt => None,
        _ => Some(2usize),
    }
}

pub open spec fn qty_col(l: DocLayout) -> Option<usize> {
    match l {
        DocLayout::Receipt => None,
        _ => Some(3usize),
    }
}

pub open spec fn price_col(l: DocLayout) -> Option<usize> {
    match l {
        DocLayout::Receipt => None,
        _ => Some(4usize),
    }
}

pub open spec fn disc_col(l: DocLayout) -> Option<usize> {
    match l {
        DocLayout::StandardWithDiscounts => Some(5usize),
        _ => None,
    }
}

pub open spec fn total_col(l: DocLayout) -> Option<usize> {
    match l {
        DocLayout::Standard => Some(5usize),
        DocLayout::StandardWithDiscounts => Some(6usize),
        DocLayout::Receipt => Some(1usize),
    }
}

impl DocLayout {
    pub fn max_desc_length(&self) -> (r: usize)
        ensures
            r == max_desc_spec(*self),
            r >= 1,
    {
        match self {
            DocLayout::Standard => 30,
            DocLayout::StandardWithDiscounts => 25,
            DocLayout::Receipt => 90,
        }
    }

    /// The column boundaries in half points.
    pub fn vlines(&self) -> (r: Vec<i64>)
        ensures
            r@.map_values(|x: i64| x as int) =~= vlines_spec(*self),
            r@.len() >= 2,
            forall|k: int| 0 <= k < r@.len() ==> 0 <= #[trigger] r@[k] <= 2000,
    {
        let mut v: Vec<i64> = Vec::new();
        match self {
            DocLayout::Standard => {
                v.push(108);
                v.push(190);
                v.push(604);
                v.push(678);
                v.push(816);
                v.push(976);
            },
            DocLayout::StandardWithDiscounts => {
                v.push(108);
                v.push(190);
                v.push(500);
                v.push(580);
                v.push(702);
                v.push(838);
                v.push(970);
            },
            DocLayout::Receipt => {
                v.push(108);
                v.push(966);
            },
        }
        v
    }

    pub fn code_index(&self) -> (r: Option<usize>)
        ensures
            r == code_col(*self),
            r is Some ==> r->0 < vlines_spec(*self).len(),
    {
        match self {
            DocLayout::Receipt => None,
            _ => Some(0),
        }
    }

    pub fn desc_index(&self) -> (r: Option<usize>)
        ensures
            r == desc_col(*self),
            r is Some ==> r->0 < vlines_spec(*self).len(),
    {
        match self {
            DocLayout::Receipt => Some(0),
            _ => Some(1),
        }
    }

    pub fn uom_index(&self) -> (r: Option<usize>)
        ensures
            r == uom_col(*self),
            r is Some ==> r->0 < vlines_spec(*self).len(),
    {
        match self {
            DocLayout::Receipt => None,
            _ => Some(2),
        }
    }

    pub fn quantity_index(&self) -> (r: Option<usize>)
        ensures
            r == qty_col(*self),
            r is Some ==> r->0 < vlines_spec(*self).len(),
    {
        match self {
            DocLayout::Receipt => None,
            _ => Some(3),
        }
    }

    pub fn price_index(&self) -> (r: Option<usize>)
        ensures
            r == price_col(*self),
            r is Some ==> r->0 < vlines_spec(*self).len(),
    {
        match self {
            DocLayout::Receipt => None,
            _ => Some(4),
        }
    }

    pub fn discount_index(&self) -> (r: Option<usize>)
        ensures
            r == disc_col(*self),
            r is Some ==> r->0 < vlines_spec(*self).len(),
    {
        match self {
            DocLayout::StandardWithDiscounts => Some(5),
            _ => None,
        }
    }

    pub fn total_index(&self) -> (r: Option<usize>)
        ensures
            r == total_col(*self),
            r is Some ==> r->0 < vlines_spec(*self).len(),
    {
        match self {
            DocLayout::Standard => Some(5),
            DocLayout::StandardWithDiscounts => Some(6),
            DocLayout::Receipt => Some(1),
        }
    }
}

} // verus!
