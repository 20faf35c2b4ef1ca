//! Core of a business-document renderer: extracts a typed invoice/receipt/quote
//! model from a positionally structured HTML fragment, applies a deposit
//! normalization rule, selects a fixed page layout, and typesets the model as
//! absolute-positioned draw operations for a page-description backend.
//!
//! File and directory watching, HTTP delivery, font loading and the PDF byte
//! serialization live outside this library; it works on plain values only.

pub mod cleanup;
pub mod extract;
pub mod html;
pub mod layout;
pub mod model;
pub mod normalize;
pub mod num;
pub mod text;
pub mod typeset;
pub mod wrap;

