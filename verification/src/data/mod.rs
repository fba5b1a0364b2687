//! The textual forms of layouts: the expression language and the parts catalog.

pub mod layout_expr;
pub mod parts;
