//! Dispatch core of a rich-text document engine: an edit request is handed to
//! an ordered chain of named rules, the first rule that accepts decides the
//! resulting delta, and that delta is normalized before it is returned.

pub mod attribute;
pub mod delta;
pub mod dispatch;
pub mod errors;
pub mod extensions;
pub mod interval;
pub mod view;

pub use crate::attribute::Attribute;
pub use crate::delta::{trim, Delta, Operation};
pub use crate::errors::{OTError, OTErrorCode};
pub use crate::extensions::{
    default_delete, default_insert, DeleteExt, DeleteRule, FormatExt, FormatRule, InsertExt,
    InsertRule,
};
pub use crate::interval::Interval;
pub use crate::view::{
    construct_delete_exts, construct_format_exts, construct_insert_exts, View,
};
