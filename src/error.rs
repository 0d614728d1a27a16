use vstd::prelude::*;

use crate::types::EAN13Error;

verus! {

/// Errors of the price book.
#[derive(Debug, Clone, Copy, PartialEq, Eq, Structural)]
pub enum ApiError {
    /// The barcode is not a structurally valid EAN-13 barcode.
    InvalidBarcode(EAN13Error),
    /// A referenced product or store does not exist.
    NotFound,
    /// The storage cannot take another record (its identifiers are exhausted).
    StorageUnavailable,
}

} // verus!
