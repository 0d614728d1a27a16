use vstd::prelude::*;

verus! {

/// Identifier of a product or a store.
pub type Id = i32;

/// A calendar day, counted in days from an epoch chosen by the caller.
pub type Day = i32;

/// Identifier of a store.
pub type StoreId = i64;

/// An amount of money in cents.
pub type Cents = u32;

/// Number of characters in an EAN-13 barcode.
pub const EAN13_LEN: usize = 13;

pub open spec fn is_decimal_digit(c: char) -> bool {
    '0' <= c && c <= '9'
}

/// A barcode made of exactly thirteen decimal digits.
pub open spec fn is_ean13(s: Seq<char>) -> bool {
    s.len() == EAN13_LEN && forall|i: int| 0 <= i < s.len() ==> is_decimal_digit(#[trigger] s[i])
}

/// The error for a string that is not a valid EAN-13 barcode: its length is
/// checked first.
pub open spec fn ean13_error(s: Seq<char>) -> EAN13Error {
    if s.len() != EAN13_LEN {
        EAN13Error::InvalidLength
    } else {
        EAN13Error::InvalidCharacter
    }
}

/// A structurally valid EAN-13 barcode (the check digit is not verified).
#[derive(Debug, Clone)]
pub struct EAN13Barcode {
    pub value: String,
}

#[derive(Debug, Clone, Copy, PartialEq, Eq, Structural)]
pub enum EAN13Error {
    InvalidLength,
    InvalidCharacter,
}

impl EAN13Barcode {
    pub open spec fn wf(&self) -> bool {
        is_ean13(self.value@)
    }

    /// Accepts `value` when it holds exactly thirteen characters, all decimal
    /// digits. A wrong length is reported before a wrong character.
    pub fn try_from(value: String) -> (r: Result<EAN13Barcode, EAN13Error>)
        ensures
            !is_ean13(value@) ==> r == Err::<EAN13Barcode, EAN13Error>(ean13_error(value@)),
            is_ean13(value@) ==> r is Ok && r->Ok_0.value@ == value@ && r->Ok_0.wf(),
    {
        let n = value.as_str().unicode_len();
        if n != EAN13_LEN {
            return Err(EAN13Error::InvalidLength);
        }
        let mut i: usize = 0;
        while i < n
            invariant
                n == value@.len(),
                n == EAN13_LEN,
                i <= n,
                forall|k: int| 0 <= k < i ==> is_decimal_digit(#[trigger] value@[k]),
            decreases n - i,
        {
            let c = value.as_str().get_char(i);
            if !('0' <= c && c <= '9') {
                return Err(EAN13Error::InvalidCharacter);
            }
            i = i + 1;
        }
        Ok(EAN13Barcode { value })
    }
}

} // verus!
