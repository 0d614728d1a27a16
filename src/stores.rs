use vstd::prelude::*;

use crate::types::StoreId;

verus! {

/// A store as submitted: a name, a postal address and a location in
/// millionths of a degree.
#[derive(Debug, Clone)]
pub struct Store {
    pub name: String,
    pub street_number: i32,
    pub street_name: String,
    pub city: String,
    pub country_code: String,
    pub latitude_micro: i32,
    pub longitude_micro: i32,
}

/// A stored store: its identifier, name and postal address.
#[derive(Debug, Clone)]
pub struct StoreRecord {
    pub id: StoreId,
    pub name: String,
    pub street_number: i32,
    pub street_name: String,
    pub city: String,
    pub country_code: String,
}

/// The identifier under which a submitted store is known.
#[derive(Debug, Clone, Copy, PartialEq, Eq, Structural)]
pub struct StoreResponse {
    pub id: StoreId,
}

/// The four parts of a postal address, which together identify a store.
pub struct AddressView {
    pub street_number: i32,
    pub street_name: Seq<char>,
    pub city: Seq<char>,
    pub country_code: Seq<char>,
}

pub struct StoreView {
    pub id: StoreId,
    pub name: Seq<char>,
    pub address: AddressView,
    pub latitude_micro: i32,
    pub longitude_micro: i32,
}

impl StoreRecord {
    /// This record shows the stored store `s`.
    pub open spec fn is_record_of(&self, s: StoreView) -> bool {
        &&& self.id == s.id
        &&& self.name@ == s.name
        &&& self.street_number == s.address.street_number
        &&& self.street_name@ == s.address.street_name
        &&& self.city@ == s.address.city
        &&& self.country_code@ == s.address.country_code
    }
}

impl Store {
    pub open spec fn address(&self) -> AddressView {
        AddressView {
            street_number: self.street_number,
            street_name: self.street_name@,
            city: self.city@,
            country_code: self.country_code@,
        }
    }
}

/// A stored store with its location.
#[derive(Debug, Clone)]
pub struct StoreEntry {
    pub record: StoreRecord,
    pub latitude_micro: i32,
    pub longitude_micro: i32,
}

impl View for StoreEntry {
    type V = StoreView;

    open spec fn view(&self) -> StoreView {
        StoreView {
            id: self.record.id,
            name: self.record.name@,
            address: AddressView {
                street_number: self.record.street_number,
                street_name: self.record.street_name@,
                city: self.record.city@,
                country_code: self.record.country_code@,
            },
            latitude_micro: self.latitude_micro,
            longitude_micro: self.longitude_micro,
        }
    }
}

pub(crate) fn same_address(a: &StoreRecord, s: &Store) -> (r: bool)
    ensures
        r == (AddressView {
            street_number: a.street_number,
            street_name: a.street_name@,
            city: a.city@,
            country_code: a.country_code@,
        } == s.address()),
{
    a.street_number == s.street_number && a.street_name == s.street_name && a.city == s.city
        && a.country_code == s.country_code
}

impl Store {
    pub open spec fn as_view(&self) -> StoreView {
        StoreView {
            id: 0,
            name: self.name@,
            address: self.address(),
            latitude_micro: self.latitude_micro,
            longitude_micro: self.longitude_micro,
        }
    }
}

} // verus!
