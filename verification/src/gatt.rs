//! The GATT discovery cache of a connected peripheral, by UUID: lookups of
//! discovered characteristics without further round trips. The platform's
//! characteristic handles stay with the caller, in the same order.

use vstd::prelude::*;

use crate::error::{BtleplusError, WinbleError};
use crate::render::push_text;
use crate::uuid::{uuid_text, Uuid};

verus! {

/// Services and characteristics discovered on a connected device.
pub struct GattDatabase {
    num_services: usize,
    characteristics: Vec<Uuid>,
}

/// Whether characteristic `i` is the first with this UUID.
pub open spec fn first_with_uuid(chars: Seq<Uuid>, uuid: Uuid, i: int) -> bool {
    &&& 0 <= i < chars.len()
    &&& chars[i] == uuid
    &&& forall|j: int| 0 <= j < i ==> chars[j] != uuid
}

/// The message of a failed characteristic lookup.
pub open spec fn not_found_message(uuid: Uuid) -> Seq<char> {
    "Characteristic "@ + uuid_text(uuid.value) + " not found"@
}

impl GattDatabase {
    /// Number of discovered services.
    pub closed spec fn spec_num_services(&self) -> nat {
        self.num_services as nat
    }

    /// UUIDs of the discovered characteristics, in discovery order.
    pub closed spec fn spec_characteristics(&self) -> Seq<Uuid> {
        self.characteristics@
    }

    /// The cache of a discovery that found `num_services` services and
    /// these characteristics, in order.
    pub fn new(num_services: usize, characteristics: Vec<Uuid>) -> (r: GattDatabase)
        ensures
            r.spec_num_services() == num_services,
            r.spec_characteristics() == characteristics@,
    {
        GattDatabase { num_services, characteristics }
    }

    /// Number of discovered services.
    pub fn num_services(&self) -> (r: usize)
        ensures
            r == self.spec_num_services(),
    {
        self.num_services
    }

    /// Number of discovered characteristics.
    pub fn num_characteristics(&self) -> (r: usize)
        ensures
            r == self.spec_characteristics().len(),
    {
        self.characteristics.len()
    }

    /// The UUIDs of all discovered characteristics, in discovery order.
    pub fn discovered_characteristics(&self) -> (r: &[Uuid])
        ensures
            r@ == self.spec_characteristics(),
    {
        self.characteristics.as_slice()
    }

    /// The hyphenated texts of all discovered characteristic UUIDs.
    pub fn characteristic_texts(&self) -> (r: Vec<String>)
        ensures
            r@.len() == self.spec_characteristics().len(),
            forall|i: int| 0 <= i < r@.len() ==> #[trigger] r@[i]@ == uuid_text(self.spec_characteristics()[i].value),
    {
        let mut out: Vec<String> = Vec::new();
        let mut i: usize = 0;
        while i < self.characteristics.len()
            invariant
                i <= self.characteristics@.len(),
                out@.len() == i,
                forall|j: int| 0 <= j < i ==> #[trigger] out@[j]@ == uuid_text(self.characteristics@[j].value),
            decreases self.characteristics@.len() - i,
        {
            out.push(self.characteristics[i].to_text());
            i += 1;
        }
        out
    }

    /// The position of the first characteristic with this UUID, if any.
    pub fn position(&self, uuid: Uuid) -> (r: Option<usize>)
        ensures
            match r {
                Some(i) => first_with_uuid(self.spec_characteristics(), uuid, i as int),
                None => !self.spec_characteristics().contains(uuid),
            },
    {
        let mut i: usize = 0;
        while i < self.characteristics.len()
            invariant
                i <= self.characteristics@.len(),
                forall|j: int| 0 <= j < i ==> self.characteristics@[j] != uuid,
            decreases self.characteristics@.len() - i,
        {
            if self.characteristics[i].value == uuid.value {
                return Some(i);
            }
            i += 1;
        }
        None
    }

    /// Find a discovered characteristic by UUID: the position of the first
    /// one with it, or an invalid-operation error naming the UUID.
    pub fn find_characteristic(&self, uuid: Uuid) -> (r: Result<usize, BtleplusError>)
        ensures
            r is Ok <==> self.spec_characteristics().contains(uuid),
            match r {
                Ok(i) => first_with_uuid(self.spec_characteristics(), uuid, i as int),
                Err(e) => e matches BtleplusError::InvalidOperation(m) && m@ == not_found_message(uuid),
            },
    {
        match self.position(uuid) {
            Some(i) => Ok(i),
            None => Err(BtleplusError::InvalidOperation(not_found_text(uuid))),
        }
    }

    /// Find a discovered characteristic by UUID, for the single-session
    /// layer: the position of the first one with it, or an
    /// invalid-operation error naming the UUID.
    pub fn find_char(&self, uuid: Uuid) -> (r: Result<usize, WinbleError>)
        ensures
            r is Ok <==> self.spec_characteristics().contains(uuid),
            match r {
                Ok(i) => first_with_uuid(self.spec_characteristics(), uuid, i as int),
                Err(e) => e matches WinbleError::InvalidOperation(m) && m@ == not_found_message(uuid),
            },
    {
        match self.position(uuid) {
            Some(i) => Ok(i),
            None => Err(WinbleError::InvalidOperation(not_found_text(uuid))),
        }
    }
}

/// The message of a failed characteristic lookup.
fn not_found_text(uuid: Uuid) -> (r: String)
    ensures
        r@ == not_found_message(uuid),
{
    let mut out = String::new();
    push_text(&mut out, "Characteristic ");
    uuid.push_text(&mut out);
    push_text(&mut out, " not found");
    assert(out@ =~= not_found_message(uuid));
    out
}

} // verus!
