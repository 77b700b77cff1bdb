//! The customer-facing data model: delivery customers, their addresses
//! and appliances, status and operation labels, and the request shapes
//! that search and update carry.

use vstd::prelude::*;
use vstd::string::StringSliceAdditionalSpecFns;
use vstd::string::StrSliceExecFns;

verus! {

/// Represents the [`Address`] of a [`DeliveryCustomer`].
#[derive(Debug)]
pub struct Address {
    pub county: String,
    pub street: String,
    pub number: String,
    pub additional: String,
}

impl Address {
    /// Creates a new [`Address`].
    pub fn new(county: String, street: String, number: String, additional: String) -> (r:
        Address)
        ensures
            r.county@ == county@,
            r.street@ == street@,
            r.number@ == number@,
            r.additional@ == additional@,
    {
        Address { county, street, number, additional }
    }
}

/// The operation performed on a customer's appliance.
#[derive(Clone, Copy, Debug, PartialEq, Eq, Structural)]
pub enum OperationPerformed {
    VTP,
    INT,
    PIF,
    RGAZ,
    VGAZ,
}

/// The label of each operation, as it travels in requests and documents.
pub open spec fn operation_label(op: OperationPerformed) -> Seq<char> {
    match op {
        OperationPerformed::VTP => "VTP"@,
        OperationPerformed::INT => "INT"@,
        OperationPerformed::PIF => "PIF"@,
        OperationPerformed::RGAZ => "RGAZ"@,
        OperationPerformed::VGAZ => "VGAZ"@,
    }
}

impl OperationPerformed {
    /// The operation's label.
    pub fn label(&self) -> (r: &'static str)
        ensures
            r@ == operation_label(*self),
    {
        match *self {
            OperationPerformed::VTP => "VTP",
            OperationPerformed::INT => "INT",
            OperationPerformed::PIF => "PIF",
            OperationPerformed::RGAZ => "RGAZ",
            OperationPerformed::VGAZ => "VGAZ",
        }
    }

    /// Parse a label into the operation it names; exactly the five
    /// labels are accepted, case-sensitively.
    pub fn parse(s: &str) -> (r: Option<OperationPerformed>)
        ensures
            match r {
                Some(op) => s@ == operation_label(op),
                None => forall|op: OperationPerformed| s@ != #[trigger] operation_label(op),
            },
    {
        let which: u8 = if streq(s, "VTP") {
            0
        } else if streq(s, "INT") {
            1
        } else if streq(s, "PIF") {
            2
        } else if streq(s, "RGAZ") {
            3
        } else if streq(s, "VGAZ") {
            4
        } else {
            5
        };
        match which {
            0 => Some(OperationPerformed::VTP),
            1 => Some(OperationPerformed::INT),
            2 => Some(OperationPerformed::PIF),
            3 => Some(OperationPerformed::RGAZ),
            4 => Some(OperationPerformed::VGAZ),
            _ => {
                proof {
                    assert(forall|op: OperationPerformed| s@ != #[trigger] operation_label(op))
                        by {
                        assert(s@ != operation_label(OperationPerformed::VTP));
                        assert(s@ != operation_label(OperationPerformed::INT));
                        assert(s@ != operation_label(OperationPerformed::PIF));
                        assert(s@ != operation_label(OperationPerformed::RGAZ));
                        assert(s@ != operation_label(OperationPerformed::VGAZ));
                    }
                }
                None
            },
        }
    }
}

/// Whether two strings hold the same characters.
fn streq(a: &str, b: &str) -> (r: bool)
    ensures
        r == (a@ == b@),
{
    let av = a.as_bytes_vec();
    let bv = b.as_bytes_vec();
    let n = av.len();
    if n != bv.len() {
        return false;
    }
    let mut i: usize = 0;
    while i < n
        invariant
            i <= n,
            n == av@.len() == bv@.len(),
            av@ == a.spec_bytes(),
            bv@ == b.spec_bytes(),
            forall|j: int| 0 <= j < i ==> av@[j] == bv@[j],
        decreases n - i,
    {
        if av[i] != bv[i] {
            return false;
        }
        i = i + 1;
    }
    proof {
        assert(a.spec_bytes() =~= b.spec_bytes());
        vstd::utf8::encode_utf8_decode_utf8(a@);
        vstd::utf8::encode_utf8_decode_utf8(b@);
    }
    true
}

/// Whether a customer is currently serviced or retained only as history.
#[derive(Clone, Copy, Debug, PartialEq, Eq, Structural)]
pub enum CustomerStatus {
    Active,
    Inactive,
}

/// The lowercase label of each status.
pub open spec fn status_label(st: CustomerStatus) -> Seq<char> {
    match st {
        CustomerStatus::Active => "active"@,
        CustomerStatus::Inactive => "inactive"@,
    }
}

/// The ASCII-lowercase image of a byte.
pub open spec fn lower_byte(b: u8) -> u8 {
    if 65 <= b && b <= 90 {
        (b + 32) as u8
    } else {
        b
    }
}

/// Whether two byte strings agree up to ASCII case.
pub open spec fn eq_ignore_ascii_case(a: Seq<u8>, b: Seq<u8>) -> bool {
    a.len() == b.len() && forall|i: int|
        0 <= i < a.len() ==> lower_byte(a[i]) == #[trigger] lower_byte(b[i])
}

impl CustomerStatus {
    /// The status's label.
    pub fn label(&self) -> (r: &'static str)
        ensures
            r@ == status_label(*self),
    {
        match *self {
            CustomerStatus::Active => "active",
            CustomerStatus::Inactive => "inactive",
        }
    }

    /// Parse a label into the status it names; the two labels are
    /// accepted in any ASCII case.
    pub fn parse(s: &str) -> (r: Option<CustomerStatus>)
        ensures
            match r {
                Some(st) => eq_ignore_ascii_case(
                    s.spec_bytes(),
                    vstd::utf8::encode_utf8(status_label(st)),
                ),
                None => forall|st: CustomerStatus|
                    !eq_ignore_ascii_case(
                        s.spec_bytes(),
                        vstd::utf8::encode_utf8(#[trigger] status_label(st)),
                    ),
            },
    {
        if streq_ignore_case(s, "active") {
            Some(CustomerStatus::Active)
        } else if streq_ignore_case(s, "inactive") {
            Some(CustomerStatus::Inactive)
        } else {
            proof {
                assert(forall|st: CustomerStatus|
                    !eq_ignore_ascii_case(
                        s.spec_bytes(),
                        vstd::utf8::encode_utf8(#[trigger] status_label(st)),
                    )) by {
                    assert(!eq_ignore_ascii_case(
                        s.spec_bytes(),
                        vstd::utf8::encode_utf8(status_label(CustomerStatus::Active)),
                    ));
                    assert(!eq_ignore_ascii_case(
                        s.spec_bytes(),
                        vstd::utf8::encode_utf8(status_label(CustomerStatus::Inactive)),
                    ));
                }
            }
            None
        }
    }
}

/// Whether two strings agree up to ASCII case of their bytes.
fn streq_ignore_case(a: &str, b: &str) -> (r: bool)
    ensures
        r == eq_ignore_ascii_case(a.spec_bytes(), b.spec_bytes()),
{
    let av = a.as_bytes_vec();
    let bv = b.as_bytes_vec();
    let n = av.len();
    if n != bv.len() {
        return false;
    }
    let mut i: usize = 0;
    while i < n
        invariant
            i <= n,
            n == av@.len() == bv@.len(),
            av@ == a.spec_bytes(),
            bv@ == b.spec_bytes(),
            forall|j: int| 0 <= j < i ==> lower_byte(av@[j]) == #[trigger] lower_byte(bv@[j]),
        decreases n - i,
    {
        let x = av[i];
        let y = bv[i];
        let xl = if 65 <= x && x <= 90 {
            x + 32
        } else {
            x
        };
        let yl = if 65 <= y && y <= 90 {
            y + 32
        } else {
            y
        };
        if xl != yl {
            proof {
                assert(lower_byte(av@[i as int]) != lower_byte(bv@[i as int]));
            }
            return false;
        }
        i = i + 1;
    }
    proof {
        assert(eq_ignore_ascii_case(a.spec_bytes(), b.spec_bytes()));
    }
    true
}

/// Represents some kind of appliance serviced for a customer. The dates
/// travel as the date strings of the request; only the operation label is
/// interpreted here.
#[derive(Debug)]
pub struct Appliance {
    pub manufacturer: String,
    pub year_of_manufacture: String,
    pub model: String,
    pub typ: String,
    pub warranty: String,
    pub operation_performed: OperationPerformed,
    pub number: String,
    pub date: String,
    pub expiration_date: String,
    pub observations: Option<String>,
}

/// Represents a customer whose appliances get serviced.
#[derive(Debug)]
pub struct DeliveryCustomer {
    pub customer_id: String,
    pub name: String,
    pub active: bool,
    pub address: Address,
    pub appliance: Appliance,
}

impl DeliveryCustomer {
    /// Creates a new [`DeliveryCustomer`].
    pub fn new(
        customer_id: String,
        name: String,
        active: bool,
        address: Address,
        appliance: Appliance,
    ) -> (r: DeliveryCustomer)
        ensures
            r.customer_id@ == customer_id@,
            r.name@ == name@,
            r.active == active,
            r.address == address,
            r.appliance == appliance,
    {
        DeliveryCustomer { customer_id, name, active, address, appliance }
    }
}

/// A request for searching or updating delivery customers: a flattened
/// [`DeliveryCustomer`] whose fields are all optional but the identity.
#[derive(Debug)]
pub struct PartialDeliveryCustomer {
    pub customer_id: String,
    pub name: Option<String>,
    pub status: Option<CustomerStatus>,
    pub county: Option<String>,
    pub street: Option<String>,
    pub number: Option<String>,
    pub additional: Option<String>,
    pub manufacturer: Option<String>,
    pub year_of_manufacture: Option<String>,
    pub model: Option<String>,
    pub typ: Option<String>,
    pub warranty: Option<String>,
    pub operation_performed: Option<OperationPerformed>,
    pub appliance_number: Option<String>,
    pub date: Option<String>,
    pub expiration_date: Option<String>,
    pub observations: Option<String>,
}

/// A full-text search request over the customer collection.
#[derive(Debug)]
pub struct SearchQuery {
    pub query: String,
}

/// The outcome of deleting a single customer document.
#[derive(Clone, Copy, Debug, PartialEq, Eq, Structural)]
pub struct DeleteResultResponse {
    pub deleted_count: u64,
}

} // verus!
