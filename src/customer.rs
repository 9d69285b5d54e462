use vstd::prelude::*;
use vstd::string::StrSliceExecFns;

use crate::error::{ServiceError, ServiceResult, ValidationError};

verus! {

/// Shortest accepted name, in characters.
pub const NAME_MIN_LEN: usize = 2;

/// Longest accepted name, in characters.
pub const NAME_MAX_LEN: usize = 200;

/// A tax identifier that an external validator has accepted.
pub struct TaxNumber {
    pub value: String,
}

impl Clone for TaxNumber {
    fn clone(&self) -> (r: Self)
        ensures
            r == *self,
    {
        TaxNumber { value: self.value.clone() }
    }
}

/// What a customer record holds, as mathematical values.
pub ghost struct CustomerView {
    pub id: u32,
    pub name: Seq<char>,
    pub email: Seq<char>,
    pub phone: Seq<char>,
    pub tax_number: Option<Seq<char>>,
    pub address_zip: Seq<char>,
    pub address_location: Seq<char>,
    pub address_street: Seq<char>,
    pub date_created: i64,
    pub created_by: u32,
}

/// A customer master-data record.
///
/// `date_created` is the creation time in milliseconds since the Unix epoch.
pub struct Customer {
    pub id: u32,
    pub name: String,
    pub email: String,
    pub phone: String,
    pub tax_number: Option<TaxNumber>,
    pub address_zip: String,
    pub address_location: String,
    pub address_street: String,
    pub date_created: i64,
    pub created_by: u32,
}

pub open spec fn tax_view(t: Option<TaxNumber>) -> Option<Seq<char>> {
    match t {
        Some(t) => Some(t.value@),
        None => None,
    }
}

impl View for Customer {
    type V = CustomerView;

    open spec fn view(&self) -> CustomerView {
        CustomerView {
            id: self.id,
            name: self.name@,
            email: self.email@,
            phone: self.phone@,
            tax_number: tax_view(self.tax_number),
            address_zip: self.address_zip@,
            address_location: self.address_location@,
            address_street: self.address_street@,
            date_created: self.date_created,
            created_by: self.created_by,
        }
    }
}

impl Clone for Customer {
    fn clone(&self) -> (r: Self)
        ensures
            r == *self,
    {
        let tax_number = match &self.tax_number {
            Some(t) => Some(t.clone()),
            None => None,
        };
        Customer {
            id: self.id,
            name: self.name.clone(),
            email: self.email.clone(),
            phone: self.phone.clone(),
            tax_number,
            address_zip: self.address_zip.clone(),
            address_location: self.address_location.clone(),
            address_street: self.address_street.clone(),
            date_created: self.date_created,
            created_by: self.created_by,
        }
    }
}

/// A name is accepted when it has between 2 and 200 characters.
pub open spec fn valid_name(name: Seq<char>) -> bool {
    NAME_MIN_LEN <= name.len() <= NAME_MAX_LEN
}

/// An email is accepted when it is empty, or when it holds an `@` and a `.`
/// and is longer than 5 characters.
pub open spec fn valid_email(email: Seq<char>) -> bool {
    email.len() == 0 || (email.contains('@') && email.contains('.') && email.len() > 5)
}

/// The first rule that a name and an email break, if any: the email is checked first.
pub open spec fn field_error(name: Seq<char>, email: Seq<char>) -> Option<ValidationError> {
    if !valid_email(email) {
        Some(ValidationError::InvalidEmail)
    } else if !valid_name(name) {
        Some(ValidationError::InvalidName)
    } else {
        None
    }
}

/// The first rule that construction finds broken, if any: the name is checked first.
pub open spec fn construct_error(name: Seq<char>, email: Seq<char>) -> Option<ValidationError> {
    if !valid_name(name) {
        Some(ValidationError::InvalidName)
    } else if !valid_email(email) {
        Some(ValidationError::InvalidEmail)
    } else {
        None
    }
}

/// Whether every stored field of a record meets the validation rules.
pub open spec fn valid_record(c: CustomerView) -> bool {
    valid_name(c.name) && valid_email(c.email)
}

/// Whether `s` holds the character `c`.
pub fn contains_char(s: &str, c: char) -> (r: bool)
    ensures
        r == s@.contains(c),
{
    let n = s.unicode_len();
    let mut i: usize = 0;
    while i < n
        invariant
            n == s@.len(),
            i <= n,
            forall|j: int| 0 <= j < i ==> s@[j] != c,
        decreases n - i,
    {
        if s.get_char(i) == c {
            return true;
        }
        i = i + 1;
    }
    false
}

/// Whether `name` has an accepted length.
pub fn name_is_valid(name: &str) -> (r: bool)
    ensures
        r == valid_name(name@),
{
    let n = name.unicode_len();
    NAME_MIN_LEN <= n && n <= NAME_MAX_LEN
}

/// Whether `email` is empty or has the shape of an address.
pub fn email_is_valid(email: &str) -> (r: bool)
    ensures
        r == valid_email(email@),
{
    let n = email.unicode_len();
    if n == 0 {
        return true;
    }
    contains_char(email, '@') && contains_char(email, '.') && n > 5
}

/// The first rule that `name` and `email` break, if any.
pub fn check_fields(name: &str, email: &str) -> (r: Option<ValidationError>)
    ensures
        r == field_error(name@, email@),
{
    if !email_is_valid(email) {
        Some(ValidationError::InvalidEmail)
    } else if !name_is_valid(name) {
        Some(ValidationError::InvalidName)
    } else {
        None
    }
}

/// The first rule that construction finds broken in `name` and `email`, if any.
pub fn check_new_fields(name: &str, email: &str) -> (r: Option<ValidationError>)
    ensures
        r == construct_error(name@, email@),
{
    if !name_is_valid(name) {
        Some(ValidationError::InvalidName)
    } else if !email_is_valid(email) {
        Some(ValidationError::InvalidEmail)
    } else {
        None
    }
}

/// Relies on chrono::Utc::now and DateTime::timestamp_millis: the current time in
/// milliseconds since the Unix epoch, which `now` measures from the epoch onwards.
#[verifier::external_body]
fn now_millis() -> (r: i64)
    ensures
        r >= 0,
{
    chrono::Utc::now().timestamp_millis()
}

/// What a validator's answer on a non-empty raw tax number resolves to.
pub open spec fn tax_outcome(out: Result<TaxNumber, String>) -> ServiceResult<Option<TaxNumber>> {
    match out {
        Ok(t) => Ok(Some(t)),
        Err(m) => Err(ServiceError::BadRequest(ValidationError::InvalidTaxNumber(m))),
    }
}

/// Resolves a raw tax number: an empty one means the number is not known yet; any
/// other goes to `validate`, whose refusal becomes `InvalidTaxNumber`.
pub fn resolve_tax_number<F: Fn(&String) -> Result<TaxNumber, String>>(
    raw: &String,
    validate: F,
) -> (r: ServiceResult<Option<TaxNumber>>)
    requires
        raw@.len() > 0 ==> call_requires(validate, (raw,)),
    ensures
        raw@.len() == 0 ==> r == ServiceResult::<Option<TaxNumber>>::Ok(None),
        raw@.len() > 0 ==> exists|out: Result<TaxNumber, String>|
            call_ensures(validate, (raw,), out) && r == tax_outcome(out),
{
    if raw.as_str().unicode_len() == 0 {
        return Ok(None);
    }
    let out = validate(raw);
    let ghost answer = out;
    let r = match out {
        Ok(t) => Ok(Some(t)),
        Err(m) => Err(ServiceError::BadRequest(ValidationError::InvalidTaxNumber(m))),
    };
    assert(call_ensures(validate, (raw,), answer) && r == tax_outcome(answer));
    r
}

impl Default for Customer {
    /// An empty record with identifier 0, stamped with the current time.
    fn default() -> (r: Customer)
        ensures
            r.date_created >= 0,
            r@ == (CustomerView {
                id: 0,
                name: Seq::empty(),
                email: Seq::empty(),
                phone: Seq::empty(),
                tax_number: None,
                address_zip: Seq::empty(),
                address_location: Seq::empty(),
                address_street: Seq::empty(),
                date_created: r.date_created,
                created_by: 0,
            }),
    {
        Customer {
            id: 0,
            name: String::new(),
            email: String::new(),
            phone: String::new(),
            tax_number: None,
            address_zip: String::new(),
            address_location: String::new(),
            address_street: String::new(),
            date_created: now_millis(),
            created_by: 0,
        }
    }
}

impl Customer {
    /// Builds a record from its fields, stamped with the current time.
    pub fn new(
        id: u32,
        name: String,
        email: String,
        phone: String,
        tax_number: Option<TaxNumber>,
        address_zip: String,
        address_location: String,
        address_street: String,
        created_by: u32,
    ) -> (r: ServiceResult<Customer>)
        ensures
            r is Ok <==> construct_error(name@, email@) is None,
            !valid_name(name@) ==> r == ServiceResult::<Customer>::Err(
                ServiceError::BadRequest(ValidationError::InvalidName),
            ),
            r is Err ==> r == ServiceResult::<Customer>::Err(
                ServiceError::BadRequest(construct_error(name@, email@)->Some_0),
            ),
            r is Ok ==> ({
                let c = r->Ok_0;
                &&& c.date_created >= 0
                &&& c@ == (CustomerView {
                    id,
                    name: name@,
                    email: email@,
                    phone: phone@,
                    tax_number: tax_view(tax_number),
                    address_zip: address_zip@,
                    address_location: address_location@,
                    address_street: address_street@,
                    date_created: c.date_created,
                    created_by,
                })
            }),
    {
        match check_new_fields(name.as_str(), email.as_str()) {
            Some(e) => Err(ServiceError::BadRequest(e)),
            None => Ok(
                Customer {
                    id,
                    name,
                    email,
                    phone,
                    tax_number,
                    address_zip,
                    address_location,
                    address_street,
                    date_created: now_millis(),
                    created_by,
                },
            ),
        }
    }

    /// The record's identifier.
    pub fn get_id(&self) -> (r: u32)
        ensures
            r == self.id,
    {
        self.id
    }

    /// Replaces the email when it is accepted; leaves the record as it was otherwise.
    pub fn set_email(&mut self, email: String) -> (r: ServiceResult<()>)
        ensures
            r is Ok <==> valid_email(email@),
            r is Err ==> r == ServiceResult::<()>::Err(
                ServiceError::BadRequest(ValidationError::InvalidEmail),
            ) && *final(self) == *old(self),
            r is Ok ==> final(self)@ == (CustomerView { email: email@, ..old(self)@ }),
    {
        if email_is_valid(email.as_str()) {
            self.email = email;
            Ok(())
        } else {
            Err(ServiceError::BadRequest(ValidationError::InvalidEmail))
        }
    }

    /// Replaces name, email, phone, tax number and address together, or none of them.
    pub fn update(
        &mut self,
        name: String,
        email: String,
        phone: String,
        tax_number: Option<TaxNumber>,
        address_zip: String,
        address_location: String,
        address_street: String,
    ) -> (r: ServiceResult<()>)
        ensures
            r is Ok <==> field_error(name@, email@) is None,
            r is Err ==> r == ServiceResult::<()>::Err(
                ServiceError::BadRequest(field_error(name@, email@)->Some_0),
            ) && *final(self) == *old(self),
            r is Ok ==> final(self)@ == (CustomerView {
                name: name@,
                email: email@,
                phone: phone@,
                tax_number: tax_view(tax_number),
                address_zip: address_zip@,
                address_location: address_location@,
                address_street: address_street@,
                ..old(self)@
            }),
    {
        if let Some(e) = check_fields(name.as_str(), email.as_str()) {
            return Err(ServiceError::BadRequest(e));
        }
        let r = self.set_email(email);
        self.name = name;
        self.phone = phone;
        self.tax_number = tax_number;
        self.address_zip = address_zip;
        self.address_location = address_location;
        self.address_street = address_street;
        r
    }
}

} // verus!
