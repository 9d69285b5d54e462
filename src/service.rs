use vstd::prelude::*;

use crate::customer::{
    check_new_fields, construct_error, field_error, resolve_tax_number, tax_view,
    valid_record, Customer, CustomerView, TaxNumber,
};
use crate::error::ValidationError;
use crate::error::{ServiceError, ServiceResult};
use crate::search::{is_substring, lemma_empty_is_substring, lower_of, lowercase, matches_query};

verus! {

/// The fields of a customer to be created, with its tax number already validated.
pub struct NewCustomer {
    pub name: String,
    pub email: String,
    pub phone: String,
    pub tax_number: Option<TaxNumber>,
    pub address_zip: String,
    pub address_location: String,
    pub address_street: String,
    pub created_by: u32,
}

/// The fields that replace those of the customer with identifier `id`.
pub struct CustomerUpdate {
    pub id: u32,
    pub name: String,
    pub email: String,
    pub phone: String,
    pub tax_number: Option<TaxNumber>,
    pub address_zip: String,
    pub address_location: String,
    pub address_street: String,
}

/// No two records share an identifier.
pub open spec fn ids_unique(s: Seq<CustomerView>) -> bool {
    forall|i: int, j: int|
        0 <= i < s.len() && 0 <= j < s.len() && i != j ==> #[trigger] s[i].id != #[trigger] s[j].id
}

/// Identifiers are unique and every record meets the validation rules.
pub open spec fn directory_wf(s: Seq<CustomerView>) -> bool {
    &&& ids_unique(s)
    &&& forall|i: int| 0 <= i < s.len() ==> valid_record(#[trigger] s[i])
}

pub open spec fn has_id(s: Seq<CustomerView>, id: u32) -> bool {
    exists|i: int| 0 <= i < s.len() && #[trigger] s[i].id == id
}

/// The position of the record with identifier `id`, where there is one.
pub open spec fn index_of(s: Seq<CustomerView>, id: u32) -> int {
    choose|i: int| 0 <= i < s.len() && #[trigger] s[i].id == id
}

/// The record with identifier `id`, or `NotFound`.
pub open spec fn lookup(s: Seq<CustomerView>, id: u32) -> Result<CustomerView, ServiceError> {
    if has_id(s, id) {
        Ok(s[index_of(s, id)])
    } else {
        Err(ServiceError::NotFound)
    }
}

/// The largest identifier in use, or 0 for an empty directory.
pub open spec fn max_id(s: Seq<CustomerView>) -> u32
    decreases s.len(),
{
    if s.len() == 0 {
        0
    } else {
        let m = max_id(s.drop_last());
        if s.last().id > m {
            s.last().id
        } else {
            m
        }
    }
}

/// The identifier that the next created record receives: one past the largest in use.
pub open spec fn next_id(s: Seq<CustomerView>) -> Option<u32> {
    if max_id(s) < u32::MAX {
        Some((max_id(s) + 1) as u32)
    } else {
        None
    }
}

/// The identifiers of all records, in directory order.
pub open spec fn ids_of(s: Seq<CustomerView>) -> Seq<u32> {
    s.map_values(|c: CustomerView| c.id)
}

/// The records whose identifiers are among `ids`, in directory order.
pub open spec fn bulk_of(s: Seq<CustomerView>, ids: Seq<u32>) -> Seq<CustomerView>
    decreases s.len(),
{
    if s.len() == 0 {
        Seq::empty()
    } else if ids.contains(s.last().id) {
        bulk_of(s.drop_last(), ids).push(s.last())
    } else {
        bulk_of(s.drop_last(), ids)
    }
}

/// The identifiers of the records whose lowercased name holds the lowercased query,
/// in directory order.
pub open spec fn found_ids(s: Seq<CustomerView>, query: Seq<char>) -> Seq<u32>
    decreases s.len(),
{
    if s.len() == 0 {
        Seq::empty()
    } else if is_substring(lower_of(query), lower_of(s.last().name)) {
        found_ids(s.drop_last(), query).push(s.last().id)
    } else {
        found_ids(s.drop_last(), query)
    }
}

/// A read's result, with the record given by its view.
pub open spec fn read_result(r: ServiceResult<Customer>) -> Result<CustomerView, ServiceError> {
    match r {
        Ok(c) => Ok(c@),
        Err(e) => Err(e),
    }
}

/// The record that creating from `u` with identifier `id` stores, stamped at `date`.
pub open spec fn created_record(u: NewCustomer, id: u32, date: i64) -> CustomerView {
    CustomerView {
        id,
        name: u.name@,
        email: u.email@,
        phone: u.phone@,
        tax_number: tax_view(u.tax_number),
        address_zip: u.address_zip@,
        address_location: u.address_location@,
        address_street: u.address_street@,
        date_created: date,
        created_by: u.created_by,
    }
}

/// The error that creating from `u` in `s` meets, if any.
pub open spec fn create_error(s: Seq<CustomerView>, u: NewCustomer) -> Option<ServiceError> {
    match construct_error(u.name@, u.email@) {
        Some(e) => Some(ServiceError::BadRequest(e)),
        None => if next_id(s) is None {
            Some(ServiceError::Internal)
        } else {
            None
        },
    }
}

/// What creating from `u` does: on an error nothing changes; on success the record
/// gets the next identifier and is appended.
pub open spec fn create_post(
    before: Seq<CustomerView>,
    after: Seq<CustomerView>,
    u: NewCustomer,
    r: ServiceResult<Customer>,
) -> bool {
    &&& r is Ok <==> create_error(before, u) is None
    &&& r is Err ==> r == ServiceResult::<Customer>::Err(create_error(before, u)->Some_0) && after
        == before
    &&& r is Ok ==> ({
        let c = r->Ok_0;
        &&& c.date_created >= 0
        &&& next_id(before) == Some(c.id)
        &&& c@ == created_record(u, next_id(before)->Some_0, c.date_created)
        &&& after == before.push(c@)
    })
}

/// A creation request as it arrives: the tax number is raw text, empty when unknown.
pub struct NewCustomerRequest {
    pub name: String,
    pub email: String,
    pub phone: String,
    pub tax_number: String,
    pub address_zip: String,
    pub address_location: String,
    pub address_street: String,
    pub created_by: u32,
}

/// An update request as it arrives: the tax number is raw text, empty when unknown.
pub struct UpdateRequest {
    pub id: u32,
    pub name: String,
    pub email: String,
    pub phone: String,
    pub tax_number: String,
    pub address_zip: String,
    pub address_location: String,
    pub address_street: String,
}

/// The creation input that `req` gives once its tax number resolved to `tax`.
pub open spec fn resolved_new(req: NewCustomerRequest, tax: Option<TaxNumber>) -> NewCustomer {
    NewCustomer {
        name: req.name,
        email: req.email,
        phone: req.phone,
        tax_number: tax,
        address_zip: req.address_zip,
        address_location: req.address_location,
        address_street: req.address_street,
        created_by: req.created_by,
    }
}

/// The update that `req` gives once its tax number resolved to `tax`.
pub open spec fn resolved_update(req: UpdateRequest, tax: Option<TaxNumber>) -> CustomerUpdate {
    CustomerUpdate {
        id: req.id,
        name: req.name,
        email: req.email,
        phone: req.phone,
        tax_number: tax,
        address_zip: req.address_zip,
        address_location: req.address_location,
        address_street: req.address_street,
    }
}

/// What the record `c` becomes under the update `u`.
pub open spec fn updated_record(c: CustomerView, u: CustomerUpdate) -> CustomerView {
    CustomerView {
        name: u.name@,
        email: u.email@,
        phone: u.phone@,
        tax_number: tax_view(u.tax_number),
        address_zip: u.address_zip@,
        address_location: u.address_location@,
        address_street: u.address_street@,
        ..c
    }
}

/// The error that the update `u` of `s` meets, if any.
pub open spec fn update_error(s: Seq<CustomerView>, u: CustomerUpdate) -> Option<ServiceError> {
    if !has_id(s, u.id) {
        Some(ServiceError::NotFound)
    } else {
        match field_error(u.name@, u.email@) {
            Some(e) => Some(ServiceError::BadRequest(e)),
            None => None,
        }
    }
}

/// What the update `u` does: on an error nothing changes; on success exactly the
/// record `u.id` takes the new fields.
pub open spec fn update_post(
    before: Seq<CustomerView>,
    after: Seq<CustomerView>,
    u: CustomerUpdate,
    r: ServiceResult<Customer>,
) -> bool {
    &&& r is Ok <==> update_error(before, u) is None
    &&& r is Err ==> r == ServiceResult::<Customer>::Err(update_error(before, u)->Some_0) && after
        == before
    &&& r is Ok ==> ({
        let i = index_of(before, u.id);
        &&& r->Ok_0@ == updated_record(before[i], u)
        &&& after == before.update(i, r->Ok_0@)
    })
}

/// Every record's identifier is at most `max_id`.
pub proof fn lemma_max_id_bounds(s: Seq<CustomerView>)
    ensures
        forall|i: int| 0 <= i < s.len() ==> #[trigger] s[i].id <= max_id(s),
    decreases s.len(),
{
    if s.len() > 0 {
        lemma_max_id_bounds(s.drop_last());
        assert forall|i: int| 0 <= i < s.len() implies #[trigger] s[i].id <= max_id(s) by {
            if i < s.len() - 1 {
                assert(s[i] == s.drop_last()[i]);
            }
        }
    }
}

/// With unique identifiers, the record at any position holding `id` is the one found.
pub proof fn lemma_index_of_unique(s: Seq<CustomerView>, id: u32, i: int)
    requires
        ids_unique(s),
        0 <= i < s.len(),
        s[i].id == id,
    ensures
        has_id(s, id),
        index_of(s, id) == i,
{
    assert(has_id(s, id));
}

/// The customer directory: the one owner of all customer records.
pub struct CustomerService {
    customers: Vec<Customer>,
}

impl View for CustomerService {
    type V = Seq<CustomerView>;

    closed spec fn view(&self) -> Seq<CustomerView> {
        self.customers@.map_values(|c: Customer| c@)
    }
}

impl CustomerService {
    /// Identifiers are unique and every stored record is valid.
    pub open spec fn wf(&self) -> bool {
        directory_wf(self@)
    }

    /// Takes over loaded records; refuses them with `Internal` where two share an
    /// identifier or one breaks the validation rules.
    pub fn init(customers: Vec<Customer>) -> (r: ServiceResult<CustomerService>)
        ensures
            r is Ok <==> directory_wf(customers@.map_values(|c: Customer| c@)),
            r is Ok ==> r->Ok_0@ == customers@.map_values(|c: Customer| c@),
            r is Err ==> r == ServiceResult::<CustomerService>::Err(ServiceError::Internal),
    {
        let ghost s = customers@.map_values(|c: Customer| c@);
        let n = customers.len();
        let mut i: usize = 0;
        while i < n
            invariant
                n == customers@.len(),
                s == customers@.map_values(|c: Customer| c@),
                i <= n,
                forall|a: int, b: int|
                    0 <= a < i && 0 <= b < n && a != b ==> #[trigger] s[a].id != #[trigger] s[b].id,
                forall|a: int| 0 <= a < i ==> valid_record(#[trigger] s[a]),
            decreases n - i,
        {
            if crate::customer::check_fields(
                customers[i].name.as_str(),
                customers[i].email.as_str(),
            ).is_some() {
                assert(!valid_record(s[i as int]));
                return Err(ServiceError::Internal);
            }
            let mut j: usize = 0;
            while j < n
                invariant
                    n == customers@.len(),
                    s == customers@.map_values(|c: Customer| c@),
                    i < n,
                    j <= n,
                    forall|b: int| 0 <= b < j && b != i ==> s[i as int].id != #[trigger] s[b].id,
                decreases n - j,
            {
                if j != i && customers[j].id == customers[i].id {
                    assert(s[j as int].id == s[i as int].id);
                    assert(!ids_unique(s));
                    return Err(ServiceError::Internal);
                }
                j = j + 1;
            }
            i = i + 1;
        }
        Ok(CustomerService { customers })
    }

    /// The position of the record with identifier `id`.
    fn find_index(&self, id: u32) -> (r: Option<usize>)
        requires
            self.wf(),
        ensures
            r is None <==> !has_id(self@, id),
            r is Some ==> r->Some_0 < self@.len() && r->Some_0 == index_of(self@, id),
    {
        let n = self.customers.len();
        let mut i: usize = 0;
        while i < n
            invariant
                self.wf(),
                n == self@.len(),
                i <= n,
                forall|k: int| 0 <= k < i ==> #[trigger] self@[k].id != id,
            decreases n - i,
        {
            if self.customers[i].id == id {
                proof {
                    lemma_index_of_unique(self@, id, i as int);
                }
                return Some(i);
            }
            i = i + 1;
        }
        None
    }

    /// One past the largest identifier in use, or `None` when that would not fit.
    pub fn next_customer_id(&self) -> (r: Option<u32>)
        ensures
            r == next_id(self@),
    {
        let n = self.customers.len();
        let mut latest_id: u32 = 0;
        let mut i: usize = 0;
        while i < n
            invariant
                n == self@.len(),
                i <= n,
                latest_id == max_id(self@.subrange(0, i as int)),
            decreases n - i,
        {
            assert(self@.subrange(0, i + 1).drop_last() =~= self@.subrange(0, i as int));
            let id = self.customers[i].id;
            if id > latest_id {
                latest_id = id;
            }
            i = i + 1;
        }
        assert(self@.subrange(0, n as int) =~= self@);
        if latest_id < u32::MAX {
            Some(latest_id + 1)
        } else {
            None
        }
    }

    /// Stores `c` when its identifier is free; refuses it with `Conflict` otherwise.
    fn insert(&mut self, c: Customer) -> (r: ServiceResult<()>)
        requires
            old(self).wf(),
            valid_record(c@),
        ensures
            r is Ok <==> !has_id(old(self)@, c.id),
            r is Ok ==> final(self)@ == old(self)@.push(c@),
            r is Err ==> r == ServiceResult::<()>::Err(ServiceError::Conflict) && final(self)@
                == old(self)@,
            final(self).wf(),
    {
        if self.find_index(c.id).is_some() {
            return Err(ServiceError::Conflict);
        }
        let ghost s = self@;
        let ghost v = c@;
        self.customers.push(c);
        assert(self@ =~= s.push(v));
        assert forall|i: int, j: int|
            0 <= i < self@.len() && 0 <= j < self@.len() && i != j implies #[trigger] self@[i].id
            != #[trigger] self@[j].id by {
            if i < s.len() && j < s.len() {
                assert(s[i].id != s[j].id);
            } else if i < s.len() {
                assert(s[i].id != v.id);
            } else {
                assert(s[j].id != v.id);
            }
        }
        Ok(())
    }

    /// Creates a record from `u` under a fresh identifier and returns it.
    pub fn create_new(&mut self, u: NewCustomer) -> (r: ServiceResult<Customer>)
        requires
            old(self).wf(),
        ensures
            final(self).wf(),
            create_post(old(self)@, final(self)@, u, r),
    {
        let next = self.next_customer_id();
        let candidate_id = match next {
            Some(id) => id,
            None => 0,
        };
        let c = match Customer::new(
            candidate_id,
            u.name,
            u.email,
            u.phone,
            u.tax_number,
            u.address_zip,
            u.address_location,
            u.address_street,
            u.created_by,
        ) {
            Ok(c) => c,
            Err(e) => return Err(e),
        };
        if next.is_none() {
            return Err(ServiceError::Internal);
        }
        proof {
            lemma_max_id_bounds(self@);
        }
        let stored = c.clone();
        match self.insert(stored) {
            Ok(()) => Ok(c),
            Err(e) => Err(e),
        }
    }

    /// The identifiers of all records, in directory order.
    pub fn get_all(&self) -> (r: Vec<u32>)
        ensures
            r@ == ids_of(self@),
    {
        let n = self.customers.len();
        let mut r: Vec<u32> = Vec::new();
        let mut i: usize = 0;
        while i < n
            invariant
                n == self@.len(),
                i <= n,
                r@ == ids_of(self@.subrange(0, i as int)),
            decreases n - i,
        {
            r.push(self.customers[i].id);
            assert(ids_of(self@.subrange(0, i + 1)) =~= ids_of(self@.subrange(0, i as int)).push(
                self@[i as int].id,
            ));
            i = i + 1;
        }
        assert(self@.subrange(0, n as int) =~= self@);
        r
    }

    /// The record with identifier `id`, or `NotFound`.
    pub fn get_by_id(&self, id: u32) -> (r: ServiceResult<Customer>)
        requires
            self.wf(),
        ensures
            read_result(r) == lookup(self@, id),
    {
        match self.find_index(id) {
            Some(i) => Ok(self.customers[i].clone()),
            None => Err(ServiceError::NotFound),
        }
    }

    /// The records whose identifiers are among `ids`, in directory order; identifiers
    /// that no record has are left out.
    pub fn get_bulk(&self, ids: &Vec<u32>) -> (r: Vec<Customer>)
        ensures
            r@.map_values(|c: Customer| c@) == bulk_of(self@, ids@),
    {
        let n = self.customers.len();
        let mut r: Vec<Customer> = Vec::new();
        let mut i: usize = 0;
        while i < n
            invariant
                n == self@.len(),
                i <= n,
                r@.map_values(|c: Customer| c@) == bulk_of(self@.subrange(0, i as int), ids@),
            decreases n - i,
        {
            let ghost before = r@.map_values(|c: Customer| c@);
            assert(self@.subrange(0, i + 1).drop_last() =~= self@.subrange(0, i as int));
            let id = self.customers[i].id;
            if contains_id(ids, id) {
                let c = self.customers[i].clone();
                r.push(c);
                assert(r@.map_values(|c: Customer| c@) =~= before.push(self@[i as int]));
            }
            i = i + 1;
        }
        assert(self@.subrange(0, n as int) =~= self@);
        r
    }

    /// Replaces the fields of the record `u.id` and returns the result; on any error
    /// the directory is left as it was.
    pub fn update_by_id(&mut self, u: CustomerUpdate) -> (r: ServiceResult<Customer>)
        requires
            old(self).wf(),
        ensures
            final(self).wf(),
            update_post(old(self)@, final(self)@, u, r),
    {
        let i = match self.find_index(u.id) {
            Some(i) => i,
            None => return Err(ServiceError::NotFound),
        };
        let ghost s = self@;
        let res = self.customers[i].update(
            u.name,
            u.email,
            u.phone,
            u.tax_number,
            u.address_zip,
            u.address_location,
            u.address_street,
        );
        match res {
            Ok(()) => {
                assert(self@ =~= s.update(i as int, self.customers@[i as int]@));
                assert forall|a: int, b: int|
                    0 <= a < self@.len() && 0 <= b < self@.len() && a != b implies #[trigger] self@[a].id
                    != #[trigger] self@[b].id by {
                    assert(s[a].id != s[b].id);
                }
                assert forall|a: int| 0 <= a < self@.len() implies valid_record(
                    #[trigger] self@[a],
                ) by {
                    if a != i {
                        assert(valid_record(s[a]));
                    }
                }
                Ok(self.customers[i].clone())
            },
            Err(e) => {
                assert(self@ =~= s);
                Err(e)
            },
        }
    }

    /// Creates a record from a request whose tax number is raw text. Name and email are
    /// checked first; then a non-empty tax number goes to `validate`, whose refusal
    /// fails the request with `InvalidTaxNumber` and stores nothing.
    pub fn create_from_request<F: Fn(&String) -> Result<TaxNumber, String>>(
        &mut self,
        req: NewCustomerRequest,
        validate: F,
    ) -> (r: ServiceResult<Customer>)
        requires
            old(self).wf(),
            req.tax_number@.len() > 0 ==> call_requires(validate, (&req.tax_number,)),
        ensures
            final(self).wf(),
            construct_error(req.name@, req.email@) is Some ==> r == ServiceResult::<Customer>::Err(
                ServiceError::BadRequest(construct_error(req.name@, req.email@)->Some_0),
            ) && final(self)@ == old(self)@,
            construct_error(req.name@, req.email@) is None && req.tax_number@.len() == 0
                ==> create_post(old(self)@, final(self)@, resolved_new(req, None), r),
            construct_error(req.name@, req.email@) is None && req.tax_number@.len() > 0 ==> exists|
                out: Result<TaxNumber, String>,
            |
                #![trigger call_ensures(validate, (&req.tax_number,), out)]
                call_ensures(validate, (&req.tax_number,), out) && match out {
                    Ok(t) => create_post(old(self)@, final(self)@, resolved_new(req, Some(t)), r),
                    Err(m) => r == ServiceResult::<Customer>::Err(
                        ServiceError::BadRequest(ValidationError::InvalidTaxNumber(m)),
                    ) && final(self)@ == old(self)@,
                },
    {
        if let Some(e) = check_new_fields(req.name.as_str(), req.email.as_str()) {
            return Err(ServiceError::BadRequest(e));
        }
        let tax_number = match resolve_tax_number(&req.tax_number, validate) {
            Ok(t) => t,
            Err(e) => return Err(e),
        };
        let u = NewCustomer {
            name: req.name,
            email: req.email,
            phone: req.phone,
            tax_number,
            address_zip: req.address_zip,
            address_location: req.address_location,
            address_street: req.address_street,
            created_by: req.created_by,
        };
        assert(u == resolved_new(req, tax_number));
        self.create_new(u)
    }

    /// Updates a record from a request whose tax number is raw text. A non-empty tax
    /// number goes to `validate` first, whose refusal fails the request with
    /// `InvalidTaxNumber` and leaves the directory as it was; otherwise the update
    /// proceeds as `update_by_id`.
    pub fn update_from_request<F: Fn(&String) -> Result<TaxNumber, String>>(
        &mut self,
        req: UpdateRequest,
        validate: F,
    ) -> (r: ServiceResult<Customer>)
        requires
            old(self).wf(),
            req.tax_number@.len() > 0 ==> call_requires(validate, (&req.tax_number,)),
        ensures
            final(self).wf(),
            req.tax_number@.len() == 0 ==> update_post(
                old(self)@,
                final(self)@,
                resolved_update(req, None),
                r,
            ),
            req.tax_number@.len() > 0 ==> exists|out: Result<TaxNumber, String>|
                #![trigger call_ensures(validate, (&req.tax_number,), out)]
                call_ensures(validate, (&req.tax_number,), out) && match out {
                    Ok(t) => update_post(old(self)@, final(self)@, resolved_update(req, Some(t)), r),
                    Err(m) => r == ServiceResult::<Customer>::Err(
                        ServiceError::BadRequest(ValidationError::InvalidTaxNumber(m)),
                    ) && final(self)@ == old(self)@,
                },
    {
        let tax_number = match resolve_tax_number(&req.tax_number, validate) {
            Ok(t) => t,
            Err(e) => return Err(e),
        };
        let u = CustomerUpdate {
            id: req.id,
            name: req.name,
            email: req.email,
            phone: req.phone,
            tax_number,
            address_zip: req.address_zip,
            address_location: req.address_location,
            address_street: req.address_street,
        };
        assert(u == resolved_update(req, tax_number));
        self.update_by_id(u)
    }

    /// Relating a user to a customer is not supported yet; the directory is left as it was.
    pub fn add_user(&mut self, id: u32, user_id: u32) -> (r: ServiceResult<()>)
        ensures
            r == ServiceResult::<()>::Err(ServiceError::Unimplemented),
            final(self)@ == old(self)@,
    {
        Err(ServiceError::Unimplemented)
    }

    /// Unrelating a user from a customer is not supported yet; the directory is left as it was.
    pub fn remove_user(&mut self, id: u32, user_id: u32) -> (r: ServiceResult<()>)
        ensures
            r == ServiceResult::<()>::Err(ServiceError::Unimplemented),
            final(self)@ == old(self)@,
    {
        Err(ServiceError::Unimplemented)
    }

    /// The identifiers of the records whose name holds `query`, ignoring case; an
    /// empty query matches every record.
    pub fn find_customer(&self, query: &str) -> (r: Vec<u32>)
        ensures
            r@ == found_ids(self@, query@),
            query@.len() == 0 ==> r@ == ids_of(self@),
    {
        let q = lowercase(query);
        let n = self.customers.len();
        let mut r: Vec<u32> = Vec::new();
        let mut i: usize = 0;
        while i < n
            invariant
                n == self@.len(),
                i <= n,
                q@ == lower_of(query@),
                query@.len() == 0 ==> q@.len() == 0,
                r@ == found_ids(self@.subrange(0, i as int), query@),
                query@.len() == 0 ==> r@ == ids_of(self@.subrange(0, i as int)),
            decreases n - i,
        {
            assert(ids_of(self@.subrange(0, i + 1)) =~= ids_of(self@.subrange(0, i as int)).push(
                self@[i as int].id,
            ));
            assert(self@.subrange(0, i + 1).drop_last() =~= self@.subrange(0, i as int));
            let name = lowercase(self.customers[i].name.as_str());
            proof {
                if q@.len() == 0 {
                    assert(q@ =~= Seq::<char>::empty());
                    lemma_empty_is_substring(name@);
                }
            }
            if matches_query(name.as_str(), q.as_str()) {
                r.push(self.customers[i].id);
            }
            i = i + 1;
        }
        assert(self@.subrange(0, n as int) =~= self@);
        r
    }
}

/// Whether `ids` holds `id`.
fn contains_id(ids: &Vec<u32>, id: u32) -> (r: bool)
    ensures
        r == ids@.contains(id),
{
    let mut i: usize = 0;
    while i < ids.len()
        invariant
            i <= ids@.len(),
            forall|k: int| 0 <= k < i ==> ids@[k] != id,
        decreases ids@.len() - i,
    {
        if ids[i] == id {
            return true;
        }
        i = i + 1;
    }
    false
}

} // verus!
