use customer_directory::customer::{
    check_fields, check_new_fields, contains_char, email_is_valid, name_is_valid, resolve_tax_number, Customer,
    TaxNumber,
};
use customer_directory::error::{ServiceError, ValidationError};
use customer_directory::search::matches_query;
use customer_directory::service::{
    CustomerService, CustomerUpdate, NewCustomer, NewCustomerRequest, UpdateRequest,
};

fn s(x: &str) -> String {
    x.to_string()
}

fn new_customer(name: &str, email: &str) -> NewCustomer {
    NewCustomer {
        name: s(name),
        email: s(email),
        phone: s(""),
        tax_number: None,
        address_zip: s("1000"),
        address_location: s("City"),
        address_street: s("Main 1"),
        created_by: 1,
    }
}

fn update_for(id: u32, name: &str, email: &str) -> CustomerUpdate {
    CustomerUpdate {
        id,
        name: s(name),
        email: s(email),
        phone: s("+36 1 234 5678"),
        tax_number: None,
        address_zip: s("2000"),
        address_location: s("Town"),
        address_street: s("Side 2"),
    }
}

fn empty_directory() -> CustomerService {
    match CustomerService::init(Vec::new()) {
        Ok(d) => d,
        Err(_) => panic!("an empty directory is well formed"),
    }
}

fn accept_all(raw: &String) -> Result<TaxNumber, String> {
    Ok(TaxNumber { value: raw.to_string() })
}

fn refuse_all(_raw: &String) -> Result<TaxNumber, String> {
    Err(s("bad checksum"))
}

#[test]
fn construct_keeps_fields() {
    let c = Customer::new(
        7,
        s("Jane Doe"),
        s("jane@example.com"),
        s("123"),
        Some(TaxNumber { value: s("12345678-1-12") }),
        s("1000"),
        s("City"),
        s("Main 1"),
        3,
    )
    .unwrap();
    assert_eq!(c.id, 7);
    assert_eq!(c.name, "Jane Doe");
    assert_eq!(c.email, "jane@example.com");
    assert_eq!(c.phone, "123");
    assert_eq!(c.tax_number.as_ref().map(|t| t.value.clone()), Some(s("12345678-1-12")));
    assert_eq!(c.address_zip, "1000");
    assert_eq!(c.address_location, "City");
    assert_eq!(c.address_street, "Main 1");
    assert_eq!(c.created_by, 3);
    assert!(c.date_created > 0);
    assert_eq!(c.get_id(), 7);
}

#[test]
fn construct_refuses_short_and_long_names() {
    let short = Customer::new(1, s("A"), s(""), s(""), None, s(""), s(""), s(""), 1);
    assert!(matches!(short, Err(ServiceError::BadRequest(ValidationError::InvalidName))));
    let long = Customer::new(1, "x".repeat(201), s(""), s(""), None, s(""), s(""), s(""), 1);
    assert!(matches!(long, Err(ServiceError::BadRequest(ValidationError::InvalidName))));
    assert!(Customer::new(1, s("Al"), s(""), s(""), None, s(""), s(""), s(""), 1).is_ok());
    assert!(Customer::new(1, "x".repeat(200), s(""), s(""), None, s(""), s(""), s(""), 1).is_ok());
}

#[test]
fn name_length_counts_characters() {
    assert!(name_is_valid("Éé"));
    assert!(!name_is_valid("É"));
    assert!(name_is_valid(&"ő".repeat(200)));
    assert!(!name_is_valid(&"ő".repeat(201)));
}

#[test]
fn email_rule() {
    assert!(email_is_valid(""));
    assert!(email_is_valid("jane@example.com"));
    assert!(!email_is_valid("not-an-email"));
    assert!(!email_is_valid("jane.example.com"));
    assert!(!email_is_valid("jane@example"));
    assert!(!email_is_valid("a@b.c"));
    assert!(email_is_valid("ab@c.d"));
    assert!(contains_char("a@b", '@'));
    assert!(!contains_char("ab", '@'));
}

#[test]
fn email_checked_before_name() {
    assert!(matches!(check_fields("A", "bad"), Some(ValidationError::InvalidEmail)));
    assert!(matches!(check_fields("A", ""), Some(ValidationError::InvalidName)));
    assert!(check_fields("Jane", "").is_none());
}

#[test]
fn set_email_keeps_record_on_refusal() {
    let mut c = Customer::new(1, s("Jane Doe"), s("jane@example.com"), s(""), None, s(""), s(""), s(""), 1).unwrap();
    assert!(matches!(
        c.set_email(s("nope")),
        Err(ServiceError::BadRequest(ValidationError::InvalidEmail))
    ));
    assert_eq!(c.email, "jane@example.com");
    assert!(c.set_email(s("")).is_ok());
    assert_eq!(c.email, "");
}

#[test]
fn entity_update_is_all_or_nothing() {
    let mut c = Customer::new(1, s("Jane Doe"), s("jane@example.com"), s("1"), None, s("z"), s("l"), s("st"), 1).unwrap();
    let r = c.update(s("J"), s("jane@example.com"), s("2"), None, s("z2"), s("l2"), s("st2"));
    assert!(matches!(r, Err(ServiceError::BadRequest(ValidationError::InvalidName))));
    assert_eq!(c.name, "Jane Doe");
    assert_eq!(c.phone, "1");
    assert_eq!(c.address_zip, "z");
    let r = c.update(s("Jane Roe"), s(""), s("2"), Some(TaxNumber { value: s("t") }), s("z2"), s("l2"), s("st2"));
    assert!(r.is_ok());
    assert_eq!(c.name, "Jane Roe");
    assert_eq!(c.email, "");
    assert_eq!(c.phone, "2");
    assert_eq!(c.address_street, "st2");
    assert_eq!(c.id, 1);
}

#[test]
fn default_record_is_empty() {
    let c = Customer::default();
    assert_eq!(c.id, 0);
    assert_eq!(c.name, "");
    assert!(c.tax_number.is_none());
    assert!(c.date_created > 0);
}

#[test]
fn tax_number_resolution() {
    assert!(matches!(resolve_tax_number(&s(""), refuse_all), Ok(None)));
    match resolve_tax_number(&s("12345678-1-12"), accept_all) {
        Ok(Some(t)) => assert_eq!(t.value, "12345678-1-12"),
        _ => panic!("accepted tax number"),
    }
    match resolve_tax_number(&s("123"), refuse_all) {
        Err(ServiceError::BadRequest(e)) => {
            assert!(matches!(e, ValidationError::InvalidTaxNumber(_)));
            assert_eq!(e.message(), "bad checksum");
        }
        _ => panic!("refused tax number"),
    }
}

#[test]
fn create_jane_doe_scenario() {
    let mut d = empty_directory();
    let c = d.create_new(new_customer("Jane Doe", "")).unwrap();
    assert_eq!(c.id, 1);
    assert!(c.date_created > 0);
    assert_eq!(c.created_by, 1);
    let got = d.get_by_id(c.id).unwrap();
    assert_eq!(got.name, "Jane Doe");
    assert_eq!(got.address_zip, "1000");
    assert_eq!(got.address_location, "City");
    assert_eq!(got.address_street, "Main 1");
    assert_eq!(got.date_created, c.date_created);
}

#[test]
fn create_with_short_name_stores_nothing() {
    let mut d = empty_directory();
    let r = d.create_new(new_customer("A", ""));
    assert!(matches!(r, Err(ServiceError::BadRequest(ValidationError::InvalidName))));
    assert!(d.get_all().is_empty());
}

#[test]
fn creations_get_distinct_ids() {
    let mut d = empty_directory();
    let mut ids = Vec::new();
    for k in 0..20 {
        let c = d.create_new(new_customer(&format!("Customer {}", k), "")).unwrap();
        ids.push(c.id);
    }
    let all = d.get_all();
    assert_eq!(all.len(), 20);
    assert_eq!(all, ids);
    for a in 0..ids.len() {
        for b in (a + 1)..ids.len() {
            assert_ne!(ids[a], ids[b]);
        }
    }
    assert_eq!(d.next_customer_id(), Some(21));
}

#[test]
fn next_id_follows_largest() {
    let mut c = Customer::default();
    c.id = 41;
    c.name = s("Loaded One");
    let mut e = Customer::default();
    e.id = 5;
    e.name = s("Loaded Two");
    let mut d = CustomerService::init(vec![c, e]).unwrap();
    assert_eq!(d.next_customer_id(), Some(42));
    let made = d.create_new(new_customer("New One", "")).unwrap();
    assert_eq!(made.id, 42);
}

#[test]
fn id_space_exhausted() {
    let mut c = Customer::default();
    c.id = u32::MAX;
    c.name = s("Last One");
    let mut d = CustomerService::init(vec![c]).unwrap();
    assert_eq!(d.next_customer_id(), None);
    assert!(matches!(d.create_new(new_customer("Next One", "")), Err(ServiceError::Internal)));
    assert_eq!(d.get_all(), vec![u32::MAX]);
}

#[test]
fn init_refuses_duplicates_and_invalid_records() {
    let mut a = Customer::default();
    a.id = 3;
    a.name = s("First");
    let mut b = Customer::default();
    b.id = 3;
    b.name = s("Second");
    assert!(matches!(CustomerService::init(vec![a, b]), Err(ServiceError::Internal)));
    let mut bad = Customer::default();
    bad.id = 1;
    bad.name = s("X");
    assert!(matches!(CustomerService::init(vec![bad]), Err(ServiceError::Internal)));
}

#[test]
fn reads_are_repeatable() {
    let mut d = empty_directory();
    let c = d.create_new(new_customer("Jane Doe", "jane@example.com")).unwrap();
    let r1 = d.get_by_id(c.id).unwrap();
    let r2 = d.get_by_id(c.id).unwrap();
    assert_eq!(r1.name, r2.name);
    assert_eq!(r1.email, r2.email);
    assert_eq!(r1.date_created, r2.date_created);
    assert!(matches!(d.get_by_id(99), Err(ServiceError::NotFound)));
}

#[test]
fn bulk_omits_unknown_ids() {
    let mut d = empty_directory();
    let a = d.create_new(new_customer("Alice Able", "")).unwrap();
    let _b = d.create_new(new_customer("Bob Baker", "")).unwrap();
    let c = d.create_new(new_customer("Carol Cook", "")).unwrap();
    let got = d.get_bulk(&vec![c.id, a.id, 999]);
    let names: Vec<String> = got.iter().map(|x| x.name.clone()).collect();
    assert_eq!(names, vec![s("Alice Able"), s("Carol Cook")]);
    assert!(d.get_bulk(&vec![]).is_empty());
}

#[test]
fn bad_email_update_keeps_record() {
    let mut d = empty_directory();
    let c = d.create_new(new_customer("Jane Doe", "jane@example.com")).unwrap();
    let r = d.update_by_id(update_for(c.id, "Jane Doe", "not-an-email"));
    assert!(matches!(r, Err(ServiceError::BadRequest(ValidationError::InvalidEmail))));
    let got = d.get_by_id(c.id).unwrap();
    assert_eq!(got.email, "jane@example.com");
    assert_eq!(got.phone, "");
    assert_eq!(got.address_zip, "1000");
}

#[test]
fn bad_name_update_keeps_record() {
    let mut d = empty_directory();
    let c = d.create_new(new_customer("Jane Doe", "")).unwrap();
    let r = d.update_by_id(update_for(c.id, "J", ""));
    assert!(matches!(r, Err(ServiceError::BadRequest(ValidationError::InvalidName))));
    assert_eq!(d.get_by_id(c.id).unwrap().name, "Jane Doe");
}

#[test]
fn update_replaces_fields() {
    let mut d = empty_directory();
    let c = d.create_new(new_customer("Jane Doe", "")).unwrap();
    let u = d.update_by_id(update_for(c.id, "Jane Roe", "jane@roe.org")).unwrap();
    assert_eq!(u.id, c.id);
    assert_eq!(u.name, "Jane Roe");
    assert_eq!(u.address_location, "Town");
    assert_eq!(u.date_created, c.date_created);
    let got = d.get_by_id(c.id).unwrap();
    assert_eq!(got.email, "jane@roe.org");
    assert_eq!(got.phone, "+36 1 234 5678");
    assert!(matches!(d.update_by_id(update_for(77, "Jane Roe", "")), Err(ServiceError::NotFound)));
}

#[test]
fn find_customer_by_name_part() {
    let mut d = empty_directory();
    let jane = d.create_new(new_customer("Jane Doe", "")).unwrap();
    let _john = d.create_new(new_customer("John Smith", "")).unwrap();
    assert_eq!(d.find_customer("doe"), vec![jane.id]);
}

#[test]
fn find_customer_ignores_case() {
    let mut d = empty_directory();
    let jane = d.create_new(new_customer("Jane Doe", "")).unwrap();
    let john = d.create_new(new_customer("John Smith", "")).unwrap();
    assert_eq!(d.find_customer("DOE"), vec![jane.id]);
    assert_eq!(d.find_customer("j"), vec![jane.id, john.id]);
    assert_eq!(d.find_customer(""), vec![jane.id, john.id]);
    assert!(d.find_customer("xyz").is_empty());
}

#[test]
fn substring_matching() {
    assert!(matches_query("jane doe", "doe"));
    assert!(matches_query("jane doe", ""));
    assert!(matches_query("doe", "doe"));
    assert!(!matches_query("do", "doe"));
    assert!(!matches_query("jane doe", "jd"));
}

#[test]
fn user_relations_unsupported() {
    let mut d = empty_directory();
    assert!(matches!(d.add_user(1, 2), Err(ServiceError::Unimplemented)));
    assert!(matches!(d.remove_user(1, 2), Err(ServiceError::Unimplemented)));
}

#[test]
fn validation_messages() {
    assert!(ValidationError::InvalidName.message().contains("200"));
    assert!(!ValidationError::InvalidEmail.message().is_empty());
}

fn request(name: &str, email: &str, tax: &str) -> NewCustomerRequest {
    NewCustomerRequest {
        name: s(name),
        email: s(email),
        phone: s(""),
        tax_number: s(tax),
        address_zip: s("1000"),
        address_location: s("City"),
        address_street: s("Main 1"),
        created_by: 1,
    }
}

fn update_request(id: u32, name: &str, email: &str, tax: &str) -> UpdateRequest {
    UpdateRequest {
        id,
        name: s(name),
        email: s(email),
        phone: s("555"),
        tax_number: s(tax),
        address_zip: s("3000"),
        address_location: s("Village"),
        address_street: s("Lane 3"),
    }
}

#[test]
fn construction_checks_name_first() {
    assert!(matches!(check_new_fields("A", "x"), Some(ValidationError::InvalidName)));
    assert!(matches!(check_new_fields("Jane", "x"), Some(ValidationError::InvalidEmail)));
    assert!(check_new_fields("Jane", "").is_none());
    let r = Customer::new(1, s("A"), s("x"), s(""), None, s(""), s(""), s(""), 1);
    assert!(matches!(r, Err(ServiceError::BadRequest(ValidationError::InvalidName))));
    let mut d = empty_directory();
    let r = d.create_new(new_customer("A", "x"));
    assert!(matches!(r, Err(ServiceError::BadRequest(ValidationError::InvalidName))));
}

#[test]
fn create_request_with_refused_tax_number_stores_nothing() {
    let mut d = empty_directory();
    match d.create_from_request(request("Jane Doe", "", "123"), refuse_all) {
        Err(ServiceError::BadRequest(ValidationError::InvalidTaxNumber(m))) => {
            assert_eq!(m, "bad checksum")
        }
        _ => panic!("refused tax number"),
    }
    assert!(d.get_all().is_empty());
    let r = d.create_from_request(request("A", "", "123"), refuse_all);
    assert!(matches!(r, Err(ServiceError::BadRequest(ValidationError::InvalidName))));
    assert!(d.get_all().is_empty());
}

#[test]
fn create_request_resolves_tax_number() {
    let mut d = empty_directory();
    let c = d.create_from_request(request("Jane Doe", "", "12345678-1-12"), accept_all).unwrap();
    assert_eq!(c.tax_number.map(|t| t.value), Some(s("12345678-1-12")));
    let e = d.create_from_request(request("John Smith", "", ""), refuse_all).unwrap();
    assert!(e.tax_number.is_none());
    assert_eq!(d.get_all(), vec![c.id, e.id]);
}

#[test]
fn update_request_with_refused_tax_number_keeps_record() {
    let mut d = empty_directory();
    let c = d.create_new(new_customer("Jane Doe", "")).unwrap();
    let r = d.update_from_request(update_request(c.id, "Jane Roe", "", "999"), refuse_all);
    assert!(matches!(r, Err(ServiceError::BadRequest(ValidationError::InvalidTaxNumber(_)))));
    let got = d.get_by_id(c.id).unwrap();
    assert_eq!(got.name, "Jane Doe");
    assert_eq!(got.address_zip, "1000");
    let r = d.update_from_request(update_request(404, "Jane Roe", "", "999"), refuse_all);
    assert!(matches!(r, Err(ServiceError::BadRequest(ValidationError::InvalidTaxNumber(_)))));
}

#[test]
fn update_request_applies_fields() {
    let mut d = empty_directory();
    let c = d.create_new(new_customer("Jane Doe", "")).unwrap();
    let u = d.update_from_request(update_request(c.id, "Jane Roe", "", "111"), accept_all).unwrap();
    assert_eq!(u.name, "Jane Roe");
    assert_eq!(u.tax_number.map(|t| t.value), Some(s("111")));
    let got = d.get_by_id(c.id).unwrap();
    assert_eq!(got.address_location, "Village");
    let r = d.update_from_request(update_request(404, "Jane Roe", "", ""), accept_all);
    assert!(matches!(r, Err(ServiceError::NotFound)));
}
