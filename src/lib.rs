pub mod customer;
pub mod error;
pub mod lemmas;
pub mod search;
pub mod service;
