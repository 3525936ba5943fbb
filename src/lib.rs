//! Questions and answers: an in-memory record store with referential
//! integrity, pagination of listings, and a closed error taxonomy with its
//! translation into HTTP status codes and messages.

pub mod types;
pub mod error;
pub mod params;
pub mod pagination;
pub mod store;
pub mod handlers;
