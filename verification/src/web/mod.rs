pub mod error;
pub mod routes;
