//! Session authentication and authorization core of a catalog backend:
//! password credentials, selector/validator session tokens, role and
//! ownership based permission checks, and PKCE account linking.

pub mod accounts;
pub mod credentials;
pub mod crypto;
pub mod error_handler;
pub mod models;
pub mod oauth;
pub mod schema;
pub mod session;
pub mod strings;
