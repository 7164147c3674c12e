pub mod accounts;
pub mod errors;
pub mod filters;
pub mod ledger;
pub mod model;
pub mod password;
pub mod posts;
pub mod response;
pub mod schema;
pub mod session_auth;
pub mod token;
